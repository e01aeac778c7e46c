//! Verdicts of single paths and how they combine into one outcome.

use vstd::prelude::*;

verus! {

/// What is known of one path once it has been sealed.
#[derive(Clone, Copy, Debug, PartialEq, Eq, Structural)]
pub enum Verdict {
    /// The path returns a value, throws, or ends in dead code.
    Satisfied,
    /// The path can leave the function without doing any of these.
    NotSatisfied,
}

/// The result for a whole function.
#[derive(Clone, Copy, Debug, PartialEq, Eq, Structural)]
pub enum Outcome {
    Pass,
    Fail,
}

/// The outcome of a list of verdicts: `Pass` exactly when none of them is
/// `NotSatisfied`.
pub open spec fn aggregate_spec(verdicts: Seq<Verdict>) -> Outcome {
    if forall|i: int| 0 <= i < verdicts.len() ==> verdicts[i] == Verdict::Satisfied {
        Outcome::Pass
    } else {
        Outcome::Fail
    }
}

/// Combines the verdicts of all sealed paths of one function.
pub fn aggregate(verdicts: &Vec<Verdict>) -> (outcome: Outcome)
    ensures
        outcome == aggregate_spec(verdicts@),
{
    let mut i: usize = 0;
    while i < verdicts.len()
        invariant
            i <= verdicts.len(),
            forall|j: int| 0 <= j < i ==> verdicts@[j] == Verdict::Satisfied,
        decreases verdicts.len() - i,
    {
        match verdicts[i] {
            Verdict::NotSatisfied => {
                return Outcome::Fail;
            },
            Verdict::Satisfied => {},
        }
        i = i + 1;
    }
    Outcome::Pass
}

/// One `NotSatisfied` verdict fails the whole list, whatever stands around it.
pub proof fn lemma_one_failure_fails(before: Seq<Verdict>, after: Seq<Verdict>)
    ensures
        aggregate_spec(before + seq![Verdict::NotSatisfied] + after) == Outcome::Fail,
{
    let all = before + seq![Verdict::NotSatisfied] + after;
    assert(all[before.len() as int] == Verdict::NotSatisfied);
}

/// A list that holds `NotSatisfied` at some index fails.
pub proof fn lemma_failure_at_index_fails(verdicts: Seq<Verdict>, i: int)
    requires
        0 <= i < verdicts.len(),
        verdicts[i] == Verdict::NotSatisfied,
    ensures
        aggregate_spec(verdicts) == Outcome::Fail,
{
}

/// The outcome of two lists joined is `Pass` exactly when both pass.
pub proof fn lemma_aggregate_concat(a: Seq<Verdict>, b: Seq<Verdict>)
    ensures
        aggregate_spec(a + b) == Outcome::Pass <==> (aggregate_spec(a) == Outcome::Pass
            && aggregate_spec(b) == Outcome::Pass),
{
    let all = a + b;
    if aggregate_spec(all) == Outcome::Pass {
        assert forall|i: int| 0 <= i < a.len() implies a[i] == Verdict::Satisfied by {
            assert(all[i] == a[i]);
        }
        assert forall|i: int| 0 <= i < b.len() implies b[i] == Verdict::Satisfied by {
            assert(all[a.len() + i] == b[i]);
        }
    }
    if aggregate_spec(a) == Outcome::Pass && aggregate_spec(b) == Outcome::Pass {
        assert forall|i: int| 0 <= i < all.len() implies all[i] == Verdict::Satisfied by {
            if i < a.len() {
                assert(all[i] == a[i]);
            } else {
                assert(all[i] == b[i - a.len()]);
            }
        }
    }
}

/// The outcome does not depend on the order of the verdicts: two lists with
/// the same verdicts, each as often as in the other, have the same outcome.
pub proof fn lemma_aggregate_ignores_order(a: Seq<Verdict>, b: Seq<Verdict>)
    requires
        a.to_multiset() == b.to_multiset(),
    ensures
        aggregate_spec(a) == aggregate_spec(b),
{
    broadcast use vstd::seq_lib::group_to_multiset_ensures;

    lemma_failure_carries_over(a, b);
    lemma_failure_carries_over(b, a);
}

proof fn lemma_failure_carries_over(a: Seq<Verdict>, b: Seq<Verdict>)
    requires
        a.to_multiset() == b.to_multiset(),
    ensures
        aggregate_spec(a) == Outcome::Fail ==> aggregate_spec(b) == Outcome::Fail,
{
    broadcast use vstd::seq_lib::group_to_multiset_ensures;

    if aggregate_spec(a) == Outcome::Fail {
        let i = choose|i: int| 0 <= i < a.len() && a[i] != Verdict::Satisfied;
        assert(a[i] == Verdict::NotSatisfied);
        assert(a.contains(Verdict::NotSatisfied));
        assert(a.to_multiset().count(Verdict::NotSatisfied) > 0);
        assert(b.to_multiset().count(Verdict::NotSatisfied) > 0);
        assert(b.contains(Verdict::NotSatisfied));
        let j = choose|j: int| 0 <= j < b.len() && b[j] == Verdict::NotSatisfied;
        assert(b[j] == Verdict::NotSatisfied);
    }
}

} // verus!
