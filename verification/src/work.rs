//! Sums over blocks, by which the work of a walk is counted.

use vstd::prelude::*;

verus! {

/// The sum of `weight` over a list of blocks.
pub open spec fn sum_over(blocks: Seq<usize>, weight: spec_fn(int) -> nat) -> nat
    decreases blocks.len(),
{
    if blocks.len() == 0 {
        0
    } else {
        sum_over(blocks.drop_last(), weight) + weight(blocks.last() as int)
    }
}

/// The sum of `weight` over the blocks `0` to `n - 1`.
pub open spec fn sum_below(n: nat, weight: spec_fn(int) -> nat) -> nat
    decreases n,
{
    if n == 0 {
        0
    } else {
        sum_below((n - 1) as nat, weight) + weight(n - 1)
    }
}

/// Appending a block adds its weight.
pub proof fn lemma_sum_with(blocks: Seq<usize>, b: usize, weight: spec_fn(int) -> nat)
    ensures
        sum_over(blocks.push(b), weight) == sum_over(blocks, weight) + weight(b as int),
{
    assert(blocks.push(b).drop_last() =~= blocks);
}

/// Taking a block out of a list takes its weight out of the sum.
pub proof fn lemma_sum_without(blocks: Seq<usize>, weight: spec_fn(int) -> nat, i: int)
    requires
        0 <= i < blocks.len(),
    ensures
        sum_over(blocks, weight) == sum_over(blocks.remove(i), weight) + weight(
            blocks[i] as int,
        ),
    decreases blocks.len(),
{
    if i == blocks.len() - 1 {
        assert(blocks.remove(i) =~= blocks.drop_last());
    } else {
        lemma_sum_without(blocks.drop_last(), weight, i);
        assert(blocks.remove(i).drop_last() =~= blocks.drop_last().remove(i));
        assert(blocks.remove(i).last() == blocks.last());
        assert(blocks.drop_last()[i] == blocks[i]);
    }
}

/// A sum over distinct blocks below `n` is at most the sum over all blocks
/// below `n`, also where the latter is taken of a weight that is nowhere
/// smaller.
pub proof fn lemma_sum_of_distinct_blocks(
    blocks: Seq<usize>,
    n: nat,
    weight: spec_fn(int) -> nat,
    bound: spec_fn(int) -> nat,
)
    requires
        blocks.no_duplicates(),
        forall|i: int| 0 <= i < blocks.len() ==> blocks[i] < n,
        forall|b: int| 0 <= b < n ==> #[trigger] weight(b) <= bound(b),
    ensures
        sum_over(blocks, weight) <= sum_below(n, bound),
    decreases n,
{
    if n == 0 {
        if blocks.len() > 0 {
            assert(blocks[0] < n);
        }
    } else if exists|i: int| 0 <= i < blocks.len() && blocks[i] == n - 1 {
        let i = choose|i: int| 0 <= i < blocks.len() && blocks[i] == n - 1;
        let rest = blocks.remove(i);
        assert forall|j: int| 0 <= j < rest.len() implies rest[j] < n - 1 by {
            if j < i {
                assert(rest[j] == blocks[j]);
                assert(blocks[j] != blocks[i]);
            } else {
                assert(rest[j] == blocks[j + 1]);
                assert(blocks[j + 1] != blocks[i]);
            }
        }
        assert forall|j: int, l: int|
            0 <= j < rest.len() && 0 <= l < rest.len() && j != l implies rest[j] != rest[l] by {
            let from_j = if j < i {
                j
            } else {
                j + 1
            };
            let from_l = if l < i {
                l
            } else {
                l + 1
            };
            assert(rest[j] == blocks[from_j] && rest[l] == blocks[from_l]);
            assert(blocks[from_j] != blocks[from_l]);
        }
        lemma_sum_without(blocks, weight, i);
        lemma_sum_of_distinct_blocks(rest, (n - 1) as nat, weight, bound);
    } else {
        assert forall|j: int| 0 <= j < blocks.len() implies blocks[j] < n - 1 by {
            assert(blocks[j] < n);
        }
        lemma_sum_of_distinct_blocks(blocks, (n - 1) as nat, weight, bound);
    }
}

} // verus!
