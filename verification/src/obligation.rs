//! The obligation of a whole function: every path from the entry returns a
//! value, throws, or ends in dead code.

use vstd::prelude::*;
use crate::graph::{BlockView, ControlFlowGraph};
use crate::graph::Instruction;
use crate::reach::{
    block_scan, continues_to, has_continue_edge, is_block, is_continue_edge, is_dangling_edge,
    lemma_closed_set_holds_reachable, lemma_entry_reachable, lemma_reachable_is_block,
    lemma_reachable_step, reachable,
};
use crate::scanner::{instruction_verdict, lemma_first_decisive_instruction_wins, ScanResult};
use crate::verdict::{aggregate, aggregate_spec, Outcome, Verdict};
use crate::walker::{is_seal_of, is_sealed_path, walk_paths, Seal, SealedPath};

verus! {

/// A path can leave the function at block `b` without having met the
/// obligation. There are three ways.
///
/// - The block's first decisive instruction is a return without a value,
///   and `allow_implicit_undefined` is off. With the setting on, such a
///   return meets the obligation, be it written in the source or put at the
///   end of a body by the builder of the graph.
/// - The block settles nothing and is a dead end: none of its edges is
///   followed. This holds of a block without edges, and as well of a block
///   whose edges are all boundary edges, such as the last block of a body
///   that carries an error edge and nothing else, or a block that a back
///   edge alone leaves. Control falls off the end there, and the setting
///   does not matter: there is no return to allow.
/// - The block settles nothing and one of its followed edges leads to no
///   block of the graph.
pub open spec fn falls_short(
    graph: Seq<BlockView>,
    allow_implicit_undefined: bool,
    b: int,
) -> bool {
    match block_scan(graph, allow_implicit_undefined, b) {
        ScanResult::Decisive(verdict) => verdict == Verdict::NotSatisfied,
        ScanResult::Inconclusive => !has_continue_edge(graph[b]) || exists|k: int|
            is_dangling_edge(graph, graph[b], k),
    }
}

/// The obligation is met: the entry is a block, and no block that a walk from
/// it comes to falls short.
pub open spec fn every_path_terminates(
    graph: Seq<BlockView>,
    allow_implicit_undefined: bool,
    entry: int,
) -> bool {
    is_block(graph, entry) && forall|b: int|
        reachable(graph, allow_implicit_undefined, entry, b) ==> !falls_short(
            graph,
            allow_implicit_undefined,
            b,
        )
}

/// The outcome for a graph and an entry.
pub open spec fn outcome_spec(
    graph: Seq<BlockView>,
    allow_implicit_undefined: bool,
    entry: int,
) -> Outcome {
    if every_path_terminates(graph, allow_implicit_undefined, entry) {
        Outcome::Pass
    } else {
        Outcome::Fail
    }
}

/// One block that falls short fails the function, whatever the other blocks
/// do.
pub proof fn lemma_one_block_falling_short_fails(
    graph: Seq<BlockView>,
    allow_implicit_undefined: bool,
    entry: int,
    b: int,
)
    requires
        reachable(graph, allow_implicit_undefined, entry, b),
        falls_short(graph, allow_implicit_undefined, b),
    ensures
        outcome_spec(graph, allow_implicit_undefined, entry) == Outcome::Fail,
{
}

/// From a reached block, where no reached block meets the obligation and each
/// followed edge leads to a block of lower rank, some reached block falls
/// short.
proof fn lemma_descent_falls_short(
    graph: Seq<BlockView>,
    allow_implicit_undefined: bool,
    entry: int,
    b: int,
    rank: spec_fn(int) -> nat,
)
    requires
        reachable(graph, allow_implicit_undefined, entry, b),
        forall|d: int|
            reachable(graph, allow_implicit_undefined, entry, d) ==> block_scan(
                graph,
                allow_implicit_undefined,
                d,
            ) != ScanResult::Decisive(Verdict::Satisfied),
        forall|a: int, c: int|
            reachable(graph, allow_implicit_undefined, entry, a) && #[trigger] continues_to(
                graph,
                allow_implicit_undefined,
                a,
                c,
            ) ==> rank(c) < rank(a),
    ensures
        exists|d: int|
            reachable(graph, allow_implicit_undefined, entry, d) && falls_short(
                graph,
                allow_implicit_undefined,
                d,
            ),
    decreases rank(b),
{
    lemma_reachable_is_block(graph, allow_implicit_undefined, entry, b);
    if !falls_short(graph, allow_implicit_undefined, b) {
        assert(block_scan(graph, allow_implicit_undefined, b) == ScanResult::Inconclusive);
        let k = choose|k: int| is_continue_edge(graph[b], k);
        let c = graph[b].edges[k].target as int;
        assert(!is_dangling_edge(graph, graph[b], k));
        assert(continues_to(graph, allow_implicit_undefined, b, c));
        lemma_reachable_step(graph, allow_implicit_undefined, entry, b, c);
        lemma_descent_falls_short(graph, allow_implicit_undefined, entry, c, rank);
    }
}

/// A body that never meets the obligation fails. Where no block that the
/// walk comes to holds a decisive instruction that satisfies, and the edges
/// that are followed form no cycle among those blocks (each leads to a block
/// of lower `rank`), the outcome is `Fail`. Blocks that the walk does not
/// come to have no say: the body of a nested function, which is entered by a
/// boundary edge, may return a value on every path and changes nothing.
pub proof fn lemma_body_that_never_settles_fails(
    graph: Seq<BlockView>,
    allow_implicit_undefined: bool,
    entry: int,
    rank: spec_fn(int) -> nat,
)
    requires
        forall|d: int|
            reachable(graph, allow_implicit_undefined, entry, d) ==> block_scan(
                graph,
                allow_implicit_undefined,
                d,
            ) != ScanResult::Decisive(Verdict::Satisfied),
        forall|a: int, c: int|
            reachable(graph, allow_implicit_undefined, entry, a) && #[trigger] continues_to(
                graph,
                allow_implicit_undefined,
                a,
                c,
            ) ==> rank(c) < rank(a),
    ensures
        outcome_spec(graph, allow_implicit_undefined, entry) == Outcome::Fail,
{
    if is_block(graph, entry) {
        lemma_entry_reachable(graph, allow_implicit_undefined, entry);
        lemma_descent_falls_short(graph, allow_implicit_undefined, entry, entry, rank);
    }
}

/// Where the entry block is decisive, the walk goes no further, and the
/// verdict of that block is the outcome.
pub proof fn lemma_decisive_entry_decides(
    graph: Seq<BlockView>,
    allow_implicit_undefined: bool,
    entry: int,
    verdict: Verdict,
)
    requires
        is_block(graph, entry),
        block_scan(graph, allow_implicit_undefined, entry) == ScanResult::Decisive(verdict),
    ensures
        forall|b: int| reachable(graph, allow_implicit_undefined, entry, b) <==> b == entry,
        outcome_spec(graph, allow_implicit_undefined, entry) == (if verdict
            == Verdict::Satisfied {
            Outcome::Pass
        } else {
            Outcome::Fail
        }),
{
    let alone = set![entry];
    assert forall|a: int, c: int|
        alone.contains(a) && #[trigger] continues_to(
            graph,
            allow_implicit_undefined,
            a,
            c,
        ) implies alone.contains(c) by {}
    assert forall|b: int| reachable(graph, allow_implicit_undefined, entry, b) <==> b
        == entry by {
        if reachable(graph, allow_implicit_undefined, entry, b) {
            lemma_closed_set_holds_reachable(graph, allow_implicit_undefined, entry, alone, b);
        }
        lemma_entry_reachable(graph, allow_implicit_undefined, entry);
    }
    assert(reachable(graph, allow_implicit_undefined, entry, entry));
    if verdict == Verdict::Satisfied {
        assert(!falls_short(graph, allow_implicit_undefined, entry));
        assert(every_path_terminates(graph, allow_implicit_undefined, entry));
    } else {
        assert(falls_short(graph, allow_implicit_undefined, entry));
    }
}

/// A function whose entry block comes to a return before any other decisive
/// instruction passes, whatever the setting, if the return has a value; if it
/// has none, the function passes exactly where the setting allows that.
pub proof fn lemma_return_at_entry(
    graph: Seq<BlockView>,
    allow_implicit_undefined: bool,
    entry: int,
    i: int,
    has_value: bool,
)
    requires
        is_block(graph, entry),
        0 <= i < graph[entry].instructions.len(),
        graph[entry].instructions[i] == (Instruction::Return { has_value }),
        forall|j: int|
            0 <= j < i ==> instruction_verdict(
                graph[entry].instructions[j],
                allow_implicit_undefined,
            ) is None,
    ensures
        outcome_spec(graph, allow_implicit_undefined, entry) == (if has_value
            || allow_implicit_undefined {
            Outcome::Pass
        } else {
            Outcome::Fail
        }),
{
    lemma_first_decisive_instruction_wins(
        graph[entry].instructions,
        allow_implicit_undefined,
        i,
    );
    let verdict = instruction_verdict(graph[entry].instructions[i], allow_implicit_undefined)->0;
    lemma_decisive_entry_decides(graph, allow_implicit_undefined, entry, verdict);
}

/// The verdicts of a list of sealed paths, in the same order.
pub open spec fn verdicts_spec(paths: Seq<SealedPath>) -> Seq<Verdict> {
    Seq::new(paths.len(), |i: int| paths[i].verdict)
}

/// The graph could be held in memory: block and edge numbers fit a machine
/// word.
pub open spec fn fits_machine(graph: Seq<BlockView>) -> bool {
    &&& graph.len() <= usize::MAX
    &&& forall|b: int| 0 <= b < graph.len() ==> (#[trigger] graph[b]).edges.len() <= usize::MAX
}

/// Any list that holds exactly the sealed paths of a walk, in whatever order
/// and however often, aggregates to the same outcome, and that outcome is
/// `Pass` exactly when every path terminates. So the outcome for a graph, an
/// entry and a setting is fixed, and no order of traversal can change it.
pub proof fn lemma_outcome_is_independent_of_order(
    graph: Seq<BlockView>,
    allow_implicit_undefined: bool,
    entry: int,
    paths: Seq<SealedPath>,
)
    requires
        fits_machine(graph),
        0 <= entry <= usize::MAX,
        forall|p: SealedPath|
            #[trigger] paths.contains(p) <==> is_sealed_path(
                graph,
                allow_implicit_undefined,
                entry,
                p,
            ),
    ensures
        aggregate_spec(verdicts_spec(paths)) == outcome_spec(
            graph,
            allow_implicit_undefined,
            entry,
        ),
{
    let verdicts = verdicts_spec(paths);
    if every_path_terminates(graph, allow_implicit_undefined, entry) {
        assert forall|i: int| 0 <= i < verdicts.len() implies verdicts[i]
            == Verdict::Satisfied by {
            let p = paths[i];
            assert(paths.contains(p));
            assert(is_sealed_path(graph, allow_implicit_undefined, entry, p));
            assert(reachable(graph, allow_implicit_undefined, entry, p.block as int));
            assert(!falls_short(graph, allow_implicit_undefined, p.block as int));
            assert(is_seal_of(graph, allow_implicit_undefined, p));
        }
    } else if !is_block(graph, entry) {
        let p = SealedPath {
            block: entry as usize,
            seal: Seal::Missing,
            verdict: Verdict::NotSatisfied,
        };
        assert(is_sealed_path(graph, allow_implicit_undefined, entry, p));
        assert(paths.contains(p));
        let i = choose|i: int| 0 <= i < paths.len() && paths[i] == p;
        assert(verdicts[i] == Verdict::NotSatisfied);
    } else {
        let b = choose|b: int|
            reachable(graph, allow_implicit_undefined, entry, b) && falls_short(
                graph,
                allow_implicit_undefined,
                b,
            );
        lemma_reachable_is_block(graph, allow_implicit_undefined, entry, b);
        let dangling = choose|k: int| is_dangling_edge(graph, graph[b], k);
        let seal = match block_scan(graph, allow_implicit_undefined, b) {
            ScanResult::Decisive(_) => Seal::Decisive,
            ScanResult::Inconclusive => if !has_continue_edge(graph[b]) {
                Seal::DeadEnd
            } else {
                Seal::Dangling { edge: dangling as usize }
            },
        };
        let p = SealedPath { block: b as usize, seal, verdict: Verdict::NotSatisfied };
        assert(is_seal_of(graph, allow_implicit_undefined, p));
        assert(is_sealed_path(graph, allow_implicit_undefined, entry, p));
        assert(paths.contains(p));
        let i = choose|i: int| 0 <= i < paths.len() && paths[i] == p;
        assert(verdicts[i] == Verdict::NotSatisfied);
    }
}

/// The verdicts of the sealed paths, in the same order.
pub fn verdicts_of(paths: &Vec<SealedPath>) -> (verdicts: Vec<Verdict>)
    ensures
        verdicts@ == verdicts_spec(paths@),
{
    let mut verdicts: Vec<Verdict> = Vec::new();
    let mut i: usize = 0;
    while i < paths.len()
        invariant
            i <= paths.len(),
            verdicts@.len() == i,
            forall|j: int| 0 <= j < i ==> verdicts@[j] == paths@[j].verdict,
        decreases paths.len() - i,
    {
        verdicts.push(paths[i].verdict);
        i = i + 1;
    }
    assert(verdicts@ =~= verdicts_spec(paths@));
    verdicts
}

/// Decides whether every path from `entry` meets the obligation: walks the
/// graph, then combines the verdicts of the sealed paths.
pub fn check_paths(graph: &ControlFlowGraph, entry: usize, allow_implicit_undefined: bool) -> (outcome:
    Outcome)
    ensures
        outcome == outcome_spec(graph@, allow_implicit_undefined, entry as int),
{
    let walk = walk_paths(graph, entry, allow_implicit_undefined);
    let verdicts = verdicts_of(&walk.paths);
    proof {
        assert(fits_machine(graph@)) by {
            assert(graph@.len() == graph.blocks.len());
            assert forall|b: int| 0 <= b < graph@.len() implies (#[trigger] graph@[b]).edges.len()
                <= usize::MAX by {
                assert(graph@[b].edges.len() == graph.blocks@[b].edges.len());
            }
        }
        lemma_outcome_is_independent_of_order(
            graph@,
            allow_implicit_undefined,
            entry as int,
            walk.paths@,
        );
    }
    aggregate(&verdicts)
}

/// What the form of a function says before its graph is looked at.
#[derive(Clone, Copy, Debug, PartialEq, Eq, Structural)]
pub struct FunctionForm {
    /// The body is a bare expression, which is what the function returns.
    pub concise_body: bool,
    /// The declared return type admits the absence of a value.
    pub return_type_admits_undefined: bool,
}

impl FunctionForm {
    /// The form alone meets the obligation.
    pub open spec fn suffices(self) -> bool {
        self.concise_body || self.return_type_admits_undefined
    }
}

/// The outcome for a function: `Pass` where its form suffices, whatever its
/// graph holds; otherwise the outcome for its graph.
pub open spec fn function_outcome(
    form: FunctionForm,
    graph: Seq<BlockView>,
    allow_implicit_undefined: bool,
    entry: int,
) -> Outcome {
    if form.suffices() {
        Outcome::Pass
    } else {
        outcome_spec(graph, allow_implicit_undefined, entry)
    }
}

/// Decides whether a function meets the obligation. A function with a
/// concise body, or with a return type that admits the absence of a value,
/// passes without a walk.
pub fn check_function(
    form: FunctionForm,
    graph: &ControlFlowGraph,
    entry: usize,
    allow_implicit_undefined: bool,
) -> (outcome: Outcome)
    ensures
        outcome == function_outcome(form, graph@, allow_implicit_undefined, entry as int),
        form.concise_body ==> outcome == Outcome::Pass,
        form.return_type_admits_undefined ==> outcome == Outcome::Pass,
{
    if form.concise_body || form.return_type_admits_undefined {
        Outcome::Pass
    } else {
        check_paths(graph, entry, allow_implicit_undefined)
    }
}

} // verus!
