//! The walk over a control-flow graph that seals every path from the entry.

use vstd::prelude::*;
use crate::edge_policy::{classify_edge, EdgeAction};
use crate::graph::{BlockView, ControlFlowGraph, Edge};
use crate::reach::{
    block_scan, continues_to, has_continue_edge, is_block, is_boundary_edge, is_continue_edge,
    is_dangling_edge, lemma_closed_set_holds_reachable, lemma_entry_reachable,
    lemma_reachable_is_block, lemma_reachable_step, reachable,
};
use crate::scanner::{scan_block, ScanResult};
use crate::verdict::Verdict;
use crate::work::{lemma_sum_of_distinct_blocks, lemma_sum_with, sum_below, sum_over};

verus! {

/// Why a path ended where it did.
#[derive(Clone, Copy, Debug, PartialEq, Eq, Structural)]
pub enum Seal {
    /// An instruction of the block settled the path.
    Decisive,
    /// The path left the block through edge number `edge`, which is not
    /// followed.
    Boundary { edge: usize },
    /// Edge number `edge` of the block would be followed, but leads to no
    /// block.
    Dangling { edge: usize },
    /// The block settled nothing and none of its edges is followed: control
    /// falls off the end there.
    DeadEnd,
    /// The entry is not a block of the graph.
    Missing,
}

/// One sealed path: the block at which it ended, why, and with what verdict.
#[derive(Clone, Copy, Debug, PartialEq, Eq, Structural)]
pub struct SealedPath {
    pub block: usize,
    pub seal: Seal,
    pub verdict: Verdict,
}

/// What a walk leaves behind.
#[derive(Clone, Debug)]
pub struct Walk {
    /// The blocks that were scanned, in the order of scanning. Each entry
    /// stands for one scan.
    pub visits: Vec<usize>,
    /// The sealed paths, in the order of sealing.
    pub paths: Vec<SealedPath>,
    /// How many edges were classified.
    pub classified: u128,
}

/// The number of edges that a walk classifies at block `b`: all edges of an
/// inconclusive block, and none of a decisive one.
pub open spec fn classified_at(
    graph: Seq<BlockView>,
    allow_implicit_undefined: bool,
    b: int,
) -> nat {
    if block_scan(graph, allow_implicit_undefined, b) == ScanResult::Inconclusive {
        graph[b].edges.len()
    } else {
        0
    }
}

/// `classified_at`, as a weight of blocks.
pub open spec fn classification_weight(
    graph: Seq<BlockView>,
    allow_implicit_undefined: bool,
) -> spec_fn(int) -> nat {
    |b: int| classified_at(graph, allow_implicit_undefined, b)
}

/// The number of edges of a block, as a weight of blocks.
pub open spec fn edge_weight(graph: Seq<BlockView>) -> spec_fn(int) -> nat {
    |b: int| graph[b].edges.len()
}

/// The number of edges that a walk classifies in all, given the blocks it
/// scans.
pub open spec fn edges_classified(
    graph: Seq<BlockView>,
    allow_implicit_undefined: bool,
    visits: Seq<usize>,
) -> nat {
    sum_over(visits, classification_weight(graph, allow_implicit_undefined))
}

/// The number of edges of the graph.
pub open spec fn edge_count(graph: Seq<BlockView>) -> nat {
    sum_below(graph.len(), edge_weight(graph))
}

/// `path` ends at its block, which is a block of the graph, in the way it says.
pub open spec fn is_seal_of(
    graph: Seq<BlockView>,
    allow_implicit_undefined: bool,
    path: SealedPath,
) -> bool {
    let block = graph[path.block as int];
    let scan = block_scan(graph, allow_implicit_undefined, path.block as int);
    match path.seal {
        Seal::Decisive => scan == ScanResult::Decisive(path.verdict),
        Seal::Boundary { edge } => {
            &&& scan == ScanResult::Inconclusive
            &&& is_boundary_edge(block, edge as int)
            &&& path.verdict == Verdict::Satisfied
        },
        Seal::Dangling { edge } => {
            &&& scan == ScanResult::Inconclusive
            &&& is_dangling_edge(graph, block, edge as int)
            &&& path.verdict == Verdict::NotSatisfied
        },
        Seal::DeadEnd => {
            &&& scan == ScanResult::Inconclusive
            &&& !has_continue_edge(block)
            &&& path.verdict == Verdict::NotSatisfied
        },
        Seal::Missing => false,
    }
}

/// `path` is one of the sealed paths of the walk from `entry`. With an entry
/// that is no block there is one path, which fails. Otherwise each reached
/// block seals: one path with the verdict of its first decisive instruction;
/// or, being inconclusive, one satisfied path for each edge that is not
/// followed, one failed path for each followed edge that leads nowhere, and
/// one failed path if no edge is followed at all.
pub open spec fn is_sealed_path(
    graph: Seq<BlockView>,
    allow_implicit_undefined: bool,
    entry: int,
    path: SealedPath,
) -> bool {
    if is_block(graph, entry) {
        reachable(graph, allow_implicit_undefined, entry, path.block as int) && is_seal_of(
            graph,
            allow_implicit_undefined,
            path,
        )
    } else {
        path == (SealedPath { block: entry as usize, seal: Seal::Missing, verdict: Verdict::NotSatisfied })
    }
}

/// The seal of `path` is at an edge with a number below `k`.
spec fn sealed_at_edge_below(path: SealedPath, k: int) -> bool {
    match path.seal {
        Seal::Boundary { edge } => edge < k,
        Seal::Dangling { edge } => edge < k,
        _ => false,
    }
}

proof fn lemma_push_contains<A>(s: Seq<A>, x: A)
    ensures
        forall|y: A| #[trigger] s.push(x).contains(y) <==> (s.contains(y) || y == x),
{
    assert forall|y: A| #[trigger] s.push(x).contains(y) <==> (s.contains(y) || y == x) by {
        if s.push(x).contains(y) {
            let i = choose|i: int| 0 <= i < s.push(x).len() && s.push(x)[i] == y;
            if i < s.len() {
                assert(s[i] == y);
            }
        }
        if s.contains(y) {
            let i = choose|i: int| 0 <= i < s.len() && s[i] == y;
            assert(s.push(x)[i] == y);
        }
        if y == x {
            assert(s.push(x)[s.len() as int] == y);
        }
    }
}

proof fn lemma_push_no_duplicates<A>(s: Seq<A>, x: A)
    requires
        s.no_duplicates(),
        !s.contains(x),
    ensures
        s.push(x).no_duplicates(),
{
    assert forall|i: int, j: int|
        0 <= i < s.push(x).len() && 0 <= j < s.push(x).len() && i != j implies s.push(x)[i]
        != s.push(x)[j] by {
        if i < s.len() && j < s.len() {
            assert(s[i] != s[j]);
        } else if i < s.len() {
            assert(s.contains(s[i]));
        } else {
            assert(s.contains(s[j]));
        }
    }
}

proof fn lemma_drop_last_contains<A>(s: Seq<A>)
    requires
        s.len() > 0,
        s.no_duplicates(),
    ensures
        s.drop_last().no_duplicates(),
        !s.drop_last().contains(s.last()),
        forall|y: A| #[trigger] s.contains(y) <==> (s.drop_last().contains(y) || y == s.last()),
{
    let t = s.drop_last();
    assert forall|i: int, j: int| 0 <= i < t.len() && 0 <= j < t.len() && i != j implies t[i]
        != t[j] by {
        assert(t[i] == s[i] && t[j] == s[j]);
    }
    if t.contains(s.last()) {
        let i = choose|i: int| 0 <= i < t.len() && t[i] == s.last();
        assert(s[i] == s[s.len() - 1]);
    }
    assert forall|y: A| #[trigger] s.contains(y) <==> (t.contains(y) || y == s.last()) by {
        if s.contains(y) {
            let i = choose|i: int| 0 <= i < s.len() && s[i] == y;
            if i < t.len() {
                assert(t[i] == y);
            }
        }
        if t.contains(y) {
            let i = choose|i: int| 0 <= i < t.len() && t[i] == y;
            assert(s[i] == y);
        }
        if y == s.last() {
            assert(s[s.len() - 1] == y);
        }
    }
}

/// A list of distinct block indices is no longer than the graph.
proof fn lemma_distinct_blocks_fit(visits: Seq<usize>, n: nat)
    requires
        visits.no_duplicates(),
        forall|i: int| 0 <= i < visits.len() ==> visits[i] < n,
    ensures
        visits.len() <= n,
{
    let indices = visits.map_values(|b: usize| b as int);
    assert forall|i: int, j: int|
        0 <= i < indices.len() && 0 <= j < indices.len() && i != j implies indices[i]
        != indices[j] by {
        assert(visits[i] != visits[j]);
    }
    indices.unique_seq_to_set();
    let range = Set::new(|b: int| 0 <= b < n);
    assert(range =~= vstd::set_lib::set_int_range(0, n as int));
    vstd::set_lib::lemma_int_range(0, n as int);
    assert forall|b: int| indices.to_set().contains(b) implies range.contains(b) by {
        let i = choose|i: int| 0 <= i < indices.len() && indices[i] == b;
        assert(visits[i] < n);
    }
    vstd::set_lib::lemma_len_subset(indices.to_set(), range);
}

/// Sealing edge `k` of block `b` with `path` takes a list that holds the
/// sealed paths of `b` at edges below `k` to one that holds those at edges
/// below `k + 1`, still without duplicates.
proof fn lemma_seal_at_edge(
    graph: Seq<BlockView>,
    allow_implicit_undefined: bool,
    b: usize,
    k: usize,
    kept: Seq<SealedPath>,
    before: Seq<SealedPath>,
    path: SealedPath,
)
    requires
        before.no_duplicates(),
        path.block == b,
        path.seal == (Seal::Boundary { edge: k }) || path.seal == (Seal::Dangling { edge: k }),
        is_seal_of(graph, allow_implicit_undefined, path),
        forall|p: SealedPath| kept.contains(p) ==> p.block != b,
        forall|p: SealedPath|
            #[trigger] before.contains(p) <==> (kept.contains(p) || (p.block == b && is_seal_of(
                graph,
                allow_implicit_undefined,
                p,
            ) && sealed_at_edge_below(p, k as int))),
    ensures
        before.push(path).no_duplicates(),
        forall|p: SealedPath|
            #[trigger] before.push(path).contains(p) <==> (kept.contains(p) || (p.block == b
                && is_seal_of(graph, allow_implicit_undefined, p) && sealed_at_edge_below(
                p,
                k + 1,
            ))),
{
    assert(!sealed_at_edge_below(path, k as int));
    assert(!before.contains(path));
    lemma_push_no_duplicates(before, path);
    lemma_push_contains(before, path);
    assert forall|p: SealedPath| #[trigger]
        before.push(path).contains(p) <==> (kept.contains(p) || (p.block == b && is_seal_of(
            graph,
            allow_implicit_undefined,
            p,
        ) && sealed_at_edge_below(p, k + 1))) by {
        if p.block == b && is_seal_of(graph, allow_implicit_undefined, p) && sealed_at_edge_below(
            p,
            k + 1,
        ) && !sealed_at_edge_below(p, k as int) {
            assert(p == path);
        }
    }
}

/// A vector of `n` times `false`.
fn unseen(n: usize) -> (seen: Vec<bool>)
    ensures
        seen@.len() == n,
        forall|i: int| 0 <= i < n ==> !seen@[i],
{
    let mut seen: Vec<bool> = Vec::new();
    let mut i: usize = 0;
    while i < n
        invariant
            i <= n,
            seen@.len() == i,
            forall|j: int| 0 <= j < i ==> !seen@[j],
        decreases n - i,
    {
        seen.push(false);
        i = i + 1;
    }
    seen
}

/// Goes through the edges of the inconclusive block `b`: seals a path at each
/// edge that is not followed and at each followed edge that leads nowhere,
/// marks and stacks each block that a followed edge newly leads to, and seals
/// a failed path if no edge is followed.
fn expand_block(
    graph: &ControlFlowGraph,
    b: usize,
    allow_implicit_undefined: bool,
    seen: &mut Vec<bool>,
    stack: &mut Vec<usize>,
    paths: &mut Vec<SealedPath>,
    classified: &mut u128,
)
    requires
        is_block(graph@, b as int),
        *old(classified) + graph@[b as int].edges.len() <= u128::MAX,
        block_scan(graph@, allow_implicit_undefined, b as int) == ScanResult::Inconclusive,
        old(seen)@.len() == graph@.len(),
        old(stack)@.no_duplicates(),
        forall|i: int|
            0 <= i < old(stack)@.len() ==> old(stack)@[i] < graph@.len()
                && old(seen)@[old(stack)@[i] as int],
        old(paths)@.no_duplicates(),
        forall|p: SealedPath| old(paths)@.contains(p) ==> p.block != b,
    ensures
        *final(classified) == *old(classified) + graph@[b as int].edges.len(),
        final(seen)@.len() == graph@.len(),
        forall|c: int| 0 <= c < graph@.len() && old(seen)@[c] ==> final(seen)@[c],
        forall|c: int|
            0 <= c < graph@.len() && final(seen)@[c] && !old(seen)@[c] ==> continues_to(
                graph@,
                allow_implicit_undefined,
                b as int,
                c,
            ),
        forall|c: int|
            #[trigger] continues_to(graph@, allow_implicit_undefined, b as int, c)
                ==> final(seen)@[c],
        final(stack)@.no_duplicates(),
        forall|i: int| 0 <= i < final(stack)@.len() ==> final(stack)@[i] < graph@.len(),
        forall|c: usize|
            #[trigger] final(stack)@.contains(c) <==> (old(stack)@.contains(c) || (c < graph@.len()
                && final(seen)@[c as int] && !old(seen)@[c as int])),
        final(paths)@.no_duplicates(),
        forall|p: SealedPath|
            #[trigger] final(paths)@.contains(p) <==> (old(paths)@.contains(p) || (p.block == b
                && is_seal_of(graph@, allow_implicit_undefined, p))),
{
    let block = &graph.blocks[b];
    assert(block@ == graph@[b as int]);
    let ghost view = graph@[b as int];
    let mut continues = false;
    let mut k: usize = 0;
    while k < block.edges.len()
        invariant
            k <= block.edges.len(),
            block@ == view,
            view == graph@[b as int],
            *old(classified) + view.edges.len() <= u128::MAX,
            *classified == *old(classified) + k,
            is_block(graph@, b as int),
            block_scan(graph@, allow_implicit_undefined, b as int) == ScanResult::Inconclusive,
            old(seen)@.len() == graph@.len(),
            seen@.len() == graph@.len(),
            forall|p: SealedPath| old(paths)@.contains(p) ==> p.block != b,
            forall|c: int| 0 <= c < graph@.len() && old(seen)@[c] ==> seen@[c],
            forall|c: int|
                0 <= c < graph@.len() && seen@[c] && !old(seen)@[c] ==> continues_to(
                    graph@,
                    allow_implicit_undefined,
                    b as int,
                    c,
                ),
            forall|j: int|
                0 <= j < k && #[trigger] is_continue_edge(view, j) && is_block(
                    graph@,
                    view.edges[j].target as int,
                ) ==> seen@[view.edges[j].target as int],
            continues <==> exists|j: int| 0 <= j < k && is_continue_edge(view, j),
            stack@.no_duplicates(),
            forall|i: int| 0 <= i < stack@.len() ==> stack@[i] < graph@.len(),
            forall|c: usize|
                #[trigger] stack@.contains(c) <==> (old(stack)@.contains(c) || (c < graph@.len()
                    && seen@[c as int] && !old(seen)@[c as int])),
            forall|i: int|
                0 <= i < old(stack)@.len() ==> old(stack)@[i] < graph@.len()
                    && old(seen)@[old(stack)@[i] as int],
            paths@.no_duplicates(),
            forall|p: SealedPath|
                #[trigger] paths@.contains(p) <==> (old(paths)@.contains(p) || (p.block == b
                    && is_seal_of(graph@, allow_implicit_undefined, p) && sealed_at_edge_below(
                    p,
                    k as int,
                ))),
        decreases block.edges.len() - k,
    {
        let edge: Edge = block.edges[k];
        assert(edge == view.edges[k as int]);
        let ghost paths_before = paths@;
        let ghost stack_before = stack@;
        let ghost seen_before = seen@;
        match classify_edge(edge.kind) {
            EdgeAction::SealSatisfied => {
                let path = SealedPath {
                    block: b,
                    seal: Seal::Boundary { edge: k },
                    verdict: Verdict::Satisfied,
                };
                proof {
                    assert(is_boundary_edge(view, k as int));
                    assert(!is_continue_edge(view, k as int));
                    lemma_seal_at_edge(
                        graph@,
                        allow_implicit_undefined,
                        b,
                        k,
                        old(paths)@,
                        paths_before,
                        path,
                    );
                }
                paths.push(path);
                proof {
                    assert forall|j: int|
                        0 <= j < k + 1 && #[trigger] is_continue_edge(view, j) && is_block(
                            graph@,
                            view.edges[j].target as int,
                        ) implies seen@[view.edges[j].target as int] by {
                        assert(j < k);
                    }
                    if continues {
                        let j = choose|j: int| 0 <= j < k && is_continue_edge(view, j);
                        assert(0 <= j < k + 1 && is_continue_edge(view, j));
                    }
                    if exists|j: int| 0 <= j < k + 1 && is_continue_edge(view, j) {
                        let j = choose|j: int| 0 <= j < k + 1 && is_continue_edge(view, j);
                        assert(j < k);
                    }
                }
            },
            EdgeAction::Continue => {
                assert(is_continue_edge(view, k as int));
                continues = true;
                if edge.target >= graph.blocks.len() {
                    let path = SealedPath {
                        block: b,
                        seal: Seal::Dangling { edge: k },
                        verdict: Verdict::NotSatisfied,
                    };
                    proof {
                        assert(is_dangling_edge(graph@, view, k as int));
                        lemma_seal_at_edge(
                            graph@,
                            allow_implicit_undefined,
                            b,
                            k,
                            old(paths)@,
                            paths_before,
                            path,
                        );
                    }
                    paths.push(path);
                } else {
                    let target: usize = edge.target;
                    proof {
                        assert(is_block(graph@, target as int));
                        assert(is_continue_edge(graph@[b as int], k as int)
                            && graph@[b as int].edges[k as int].target == target);
                        assert(continues_to(
                            graph@,
                            allow_implicit_undefined,
                            b as int,
                            target as int,
                        ));
                    }
                    if !seen[target] {
                        proof {
                            assert(!stack_before.contains(target));
                            lemma_push_no_duplicates(stack_before, target);
                            lemma_push_contains(stack_before, target);
                        }
                        seen.set(target, true);
                        stack.push(target);
                        proof {
                            assert forall|c: usize| #[trigger]
                                stack@.contains(c) <==> (old(stack)@.contains(c) || (c
                                    < graph@.len() && seen@[c as int] && !old(seen)@[c as int])) by {
                                if c == target {
                                    assert(!old(seen)@[c as int]) by {
                                        assert(!seen_before[target as int]);
                                    }
                                } else if c < graph@.len() {
                                    assert(seen@[c as int] == seen_before[c as int]);
                                }
                            }
                        }
                    }
                    proof {
                        assert forall|p: SealedPath| #[trigger]
                            paths@.contains(p) <==> (old(paths)@.contains(p) || (p.block == b
                                && is_seal_of(graph@, allow_implicit_undefined, p)
                                && sealed_at_edge_below(p, k + 1))) by {
                            if p.block == b && is_seal_of(graph@, allow_implicit_undefined, p)
                                && sealed_at_edge_below(p, k + 1) && !sealed_at_edge_below(
                                p,
                                k as int,
                            ) {
                                assert(!is_boundary_edge(view, k as int));
                                assert(!is_dangling_edge(graph@, view, k as int));
                            }
                        }
                    }
                }
                proof {
                    assert forall|j: int|
                        0 <= j < k + 1 && #[trigger] is_continue_edge(view, j) && is_block(
                            graph@,
                            view.edges[j].target as int,
                        ) implies seen@[view.edges[j].target as int] by {
                        if j < k {
                            assert(seen_before[view.edges[j].target as int]);
                        }
                    }
                    assert(0 <= k < k + 1 && is_continue_edge(view, k as int));
                }
            },
        }
        *classified = *classified + 1;
        k = k + 1;
    }
    proof {
        assert forall|c: int| #[trigger]
            continues_to(graph@, allow_implicit_undefined, b as int, c) implies seen@[c] by {
            let j = choose|j: int| is_continue_edge(view, j) && view.edges[j].target == c;
            assert(0 <= j < k && is_continue_edge(view, j));
        }
        if continues {
            let j = choose|j: int| 0 <= j < k && is_continue_edge(view, j);
            assert(has_continue_edge(view));
        }
        if has_continue_edge(view) {
            let j = choose|j: int| is_continue_edge(view, j);
            assert(0 <= j < k && is_continue_edge(view, j));
        }
        assert(continues == has_continue_edge(view));
    }
    if !continues {
        let path = SealedPath { block: b, seal: Seal::DeadEnd, verdict: Verdict::NotSatisfied };
        proof {
            assert(!sealed_at_edge_below(path, k as int));
            assert(!paths@.contains(path));
            lemma_push_no_duplicates(paths@, path);
            lemma_push_contains(paths@, path);
        }
        paths.push(path);
    }
    proof {
        assert forall|p: SealedPath| #[trigger]
            paths@.contains(p) <==> (old(paths)@.contains(p) || (p.block == b && is_seal_of(
                graph@,
                allow_implicit_undefined,
                p,
            ))) by {
            if p.block == b && is_seal_of(graph@, allow_implicit_undefined, p) {
                match p.seal {
                    Seal::Boundary { edge } => {
                        assert(sealed_at_edge_below(p, k as int));
                    },
                    Seal::Dangling { edge } => {
                        assert(sealed_at_edge_below(p, k as int));
                    },
                    Seal::DeadEnd => {
                        assert(!continues);
                        assert(p == SealedPath {
                            block: b,
                            seal: Seal::DeadEnd,
                            verdict: Verdict::NotSatisfied,
                        });
                    },
                    _ => {},
                }
            }
        }
    }
}

/// Walks the graph from `entry` and seals every path.
///
/// Each block that the walk comes to is scanned once, whether the graph has
/// cycles or not, and the walk ends: it makes no more scans than the graph
/// has blocks, and classifies each edge of each inconclusive block it scans
/// once, so no more edges than the graph has. Which blocks are scanned and
/// which paths are sealed does not depend on the order in which the blocks
/// are taken; only the order of the two lists does.
pub fn walk_paths(graph: &ControlFlowGraph, entry: usize, allow_implicit_undefined: bool) -> (walk:
    Walk)
    ensures
        walk.visits@.no_duplicates(),
        walk.visits@.len() <= graph@.len(),
        walk.classified == edges_classified(graph@, allow_implicit_undefined, walk.visits@),
        walk.classified <= edge_count(graph@),
        forall|b: usize|
            #[trigger] walk.visits@.contains(b) <==> reachable(
                graph@,
                allow_implicit_undefined,
                entry as int,
                b as int,
            ),
        is_block(graph@, entry as int) ==> walk.visits@.len() > 0 && walk.visits@[0] == entry,
        walk.paths@.no_duplicates(),
        forall|p: SealedPath|
            #[trigger] walk.paths@.contains(p) <==> is_sealed_path(
                graph@,
                allow_implicit_undefined,
                entry as int,
                p,
            ),
{
    let n: usize = graph.blocks.len();
    let mut visits: Vec<usize> = Vec::new();
    let mut paths: Vec<SealedPath> = Vec::new();
    if entry >= n {
        let path = SealedPath { block: entry, seal: Seal::Missing, verdict: Verdict::NotSatisfied };
        proof {
            lemma_push_contains(paths@, path);
            lemma_push_no_duplicates(paths@, path);
        }
        paths.push(path);
        proof {
            assert forall|b: usize| !reachable(
                graph@,
                allow_implicit_undefined,
                entry as int,
                b as int,
            ) by {
                if reachable(graph@, allow_implicit_undefined, entry as int, b as int) {
                    lemma_reachable_is_block(
                        graph@,
                        allow_implicit_undefined,
                        entry as int,
                        b as int,
                    );
                }
            }
        }
        return Walk { visits, paths, classified: 0 };
    }
    let mut seen: Vec<bool> = unseen(n);
    let mut stack: Vec<usize> = Vec::new();
    let mut classified: u128 = 0;
    seen.set(entry, true);
    proof {
        lemma_push_contains(stack@, entry);
        lemma_push_no_duplicates(stack@, entry);
        lemma_entry_reachable(graph@, allow_implicit_undefined, entry as int);
    }
    stack.push(entry);
    while stack.len() > 0
        invariant
            n == graph@.len(),
            is_block(graph@, entry as int),
            seen@.len() == n,
            seen@[entry as int],
            forall|c: int|
                0 <= c < n && seen@[c] ==> reachable(
                    graph@,
                    allow_implicit_undefined,
                    entry as int,
                    c,
                ),
            forall|c: usize|
                #![trigger visits@.contains(c)]
                #![trigger stack@.contains(c)]
                c < n ==> (seen@[c as int] <==> (visits@.contains(c) || stack@.contains(c))),
            forall|c: usize| #[trigger] visits@.contains(c) ==> c < n && !stack@.contains(c),
            forall|i: int| 0 <= i < stack@.len() ==> stack@[i] < n,
            stack@.no_duplicates(),
            visits@.no_duplicates(),
            visits@.len() <= n,
            classified == edges_classified(graph@, allow_implicit_undefined, visits@),
            classified <= visits@.len() * usize::MAX,
            visits@.len() == 0 ==> stack@ == seq![entry],
            visits@.len() > 0 ==> visits@[0] == entry,
            forall|a: usize, c: int|
                visits@.contains(a) && #[trigger] continues_to(
                    graph@,
                    allow_implicit_undefined,
                    a as int,
                    c,
                ) ==> seen@[c],
            paths@.no_duplicates(),
            forall|p: SealedPath|
                #[trigger] paths@.contains(p) <==> (visits@.contains(p.block) && is_seal_of(
                    graph@,
                    allow_implicit_undefined,
                    p,
                )),
        decreases n - visits@.len(),
    {
        let ghost stack_before = stack@;
        let ghost visits_before = visits@;
        let ghost paths_before = paths@;
        let ghost seen_before = seen@;
        proof {
            lemma_drop_last_contains(stack_before);
        }
        let b: usize = stack.pop().unwrap();
        assert(stack@ == stack_before.drop_last());
        assert(b == stack_before.last());
        proof {
            assert(stack_before.contains(b));
            assert(b < n);
            assert(seen@[b as int]);
            assert(!visits_before.contains(b));
            lemma_push_contains(visits_before, b);
            lemma_push_no_duplicates(visits_before, b);
            assert forall|i: int| 0 <= i < visits_before.push(b).len() implies visits_before.push(
                b,
            )[i] < n by {
                if i < visits_before.len() {
                    assert(visits_before.contains(visits_before[i]));
                }
            }
            lemma_distinct_blocks_fit(visits_before.push(b), n as nat);
            assert forall|p: SealedPath| paths_before.contains(p) implies p.block != b by {}
            lemma_sum_with(
                visits_before,
                b,
                classification_weight(graph@, allow_implicit_undefined),
            );
            assert(graph.blocks@[b as int]@ == graph@[b as int]);
            assert(graph@[b as int].edges.len() == graph.blocks@[b as int].edges.len());
            let len = visits_before.len() as int;
            let max = usize::MAX as int;
            assert(len * max + max == (len + 1) * max) by (nonlinear_arith);
            assert((len + 1) * max <= max * max) by (nonlinear_arith)
                requires
                    0 <= len + 1 <= max,
            ;
            assert(max * max <= u128::MAX) by (nonlinear_arith)
                requires
                    0 <= max <= 0xffff_ffff_ffff_ffff,
            ;
        }
        visits.push(b);
        match scan_block(&graph.blocks[b].instructions, allow_implicit_undefined) {
            ScanResult::Decisive(verdict) => {
                let path = SealedPath { block: b, seal: Seal::Decisive, verdict };
                proof {
                    assert(graph.blocks@[b as int]@ == graph@[b as int]);
                    assert(block_scan(graph@, allow_implicit_undefined, b as int)
                        == ScanResult::Decisive(verdict));
                    lemma_push_contains(paths_before, path);
                    lemma_push_no_duplicates(paths_before, path);
                }
                paths.push(path);
                proof {
                    assert forall|p: SealedPath| #[trigger]
                        paths@.contains(p) <==> (visits@.contains(p.block) && is_seal_of(
                            graph@,
                            allow_implicit_undefined,
                            p,
                        )) by {
                        if p.block == b && is_seal_of(graph@, allow_implicit_undefined, p) {
                            assert(p == path);
                        }
                    }
                    assert forall|a: usize, c: int|
                        visits@.contains(a) && #[trigger] continues_to(
                            graph@,
                            allow_implicit_undefined,
                            a as int,
                            c,
                        ) implies seen@[c] by {
                        assert(a != b);
                        assert(visits_before.contains(a));
                    }
                    assert forall|c: usize|
                        #![trigger visits@.contains(c)]
                        #![trigger stack@.contains(c)]
                        c < n implies (seen@[c as int] <==> (visits@.contains(c)
                            || stack@.contains(c))) by {
                        assert(seen_before[c as int] <==> (visits_before.contains(c)
                            || stack_before.contains(c)));
                    }
                }
            },
            ScanResult::Inconclusive => {
                proof {
                    assert(graph.blocks@[b as int]@ == graph@[b as int]);
                    assert(block_scan(graph@, allow_implicit_undefined, b as int)
                        == ScanResult::Inconclusive);
                    assert forall|i: int| 0 <= i < stack@.len() implies stack@[i] < graph@.len()
                        && seen@[stack@[i] as int] by {
                        assert(stack@[i] == stack_before[i]);
                        assert(stack_before.contains(stack_before[i]));
                    }
                }
                let ghost stack_popped = stack@;
                expand_block(
                    graph,
                    b,
                    allow_implicit_undefined,
                    &mut seen,
                    &mut stack,
                    &mut paths,
                    &mut classified,
                );
                proof {
                    assert forall|c: int| 0 <= c < n && seen@[c] implies reachable(
                        graph@,
                        allow_implicit_undefined,
                        entry as int,
                        c,
                    ) by {
                        if !seen_before[c] {
                            lemma_reachable_step(
                                graph@,
                                allow_implicit_undefined,
                                entry as int,
                                b as int,
                                c,
                            );
                        }
                    }
                    assert forall|c: usize|
                        #![trigger visits@.contains(c)]
                        #![trigger stack@.contains(c)]
                        c < n implies (seen@[c as int] <==> (visits@.contains(c)
                            || stack@.contains(c))) by {
                        assert(seen_before[c as int] <==> (visits_before.contains(c)
                            || stack_before.contains(c)));
                        assert(stack@.contains(c) <==> (stack_popped.contains(c) || (c
                            < graph@.len() && seen@[c as int] && !seen_before[c as int])));
                    }
                    assert forall|c: usize| #[trigger] visits@.contains(c) implies c < n
                        && !stack@.contains(c) by {
                        assert(stack@.contains(c) <==> (stack_popped.contains(c) || (c
                            < graph@.len() && seen@[c as int] && !seen_before[c as int])));
                        if c != b {
                            assert(visits_before.contains(c));
                            assert(seen_before[c as int]);
                        }
                    }
                    assert forall|a: usize, c: int|
                        visits@.contains(a) && #[trigger] continues_to(
                            graph@,
                            allow_implicit_undefined,
                            a as int,
                            c,
                        ) implies seen@[c] by {
                        if a != b {
                            assert(visits_before.contains(a));
                            assert(seen_before[c]);
                        }
                    }
                    assert forall|p: SealedPath| #[trigger]
                        paths@.contains(p) <==> (visits@.contains(p.block) && is_seal_of(
                            graph@,
                            allow_implicit_undefined,
                            p,
                        )) by {
                        assert(paths@.contains(p) <==> (paths_before.contains(p) || (p.block == b
                            && is_seal_of(graph@, allow_implicit_undefined, p))));
                    }
                }
            },
        }
    }
    proof {
        let closed = Set::new(|c: int| 0 <= c < n && seen@[c]);
        assert forall|c: usize| !stack@.contains(c) by {
            if stack@.contains(c) {
                let i = choose|i: int| 0 <= i < stack@.len() && stack@[i] == c;
            }
        }
        assert forall|a: int, c: int|
            closed.contains(a) && #[trigger] continues_to(
                graph@,
                allow_implicit_undefined,
                a,
                c,
            ) implies closed.contains(c) by {
            assert(visits@.contains(a as usize));
        }
        assert forall|b: usize| #[trigger]
            visits@.contains(b) <==> reachable(
                graph@,
                allow_implicit_undefined,
                entry as int,
                b as int,
            ) by {
            if reachable(graph@, allow_implicit_undefined, entry as int, b as int) {
                lemma_closed_set_holds_reachable(
                    graph@,
                    allow_implicit_undefined,
                    entry as int,
                    closed,
                    b as int,
                );
                assert(closed.contains(b as int));
            }
        }
        assert(visits@.len() > 0) by {
            assert(visits@.contains(entry));
        }
        assert forall|i: int| 0 <= i < visits@.len() implies visits@[i] < n by {
            assert(visits@.contains(visits@[i]));
        }
        lemma_sum_of_distinct_blocks(
            visits@,
            n as nat,
            classification_weight(graph@, allow_implicit_undefined),
            edge_weight(graph@),
        );
    }
    Walk { visits, paths, classified }
}

} // verus!
