//! Which blocks a walk from the entry comes to, stated without reference to
//! any order of traversal.

use vstd::prelude::*;
use crate::edge_policy::{edge_action, EdgeAction};
use crate::graph::BlockView;
use crate::scanner::{scan_spec, ScanResult};

verus! {

/// `b` is the index of a block of the graph.
pub open spec fn is_block(graph: Seq<BlockView>, b: int) -> bool {
    0 <= b < graph.len()
}

/// Edge `k` of the block is one that a walk follows.
pub open spec fn is_continue_edge(block: BlockView, k: int) -> bool {
    0 <= k < block.edges.len() && edge_action(block.edges[k].kind) == EdgeAction::Continue
}

/// Edge `k` of the block ends a path as satisfied.
pub open spec fn is_boundary_edge(block: BlockView, k: int) -> bool {
    0 <= k < block.edges.len() && edge_action(block.edges[k].kind) == EdgeAction::SealSatisfied
}

/// The block has an edge that a walk follows.
pub open spec fn has_continue_edge(block: BlockView) -> bool {
    exists|k: int| is_continue_edge(block, k)
}

/// Edge `k` of the block is followed and leads to no block of the graph.
pub open spec fn is_dangling_edge(graph: Seq<BlockView>, block: BlockView, k: int) -> bool {
    is_continue_edge(block, k) && !is_block(graph, block.edges[k].target as int)
}

/// The result of scanning block `b`.
pub open spec fn block_scan(
    graph: Seq<BlockView>,
    allow_implicit_undefined: bool,
    b: int,
) -> ScanResult {
    scan_spec(graph[b].instructions, allow_implicit_undefined)
}

/// A walk that is at block `a` goes on into block `c`: `a` is inconclusive and
/// has an edge to `c` that is followed.
pub open spec fn continues_to(
    graph: Seq<BlockView>,
    allow_implicit_undefined: bool,
    a: int,
    c: int,
) -> bool {
    &&& is_block(graph, a)
    &&& is_block(graph, c)
    &&& block_scan(graph, allow_implicit_undefined, a) == ScanResult::Inconclusive
    &&& exists|k: int| is_continue_edge(graph[a], k) && graph[a].edges[k].target == c
}

/// Step `i` of a sequence of blocks is a step of a walk.
pub open spec fn is_step(
    graph: Seq<BlockView>,
    allow_implicit_undefined: bool,
    route: Seq<int>,
    i: int,
) -> bool {
    continues_to(graph, allow_implicit_undefined, route[i], route[i + 1])
}

/// `route` is the way of a walk that starts at `entry`.
pub open spec fn is_route(
    graph: Seq<BlockView>,
    allow_implicit_undefined: bool,
    entry: int,
    route: Seq<int>,
) -> bool {
    &&& route.len() > 0
    &&& route[0] == entry
    &&& is_block(graph, entry)
    &&& forall|i: int|
        0 <= i < route.len() - 1 ==> #[trigger] is_step(graph, allow_implicit_undefined, route, i)
}

/// A walk from `entry` comes to block `b`.
pub open spec fn reachable(
    graph: Seq<BlockView>,
    allow_implicit_undefined: bool,
    entry: int,
    b: int,
) -> bool {
    exists|route: Seq<int>|
        #[trigger] is_route(graph, allow_implicit_undefined, entry, route) && route.last() == b
}

/// The entry, if it is a block, is reached.
pub proof fn lemma_entry_reachable(
    graph: Seq<BlockView>,
    allow_implicit_undefined: bool,
    entry: int,
)
    requires
        is_block(graph, entry),
    ensures
        reachable(graph, allow_implicit_undefined, entry, entry),
{
    let route = seq![entry];
    assert(is_route(graph, allow_implicit_undefined, entry, route));
    assert(route.last() == entry);
}

/// Every block on a route is a block of the graph.
pub proof fn lemma_route_stays_in_graph(
    graph: Seq<BlockView>,
    allow_implicit_undefined: bool,
    entry: int,
    route: Seq<int>,
    i: int,
)
    requires
        is_route(graph, allow_implicit_undefined, entry, route),
        0 <= i < route.len(),
    ensures
        is_block(graph, route[i]),
{
    if i > 0 {
        assert(is_step(graph, allow_implicit_undefined, route, i - 1));
    }
}

/// Only blocks are reached.
pub proof fn lemma_reachable_is_block(
    graph: Seq<BlockView>,
    allow_implicit_undefined: bool,
    entry: int,
    b: int,
)
    requires
        reachable(graph, allow_implicit_undefined, entry, b),
    ensures
        is_block(graph, b),
        is_block(graph, entry),
{
    let route = choose|route: Seq<int>|
        #[trigger] is_route(graph, allow_implicit_undefined, entry, route) && route.last() == b;
    lemma_route_stays_in_graph(graph, allow_implicit_undefined, entry, route, route.len() - 1);
}

/// What a reached block continues to is reached as well.
pub proof fn lemma_reachable_step(
    graph: Seq<BlockView>,
    allow_implicit_undefined: bool,
    entry: int,
    a: int,
    c: int,
)
    requires
        reachable(graph, allow_implicit_undefined, entry, a),
        continues_to(graph, allow_implicit_undefined, a, c),
    ensures
        reachable(graph, allow_implicit_undefined, entry, c),
{
    let route = choose|route: Seq<int>|
        #[trigger] is_route(graph, allow_implicit_undefined, entry, route) && route.last() == a;
    let longer = route.push(c);
    assert forall|i: int| 0 <= i < longer.len() - 1 implies #[trigger] is_step(
        graph,
        allow_implicit_undefined,
        longer,
        i,
    ) by {
        if i < route.len() - 1 {
            assert(is_step(graph, allow_implicit_undefined, route, i));
            assert(longer[i] == route[i]);
            assert(longer[i + 1] == route[i + 1]);
        } else {
            assert(longer[i] == a);
            assert(longer[i + 1] == c);
        }
    }
    assert(is_route(graph, allow_implicit_undefined, entry, longer));
    assert(longer.last() == c);
}

/// A set of blocks that holds the entry and, with each block, all that the
/// block continues to, holds every block on a route.
pub proof fn lemma_closed_set_holds_route(
    graph: Seq<BlockView>,
    allow_implicit_undefined: bool,
    entry: int,
    closed: Set<int>,
    route: Seq<int>,
    i: int,
)
    requires
        is_route(graph, allow_implicit_undefined, entry, route),
        closed.contains(entry),
        forall|a: int, c: int|
            closed.contains(a) && #[trigger] continues_to(graph, allow_implicit_undefined, a, c)
                ==> closed.contains(c),
        0 <= i < route.len(),
    ensures
        closed.contains(route[i]),
    decreases i,
{
    if i > 0 {
        lemma_closed_set_holds_route(graph, allow_implicit_undefined, entry, closed, route, i - 1);
        assert(is_step(graph, allow_implicit_undefined, route, i - 1));
    }
}

/// Such a set holds every reached block: the reached blocks are the least
/// set with these two properties.
pub proof fn lemma_closed_set_holds_reachable(
    graph: Seq<BlockView>,
    allow_implicit_undefined: bool,
    entry: int,
    closed: Set<int>,
    b: int,
)
    requires
        closed.contains(entry),
        forall|a: int, c: int|
            closed.contains(a) && #[trigger] continues_to(graph, allow_implicit_undefined, a, c)
                ==> closed.contains(c),
        reachable(graph, allow_implicit_undefined, entry, b),
    ensures
        closed.contains(b),
{
    let route = choose|route: Seq<int>|
        #[trigger] is_route(graph, allow_implicit_undefined, entry, route) && route.last() == b;
    lemma_closed_set_holds_route(
        graph,
        allow_implicit_undefined,
        entry,
        closed,
        route,
        route.len() - 1,
    );
}

/// A walk comes to a block other than the entry only through an edge that is
/// followed. A block that is entered by boundary edges alone, such as the
/// body of a nested function, is never reached, whatever it holds.
pub proof fn lemma_boundary_edges_lead_nowhere(
    graph: Seq<BlockView>,
    allow_implicit_undefined: bool,
    entry: int,
    c: int,
)
    requires
        c != entry,
        forall|a: int, k: int|
            is_block(graph, a) && #[trigger] is_continue_edge(graph[a], k) ==> graph[a].edges[k].target
                != c,
    ensures
        !reachable(graph, allow_implicit_undefined, entry, c),
{
    if reachable(graph, allow_implicit_undefined, entry, c) {
        let route = choose|route: Seq<int>|
            #[trigger] is_route(graph, allow_implicit_undefined, entry, route) && route.last()
                == c;
        let last = route.len() - 1;
        assert(last > 0);
        assert(is_step(graph, allow_implicit_undefined, route, last - 1));
        let a = route[last - 1];
        let k = choose|k: int| is_continue_edge(graph[a], k) && graph[a].edges[k].target == c;
        assert(is_continue_edge(graph[a], k));
    }
}

} // verus!
