//! Which edges a walk follows, and which end a path on the spot.

use vstd::prelude::*;
use crate::graph::EdgeKind;

verus! {

/// What a walk does at an edge.
#[derive(Clone, Copy, Debug, PartialEq, Eq, Structural)]
pub enum EdgeAction {
    /// Go on into the block the edge leads to.
    Continue,
    /// Do not follow; the path through this edge counts as satisfied.
    SealSatisfied,
}

/// The action for each kind of edge. Only `Normal` and `Jump` are forward
/// control flow of the function itself. A back edge leads to a block the walk
/// has already been through; the body of a nested function does not run with
/// the enclosing one; a dead edge is never taken; exception flow is not
/// followed; finalizer edges duplicate flow that normal edges already carry.
pub open spec fn edge_action(kind: EdgeKind) -> EdgeAction {
    match kind {
        EdgeKind::Normal | EdgeKind::Jump => EdgeAction::Continue,
        EdgeKind::Backedge
        | EdgeKind::NewFunctionBoundary
        | EdgeKind::Unreachable
        | EdgeKind::ErrorPropagation
        | EdgeKind::Finalize
        | EdgeKind::Join => EdgeAction::SealSatisfied,
    }
}

/// Classifies an edge by its kind alone.
pub fn classify_edge(kind: EdgeKind) -> (action: EdgeAction)
    ensures
        action == edge_action(kind),
        action == EdgeAction::Continue <==> (kind == EdgeKind::Normal || kind == EdgeKind::Jump),
{
    match kind {
        EdgeKind::Normal => EdgeAction::Continue,
        EdgeKind::Jump => EdgeAction::Continue,
        EdgeKind::Backedge => EdgeAction::SealSatisfied,
        EdgeKind::NewFunctionBoundary => EdgeAction::SealSatisfied,
        EdgeKind::Unreachable => EdgeAction::SealSatisfied,
        EdgeKind::ErrorPropagation => EdgeAction::SealSatisfied,
        EdgeKind::Finalize => EdgeAction::SealSatisfied,
        EdgeKind::Join => EdgeAction::SealSatisfied,
    }
}

} // verus!
