//! What a rule is given besides the node it looks at.

use vstd::prelude::*;
use crate::ast::AstNodes;
use crate::graph::ControlFlowGraph;

verus! {

/// The surroundings of a node: the file's language, its syntax tree and its
/// control-flow graph.
#[derive(Debug)]
pub struct LintContext {
    /// The source file is TypeScript.
    pub typescript: bool,
    pub nodes: AstNodes,
    pub cfg: ControlFlowGraph,
}

} // verus!
