//! The control-flow graph of one function: basic blocks of instructions,
//! joined by edges that carry a kind.

use vstd::prelude::*;

verus! {

/// One instruction of a basic block. Only the kinds that matter to a
/// return-path analysis are told apart.
#[derive(Clone, Copy, Debug, PartialEq, Eq, Structural)]
pub enum Instruction {
    /// A return. `has_value` is false for `return;`, and for the return
    /// that the builder of a graph may write where control runs off the end
    /// of a body. Such a return counts as returning where a rule allows
    /// returns without a value. A builder that writes nothing there leaves a
    /// last block without a decisive instruction and without an edge that is
    /// followed: a dead end, which never counts as returning.
    Return { has_value: bool },
    Throw,
    /// Code that an earlier analysis proved dead.
    Unreachable,
    Break,
    Continue,
    Iteration,
    Condition,
    Statement,
}

/// What an edge between two blocks stands for.
#[derive(Clone, Copy, Debug, PartialEq, Eq, Structural)]
pub enum EdgeKind {
    /// Ordinary forward control flow.
    Normal,
    /// A conditional jump; forward control flow as well.
    Jump,
    /// Closes a loop.
    Backedge,
    /// Leads into the body of a nested function, which does not run as part
    /// of the enclosing one.
    NewFunctionBoundary,
    /// An edge proven dead.
    Unreachable,
    /// Exceptional control transfer.
    ErrorPropagation,
    /// Entry into a finalizer.
    Finalize,
    /// End of a finalizer.
    Join,
}

/// A directed edge, stored with the block it leaves.
#[derive(Clone, Copy, Debug, PartialEq, Eq, Structural)]
pub struct Edge {
    /// Index of the block the edge leads to.
    pub target: usize,
    pub kind: EdgeKind,
}

/// A basic block: instructions in execution order and the edges leaving it.
#[derive(Clone, Debug)]
pub struct BasicBlock {
    pub instructions: Vec<Instruction>,
    pub edges: Vec<Edge>,
}

/// The mathematical content of a [`BasicBlock`].
pub struct BlockView {
    pub instructions: Seq<Instruction>,
    pub edges: Seq<Edge>,
}

impl View for BasicBlock {
    type V = BlockView;

    open spec fn view(&self) -> BlockView {
        BlockView { instructions: self.instructions@, edges: self.edges@ }
    }
}

/// A control-flow graph. Blocks are named by their index in `blocks`; an edge
/// whose target is not such an index is dangling.
#[derive(Clone, Debug)]
pub struct ControlFlowGraph {
    pub blocks: Vec<BasicBlock>,
}

impl View for ControlFlowGraph {
    type V = Seq<BlockView>;

    open spec fn view(&self) -> Seq<BlockView> {
        Seq::new(self.blocks@.len(), |i: int| self.blocks@[i]@)
    }
}

impl BasicBlock {
    /// A block with the given instructions and no outgoing edge.
    pub fn new(instructions: Vec<Instruction>) -> (block: BasicBlock)
        ensures
            block@.instructions == instructions@,
            block@.edges == Seq::<Edge>::empty(),
    {
        BasicBlock { instructions, edges: Vec::new() }
    }
}

impl ControlFlowGraph {
    /// The graph without blocks.
    pub fn new() -> (graph: ControlFlowGraph)
        ensures
            graph@ == Seq::<BlockView>::empty(),
    {
        let graph = ControlFlowGraph { blocks: Vec::new() };
        assert(graph@ =~= Seq::<BlockView>::empty());
        graph
    }

    /// Number of blocks.
    pub fn len(&self) -> (n: usize)
        ensures
            n == self@.len(),
    {
        self.blocks.len()
    }

    /// The block with index `id`, if there is one.
    pub fn basic_block(&self, id: usize) -> (block: Option<&BasicBlock>)
        ensures
            block.is_some() == (id < self@.len()),
            block matches Some(b) ==> b@ == self@[id as int],
    {
        if id < self.blocks.len() {
            Some(&self.blocks[id])
        } else {
            None
        }
    }

    /// Appends a block without edges and returns its index.
    pub fn add_block(&mut self, instructions: Vec<Instruction>) -> (id: usize)
        ensures
            id == old(self)@.len(),
            final(self)@ == old(self)@.push(
                BlockView { instructions: instructions@, edges: Seq::<Edge>::empty() },
            ),
    {
        let id: usize = self.blocks.len();
        self.blocks.push(BasicBlock::new(instructions));
        assert(self@ =~= old(self)@.push(
            BlockView { instructions: instructions@, edges: Seq::<Edge>::empty() },
        ));
        id
    }

    /// Adds an edge from block `from` to block `to`. Returns false, and leaves
    /// the graph as it was, when `from` is not a block. `to` is not checked: a
    /// target may be added later, or stay dangling.
    pub fn add_edge(&mut self, from: usize, to: usize, kind: EdgeKind) -> (added: bool)
        ensures
            added == (from < old(self)@.len()),
            added ==> final(self)@ == old(self)@.update(
                from as int,
                BlockView {
                    instructions: old(self)@[from as int].instructions,
                    edges: old(self)@[from as int].edges.push(Edge { target: to, kind }),
                },
            ),
            !added ==> final(self)@ == old(self)@,
    {
        if from < self.blocks.len() {
            self.blocks[from].edges.push(Edge { target: to, kind });
            assert(self@ =~= old(self)@.update(
                from as int,
                BlockView {
                    instructions: old(self)@[from as int].instructions,
                    edges: old(self)@[from as int].edges.push(Edge { target: to, kind }),
                },
            ));
            true
        } else {
            false
        }
    }
}

} // verus!
