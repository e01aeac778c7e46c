//! Lint rules over a function's control-flow graph and its syntactic surroundings:
//! which functions are getters, and whether every path through a getter
//! returns a value, throws, or ends in code that never runs.

pub mod ast;
pub mod configuration;
pub mod context;
pub mod diagnostic;
pub mod edge_policy;
pub mod getter_return;
pub mod graph;
pub mod module_record;
pub mod no_unsafe_negation;
pub mod obligation;
pub mod operator;
pub mod reach;
pub mod scanner;
pub mod span;
pub mod text;
pub mod verdict;
pub mod walker;
pub mod work;
