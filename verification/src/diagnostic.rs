//! What a rule reports.

use vstd::prelude::*;
use oxc_span::Span;

verus! {

/// One finding of a rule: what is wrong, what to do about it, and where.
#[derive(Clone, Debug, PartialEq, Eq)]
pub struct Diagnostic {
    pub message: String,
    pub help: String,
    pub label: Span,
}

} // verus!
