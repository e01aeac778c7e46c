//! Source positions, as the parser's span type gives them.

use vstd::prelude::*;

verus! {

/// A range of the source text. The library hands spans on and never looks
/// into them.
#[verifier::external_type_specification]
#[verifier::external_body]
pub struct ExSpan(oxc_span::Span);

/// `Span` is `Copy`, and its `clone`, which `derive` wrote, copies it.
pub assume_specification[ <oxc_span::Span as Clone>::clone ](span: &oxc_span::Span) -> (copy:
    oxc_span::Span)
    ensures
        copy == *span,
;

} // verus!
