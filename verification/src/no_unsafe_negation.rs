//! The rule against negating the left operand of a relational operator,
//! as in `!key in object`.

use vstd::prelude::*;
use vstd::string::StringExecFns;
use oxc_span::Span;
use serde_json::Value;
use crate::ast::{AstKind, AstNode, Expression};
use crate::configuration::{flag, flag_spec, json_model};
use crate::context::LintContext;
use crate::diagnostic::Diagnostic;
use crate::operator::{BinaryOperator, UnaryOperator};

verus! {

/// The rule and its one option.
#[derive(Debug, Clone)]
pub struct NoUnsafeNegation {
    /// Whether the rule also covers the operators `<`, `>`, `<=`, `>=`.
    enforce_for_ordering_relations: bool,
}

impl Default for NoUnsafeNegation {
    fn default() -> (rule: NoUnsafeNegation)
        ensures
            !rule.enforces_ordering_relations(),
    {
        NoUnsafeNegation { enforce_for_ordering_relations: false }
    }
}

/// The message for the operator written `x0`.
pub open spec fn message_text(x0: Seq<char>) -> Seq<char> {
    "Unexpected logical not in the left hand side of '"@ + x0 + "' operator"@
}

/// The advice for the operator written `x0`.
pub open spec fn help_text(x0: Seq<char>) -> Seq<char> {
    "use parenthesis to express the negation of the whole boolean expression, as '!' binds more closely than '"@
        + x0 + "'"@
}

/// What the rule reports for a negation at `span1` on the left of the
/// operator written `x0`.
pub fn no_unsafe_negation_diagnostic(x0: &str, span1: Span) -> (diagnostic: Diagnostic)
    ensures
        diagnostic.message@ == message_text(x0@),
        diagnostic.help@ == help_text(x0@),
        diagnostic.label == span1,
{
    let message = "Unexpected logical not in the left hand side of '".to_owned().concat(x0).concat(
        "' operator",
    );
    let help =
        "use parenthesis to express the negation of the whole boolean expression, as '!' binds more closely than '".to_owned().concat(
        x0,
    ).concat("'");
    Diagnostic { message, help, label: span1 }
}

/// The left operand is a logical negation.
pub open spec fn is_negation(left: Expression) -> bool {
    left matches Expression::Unary(operator, _) && operator == UnaryOperator::LogicalNot
}

impl NoUnsafeNegation {
    /// Whether the rule also covers the operators that compare by order.
    pub closed spec fn enforces_ordering_relations(&self) -> bool {
        self.enforce_for_ordering_relations
    }

    /// The rule covers `op`: always `in` and `instanceof`, and the operators
    /// that compare by order where the option asks for them.
    pub open spec fn checks(&self, op: BinaryOperator) -> bool {
        op.relational() || (self.enforces_ordering_relations() && op.compare())
    }

    /// The rule as configured: `enforceForOrderingRelations` is read from the
    /// first element of the configuration, and is off where it is not given
    /// there.
    pub fn from_configuration(value: Value) -> (rule: NoUnsafeNegation)
        ensures
            rule.enforces_ordering_relations() == flag_spec(
                json_model(value),
                "enforceForOrderingRelations"@,
            ),
    {
        let enforce_for_ordering_relations = flag(&value, "enforceForOrderingRelations");
        NoUnsafeNegation { enforce_for_ordering_relations }
    }

    /// Runs the rule on one node. Reports a diagnostic exactly for a binary
    /// expression with an operator that the rule covers and a logical
    /// negation as its left operand; the diagnostic points at that operand.
    pub fn run(&self, node: &AstNode, ctx: &LintContext) -> (report: Option<Diagnostic>)
        ensures
            report.is_some() == (node.kind matches AstKind::BinaryExpression(expr) && self.checks(
                expr.operator,
            ) && is_negation(expr.left)),
            report matches Some(diagnostic) ==> node.kind matches AstKind::BinaryExpression(expr)
                && {
                &&& diagnostic.message@ == message_text(expr.operator.text())
                &&& diagnostic.help@ == help_text(expr.operator.text())
                &&& diagnostic.label == expr.left_span
            },
    {
        match &node.kind {
            AstKind::BinaryExpression(expr) => {
                if self.should_check(expr.operator) {
                    match &expr.left {
                        Expression::Unary(operator, _) => match operator {
                            UnaryOperator::LogicalNot => Some(
                                no_unsafe_negation_diagnostic(
                                    expr.operator.as_str(),
                                    expr.left_span,
                                ),
                            ),
                            _ => None,
                        },
                        _ => None,
                    }
                } else {
                    None
                }
            },
            _ => None,
        }
    }

    /// Whether the rule covers the operator `op`.
    pub fn should_check(&self, op: BinaryOperator) -> (check: bool)
        ensures
            check == self.checks(op),
    {
        op.is_relational() || (self.enforce_for_ordering_relations && op.is_compare())
    }
}

} // verus!
