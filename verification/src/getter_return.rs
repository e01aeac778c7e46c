//! The rule that a getter returns a value on every path.

use vstd::prelude::*;
use oxc_span::Span;
use serde_json::Value;
use crate::ast::{
    is_member_access, strip_parentheses, AstKind, AstNode, AstNodes, ChainElement, Expression,
    MemberExpression, MethodDefinitionKind, PropertyKind,
};
use crate::configuration::{flag, flag_spec, json_model};
use crate::context::LintContext;
use crate::diagnostic::Diagnostic;
use crate::obligation::{check_function, function_outcome, FunctionForm};
use crate::verdict::Outcome;

verus! {

/// The rule and its one option.
#[derive(Debug, Clone)]
pub struct GetterReturn {
    /// A `return;` without a value counts as returning.
    pub allow_implicit: bool,
}

impl Default for GetterReturn {
    fn default() -> (rule: GetterReturn)
        ensures
            !rule.allow_implicit,
    {
        GetterReturn { allow_implicit: false }
    }
}

/// What the rule reports for the getter at `span0`.
pub fn getter_return_diagnostic(span0: Span) -> (diagnostic: Diagnostic)
    ensures
        diagnostic.message@
            == "eslint(getter-return): Expected to always return a value in getter."@,
        diagnostic.help@ == "Return a value from all code paths in getter."@,
        diagnostic.label == span0,
{
    Diagnostic {
        message: "eslint(getter-return): Expected to always return a value in getter.".to_owned(),
        help: "Return a value from all code paths in getter.".to_owned(),
        label: span0,
    }
}

/// What a call through which accessors are defined takes as its last
/// argument.
#[derive(Clone, Copy, Debug, PartialEq, Eq, Structural)]
pub enum AccessorCall {
    /// One descriptor: `Object.defineProperty(_, _, { get: .. })` and
    /// `Reflect.defineProperty(_, _, { get: .. })`.
    Descriptor,
    /// An object of descriptors: `Object.defineProperties(_, { _: { get: .. } })`
    /// and `Object.create(_, { _: { get: .. } })`.
    DescriptorMap,
}

impl AccessorCall {
    /// How many levels above a function the call stands when the function
    /// is the `get` of a descriptor: above the function come the property,
    /// the descriptor and the argument, then the call; with an object of
    /// descriptors, a property and an object more.
    pub open spec fn level(self) -> nat {
        match self {
            AccessorCall::Descriptor => 4,
            AccessorCall::DescriptorMap => 6,
        }
    }
}

/// The call that `member` names, if it is one of the accesses through which
/// accessors are defined: `Object.defineProperty`, `Reflect.defineProperty`,
/// `Object.create` or `Object.defineProperties`, each with or without an
/// optional chain.
pub open spec fn watched_method(member: MemberExpression) -> Option<AccessorCall> {
    if is_member_access(member, "Object"@, "defineProperty"@) || is_member_access(
        member,
        "Reflect"@,
        "defineProperty"@,
    ) {
        Some(AccessorCall::Descriptor)
    } else if is_member_access(member, "Object"@, "create"@) || is_member_access(
        member,
        "Object"@,
        "defineProperties"@,
    ) {
        Some(AccessorCall::DescriptorMap)
    } else {
        None
    }
}

/// The call that `callee` names: under parentheses, such an access, bare or
/// as the end of an optional chain.
pub open spec fn named_call(callee: Expression) -> Option<AccessorCall> {
    match strip_parentheses(callee) {
        Expression::Member(member) => watched_method(*member),
        Expression::Chain(element) => match *element {
            ChainElement::Member(member) => watched_method(member),
            ChainElement::Call => None,
        },
        _ => None,
    }
}

/// The call that `expression` is: under parentheses, a call of such an
/// access.
pub open spec fn made_call(expression: Expression) -> Option<AccessorCall> {
    match strip_parentheses(expression) {
        Expression::Call(callee) => named_call(*callee),
        _ => None,
    }
}

/// The call through which accessors are defined that a node of this kind
/// is, bare or in parentheses.
pub open spec fn accessor_call(kind: AstKind) -> Option<AccessorCall> {
    match kind {
        AstKind::ParenthesizedExpression(expression) => made_call(expression),
        AstKind::CallExpression(callee) => named_call(callee),
        _ => None,
    }
}

/// The ancestor of `node` at `level` is a call through which accessors are
/// defined, and one that takes its descriptors at that level.
pub open spec fn accessors_defined_at(nodes: AstNodes, node: AstNode, level: nat) -> bool {
    &&& nodes.ancestor_of(node, level) matches Some(ancestor)
    &&& accessor_call(ancestor.kind) matches Some(call)
    &&& call.level() == level
}

/// `node` is a getter. Either its parent is a class method or an object
/// property marked `get`; or its parent is a property written under the key
/// `get`, and the object of that property is a descriptor handed to a call
/// through which accessors are defined: the call stands four levels above
/// the node where it takes one descriptor, and six where it takes an object
/// of descriptors. Nothing else is a getter: not a property under another
/// key, such as `set`, and not a call of another receiver or method.
pub open spec fn is_getter(nodes: AstNodes, node: AstNode) -> bool {
    match nodes.parent_of(node) {
        Some(parent) => match parent.kind {
            AstKind::MethodDefinition(kind) => kind == MethodDefinitionKind::Get,
            AstKind::ObjectProperty(property) => {
                ||| property.kind == PropertyKind::Get
                ||| property.is_keyed("get"@) && (accessors_defined_at(nodes, node, 4)
                    || accessors_defined_at(nodes, node, 6))
            },
            _ => false,
        },
        None => false,
    }
}

/// The form of a function of this kind: an arrow function whose body is a
/// bare expression is concise, and a function may declare a return type that
/// admits `undefined`.
pub open spec fn form_of(kind: AstKind) -> FunctionForm {
    match kind {
        AstKind::ArrowFunctionExpression(arrow) => FunctionForm {
            concise_body: arrow.expression,
            return_type_admits_undefined: false,
        },
        AstKind::Function(function) => FunctionForm {
            concise_body: false,
            return_type_admits_undefined: function.return_type_maybe_undefined,
        },
        _ => FunctionForm { concise_body: false, return_type_admits_undefined: false },
    }
}

/// The rule has something to report for `node` as a function: the node is a
/// getter, and neither its form nor its control-flow graph, walked from the
/// block in which the node begins, meets the obligation.
pub open spec fn violates(allow_implicit: bool, node: AstNode, ctx: LintContext) -> bool {
    &&& is_getter(ctx.nodes, node)
    &&& function_outcome(form_of(node.kind), ctx.cfg@, allow_implicit, node.cfg_id as int)
        == Outcome::Fail
}

/// The span under which the rule looks at `node`, if it looks at it at all:
/// in a file that is not TypeScript, that of a function that is more than a
/// declaration for the type checker, and that of an arrow function.
pub open spec fn checked_span(node: AstNode, ctx: LintContext) -> Option<Span> {
    if ctx.typescript {
        None
    } else {
        match node.kind {
            AstKind::Function(function) => if function.typescript_syntax {
                None
            } else {
                Some(function.span)
            },
            AstKind::ArrowFunctionExpression(arrow) => Some(arrow.span),
            _ => None,
        }
    }
}

impl GetterReturn {
    /// The rule as configured: `allowImplicit` is read from the first element
    /// of the configuration, and is off where it is not given there.
    pub fn from_configuration(value: Value) -> (rule: GetterReturn)
        ensures
            rule.allow_implicit == flag_spec(json_model(value), "allowImplicit"@),
    {
        let allow_implicit = flag(&value, "allowImplicit");
        GetterReturn { allow_implicit }
    }

    /// Runs the rule on one node. Reports a diagnostic exactly for a function
    /// or arrow function that the rule looks at and that violates it.
    pub fn run(&self, node: &AstNode, ctx: &LintContext) -> (report: Option<Diagnostic>)
        ensures
            report.is_some() == (checked_span(*node, *ctx).is_some() && violates(
                self.allow_implicit,
                *node,
                *ctx,
            )),
            report matches Some(diagnostic) ==> {
                &&& diagnostic.message@
                    == "eslint(getter-return): Expected to always return a value in getter."@
                &&& diagnostic.help@ == "Return a value from all code paths in getter."@
                &&& Some(diagnostic.label) == checked_span(*node, *ctx)
            },
    {
        if ctx.typescript {
            return None;
        }
        match &node.kind {
            AstKind::Function(function) => {
                if !function.typescript_syntax {
                    self.run_diagnostic(node, ctx, function.span)
                } else {
                    None
                }
            },
            AstKind::ArrowFunctionExpression(arrow) => self.run_diagnostic(node, ctx, arrow.span),
            _ => None,
        }
    }

    /// The call that `member_expression` names, if it is one of the accesses
    /// through which accessors are defined.
    pub fn handle_member_expression(member_expression: &MemberExpression) -> (call: Option<
        AccessorCall,
    >)
        ensures
            call == watched_method(*member_expression),
    {
        if member_expression.through_optional_is_specific_member_access("Object", "defineProperty")
            || member_expression.through_optional_is_specific_member_access(
            "Reflect",
            "defineProperty",
        ) {
            Some(AccessorCall::Descriptor)
        } else if member_expression.through_optional_is_specific_member_access("Object", "create")
            || member_expression.through_optional_is_specific_member_access(
            "Object",
            "defineProperties",
        ) {
            Some(AccessorCall::DescriptorMap)
        } else {
            None
        }
    }

    /// The call that the callee of a call names, if it names such an access.
    pub fn handle_actual_expression(callee: &Expression) -> (call: Option<AccessorCall>)
        ensures
            call == named_call(*callee),
    {
        match callee.without_parenthesized() {
            Expression::Member(member) => Self::handle_member_expression(member),
            Expression::Chain(element) => match &**element {
                ChainElement::Member(member) => Self::handle_member_expression(member),
                ChainElement::Call => None,
            },
            _ => None,
        }
    }

    /// The call that stands in parentheses, if it is a call of such an
    /// access.
    pub fn handle_paren_expr(expr: &Expression) -> (call: Option<AccessorCall>)
        ensures
            call == made_call(*expr),
    {
        match expr.without_parenthesized() {
            Expression::Call(callee) => Self::handle_actual_expression(callee),
            _ => None,
        }
    }

    /// Whether the ancestor of `node` at the level at which `expected` takes
    /// its descriptors is such a call.
    fn handle_ancestor(node: &AstNode, ctx: &LintContext, expected: AccessorCall) -> (defined:
        bool)
        ensures
            defined == accessors_defined_at(ctx.nodes, *node, expected.level()),
    {
        let level: usize = match expected {
            AccessorCall::Descriptor => 4,
            AccessorCall::DescriptorMap => 6,
        };
        let found = match ctx.nodes.ancestor(node, level) {
            Some(ancestor) => match &ancestor.kind {
                AstKind::ParenthesizedExpression(expression) => Self::handle_paren_expr(expression),
                AstKind::CallExpression(callee) => Self::handle_actual_expression(callee),
                _ => None,
            },
            None => None,
        };
        match found {
            Some(call) => call == expected,
            None => false,
        }
    }

    /// Checks whether the rule applies to the node: whether it is a getter.
    pub fn is_wanted_node(node: &AstNode, ctx: &LintContext) -> (wanted: bool)
        ensures
            wanted == is_getter(ctx.nodes, *node),
    {
        match ctx.nodes.parent_node(node) {
            Some(parent) => match &parent.kind {
                AstKind::MethodDefinition(kind) => match kind {
                    MethodDefinitionKind::Get => true,
                    _ => false,
                },
                AstKind::ObjectProperty(property) => {
                    match property.kind {
                        PropertyKind::Get => {
                            return true;
                        },
                        _ => {},
                    }
                    if !property.is_specific_static_name("get") {
                        return false;
                    }
                    if Self::handle_ancestor(node, ctx, AccessorCall::Descriptor) {
                        return true;
                    }
                    Self::handle_ancestor(node, ctx, AccessorCall::DescriptorMap)
                },
                _ => false,
            },
            None => false,
        }
    }

    /// Checks one function under the span `span`. Nothing is reported for a
    /// function that is no getter, nor for one whose form suffices, whatever
    /// its graph holds. For any other getter the graph decides.
    pub fn run_diagnostic(&self, node: &AstNode, ctx: &LintContext, span: Span) -> (report: Option<
        Diagnostic,
    >)
        ensures
            report.is_some() == violates(self.allow_implicit, *node, *ctx),
            !is_getter(ctx.nodes, *node) ==> report is None,
            form_of(node.kind).suffices() ==> report is None,
            report matches Some(diagnostic) ==> {
                &&& diagnostic.message@
                    == "eslint(getter-return): Expected to always return a value in getter."@
                &&& diagnostic.help@ == "Return a value from all code paths in getter."@
                &&& diagnostic.label == span
            },
    {
        if !Self::is_wanted_node(node, ctx) {
            return None;
        }
        let form = match &node.kind {
            AstKind::ArrowFunctionExpression(arrow) => FunctionForm {
                concise_body: arrow.expression,
                return_type_admits_undefined: false,
            },
            AstKind::Function(function) => FunctionForm {
                concise_body: false,
                return_type_admits_undefined: function.return_type_maybe_undefined,
            },
            _ => FunctionForm { concise_body: false, return_type_admits_undefined: false },
        };
        match check_function(form, &ctx.cfg, node.cfg_id, self.allow_implicit) {
            Outcome::Pass => None,
            Outcome::Fail => Some(getter_return_diagnostic(span)),
        }
    }
}

} // verus!
