//! Which functions count as getters, on trees written out by hand.

use lint_rules::ast::{
    ArrowFunctionExpression, AstKind, AstNode, AstNodes, ChainElement, Expression, Function,
    MemberExpression, MethodDefinitionKind, ObjectProperty, PropertyKind,
};
use lint_rules::context::LintContext;
use lint_rules::getter_return::{getter_return_diagnostic, AccessorCall, GetterReturn};
use lint_rules::graph::{ControlFlowGraph, EdgeKind, Instruction};
use oxc_span::Span;

fn identifier(name: &str) -> Expression {
    Expression::Identifier(name.to_string())
}

fn parenthesized(inner: Expression) -> Expression {
    Expression::Parenthesized(Box::new(inner))
}

fn access(object: Expression, property: &str) -> MemberExpression {
    MemberExpression { object, property: Some(property.to_string()) }
}

fn member(object: &str, property: &str) -> Expression {
    Expression::Member(Box::new(access(identifier(object), property)))
}

fn optional_member(object: &str, property: &str) -> Expression {
    Expression::Chain(Box::new(ChainElement::Member(access(identifier(object), property))))
}

fn call(callee: Expression) -> Expression {
    Expression::Call(Box::new(callee))
}

fn property(kind: PropertyKind, key: &str) -> AstKind {
    AstKind::ObjectProperty(ObjectProperty { kind, key: Some(key.to_string()) })
}

fn function(start: u32) -> AstKind {
    AstKind::Function(Function {
        span: Span::new(start, start + 10),
        typescript_syntax: false,
        return_type_maybe_undefined: false,
    })
}

/// A tree that is one chain: the first kind is the node looked at, each
/// following kind its parent. All nodes begin in block `cfg_id`.
fn chain(kinds: Vec<AstKind>, cfg_id: usize) -> AstNodes {
    let count = kinds.len();
    let nodes = kinds
        .into_iter()
        .enumerate()
        .map(|(i, kind)| AstNode { kind, parent: if i + 1 < count { Some(i + 1) } else { None }, cfg_id })
        .collect();
    AstNodes { nodes }
}

/// A graph whose block 0 falls off the end and whose block 1 returns a value.
fn two_bodies() -> ControlFlowGraph {
    let mut graph = ControlFlowGraph::new();
    graph.add_block(vec![Instruction::Statement]);
    graph.add_block(vec![Instruction::Return { has_value: true }]);
    graph.add_block(vec![Instruction::Return { has_value: false }]);
    graph.add_edge(0, 1, EdgeKind::ErrorPropagation);
    graph
}

fn context(kinds: Vec<AstKind>, cfg_id: usize) -> LintContext {
    LintContext { typescript: false, nodes: chain(kinds, cfg_id), cfg: two_bodies() }
}

fn wanted(kinds: Vec<AstKind>) -> bool {
    let ctx = context(kinds, 0);
    GetterReturn::is_wanted_node(&ctx.nodes.nodes[0], &ctx)
}

/// The ancestors of a function that stands under the key `key` in a
/// descriptor passed to a call of `callee`.
fn keyed_descriptor_in_call(key: &str, callee: Expression) -> Vec<AstKind> {
    vec![
        function(0),
        property(PropertyKind::Init, key),
        AstKind::Other,
        AstKind::Other,
        AstKind::CallExpression(callee),
        AstKind::Other,
    ]
}

/// The same, one object of descriptors further in.
fn keyed_descriptor_map_in_call(key: &str, callee: Expression) -> Vec<AstKind> {
    vec![
        function(0),
        property(PropertyKind::Init, key),
        AstKind::Other,
        property(PropertyKind::Init, "bar"),
        AstKind::Other,
        AstKind::Other,
        AstKind::CallExpression(callee),
        AstKind::Other,
    ]
}

fn descriptor_in_call(callee: Expression) -> Vec<AstKind> {
    keyed_descriptor_in_call("get", callee)
}

fn descriptor_map_in_call(callee: Expression) -> Vec<AstKind> {
    keyed_descriptor_map_in_call("get", callee)
}

#[test]
fn class_getter_is_wanted() {
    assert!(wanted(vec![function(0), AstKind::MethodDefinition(MethodDefinitionKind::Get), AstKind::Other]));
}

#[test]
fn other_class_members_are_not_wanted() {
    for kind in [
        MethodDefinitionKind::Method,
        MethodDefinitionKind::Setter,
        MethodDefinitionKind::Constructor,
    ] {
        assert!(!wanted(vec![function(0), AstKind::MethodDefinition(kind), AstKind::Other]));
    }
}

#[test]
fn object_getter_is_wanted() {
    assert!(wanted(vec![function(0), property(PropertyKind::Get, "bar"), AstKind::Other]));
    assert!(wanted(vec![
        function(0),
        AstKind::ObjectProperty(ObjectProperty { kind: PropertyKind::Get, key: None }),
        AstKind::Other,
    ]));
}

#[test]
fn plain_object_method_is_not_wanted() {
    assert!(!wanted(vec![function(0), property(PropertyKind::Init, "get"), AstKind::Other]));
    assert!(!wanted(vec![function(0), property(PropertyKind::Setter, "get"), AstKind::Other]));
    assert!(!wanted(vec![
        function(0),
        property(PropertyKind::Init, "get"),
        AstKind::Other,
        AstKind::Other,
        AstKind::Other,
        AstKind::Other,
        AstKind::Other,
    ]));
}

#[test]
fn function_without_parent_is_not_wanted() {
    assert!(!wanted(vec![function(0)]));
    let ctx = LintContext {
        typescript: false,
        nodes: AstNodes { nodes: vec![AstNode { kind: function(0), parent: Some(5), cfg_id: 0 }] },
        cfg: two_bodies(),
    };
    assert!(!GetterReturn::is_wanted_node(&ctx.nodes.nodes[0], &ctx));
}

#[test]
fn function_under_other_parents_is_not_wanted() {
    assert!(!wanted(vec![function(0), AstKind::Other]));
    assert!(!wanted(vec![function(0), AstKind::CallExpression(member("Object", "defineProperty"))]));
    assert!(!wanted(vec![function(0), function(20)]));
}

#[test]
fn descriptor_of_each_watched_method_is_wanted() {
    assert!(wanted(descriptor_in_call(member("Object", "defineProperty"))));
    assert!(wanted(descriptor_in_call(member("Reflect", "defineProperty"))));
    assert!(wanted(descriptor_map_in_call(member("Object", "create"))));
    assert!(wanted(descriptor_map_in_call(member("Object", "defineProperties"))));
}

#[test]
fn each_method_counts_at_its_own_level_only() {
    assert!(!wanted(descriptor_map_in_call(member("Object", "defineProperty"))));
    assert!(!wanted(descriptor_map_in_call(member("Reflect", "defineProperty"))));
    assert!(!wanted(descriptor_in_call(member("Object", "create"))));
    assert!(!wanted(descriptor_in_call(member("Object", "defineProperties"))));
}

#[test]
fn property_under_another_key_is_not_wanted() {
    for key in ["set", "value", "writable", "Get", "get ", "getter", ""] {
        assert!(!wanted(keyed_descriptor_in_call(key, member("Object", "defineProperty"))), "{key}");
        assert!(!wanted(keyed_descriptor_map_in_call(key, member("Object", "create"))), "{key}");
    }
    let mut computed = descriptor_in_call(member("Object", "defineProperty"));
    computed[1] = AstKind::ObjectProperty(ObjectProperty { kind: PropertyKind::Init, key: None });
    assert!(!wanted(computed));
    let mut setter = descriptor_in_call(member("Object", "defineProperty"));
    setter[1] = property(PropertyKind::Setter, "set");
    assert!(!wanted(setter));
}

#[test]
fn key_of_the_outer_property_does_not_matter() {
    let mut kinds = descriptor_map_in_call(member("Object", "defineProperties"));
    kinds[3] = property(PropertyKind::Init, "set");
    assert!(wanted(kinds));
    let mut kinds = descriptor_map_in_call(member("Object", "defineProperties"));
    kinds[3] = AstKind::Other;
    assert!(wanted(kinds));
}

#[test]
fn descriptor_of_other_calls_is_not_wanted() {
    for (object, method) in [
        ("foo", "defineProperty"),
        ("foo", "defineProperties"),
        ("foo", "create"),
        ("Reflect", "create"),
        ("Reflect", "defineProperties"),
        ("Object", "freeze"),
        ("object", "defineProperty"),
        ("Object", "defineproperty"),
        ("Object", ""),
        ("", "create"),
    ] {
        assert!(!wanted(descriptor_in_call(member(object, method))));
        assert!(!wanted(descriptor_map_in_call(member(object, method))));
    }
    assert!(!wanted(descriptor_in_call(identifier("defineProperty"))));
    assert!(!wanted(descriptor_in_call(Expression::Other)));
}

#[test]
fn call_at_other_levels_is_not_seen() {
    let callee = || member("Object", "defineProperty");
    for level in [2usize, 3, 5, 6, 7] {
        let mut kinds = vec![function(0), property(PropertyKind::Init, "get")];
        while kinds.len() < level {
            kinds.push(AstKind::Other);
        }
        kinds.push(AstKind::CallExpression(callee()));
        kinds.push(AstKind::Other);
        assert!(!wanted(kinds), "level {level}");
    }
}

#[test]
fn call_at_level_six_counts_when_level_four_is_another_call() {
    assert!(wanted(vec![
        function(0),
        property(PropertyKind::Init, "get"),
        AstKind::Other,
        AstKind::Other,
        AstKind::CallExpression(member("foo", "bar")),
        AstKind::Other,
        AstKind::CallExpression(member("Object", "create")),
    ]));
    assert!(wanted(vec![
        function(0),
        property(PropertyKind::Init, "get"),
        AstKind::Other,
        AstKind::Other,
        AstKind::CallExpression(member("Object", "create")),
        AstKind::Other,
        AstKind::CallExpression(member("Object", "defineProperties")),
    ]));
    assert!(wanted(vec![
        function(0),
        property(PropertyKind::Init, "get"),
        AstKind::Other,
        AstKind::Other,
        AstKind::ParenthesizedExpression(Expression::Other),
        AstKind::Other,
        AstKind::ParenthesizedExpression(call(member("Object", "create"))),
    ]));
}

#[test]
fn optional_chain_and_parentheses_are_seen_through() {
    assert!(wanted(descriptor_in_call(optional_member("Object", "defineProperty"))));
    assert!(wanted(descriptor_in_call(parenthesized(optional_member("Object", "defineProperty")))));
    assert!(wanted(descriptor_in_call(parenthesized(parenthesized(member("Reflect", "defineProperty"))))));
    assert!(wanted(descriptor_map_in_call(parenthesized(parenthesized(member("Object", "create"))))));
    assert!(wanted(descriptor_map_in_call(parenthesized(optional_member("Object", "create")))));
    assert!(!wanted(descriptor_in_call(optional_member("foo", "defineProperty"))));
    assert!(!wanted(descriptor_in_call(Expression::Chain(Box::new(ChainElement::Call)))));
}

#[test]
fn parenthesized_call_is_seen() {
    let inner = || call(member("Reflect", "defineProperty"));
    let under = |expression: Expression| {
        vec![
            function(0),
            property(PropertyKind::Init, "get"),
            AstKind::Other,
            AstKind::Other,
            AstKind::ParenthesizedExpression(expression),
        ]
    };
    assert!(wanted(under(inner())));
    assert!(wanted(under(parenthesized(inner()))));
    assert!(!wanted(under(member("Reflect", "defineProperty"))));
    assert!(!wanted(under(call(member("foo", "defineProperty")))));
}

#[test]
fn handlers_agree_on_each_shape() {
    let one = Some(AccessorCall::Descriptor);
    let map = Some(AccessorCall::DescriptorMap);
    let handle = |object: &str, property: &str| {
        GetterReturn::handle_member_expression(&access(identifier(object), property))
    };
    assert_eq!(handle("Object", "defineProperty"), one);
    assert_eq!(handle("Reflect", "defineProperty"), one);
    assert_eq!(handle("Object", "create"), map);
    assert_eq!(handle("Object", "defineProperties"), map);
    assert_eq!(handle("Object", "keys"), None);
    assert_eq!(handle("Reflect", "create"), None);
    assert_eq!(
        GetterReturn::handle_member_expression(&MemberExpression {
            object: identifier("Object"),
            property: None,
        }),
        None
    );
    assert_eq!(GetterReturn::handle_actual_expression(&member("Object", "create")), map);
    assert_eq!(
        GetterReturn::handle_actual_expression(&parenthesized(member("Reflect", "defineProperty"))),
        one
    );
    assert_eq!(GetterReturn::handle_actual_expression(&optional_member("Object", "create")), map);
    assert_eq!(GetterReturn::handle_actual_expression(&call(member("Object", "create"))), None);
    assert_eq!(GetterReturn::handle_actual_expression(&identifier("Object")), None);
    assert_eq!(GetterReturn::handle_paren_expr(&call(member("Object", "create"))), map);
    assert_eq!(
        GetterReturn::handle_paren_expr(&parenthesized(call(optional_member("Object", "defineProperty")))),
        one
    );
    assert_eq!(GetterReturn::handle_paren_expr(&member("Object", "create")), None);
    assert_eq!(GetterReturn::handle_paren_expr(&Expression::Other), None);
}

#[test]
fn property_keys_are_compared_whole() {
    let keyed = |key: Option<&str>| ObjectProperty {
        kind: PropertyKind::Init,
        key: key.map(str::to_string),
    };
    assert!(keyed(Some("get")).is_specific_static_name("get"));
    assert!(!keyed(Some("get")).is_specific_static_name("set"));
    assert!(!keyed(Some("getter")).is_specific_static_name("get"));
    assert!(!keyed(Some("")).is_specific_static_name("get"));
    assert!(!keyed(None).is_specific_static_name("get"));
}

#[test]
fn member_access_through_an_optional_chain() {
    let plain = access(identifier("Object"), "create");
    assert!(plain.through_optional_is_specific_member_access("Object", "create"));
    assert!(!plain.through_optional_is_specific_member_access("Object", "assign"));
    assert!(!plain.through_optional_is_specific_member_access("Reflect", "create"));
    let wrapped = access(parenthesized(parenthesized(identifier("Object"))), "create");
    assert!(wrapped.through_optional_is_specific_member_access("Object", "create"));
    let typed = access(Expression::TypeWrapped(Box::new(identifier("Object"))), "create");
    assert!(typed.through_optional_is_specific_member_access("Object", "create"));
    let chained = access(parenthesized(optional_member("Object", "prototype")), "create");
    assert!(chained.through_optional_is_specific_member_access("Object", "create"));
    let chained_call = access(Expression::Chain(Box::new(ChainElement::Call)), "create");
    assert!(!chained_call.through_optional_is_specific_member_access("Object", "create"));
    let nested = access(member("Object", "prototype"), "create");
    assert!(!nested.through_optional_is_specific_member_access("Object", "create"));
    let computed = MemberExpression { object: identifier("Object"), property: None };
    assert!(!computed.through_optional_is_specific_member_access("Object", "create"));
    assert_eq!(computed.static_property_name(), None);
    assert_eq!(plain.static_property_name(), Some("create"));
}

#[test]
fn expressions_are_unwrapped() {
    let inner = identifier("x");
    let wrapped = parenthesized(parenthesized(identifier("x")));
    assert_eq!(wrapped.without_parenthesized(), &inner);
    assert_eq!(inner.without_parenthesized(), &inner);
    let typed = parenthesized(Expression::TypeWrapped(Box::new(parenthesized(identifier("x")))));
    assert_eq!(typed.get_inner_expression(), &inner);
    assert!(matches!(typed.without_parenthesized(), Expression::TypeWrapped(_)));
    assert!(typed.is_specific_id("x"));
    assert!(!typed.is_specific_id("y"));
    assert!(!call(identifier("x")).is_specific_id("x"));
}

#[test]
fn ancestors_are_found_by_level() {
    let nodes = chain(vec![function(0), AstKind::Other, function(20)], 0);
    let start = &nodes.nodes[0];
    assert_eq!(nodes.ancestor(start, 0), Some(&nodes.nodes[0]));
    assert_eq!(nodes.ancestor(start, 1), Some(&nodes.nodes[1]));
    assert_eq!(nodes.ancestor(start, 2), Some(&nodes.nodes[2]));
    assert_eq!(nodes.ancestor(start, 3), None);
    assert_eq!(nodes.ancestor(start, 30), None);
    assert_eq!(nodes.parent_node(start), Some(&nodes.nodes[1]));
    assert_eq!(nodes.parent_node(&nodes.nodes[2]), None);
}

#[test]
fn getter_that_falls_off_the_end_is_reported() {
    let ctx = context(
        vec![function(7), AstKind::MethodDefinition(MethodDefinitionKind::Get), AstKind::Other],
        0,
    );
    let rule = GetterReturn { allow_implicit: false };
    let report = rule.run(&ctx.nodes.nodes[0], &ctx);
    assert_eq!(report, Some(getter_return_diagnostic(Span::new(7, 17))));
    assert_eq!(rule.run(&ctx.nodes.nodes[1], &ctx), None);
    assert_eq!(rule.run(&ctx.nodes.nodes[2], &ctx), None);
}

#[test]
fn getter_that_returns_is_not_reported() {
    let ctx = context(
        vec![function(7), AstKind::MethodDefinition(MethodDefinitionKind::Get), AstKind::Other],
        1,
    );
    assert_eq!(GetterReturn { allow_implicit: false }.run(&ctx.nodes.nodes[0], &ctx), None);
}

#[test]
fn getter_with_bare_return_follows_the_option() {
    let ctx = context(
        vec![function(7), property(PropertyKind::Get, "bar"), AstKind::Other],
        2,
    );
    let node = &ctx.nodes.nodes[0];
    assert!(GetterReturn { allow_implicit: false }.run(node, &ctx).is_some());
    assert_eq!(GetterReturn { allow_implicit: true }.run(node, &ctx), None);
}

#[test]
fn function_that_is_no_getter_is_not_checked() {
    let ctx = context(vec![function(7), property(PropertyKind::Init, "get"), AstKind::Other], 0);
    let rule = GetterReturn { allow_implicit: false };
    assert_eq!(rule.run(&ctx.nodes.nodes[0], &ctx), None);
    assert_eq!(rule.run_diagnostic(&ctx.nodes.nodes[0], &ctx, Span::new(7, 17)), None);
}

#[test]
fn concise_arrow_function_passes_whatever_its_graph() {
    for cfg_id in [0usize, 2, 99] {
        let concise = AstKind::ArrowFunctionExpression(ArrowFunctionExpression {
            span: Span::new(3, 9),
            expression: true,
        });
        let ctx = context(descriptor_in_call_with(concise), cfg_id);
        assert_eq!(GetterReturn { allow_implicit: false }.run(&ctx.nodes.nodes[0], &ctx), None);
    }
    let block_bodied = AstKind::ArrowFunctionExpression(ArrowFunctionExpression {
        span: Span::new(3, 9),
        expression: false,
    });
    let ctx = context(descriptor_in_call_with(block_bodied), 0);
    let report = GetterReturn { allow_implicit: false }.run(&ctx.nodes.nodes[0], &ctx);
    assert_eq!(report.map(|diagnostic| diagnostic.label), Some(Span::new(3, 9)));
}

fn descriptor_in_call_with(node: AstKind) -> Vec<AstKind> {
    let mut kinds = descriptor_in_call(member("Object", "defineProperty"));
    kinds[0] = node;
    kinds
}

#[test]
fn return_type_that_admits_undefined_passes() {
    let kind = |maybe_undefined: bool| {
        AstKind::Function(Function {
            span: Span::new(0, 4),
            typescript_syntax: false,
            return_type_maybe_undefined: maybe_undefined,
        })
    };
    let parent = || AstKind::MethodDefinition(MethodDefinitionKind::Get);
    let ctx = context(vec![kind(true), parent()], 0);
    assert_eq!(GetterReturn { allow_implicit: false }.run(&ctx.nodes.nodes[0], &ctx), None);
    let ctx = context(vec![kind(false), parent()], 0);
    assert!(GetterReturn { allow_implicit: false }.run(&ctx.nodes.nodes[0], &ctx).is_some());
}

#[test]
fn declarations_for_the_type_checker_are_skipped() {
    let declared = AstKind::Function(Function {
        span: Span::new(0, 4),
        typescript_syntax: true,
        return_type_maybe_undefined: false,
    });
    let ctx = context(vec![declared, AstKind::MethodDefinition(MethodDefinitionKind::Get)], 0);
    let rule = GetterReturn { allow_implicit: false };
    assert_eq!(rule.run(&ctx.nodes.nodes[0], &ctx), None);
    assert!(rule.run_diagnostic(&ctx.nodes.nodes[0], &ctx, Span::new(0, 4)).is_some());
}

#[test]
fn typescript_files_are_skipped() {
    let mut ctx = context(
        vec![function(7), AstKind::MethodDefinition(MethodDefinitionKind::Get), AstKind::Other],
        0,
    );
    ctx.typescript = true;
    assert_eq!(GetterReturn { allow_implicit: false }.run(&ctx.nodes.nodes[0], &ctx), None);
}

#[test]
fn getter_with_unknown_block_is_reported() {
    let ctx = context(
        vec![function(7), AstKind::MethodDefinition(MethodDefinitionKind::Get), AstKind::Other],
        40,
    );
    assert!(GetterReturn { allow_implicit: true }.run(&ctx.nodes.nodes[0], &ctx).is_some());
}

#[test]
fn diagnostic_text_is_fixed() {
    let diagnostic = getter_return_diagnostic(Span::new(1, 2));
    assert_eq!(
        diagnostic.message,
        "eslint(getter-return): Expected to always return a value in getter."
    );
    assert_eq!(diagnostic.help, "Return a value from all code paths in getter.");
    assert_eq!(diagnostic.label, Span::new(1, 2));
}
