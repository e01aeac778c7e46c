//! The parts of a syntax tree that the rules read, as plain values.

use vstd::prelude::*;
use oxc_span::Span;
use crate::operator::{BinaryOperator, UnaryOperator};
use crate::text::same_text;

verus! {

/// The kind of a class member written as a method.
#[derive(Clone, Copy, Debug, PartialEq, Eq, Structural)]
pub enum MethodDefinitionKind {
    Constructor,
    Method,
    Get,
    Setter,
}

/// The kind of a property of an object literal.
#[derive(Clone, Copy, Debug, PartialEq, Eq, Structural)]
pub enum PropertyKind {
    Init,
    Get,
    Setter,
}

/// An expression, as far as its shape matters here.
#[derive(Debug, PartialEq, Eq)]
pub enum Expression {
    /// A reference to a name.
    Identifier(String),
    /// `( expression )`
    Parenthesized(Box<Expression>),
    /// An expression under a type-level wrapper that leaves its value alone,
    /// such as a type assertion.
    TypeWrapped(Box<Expression>),
    /// A call; the field is the callee.
    Call(Box<Expression>),
    /// `object.property`, `object[property]` or `object.#property`
    Member(Box<MemberExpression>),
    /// An optional chain.
    Chain(Box<ChainElement>),
    /// A prefix operator applied to an expression.
    Unary(UnaryOperator, Box<Expression>),
    /// Anything else.
    Other,
}

/// A member access.
#[derive(Debug, PartialEq, Eq)]
pub struct MemberExpression {
    pub object: Expression,
    /// The name of the property where the source fixes it: an identifier
    /// after the dot, or a string or plain template literal in brackets.
    pub property: Option<String>,
}

/// What an optional chain ends in.
#[derive(Debug, PartialEq, Eq)]
pub enum ChainElement {
    Call,
    Member(MemberExpression),
}

/// `expression` without the parentheses around it.
pub open spec fn strip_parentheses(expression: Expression) -> Expression
    decreases expression,
{
    match expression {
        Expression::Parenthesized(inner) => strip_parentheses(*inner),
        _ => expression,
    }
}

/// `expression` without the parentheses and type-level wrappers around it.
pub open spec fn strip_wrappers(expression: Expression) -> Expression
    decreases expression,
{
    match expression {
        Expression::Parenthesized(inner) => strip_wrappers(*inner),
        Expression::TypeWrapped(inner) => strip_wrappers(*inner),
        _ => expression,
    }
}

/// `expression`, under parentheses and type-level wrappers, is a reference to
/// `name`.
pub open spec fn names(expression: Expression, name: Seq<char>) -> bool {
    match strip_wrappers(expression) {
        Expression::Identifier(found) => found@ == name,
        _ => false,
    }
}

/// The object of a member access, seen through one optional chain: where the
/// object, under parentheses, is a chain that ends in a member access, that
/// inner access's object without parentheses; where it is a chain that ends in
/// a call, nothing; otherwise the object without parentheses.
pub open spec fn object_through_optional(member: MemberExpression) -> Option<Expression> {
    match strip_parentheses(member.object) {
        Expression::Chain(element) => match *element {
            ChainElement::Call => None,
            ChainElement::Member(inner) => Some(strip_parentheses(inner.object)),
        },
        other => Some(other),
    }
}

/// `member` reads `property` of `object`, where the object may stand behind
/// one optional chain.
pub open spec fn is_member_access(
    member: MemberExpression,
    object: Seq<char>,
    property: Seq<char>,
) -> bool {
    &&& object_through_optional(member) matches Some(found) && names(found, object)
    &&& member.property matches Some(found) && found@ == property
}

impl Expression {
    /// Removes nested parentheses from this expression.
    pub fn without_parenthesized(&self) -> (inner: &Expression)
        ensures
            *inner == strip_parentheses(*self),
        decreases *self,
    {
        match self {
            Expression::Parenthesized(inner) => inner.without_parenthesized(),
            _ => self,
        }
    }

    /// Removes nested parentheses and type-level wrappers from this
    /// expression.
    pub fn get_inner_expression(&self) -> (inner: &Expression)
        ensures
            *inner == strip_wrappers(*self),
        decreases *self,
    {
        match self {
            Expression::Parenthesized(inner) => inner.get_inner_expression(),
            Expression::TypeWrapped(inner) => inner.get_inner_expression(),
            _ => self,
        }
    }

    /// Whether this expression is a reference to `name`.
    pub fn is_specific_id(&self, name: &str) -> (is: bool)
        ensures
            is == names(*self, name@),
    {
        match self.get_inner_expression() {
            Expression::Identifier(found) => same_text(found.as_str(), name),
            _ => false,
        }
    }
}

impl MemberExpression {
    /// The name of the property, where the source fixes it.
    pub fn static_property_name(&self) -> (name: Option<&str>)
        ensures
            name.is_some() == self.property.is_some(),
            name matches Some(found) ==> found@ == self.property->0@,
    {
        match &self.property {
            Some(found) => Some(found.as_str()),
            None => None,
        }
    }

    /// Whether this is the access `object.property`, with or without an
    /// optional chain on the object.
    pub fn through_optional_is_specific_member_access(&self, object: &str, property: &str) -> (is:
        bool)
        ensures
            is == is_member_access(*self, object@, property@),
    {
        let object_matches = match self.object.without_parenthesized() {
            Expression::Chain(element) => match &**element {
                ChainElement::Call => false,
                ChainElement::Member(inner) => inner.object.without_parenthesized().is_specific_id(
                    object,
                ),
            },
            other => other.is_specific_id(object),
        };
        let property_matches = match self.static_property_name() {
            Some(found) => same_text(found, property),
            None => false,
        };
        object_matches && property_matches
    }
}

/// A function declaration or function expression.
#[derive(Clone, Debug, PartialEq, Eq)]
pub struct Function {
    pub span: Span,
    /// The function exists for the type checker only: a declaration without
    /// a body.
    pub typescript_syntax: bool,
    /// The function declares a return type that admits `undefined`.
    pub return_type_maybe_undefined: bool,
}

/// An arrow function.
#[derive(Clone, Debug, PartialEq, Eq)]
pub struct ArrowFunctionExpression {
    pub span: Span,
    /// The body is a bare expression, as in `() => value`.
    pub expression: bool,
}

/// A property of an object literal.
#[derive(Debug, PartialEq, Eq)]
pub struct ObjectProperty {
    pub kind: PropertyKind,
    /// The name of the property where the source fixes it: an identifier or
    /// a literal as key. `None` for a key that is computed at run time.
    pub key: Option<String>,
}

impl ObjectProperty {
    /// The property is written under the key `name`.
    pub open spec fn is_keyed(self, name: Seq<char>) -> bool {
        self.key matches Some(key) && key@ == name
    }

    /// Whether the property is written under the key `name`.
    pub fn is_specific_static_name(&self, name: &str) -> (is: bool)
        ensures
            is == self.is_keyed(name@),
    {
        match &self.key {
            Some(key) => same_text(key.as_str(), name),
            None => false,
        }
    }
}

/// Two operands with an operator between them.
#[derive(Debug, PartialEq, Eq)]
pub struct BinaryExpression {
    pub span: Span,
    pub left: Expression,
    /// Where the left operand stands.
    pub left_span: Span,
    pub operator: BinaryOperator,
}

/// What a node of the tree is.
#[derive(Debug, PartialEq, Eq)]
pub enum AstKind {
    Function(Function),
    ArrowFunctionExpression(ArrowFunctionExpression),
    /// A method of a class, with its kind.
    MethodDefinition(MethodDefinitionKind),
    /// A property of an object literal.
    ObjectProperty(ObjectProperty),
    /// A parenthesized expression; the field is what stands in the
    /// parentheses.
    ParenthesizedExpression(Expression),
    /// A call; the field is the callee.
    CallExpression(Expression),
    BinaryExpression(BinaryExpression),
    /// Any other node.
    Other,
}

/// A node of the tree.
#[derive(Debug, PartialEq, Eq)]
pub struct AstNode {
    pub kind: AstKind,
    /// Index of the parent node; `None` at the root.
    pub parent: Option<usize>,
    /// Index of the basic block in which the node begins.
    pub cfg_id: usize,
}

/// The nodes of one tree. A node is named by its index.
#[derive(Debug, PartialEq, Eq)]
pub struct AstNodes {
    pub nodes: Vec<AstNode>,
}

impl AstNodes {
    /// The parent of `node`: the node with the index that `node` names as its
    /// parent, if there is such a node.
    pub open spec fn parent_of(&self, node: AstNode) -> Option<AstNode> {
        match node.parent {
            Some(parent) => if parent < self.nodes@.len() {
                Some(self.nodes@[parent as int])
            } else {
                None
            },
            None => None,
        }
    }

    /// The ancestor of `node` that stands `level` steps above it; at level 0
    /// the node itself.
    pub open spec fn ancestor_of(&self, node: AstNode, level: nat) -> Option<AstNode>
        decreases level,
    {
        if level == 0 {
            Some(node)
        } else {
            match self.ancestor_of(node, (level - 1) as nat) {
                Some(below) => self.parent_of(below),
                None => None,
            }
        }
    }

    /// The parent of `node`.
    pub fn parent_node(&self, node: &AstNode) -> (parent: Option<&AstNode>)
        ensures
            parent.is_some() == self.parent_of(*node).is_some(),
            parent matches Some(found) ==> *found == self.parent_of(*node)->0,
    {
        match node.parent {
            Some(parent) => {
                if parent < self.nodes.len() {
                    Some(&self.nodes[parent])
                } else {
                    None
                }
            },
            None => None,
        }
    }

    /// The ancestor of `node` that stands `level` steps above it.
    pub fn ancestor<'a>(&'a self, node: &'a AstNode, level: usize) -> (found: Option<&'a AstNode>)
        ensures
            found.is_some() == self.ancestor_of(*node, level as nat).is_some(),
            found matches Some(ancestor) ==> *ancestor == self.ancestor_of(*node, level as nat)->0,
    {
        let mut current: &AstNode = node;
        let mut i: usize = 0;
        while i < level
            invariant
                i <= level,
                self.ancestor_of(*node, i as nat) == Some(*current),
            decreases level - i,
        {
            match self.parent_node(current) {
                Some(parent) => {
                    current = parent;
                },
                None => {
                    proof {
                        self.lemma_no_ancestor_above(*node, (i + 1) as nat, level as nat);
                    }
                    return None;
                },
            }
            i = i + 1;
        }
        Some(current)
    }

    /// Where a node has no ancestor at one level, it has none above it.
    pub proof fn lemma_no_ancestor_above(&self, node: AstNode, level: nat, above: nat)
        requires
            self.ancestor_of(node, level) is None,
            level <= above,
        ensures
            self.ancestor_of(node, above) is None,
        decreases above,
    {
        if level < above {
            self.lemma_no_ancestor_above(node, level, (above - 1) as nat);
        }
    }
}

} // verus!
