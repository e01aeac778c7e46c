//! Operators of the language.

use vstd::prelude::*;

verus! {

/// A prefix operator.
#[derive(Clone, Copy, Debug, PartialEq, Eq, Structural)]
pub enum UnaryOperator {
    UnaryNegation,
    UnaryPlus,
    LogicalNot,
    BitwiseNot,
    Typeof,
    Void,
    Delete,
}

/// An operator between two operands.
#[derive(Clone, Copy, Debug, PartialEq, Eq, Structural)]
pub enum BinaryOperator {
    Equality,
    Inequality,
    StrictEquality,
    StrictInequality,
    LessThan,
    LessEqualThan,
    GreaterThan,
    GreaterEqualThan,
    ShiftLeft,
    ShiftRight,
    ShiftRightZeroFill,
    Addition,
    Subtraction,
    Multiplication,
    Division,
    Remainder,
    BitwiseOR,
    BitwiseXOR,
    BitwiseAnd,
    In,
    Instanceof,
    Exponential,
}

impl BinaryOperator {
    /// The operator is `in` or `instanceof`.
    pub open spec fn relational(self) -> bool {
        self == BinaryOperator::In || self == BinaryOperator::Instanceof
    }

    /// The operator is one of `<`, `<=`, `>`, `>=`.
    pub open spec fn compare(self) -> bool {
        ||| self == BinaryOperator::LessThan
        ||| self == BinaryOperator::LessEqualThan
        ||| self == BinaryOperator::GreaterThan
        ||| self == BinaryOperator::GreaterEqualThan
    }

    /// The operator as it is written.
    pub open spec fn text(self) -> Seq<char> {
        match self {
            BinaryOperator::Equality => "=="@,
            BinaryOperator::Inequality => "!="@,
            BinaryOperator::StrictEquality => "==="@,
            BinaryOperator::StrictInequality => "!=="@,
            BinaryOperator::LessThan => "<"@,
            BinaryOperator::LessEqualThan => "<="@,
            BinaryOperator::GreaterThan => ">"@,
            BinaryOperator::GreaterEqualThan => ">="@,
            BinaryOperator::ShiftLeft => "<<"@,
            BinaryOperator::ShiftRight => ">>"@,
            BinaryOperator::ShiftRightZeroFill => ">>>"@,
            BinaryOperator::Addition => "+"@,
            BinaryOperator::Subtraction => "-"@,
            BinaryOperator::Multiplication => "*"@,
            BinaryOperator::Division => "/"@,
            BinaryOperator::Remainder => "%"@,
            BinaryOperator::BitwiseOR => "|"@,
            BinaryOperator::BitwiseXOR => "^"@,
            BinaryOperator::BitwiseAnd => "&"@,
            BinaryOperator::In => "in"@,
            BinaryOperator::Instanceof => "instanceof"@,
            BinaryOperator::Exponential => "**"@,
        }
    }

    /// Whether the operator is `in` or `instanceof`.
    pub fn is_relational(self) -> (is: bool)
        ensures
            is == self.relational(),
    {
        match self {
            BinaryOperator::In => true,
            BinaryOperator::Instanceof => true,
            _ => false,
        }
    }

    /// Whether the operator compares by order.
    pub fn is_compare(self) -> (is: bool)
        ensures
            is == self.compare(),
    {
        match self {
            BinaryOperator::LessThan => true,
            BinaryOperator::LessEqualThan => true,
            BinaryOperator::GreaterThan => true,
            BinaryOperator::GreaterEqualThan => true,
            _ => false,
        }
    }

    /// The operator as it is written.
    pub fn as_str(&self) -> (written: &'static str)
        ensures
            written@ == self.text(),
    {
        match self {
            BinaryOperator::Equality => "==",
            BinaryOperator::Inequality => "!=",
            BinaryOperator::StrictEquality => "===",
            BinaryOperator::StrictInequality => "!==",
            BinaryOperator::LessThan => "<",
            BinaryOperator::LessEqualThan => "<=",
            BinaryOperator::GreaterThan => ">",
            BinaryOperator::GreaterEqualThan => ">=",
            BinaryOperator::ShiftLeft => "<<",
            BinaryOperator::ShiftRight => ">>",
            BinaryOperator::ShiftRightZeroFill => ">>>",
            BinaryOperator::Addition => "+",
            BinaryOperator::Subtraction => "-",
            BinaryOperator::Multiplication => "*",
            BinaryOperator::Division => "/",
            BinaryOperator::Remainder => "%",
            BinaryOperator::BitwiseOR => "|",
            BinaryOperator::BitwiseXOR => "^",
            BinaryOperator::BitwiseAnd => "&",
            BinaryOperator::In => "in",
            BinaryOperator::Instanceof => "instanceof",
            BinaryOperator::Exponential => "**",
        }
    }
}

} // verus!
