//! The shapes of a parsed expression that the numeric-compatibility
//! rewriting reads.

use vstd::prelude::*;

verus! {

/// One node of a parsed expression.
///
/// Operators are calls under reserved names (`_+_`, `_[_]`, `_?_:_`, ...),
/// without a target and with their operands as arguments.
#[derive(Debug, PartialEq)]
pub enum Expr {
    /// A signed integer literal.
    Int(i64),
    /// A floating-point literal, held as the shortest decimal text that
    /// reads back as the same number (`3`, `2.5`, `-0`, `inf`).
    Double(String),
    /// A string literal, by its value.
    Str(String),
    /// `true` or `false`.
    Bool(bool),
    /// `null`.
    Null,
    /// A byte-string literal, by its value.
    Bytes(Vec<u8>),
    /// A name.
    Ident(String),
    /// A function, method or operator call.
    Call { func_name: String, target: Option<Box<Expr>>, args: Vec<Expr> },
    /// `operand.field`, or the presence test `has(operand.field)`.
    Select { operand: Box<Expr>, field: String, test: bool },
    /// `[a, b, ...]`.
    NewList(Vec<Expr>),
    /// `{k: v, ...}`, as pairs of key and value.
    NewMap(Vec<(Expr, Expr)>),
    /// A comprehension (the expansion of `all`, `exists`, `map`, `filter`).
    Comprehension,
    /// Any other node.
    Unsupported,
}

/// The operators that are written with symbols.
#[derive(Clone, Copy, Debug, PartialEq, Eq, Structural)]
pub enum Operator {
    Add,
    Subtract,
    Multiply,
    Divide,
    Remainder,
    Equals,
    NotEquals,
    Less,
    LessEquals,
    Greater,
    GreaterEquals,
    And,
    Or,
    Not,
    Negate,
    Conditional,
    Index,
}

} // verus!
