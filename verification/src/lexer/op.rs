//! Binary and unary operator tags shared by tokens and expressions.
use vstd::prelude::*;

verus! {

/// A binary operator of the language, ordered here from arithmetic to
/// comparison to logic. `EqSign` is `==`, `NeqSign` is `!=`.
#[derive(Debug, Clone, Copy, PartialEq, Eq, Structural)]
pub enum BinOp {
    Add,
    Sub,
    Mul,
    Div,
    EqSign,
    NeqSign,
    GreaterSign,
    LessSign,
    GreaterEqSign,
    LessEqSign,
    And,
    Or,
}

/// A unary (prefix) operator. Only `Bang` is ever produced by the lexer;
/// `Minus` exists in the operator set but no rule tokenizes it.
#[derive(Debug, Clone, Copy, PartialEq, Eq, Structural)]
pub enum UnOp {
    Bang,
    Minus,
}

} // verus!
