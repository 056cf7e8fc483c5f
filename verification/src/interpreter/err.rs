//! Errors of the evaluator, and the combined error channel that also
//! carries the non-local return signal.
use vstd::prelude::*;

use crate::expr::{view_expr, Expr, ExprV};
use crate::lexer::err::LexerError;
use crate::parser::err::{ParserError, ParserErrorV};

verus! {

/// The value kinds an operation can demand.
#[derive(Debug, Clone, Copy, PartialEq, Eq, Structural)]
pub enum LexerThingType {
    Int,
    Str,
    Bool,
    Null,
    Ident,
    Func,
}

/// A runtime failure during evaluation.
#[derive(Debug, PartialEq, Eq)]
pub enum RuntimeErr {
    /// A name was declared twice where that is not allowed.
    VarRedefine(String),
    /// A name did not resolve to any binding.
    UndefinedVar(String),
    /// An expression of the wrong shape reached an operation.
    InvalidExpr(Expr),
    /// A value of an unexpected kind was found.
    UnexpectedType(LexerThingType),
    /// A call supplied the wrong number of arguments: expected, found.
    BadArgLength(usize, usize),
    /// A `return` reached the top level, outside any function.
    TopLevelReturn(Expr),
    /// The evaluation depth budget ran out.
    RecursionLimit,
}

/// The mathematical image of a [`RuntimeErr`].
pub enum RuntimeErrV {
    VarRedefine(Seq<char>),
    UndefinedVar(Seq<char>),
    InvalidExpr(ExprV),
    UnexpectedType(LexerThingType),
    BadArgLength(usize, usize),
    TopLevelReturn(ExprV),
    RecursionLimit,
}

impl DeepView for RuntimeErr {
    type V = RuntimeErrV;

    open spec fn deep_view(&self) -> RuntimeErrV {
        match self {
            RuntimeErr::VarRedefine(s) => RuntimeErrV::VarRedefine(s@),
            RuntimeErr::UndefinedVar(s) => RuntimeErrV::UndefinedVar(s@),
            RuntimeErr::InvalidExpr(e) => RuntimeErrV::InvalidExpr(view_expr(*e)),
            RuntimeErr::UnexpectedType(t) => RuntimeErrV::UnexpectedType(*t),
            RuntimeErr::BadArgLength(a, b) => RuntimeErrV::BadArgLength(*a, *b),
            RuntimeErr::TopLevelReturn(e) => RuntimeErrV::TopLevelReturn(view_expr(*e)),
            RuntimeErr::RecursionLimit => RuntimeErrV::RecursionLimit,
        }
    }
}

impl View for RuntimeErr {
    type V = RuntimeErrV;

    open spec fn view(&self) -> RuntimeErrV {
        self.deep_view()
    }
}

/// The combined error channel of the interpreter: lexing, parsing and
/// runtime failures, plus the return signal, which is not an error but
/// unwinds the same way and is caught at function-invocation
/// boundaries.
#[derive(Debug, PartialEq, Eq)]
pub enum InterpErr {
    ParserError(ParserError),
    LexerError(LexerError),
    RuntimeErr(RuntimeErr),
    /// Not really an error: a `return` carrying its value upwards.
    ReturnStmt(Expr),
}

/// The mathematical image of an [`InterpErr`].
pub enum ErrV {
    ParserError(ParserErrorV),
    LexerError(LexerError),
    RuntimeErr(RuntimeErrV),
    ReturnStmt(ExprV),
}

impl DeepView for InterpErr {
    type V = ErrV;

    open spec fn deep_view(&self) -> ErrV {
        match self {
            InterpErr::ParserError(e) => ErrV::ParserError(e.deep_view()),
            InterpErr::LexerError(e) => ErrV::LexerError(*e),
            InterpErr::RuntimeErr(e) => ErrV::RuntimeErr(e.deep_view()),
            InterpErr::ReturnStmt(e) => ErrV::ReturnStmt(view_expr(*e)),
        }
    }
}

impl View for InterpErr {
    type V = ErrV;

    open spec fn view(&self) -> ErrV {
        self.deep_view()
    }
}

} // verus!
