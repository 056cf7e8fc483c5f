//! Statements of the language and their spec-level view.
use vstd::prelude::*;

use crate::expr::{Expr, ExprV};

verus! {

/// A statement of the language.
#[derive(Debug, PartialEq, Eq)]
pub enum Stmt {
    /// Introduces a new binding in the current scope.
    Declaration(Declaration),
    /// Updates an existing binding, searching up the environment chain.
    Assignment(Declaration),
    /// Evaluates an expression and emits its display form.
    Print(Expr),
    /// Evaluates an expression for its side effects.
    Expr(Expr),
    /// Runs statements in a fresh child scope.
    Block(Vec<Stmt>),
    /// Conditional with an optional else branch; the condition must
    /// evaluate to a boolean.
    If(Expr, Box<Stmt>, Option<Box<Stmt>>),
    /// Loops while the condition coerces to true.
    While(Expr, Box<Stmt>),
    /// Carries a value out of the enclosing function invocation.
    Return(Expr),
}

/// The name/value pair carried by declarations and assignments.
#[derive(Debug, PartialEq, Eq)]
pub struct Declaration {
    pub ident: String,
    pub val: Expr,
}

/// Errors tied to statement construction.
#[derive(Debug, Clone, PartialEq, Eq, Structural)]
pub enum StmtErr {
    FailedConversion,
    UnknownKeyword,
}

/// The mathematical image of a [`Stmt`].
pub enum StmtV {
    Declaration(DeclV),
    Assignment(DeclV),
    Print(ExprV),
    Expr(ExprV),
    Block(Seq<StmtV>),
    If(ExprV, Box<StmtV>, Option<Box<StmtV>>),
    While(ExprV, Box<StmtV>),
    Return(ExprV),
}

/// The mathematical image of a [`Declaration`].
pub struct DeclV {
    pub ident: Seq<char>,
    pub val: ExprV,
}

impl DeepView for Declaration {
    type V = DeclV;

    open spec fn deep_view(&self) -> DeclV {
        crate::expr::view_decl(*self)
    }
}

impl View for Declaration {
    type V = DeclV;

    open spec fn view(&self) -> DeclV {
        self.deep_view()
    }
}

impl DeepView for Stmt {
    type V = StmtV;

    open spec fn deep_view(&self) -> StmtV {
        crate::expr::view_stmt(*self)
    }
}

impl View for Stmt {
    type V = StmtV;

    open spec fn view(&self) -> StmtV {
        self.deep_view()
    }
}

} // verus!
