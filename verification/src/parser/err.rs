//! Errors that the parser can report. Most carry the cursor position at
//! which parsing failed.
use vstd::prelude::*;

use crate::expr::ExprError;
use crate::lexer::token::{Token, TokenError, TokenV};
use crate::stmt::StmtErr;

verus! {

/// A parsing (or constant-evaluation) failure.
#[derive(Debug, Clone, PartialEq, Eq)]
pub enum ParserError {
    /// An invalid or incomplete `let` statement.
    InvalidLetStatement(usize),
    /// A token conversion failed while parsing.
    TokenError(TokenError),
    /// A statement error occurred while parsing.
    StmtErr(StmtErr),
    /// An expression error occurred while evaluating.
    ExprError(ExprError),
    /// An incomplete term.
    BadTerm(usize),
    /// A token index out of range was accessed.
    InvalidTokenIndex(usize),
    /// The token stream ended where more input was expected.
    UnexpectedEOF,
    /// A specific token was expected at the given position.
    Expected(Token, usize),
    /// An expression was expected at the given position.
    ExpectedExpr(usize),
    /// No statement could be parsed at the given position.
    BadStatement(usize),
    /// An internal empty match.
    EmptyMatch(usize),
    /// An invalid comparison was attempted.
    InvalidComparision(usize),
    /// A token that fits no rule.
    UnexpectedToken(Token, usize),
    /// More arguments than the supported maximum.
    TooManyArgs(usize),
    /// A whole rule of expected tokens failed to match.
    FailedRuleMatch(Vec<Token>, usize),
}

/// The mathematical image of a [`ParserError`].
pub enum ParserErrorV {
    InvalidLetStatement(usize),
    TokenError(TokenError),
    StmtErr(StmtErr),
    ExprError(ExprError),
    BadTerm(usize),
    InvalidTokenIndex(usize),
    UnexpectedEOF,
    Expected(TokenV, usize),
    ExpectedExpr(usize),
    BadStatement(usize),
    EmptyMatch(usize),
    InvalidComparision(usize),
    UnexpectedToken(TokenV, usize),
    TooManyArgs(usize),
    FailedRuleMatch(Seq<TokenV>, usize),
}

impl DeepView for ParserError {
    type V = ParserErrorV;

    open spec fn deep_view(&self) -> ParserErrorV {
        match self {
            ParserError::InvalidLetStatement(n) => ParserErrorV::InvalidLetStatement(*n),
            ParserError::TokenError(e) => ParserErrorV::TokenError(*e),
            ParserError::StmtErr(e) => ParserErrorV::StmtErr(*e),
            ParserError::ExprError(e) => ParserErrorV::ExprError(*e),
            ParserError::BadTerm(n) => ParserErrorV::BadTerm(*n),
            ParserError::InvalidTokenIndex(n) => ParserErrorV::InvalidTokenIndex(*n),
            ParserError::UnexpectedEOF => ParserErrorV::UnexpectedEOF,
            ParserError::Expected(t, n) => ParserErrorV::Expected(t@, *n),
            ParserError::ExpectedExpr(n) => ParserErrorV::ExpectedExpr(*n),
            ParserError::BadStatement(n) => ParserErrorV::BadStatement(*n),
            ParserError::EmptyMatch(n) => ParserErrorV::EmptyMatch(*n),
            ParserError::InvalidComparision(n) => ParserErrorV::InvalidComparision(*n),
            ParserError::UnexpectedToken(t, n) => ParserErrorV::UnexpectedToken(t@, *n),
            ParserError::TooManyArgs(n) => ParserErrorV::TooManyArgs(*n),
            ParserError::FailedRuleMatch(ts, n) => ParserErrorV::FailedRuleMatch(ts.deep_view(), *n),
        }
    }
}

impl View for ParserError {
    type V = ParserErrorV;

    open spec fn view(&self) -> ParserErrorV {
        self.deep_view()
    }
}

impl ParserError {
    /// What `describe` returns for each variant.
    pub open spec fn describe_spec(&self) -> Seq<char> {
        match self {
            ParserError::InvalidLetStatement(_) => "invalid let statement"@,
            ParserError::TokenError(_) => "token conversion failed"@,
            ParserError::StmtErr(_) => "statement error"@,
            ParserError::ExprError(_) => "expression error"@,
            ParserError::BadTerm(_) => "incomplete term"@,
            ParserError::InvalidTokenIndex(_) => "token index out of range"@,
            ParserError::UnexpectedEOF => "unexpected end of input"@,
            ParserError::Expected(_, _) => "expected a specific token"@,
            ParserError::ExpectedExpr(_) => "expected an expression"@,
            ParserError::BadStatement(_) => "failed to parse statement"@,
            ParserError::EmptyMatch(_) => "internal empty match"@,
            ParserError::InvalidComparision(_) => "invalid comparison"@,
            ParserError::UnexpectedToken(_, _) => "unexpected token"@,
            ParserError::TooManyArgs(_) => "too many arguments"@,
            ParserError::FailedRuleMatch(_, _) => "expected tokens did not match"@,
        }
    }

    /// A short human-readable category for this error.
    pub fn describe(&self) -> (r: &'static str)
        ensures
            r@ == self.describe_spec(),
    {
        match self {
            ParserError::InvalidLetStatement(_) => "invalid let statement",
            ParserError::TokenError(_) => "token conversion failed",
            ParserError::StmtErr(_) => "statement error",
            ParserError::ExprError(_) => "expression error",
            ParserError::BadTerm(_) => "incomplete term",
            ParserError::InvalidTokenIndex(_) => "token index out of range",
            ParserError::UnexpectedEOF => "unexpected end of input",
            ParserError::Expected(_, _) => "expected a specific token",
            ParserError::ExpectedExpr(_) => "expected an expression",
            ParserError::BadStatement(_) => "failed to parse statement",
            ParserError::EmptyMatch(_) => "internal empty match",
            ParserError::InvalidComparision(_) => "invalid comparison",
            ParserError::UnexpectedToken(_, _) => "unexpected token",
            ParserError::TooManyArgs(_) => "too many arguments",
            ParserError::FailedRuleMatch(_, _) => "expected tokens did not match",
        }
    }
}

} // verus!
