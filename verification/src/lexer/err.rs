//! Errors that the lexer can report.
use vstd::prelude::*;

verus! {

/// A lexing failure. All payloads are plain values, so the same enum
/// serves both executable code and specifications.
#[derive(Debug, Clone, PartialEq, Eq, Structural)]
pub enum LexerError {
    /// An integer literal does not fit in a signed 32-bit integer.
    IntError,
    /// A character that cannot begin any token.
    InvalidChar(char),
    /// The input ended where a token was expected.
    UnexpectedEOF,
    /// A string literal was not closed by its matching delimiter.
    Expected(char),
}

impl LexerError {
    /// A short human-readable category for this error.
    pub fn describe(&self) -> (r: &'static str)
        ensures
            r@ == self.describe_spec(),
    {
        match self {
            LexerError::IntError => "integer literal overflows 32 bits",
            LexerError::InvalidChar(_) => "invalid character",
            LexerError::UnexpectedEOF => "unexpected end of input",
            LexerError::Expected(_) => "expected closing quote",
        }
    }

    /// What `describe` returns for each variant.
    pub open spec fn describe_spec(&self) -> Seq<char> {
        match self {
            LexerError::IntError => "integer literal overflows 32 bits"@,
            LexerError::InvalidChar(_) => "invalid character"@,
            LexerError::UnexpectedEOF => "unexpected end of input"@,
            LexerError::Expected(_) => "expected closing quote"@,
        }
    }
}

} // verus!
