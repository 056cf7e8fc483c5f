//! Tokens produced by the lexer, together with their spec-level view.
use vstd::prelude::*;

use crate::expr::{Expr, ExprV};
use crate::lexer::op::{BinOp, UnOp};

verus! {

/// A single token of the language.
#[derive(Debug, Clone, PartialEq, Eq)]
pub enum Token {
    Op(BinOp),
    UnOp(UnOp),
    DeclarationSign,
    EqSign,
    Int(i32),
    Semi,
    Comma,
    String(String),
    LeftBracket,
    RightBracket,
    LeftCurly,
    RightCurly,
    Ident(String),
    Keyword(Keyword),
}

/// The reserved words of the language.
#[derive(Debug, Clone, Copy, PartialEq, Eq, Structural)]
pub enum Keyword {
    True,
    False,
    Let,
    If,
    Else,
    Print,
    While,
    For,
    Func,
    Return,
}

/// The mathematical image of a [`Token`]: identical except that owned
/// strings become character sequences.
pub enum TokenV {
    Op(BinOp),
    UnOp(UnOp),
    DeclarationSign,
    EqSign,
    Int(i32),
    Semi,
    Comma,
    Str(Seq<char>),
    LeftBracket,
    RightBracket,
    LeftCurly,
    RightCurly,
    Ident(Seq<char>),
    Keyword(Keyword),
}

impl View for Token {
    type V = TokenV;

    open spec fn view(&self) -> TokenV {
        match self {
            Token::Op(op) => TokenV::Op(*op),
            Token::UnOp(op) => TokenV::UnOp(*op),
            Token::DeclarationSign => TokenV::DeclarationSign,
            Token::EqSign => TokenV::EqSign,
            Token::Int(i) => TokenV::Int(*i),
            Token::Semi => TokenV::Semi,
            Token::Comma => TokenV::Comma,
            Token::String(s) => TokenV::Str(s@),
            Token::LeftBracket => TokenV::LeftBracket,
            Token::RightBracket => TokenV::RightBracket,
            Token::LeftCurly => TokenV::LeftCurly,
            Token::RightCurly => TokenV::RightCurly,
            Token::Ident(s) => TokenV::Ident(s@),
            Token::Keyword(k) => TokenV::Keyword(*k),
        }
    }
}

impl DeepView for Token {
    type V = TokenV;

    open spec fn deep_view(&self) -> TokenV {
        self.view()
    }
}

/// Error raised when a token is converted into a payload it does not hold.
#[derive(Debug, Clone, PartialEq, Eq, Structural)]
pub enum TokenError {
    FailedConversion,
}

impl Token {
    /// Copies this token. Unlike the derived `Clone`, the result is known
    /// to have the same view as the original.
    pub fn dup(&self) -> (r: Token)
        ensures
            r@ == self@,
    {
        match self {
            Token::Op(op) => Token::Op(*op),
            Token::UnOp(op) => Token::UnOp(*op),
            Token::DeclarationSign => Token::DeclarationSign,
            Token::EqSign => Token::EqSign,
            Token::Int(i) => Token::Int(*i),
            Token::Semi => Token::Semi,
            Token::Comma => Token::Comma,
            Token::String(s) => Token::String(s.clone()),
            Token::LeftBracket => Token::LeftBracket,
            Token::RightBracket => Token::RightBracket,
            Token::LeftCurly => Token::LeftCurly,
            Token::RightCurly => Token::RightCurly,
            Token::Ident(s) => Token::Ident(s.clone()),
            Token::Keyword(k) => Token::Keyword(*k),
        }
    }

    /// Whether two tokens are equal, payloads included.
    pub fn same_as(&self, other: &Token) -> (r: bool)
        ensures
            r == (self@ == other@),
    {
        match (self, other) {
            (Token::Op(a), Token::Op(b)) => *a == *b,
            (Token::UnOp(a), Token::UnOp(b)) => *a == *b,
            (Token::DeclarationSign, Token::DeclarationSign) => true,
            (Token::EqSign, Token::EqSign) => true,
            (Token::Int(a), Token::Int(b)) => *a == *b,
            (Token::Semi, Token::Semi) => true,
            (Token::Comma, Token::Comma) => true,
            (Token::String(a), Token::String(b)) => *a == *b,
            (Token::LeftBracket, Token::LeftBracket) => true,
            (Token::RightBracket, Token::RightBracket) => true,
            (Token::LeftCurly, Token::LeftCurly) => true,
            (Token::RightCurly, Token::RightCurly) => true,
            (Token::Ident(a), Token::Ident(b)) => *a == *b,
            (Token::Keyword(a), Token::Keyword(b)) => *a == *b,
            _ => false,
        }
    }

    /// Extracts the binary operator, if this token is one.
    pub fn try_into_op(self) -> (r: Result<BinOp, TokenError>)
        ensures
            r == (match self {
                Token::Op(op) => Ok::<BinOp, TokenError>(op),
                _ => Err::<BinOp, TokenError>(TokenError::FailedConversion),
            }),
    {
        if let Token::Op(op) = self {
            Ok(op)
        } else {
            Err(TokenError::FailedConversion)
        }
    }

    /// Extracts the integer payload, if this token is an integer literal.
    pub fn try_into_int(self) -> (r: Result<i32, TokenError>)
        ensures
            r == (match self {
                Token::Int(i) => Ok::<i32, TokenError>(i),
                _ => Err::<i32, TokenError>(TokenError::FailedConversion),
            }),
    {
        if let Token::Int(i) = self {
            Ok(i)
        } else {
            Err(TokenError::FailedConversion)
        }
    }

    /// Extracts the unary operator, if this token is one.
    pub fn try_into_un_op(self) -> (r: Result<UnOp, TokenError>)
        ensures
            r == (match self {
                Token::UnOp(op) => Ok::<UnOp, TokenError>(op),
                _ => Err::<UnOp, TokenError>(TokenError::FailedConversion),
            }),
    {
        if let Token::UnOp(unop) = self {
            Ok(unop)
        } else {
            Err(TokenError::FailedConversion)
        }
    }

    /// Extracts the identifier name, if this token is an identifier.
    pub fn try_into_ident(self) -> (r: Result<String, TokenError>)
        ensures
            match self {
                Token::Ident(s) => r matches Ok(name) && name@ == s@,
                _ => r matches Err(e) && e == TokenError::FailedConversion,
            },
    {
        if let Token::Ident(ident) = self {
            Ok(ident)
        } else {
            Err(TokenError::FailedConversion)
        }
    }

    /// Turns a literal token into the expression it denotes: integer
    /// and string literals into their values, `true`/`false` into
    /// booleans, any other keyword into `null`, and anything else into
    /// a conversion error.
    pub fn into_expr(self) -> (r: Result<Expr, TokenError>)
        ensures
            match self {
                Token::Int(i) => r matches Ok(e) && e@ == ExprV::Num(i),
                Token::String(s) => r matches Ok(e) && e@ == ExprV::Str(s@),
                Token::Keyword(k) => r matches Ok(e) && e@ == (if k == Keyword::True {
                    ExprV::Bool(true)
                } else if k == Keyword::False {
                    ExprV::Bool(false)
                } else {
                    ExprV::Null
                }),
                _ => r matches Err(e) && e == TokenError::FailedConversion,
            },
    {
        match self {
            Token::Int(i) => Ok(Expr::Num(i)),
            Token::String(string) => Ok(Expr::Str(string)),
            Token::Keyword(keyword) => match keyword {
                Keyword::True => Ok(Expr::Bool(true)),
                Keyword::False => Ok(Expr::Bool(false)),
                _ => Ok(Expr::Null),
            },
            _ => Err(TokenError::FailedConversion),
        }
    }

    /// Extracts the keyword, if this token is one.
    pub fn try_into_keyword(self) -> (r: Result<Keyword, TokenError>)
        ensures
            r == (match self {
                Token::Keyword(k) => Ok::<Keyword, TokenError>(k),
                _ => Err::<Keyword, TokenError>(TokenError::FailedConversion),
            }),
    {
        if let Token::Keyword(keyword) = self {
            Ok(keyword)
        } else {
            Err(TokenError::FailedConversion)
        }
    }
}

} // verus!
