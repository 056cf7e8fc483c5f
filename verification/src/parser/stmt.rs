//! Statement parsing: dispatch on the leading token, with `for` loops
//! desugared into a block holding the initializer and a `while`. Each
//! executable method is proved to agree with its spec-level mirror.
use vstd::prelude::*;

use crate::expr::{view_expr, view_stmt, view_stmts, Expr, ExprV};
use crate::func::Func;
use crate::lexer::token::{Keyword, Token, TokenV};
use crate::parser::err::{ParserError, ParserErrorV};
use crate::parser::expr::{bump, spec_expr};
use crate::parser::{rem_of, spec_adv, Parser};
use crate::stmt::{Declaration, DeclV, Stmt, StmtV};

verus! {

/// View of a statement parse result at a cursor.
pub open spec fn stmt_out(r: Result<Stmt, ParserError>, pos: int) -> Result<
    (StmtV, int),
    ParserErrorV,
> {
    match r {
        Ok(s) => Ok((s@, pos)),
        Err(e) => Err(e.deep_view()),
    }
}

/// Whether a semicolon occurs at or after `pos`.
pub open spec fn spec_semi_from(toks: Seq<TokenV>, pos: int) -> bool
    decreases rem_of(toks.len() as int, pos),
{
    if !(0 <= pos < toks.len()) {
        false
    } else if toks[pos] == TokenV::Semi {
        true
    } else {
        spec_semi_from(toks, pos + 1)
    }
}

/// A `let` statement: `let`, a name, and optionally `=` with a value;
/// without a value the binding is `Null`.
#[verifier::opaque]
pub open spec fn spec_declaration(toks: Seq<TokenV>, pos: int) -> Result<
    (StmtV, int),
    ParserErrorV,
>
    decreases rem_of(toks.len() as int, pos), 22int,
{
    if !(0 <= pos < toks.len() && toks[pos] == TokenV::Keyword(Keyword::Let)) {
        Err(ParserErrorV::FailedRuleMatch(
            seq![TokenV::Keyword(Keyword::Let), TokenV::Ident(""@)],
            pos as usize,
        ))
    } else {
        let p1 = spec_adv(toks, pos);
        if p1 >= toks.len() {
            Err(ParserErrorV::FailedRuleMatch(
                seq![TokenV::Keyword(Keyword::Let), TokenV::Ident(""@)],
                pos as usize,
            ))
        } else {
            let p2 = spec_adv(toks, p1);
            if p2 < toks.len() && toks[p2] == TokenV::DeclarationSign {
                let p3 = spec_adv(toks, p2);
                match toks[p3 - 2] {
                    TokenV::Ident(name) => match spec_expr(toks, p3) {
                        Err(e) => Err(e),
                        Ok((e, p4)) => Ok(
                            (StmtV::Declaration(DeclV { ident: name, val: e }), p4),
                        ),
                    },
                    _ => Err(ParserErrorV::TokenError(
                        crate::lexer::token::TokenError::FailedConversion,
                    )),
                }
            } else {
                match toks[p2 - 2] {
                    TokenV::Ident(name) => Ok(
                        (StmtV::Declaration(DeclV { ident: name, val: ExprV::Null }), p2),
                    ),
                    _ => Err(ParserErrorV::TokenError(
                        crate::lexer::token::TokenError::FailedConversion,
                    )),
                }
            }
        }
    }
}

/// A `print` statement.
#[verifier::opaque]
pub open spec fn spec_print(toks: Seq<TokenV>, pos: int) -> Result<(StmtV, int), ParserErrorV>
    decreases rem_of(toks.len() as int, pos), 22int,
{
    if 0 <= pos < toks.len() && toks[pos] == TokenV::Keyword(Keyword::Print) {
        let p1 = spec_adv(toks, pos);
        match spec_expr(toks, p1) {
            Err(e) => Err(e),
            Ok((e, p2)) => Ok((StmtV::Print(e), p2)),
        }
    } else {
        Err(ParserErrorV::BadStatement(pos as usize))
    }
}

/// The statements of a block, read until the closing curly brace.
#[verifier::opaque]
pub open spec fn spec_block_items(toks: Seq<TokenV>, pos: int) -> Result<
    (Seq<StmtV>, int),
    ParserErrorV,
>
    decreases rem_of(toks.len() as int, pos), 26int,
{
    if !(0 <= pos < toks.len()) {
        Err(ParserErrorV::UnexpectedEOF)
    } else if toks[pos] == TokenV::RightCurly {
        Ok((Seq::empty(), pos))
    } else {
        match spec_stmt(toks, pos) {
            Err(e) => Err(e),
            Ok((s, p2)) => match spec_block_items(toks, bump(pos, p2)) {
                Err(e) => Err(e),
                Ok((rest, p3)) => Ok((seq![s] + rest, p3)),
            },
        }
    }
}

/// A block's statement list: step past `{`, read items, step past `}`.
#[verifier::opaque]
pub open spec fn spec_block_seq(toks: Seq<TokenV>, pos: int) -> Result<
    (Seq<StmtV>, int),
    ParserErrorV,
>
    decreases rem_of(toks.len() as int, pos), 22int,
{
    if !(0 <= pos < toks.len()) {
        Err(ParserErrorV::UnexpectedEOF)
    } else {
        let p1 = spec_adv(toks, pos);
        match spec_block_items(toks, p1) {
            Err(e) => Err(e),
            Ok((ss, p2)) => Ok((ss, spec_adv(toks, p2))),
        }
    }
}

/// A block statement.
#[verifier::opaque]
pub open spec fn spec_block(toks: Seq<TokenV>, pos: int) -> Result<(StmtV, int), ParserErrorV>
    decreases rem_of(toks.len() as int, pos), 23int,
{
    match spec_block_seq(toks, pos) {
        Err(e) => Err(e),
        Ok((ss, p2)) => Ok((StmtV::Block(ss), p2)),
    }
}

/// The optional `else` branch after an `if`: a block when a curly
/// brace follows, a single statement otherwise.
#[verifier::opaque]
pub open spec fn spec_else_part(toks: Seq<TokenV>, pos: int) -> Result<
    (Option<Box<StmtV>>, int),
    ParserErrorV,
>
    decreases rem_of(toks.len() as int, pos), 23int,
{
    if 0 <= pos < toks.len() && toks[pos] == TokenV::Keyword(Keyword::Else) {
        let p1 = spec_adv(toks, pos);
        if p1 < toks.len() && toks[p1] == TokenV::LeftCurly {
            match spec_block(toks, p1) {
                Err(e) => Err(e),
                Ok((b, p2)) => Ok((Some(Box::new(b)), p2)),
            }
        } else {
            match spec_stmt(toks, bump(pos, p1)) {
                Err(e) => Err(e),
                Ok((s, p2)) => Ok((Some(Box::new(s)), p2)),
            }
        }
    } else {
        Ok((None, pos))
    }
}

/// An `if` statement: parenthesised condition, a block or single
/// statement, and an optional `else` branch.
#[verifier::opaque]
pub open spec fn spec_if(toks: Seq<TokenV>, pos: int) -> Result<(StmtV, int), ParserErrorV>
    decreases rem_of(toks.len() as int, pos), 22int,
{
    if !(0 <= pos < toks.len() && toks[pos] == TokenV::Keyword(Keyword::If)) {
        Err(ParserErrorV::Expected(TokenV::LeftBracket, pos as usize))
    } else {
        let p1 = spec_adv(toks, pos);
        if !(p1 < toks.len() && toks[p1] == TokenV::LeftBracket) {
            Err(ParserErrorV::Expected(TokenV::LeftBracket, pos as usize))
        } else {
            let p2 = spec_adv(toks, p1);
            match spec_expr(toks, p2) {
                Err(e) => Err(e),
                Ok((cond, p3)) => {
                    if !(p3 < toks.len() && toks[p3] == TokenV::RightBracket) {
                        Err(ParserErrorV::Expected(TokenV::RightBracket, p3 as usize))
                    } else {
                        let p4 = spec_adv(toks, p3);
                        if p4 >= toks.len() {
                            Err(ParserErrorV::UnexpectedEOF)
                        } else if toks[p4] != TokenV::LeftCurly {
                            match spec_stmt(toks, bump(pos, p4)) {
                                Err(e) => Err(e),
                                Ok((then, p5)) => match spec_else_part(toks, bump(pos, p5)) {
                                    Err(e) => Err(e),
                                    Ok((els, p6)) => Ok(
                                        (StmtV::If(cond, Box::new(then), els), p6),
                                    ),
                                },
                            }
                        } else {
                            match spec_block(toks, bump(pos, p4)) {
                                Err(e) => Err(e),
                                Ok((then, p5)) => match spec_else_part(toks, bump(pos, p5)) {
                                    Err(e) => Err(e),
                                    Ok((els, p6)) => Ok(
                                        (StmtV::If(cond, Box::new(then), els), p6),
                                    ),
                                },
                            }
                        }
                    }
                },
            }
        }
    }
}

/// A `while` statement: parenthesised condition, then a block.
#[verifier::opaque]
pub open spec fn spec_while(toks: Seq<TokenV>, pos: int) -> Result<(StmtV, int), ParserErrorV>
    decreases rem_of(toks.len() as int, pos), 22int,
{
    if !(0 <= pos < toks.len() && toks[pos] == TokenV::Keyword(Keyword::While)) {
        Err(ParserErrorV::FailedRuleMatch(
            seq![TokenV::Keyword(Keyword::While), TokenV::LeftBracket],
            pos as usize,
        ))
    } else {
        let p1 = spec_adv(toks, pos);
        if !(p1 < toks.len() && toks[p1] == TokenV::LeftBracket) {
            Err(ParserErrorV::FailedRuleMatch(
                seq![TokenV::Keyword(Keyword::While), TokenV::LeftBracket],
                pos as usize,
            ))
        } else {
            let p2 = spec_adv(toks, p1);
            match spec_expr(toks, p2) {
                Err(e) => Err(e),
                Ok((cond, p3)) => {
                    if !(p3 < toks.len() && toks[p3] == TokenV::RightBracket) {
                        Err(ParserErrorV::FailedRuleMatch(
                            seq![TokenV::RightBracket],
                            p3 as usize,
                        ))
                    } else {
                        match spec_block(toks, bump(pos, spec_adv(toks, p3))) {
                            Err(e) => Err(e),
                            Ok((body, p4)) => Ok((StmtV::While(cond, Box::new(body)), p4)),
                        }
                    }
                },
            }
        }
    }
}

/// An assignment statement: a name, `=`, and a value.
#[verifier::opaque]
pub open spec fn spec_assignment(toks: Seq<TokenV>, pos: int) -> Result<
    (StmtV, int),
    ParserErrorV,
>
    decreases rem_of(toks.len() as int, pos), 22int,
{
    if !(0 <= pos < toks.len()) {
        Err(ParserErrorV::FailedRuleMatch(seq![TokenV::Ident(""@)], pos as usize))
    } else {
        let p1 = spec_adv(toks, pos);
        if !(1 <= p1 && p1 - 1 < toks.len()) {
            Err(ParserErrorV::InvalidTokenIndex(p1 as usize))
        } else {
            let name_tok = toks[p1 - 1];
            if !(p1 < toks.len() && toks[p1] == TokenV::DeclarationSign) {
                Err(ParserErrorV::FailedRuleMatch(seq![TokenV::DeclarationSign], p1 as usize))
            } else {
                let p2 = spec_adv(toks, p1);
                match spec_expr(toks, p2) {
                    Err(e) => Err(e),
                    Ok((e, p3)) => match name_tok {
                        TokenV::Ident(name) => Ok(
                            (StmtV::Assignment(DeclV { ident: name, val: e }), p3),
                        ),
                        _ => Err(ParserErrorV::TokenError(
                            crate::lexer::token::TokenError::FailedConversion,
                        )),
                    },
                }
            }
        }
    }
}

/// A `for` statement, desugared into a block holding the initializer
/// and a `while` whose body ends with the increment.
#[verifier::opaque]
pub open spec fn spec_for(toks: Seq<TokenV>, pos: int) -> Result<(StmtV, int), ParserErrorV>
    decreases rem_of(toks.len() as int, pos), 22int,
{
    if !(0 <= pos < toks.len() && toks[pos] == TokenV::Keyword(Keyword::For)) {
        Err(ParserErrorV::FailedRuleMatch(
            seq![TokenV::Keyword(Keyword::For), TokenV::LeftBracket],
            pos as usize,
        ))
    } else {
        let p1 = spec_adv(toks, pos);
        if !(p1 < toks.len() && toks[p1] == TokenV::LeftBracket) {
            Err(ParserErrorV::FailedRuleMatch(
                seq![TokenV::Keyword(Keyword::For), TokenV::LeftBracket],
                pos as usize,
            ))
        } else {
            let p2 = spec_adv(toks, p1);
            match spec_stmt(toks, bump(pos, p2)) {
                Err(e) => Err(e),
                Ok((init, p3)) => match spec_expr(toks, bump(pos, p3)) {
                    Err(e) => Err(e),
                    Ok((cond, p4)) => match spec_stmt(toks, bump(pos, p4)) {
                        Err(e) => Err(e),
                        Ok((inc, p5)) => {
                            if !(p5 < toks.len() && toks[p5] == TokenV::RightBracket) {
                                Err(ParserErrorV::FailedRuleMatch(
                                    seq![TokenV::RightBracket],
                                    p5 as usize,
                                ))
                            } else {
                                match spec_block_seq(toks, bump(pos, spec_adv(toks, p5))) {
                                    Err(e) => Err(e),
                                    Ok((body, p6)) => Ok(
                                        (
                                            StmtV::Block(
                                                seq![
                                                    init,
                                                    StmtV::While(
                                                        cond,
                                                        Box::new(StmtV::Block(body.push(inc))),
                                                    ),
                                                ],
                                            ),
                                            p6,
                                        ),
                                    ),
                                }
                            }
                        },
                    },
                },
            }
        }
    }
}

/// The parameter list of a function declaration, after the opening
/// bracket: names separated by commas, closed by `)`; a trailing comma
/// is not permitted.
#[verifier::opaque]
pub open spec fn spec_params(toks: Seq<TokenV>, pos: int, acc: Seq<Seq<char>>) -> Result<
    (Seq<Seq<char>>, int),
    ParserErrorV,
>
    decreases rem_of(toks.len() as int, pos), 0int,
{
    if !(0 <= pos < toks.len()) {
        Err(ParserErrorV::UnexpectedEOF)
    } else {
        match toks[pos] {
            TokenV::Ident(name) => {
                let p1 = spec_adv(toks, pos);
                if p1 < toks.len() && toks[p1] == TokenV::Comma {
                    spec_params(toks, bump(pos, spec_adv(toks, p1)), acc.push(name))
                } else if p1 < toks.len() && toks[p1] == TokenV::RightBracket {
                    Ok((acc.push(name), spec_adv(toks, p1)))
                } else {
                    Err(ParserErrorV::Expected(TokenV::RightBracket, p1 as usize))
                }
            },
            t => Err(ParserErrorV::UnexpectedToken(t, pos as usize)),
        }
    }
}

/// A function declaration: a name, a parenthesised parameter list and
/// a block body, producing a declaration whose value is an unbound
/// function literal.
#[verifier::opaque]
pub open spec fn spec_func(toks: Seq<TokenV>, pos: int) -> Result<(StmtV, int), ParserErrorV>
    decreases rem_of(toks.len() as int, pos), 22int,
{
    if !(0 <= pos < toks.len() && toks[pos] == TokenV::Keyword(Keyword::Func)) {
        Err(ParserErrorV::FailedRuleMatch(seq![TokenV::Keyword(Keyword::Func)], pos as usize))
    } else {
        let p1 = spec_adv(toks, pos);
        if p1 >= toks.len() {
            Err(ParserErrorV::UnexpectedEOF)
        } else {
            match toks[p1] {
                TokenV::Ident(name) => {
                    let p2 = spec_adv(toks, p1);
                    if !(p2 < toks.len() && toks[p2] == TokenV::LeftBracket) {
                        Err(ParserErrorV::FailedRuleMatch(
                            seq![TokenV::LeftBracket],
                            p2 as usize,
                        ))
                    } else {
                        let p3 = spec_adv(toks, p2);
                        let params_out = if p3 < toks.len() && toks[p3]
                            == TokenV::RightBracket {
                            Ok((Seq::<Seq<char>>::empty(), spec_adv(toks, p3)))
                        } else {
                            spec_params(toks, bump(pos, p3), Seq::empty())
                        };
                        match params_out {
                            Err(e) => Err(e),
                            Ok((params, p4)) => match spec_block(toks, bump(pos, p4)) {
                                Err(e) => Err(e),
                                Ok((body, p5)) => Ok(
                                    (
                                        StmtV::Declaration(
                                            DeclV {
                                                ident: name,
                                                val: ExprV::Func(
                                                    crate::func::FuncV {
                                                        instructions: Box::new(body),
                                                        args: params,
                                                        closure: None,
                                                    },
                                                ),
                                            },
                                        ),
                                        p5,
                                    ),
                                ),
                            },
                        }
                    }
                },
                _ => Err(ParserErrorV::TokenError(
                    crate::lexer::token::TokenError::FailedConversion,
                )),
            }
        }
    }
}

/// A `return` statement.
#[verifier::opaque]
pub open spec fn spec_return(toks: Seq<TokenV>, pos: int) -> Result<(StmtV, int), ParserErrorV>
    decreases rem_of(toks.len() as int, pos), 22int,
{
    if !(0 <= pos < toks.len() && toks[pos] == TokenV::Keyword(Keyword::Return)) {
        Err(ParserErrorV::FailedRuleMatch(
            seq![TokenV::Keyword(Keyword::Return)],
            pos as usize,
        ))
    } else {
        let p1 = spec_adv(toks, pos);
        match spec_expr(toks, p1) {
            Err(e) => Err(e),
            Ok((e, p2)) => Ok((StmtV::Return(e), p2)),
        }
    }
}

/// One statement, dispatched on the leading token: a keyword picks its
/// statement form, a curly brace opens a block, an identifier followed
/// directly by `=` is an assignment, and anything else is an
/// expression statement. A statement needs a semicolon somewhere ahead
/// of it, and cannot begin with one.
#[verifier::opaque]
pub open spec fn spec_stmt(toks: Seq<TokenV>, pos: int) -> Result<(StmtV, int), ParserErrorV>
    decreases rem_of(toks.len() as int, pos), 24int,
{
    if !(0 <= pos < toks.len()) {
        Err(ParserErrorV::UnexpectedEOF)
    } else if !spec_semi_from(toks, pos) {
        Err(ParserErrorV::Expected(TokenV::Semi, pos as usize))
    } else if toks[pos] == TokenV::Semi {
        Err(ParserErrorV::UnexpectedEOF)
    } else {
        match toks[pos] {
            TokenV::Keyword(k) => {
                if k == Keyword::Let {
                    spec_declaration(toks, pos)
                } else if k == Keyword::Print {
                    spec_print(toks, pos)
                } else if k == Keyword::If {
                    spec_if(toks, pos)
                } else if k == Keyword::While {
                    spec_while(toks, pos)
                } else if k == Keyword::For {
                    spec_for(toks, pos)
                } else if k == Keyword::Func {
                    spec_func(toks, pos)
                } else if k == Keyword::Return {
                    spec_return(toks, pos)
                } else {
                    Err(ParserErrorV::BadStatement(pos as usize))
                }
            },
            TokenV::LeftCurly => spec_block(toks, pos),
            TokenV::Ident(_) => {
                if pos + 1 < toks.len() && toks[pos + 1] == TokenV::DeclarationSign {
                    spec_assignment(toks, pos)
                } else {
                    match spec_expr(toks, pos) {
                        Err(e) => Err(e),
                        Ok((e, p2)) => Ok((StmtV::Expr(e), p2)),
                    }
                }
            },
            _ => match spec_expr(toks, pos) {
                Err(e) => Err(e),
                Ok((e, p2)) => Ok((StmtV::Expr(e), p2)),
            },
        }
    }
}

/// A whole program: at least one statement, then statements until the
/// tokens are exhausted.
#[verifier::opaque]
pub open spec fn spec_program(toks: Seq<TokenV>, pos: int) -> Result<Seq<StmtV>, ParserErrorV>
    decreases rem_of(toks.len() as int, pos), 28int,
{
    if !(0 <= pos < toks.len()) {
        Err(ParserErrorV::UnexpectedEOF)
    } else {
        match spec_stmt(toks, pos) {
            Err(e) => Err(e),
            Ok((s, p2)) => {
                if p2 >= toks.len() {
                    Ok(seq![s])
                } else {
                    match spec_program(toks, bump(pos, p2)) {
                        Err(e) => Err(e),
                        Ok(rest) => Ok(seq![s] + rest),
                    }
                }
            },
        }
    }
}

impl Parser {
    /// Whether a semicolon occurs at or after the cursor.
    #[verifier::loop_isolation(false)]
    fn semi_ahead(&self) -> (r: bool)
        ensures
            r == spec_semi_from(self.tokens.deep_view(), self.cursor as int),
    {
        let mut i: usize = self.cursor;
        while i < self.tokens.len()
            invariant
                self.cursor <= i,
                spec_semi_from(self.tokens.deep_view(), self.cursor as int) == spec_semi_from(
                    self.tokens.deep_view(),
                    i as int,
                ),
            decreases self.tokens@.len() - i,
        {
            if let Token::Semi = &self.tokens[i] {
                return true;
            }
            i = i + 1;
        }
        false
    }

    /// Attempts to parse one statement; see [`spec_stmt`].
    #[verifier::rlimit(100)]
    #[verifier::spinoff_prover]
    pub fn stmt(&mut self) -> (r: Result<Stmt, ParserError>)
        ensures
            final(self).tokens == old(self).tokens,
            stmt_out(r, final(self).cursor as int) == spec_stmt(
                old(self).tokens.deep_view(),
                old(self).cursor as int,
            ),
            r is Ok ==> old(self).cursor < final(self).cursor,
        decreases rem_of(self.tokens@.len() as int, self.cursor as int), 24int,
    {
        proof {
            reveal(spec_stmt);
        }
        if self.is_at_end() {
            return Err(ParserError::UnexpectedEOF);
        }
        if !self.semi_ahead() {
            return Err(ParserError::Expected(Token::Semi, self.cursor));
        }
        match &self.tokens[self.cursor] {
            Token::Semi => Err(ParserError::UnexpectedEOF),
            Token::Keyword(k) => match k {
                Keyword::Let => self.declaration(),
                Keyword::Print => self.print(),
                Keyword::If => self.if_stmt(),
                Keyword::While => self.while_stmt(),
                Keyword::For => self.for_stmt(),
                Keyword::Func => self.func(),
                Keyword::Return => self.return_stmt(),
                _ => Err(ParserError::BadStatement(self.cursor)),
            },
            Token::LeftCurly => self.block(),
            Token::Ident(_) => {
                proof {
                    assert(self.cursor < self.tokens.len());
                }
                let assign_next = self.cursor + 1 < self.tokens.len() && matches!(
                    &self.tokens[self.cursor + 1],
                    Token::DeclarationSign,
                );
                if assign_next {
                    self.assignment()
                } else {
                    match self.expr() {
                        Err(e) => Err(e),
                        Ok(e) => Ok(Stmt::Expr(e)),
                    }
                }
            },
            _ => match self.expr() {
                Err(e) => Err(e),
                Ok(e) => Ok(Stmt::Expr(e)),
            },
        }
    }

    /// Attempts to parse a declaration statement; see
    /// [`spec_declaration`].
    #[verifier::rlimit(100)]
    #[verifier::spinoff_prover]
    fn declaration(&mut self) -> (r: Result<Stmt, ParserError>)
        ensures
            final(self).tokens == old(self).tokens,
            stmt_out(r, final(self).cursor as int) == spec_declaration(
                old(self).tokens.deep_view(),
                old(self).cursor as int,
            ),
            r is Ok ==> old(self).cursor < final(self).cursor,
        decreases rem_of(self.tokens@.len() as int, self.cursor as int), 22int,
    {
        proof {
            reveal(spec_declaration);
            reveal_with_fuel(crate::expr::view_stmt, 3);
        }
        let pos0 = self.cursor;
        if !self.peek_same(&Token::Keyword(Keyword::Let)) {
            return Err(ParserError::FailedRuleMatch(Self::rules_let_ident(), pos0));
        }
        proof {
            assert(self.cursor < self.tokens.len());
        }
        self.adv();
        if self.is_at_end() {
            return Err(ParserError::FailedRuleMatch(Self::rules_let_ident(), pos0));
        }
        proof {
            assert(self.cursor < self.tokens.len());
        }
        self.adv();
        if self.peek_same(&Token::DeclarationSign) {
            proof {
                assert(self.cursor < self.tokens.len());
            }
            self.adv();
            match self.at(self.cursor - 2) {
                Ok(Token::Ident(name)) => match self.expr() {
                    Err(e) => Err(e),
                    Ok(e) => Ok(Stmt::Declaration(Declaration { ident: name, val: e })),
                },
                _ => Err(ParserError::TokenError(
                    crate::lexer::token::TokenError::FailedConversion,
                )),
            }
        } else {
            match self.at(self.cursor - 2) {
                Ok(Token::Ident(name)) => Ok(
                    Stmt::Declaration(Declaration { ident: name, val: Expr::Null }),
                ),
                _ => Err(ParserError::TokenError(
                    crate::lexer::token::TokenError::FailedConversion,
                )),
            }
        }
    }

    /// The expected-token list of a declaration.
    fn rules_let_ident() -> (r: Vec<Token>)
        ensures
            r.deep_view() =~= seq![TokenV::Keyword(Keyword::Let), TokenV::Ident(""@)],
    {
        let mut v: Vec<Token> = Vec::new();
        v.push(Token::Keyword(Keyword::Let));
        v.push(Token::Ident("".to_owned()));
        proof {
            assert(v.deep_view() =~= seq![TokenV::Keyword(Keyword::Let), TokenV::Ident(""@)]);
        }
        v
    }

    /// A single expected token as a rule list.
    fn rule_one(t: Token) -> (r: Vec<Token>)
        ensures
            r.deep_view() =~= seq![t@],
    {
        let ghost tv = t@;
        let mut v: Vec<Token> = Vec::new();
        v.push(t);
        proof {
            assert(v.deep_view() =~= seq![tv]);
        }
        v
    }

    /// The expected-token list of a loop header.
    fn rules_kw_bracket(k: Keyword) -> (r: Vec<Token>)
        ensures
            r.deep_view() =~= seq![TokenV::Keyword(k), TokenV::LeftBracket],
    {
        let mut v: Vec<Token> = Vec::new();
        v.push(Token::Keyword(k));
        v.push(Token::LeftBracket);
        proof {
            assert(v.deep_view() =~= seq![TokenV::Keyword(k), TokenV::LeftBracket]);
        }
        v
    }

    /// Attempts to parse a print statement; see [`spec_print`].
    #[verifier::rlimit(100)]
    #[verifier::spinoff_prover]
    fn print(&mut self) -> (r: Result<Stmt, ParserError>)
        ensures
            final(self).tokens == old(self).tokens,
            stmt_out(r, final(self).cursor as int) == spec_print(
                old(self).tokens.deep_view(),
                old(self).cursor as int,
            ),
            r is Ok ==> old(self).cursor < final(self).cursor,
        decreases rem_of(self.tokens@.len() as int, self.cursor as int), 22int,
    {
        proof {
            reveal(spec_print);
        }
        let print_here = self.peek_same(&Token::Keyword(Keyword::Print));
        if !print_here {
            return Err(ParserError::BadStatement(self.cursor));
        }
        proof {
            assert(self.cursor < self.tokens.len());
        }
        self.adv();
        match self.expr() {
            Err(e) => Err(e),
            Ok(e) => Ok(Stmt::Print(e)),
        }
    }

    /// Parses the statements of a block and both braces; see
    /// [`spec_block_seq`].
    #[verifier::rlimit(100)]
    #[verifier::spinoff_prover]
    fn block_seq(&mut self) -> (r: Result<Vec<Stmt>, ParserError>)
        requires
            old(self).cursor < old(self).tokens@.len(),
        ensures
            final(self).tokens == old(self).tokens,
            (match r {
                Ok(v) => Ok((view_stmts(v@), final(self).cursor as int)),
                Err(e) => Err::<(Seq<StmtV>, int), ParserErrorV>(e.deep_view()),
            }) == spec_block_seq(old(self).tokens.deep_view(), old(self).cursor as int),
            r is Ok ==> old(self).cursor < final(self).cursor,
        decreases rem_of(self.tokens@.len() as int, self.cursor as int), 22int,
    {
        proof {
            reveal(spec_block_seq);
        }
        proof {
            assert(self.cursor < self.tokens.len());
        }
        self.adv();
        match self.block_items() {
            Err(e) => Err(e),
            Ok(v) => {
                proof {
                    assert(self.cursor < self.tokens.len());
                }
                self.adv();
                Ok(v)
            },
        }
    }

    /// Reads statements until the closing curly brace; see
    /// [`spec_block_items`].
    #[verifier::rlimit(100)]
    #[verifier::spinoff_prover]
    fn block_items(&mut self) -> (r: Result<Vec<Stmt>, ParserError>)
        ensures
            final(self).tokens == old(self).tokens,
            (match r {
                Ok(v) => Ok((view_stmts(v@), final(self).cursor as int)),
                Err(e) => Err::<(Seq<StmtV>, int), ParserErrorV>(e.deep_view()),
            }) == spec_block_items(old(self).tokens.deep_view(), old(self).cursor as int),
            r is Ok ==> old(self).cursor <= final(self).cursor,
            r is Ok ==> final(self).cursor < final(self).tokens@.len(),
        decreases rem_of(self.tokens@.len() as int, self.cursor as int), 26int,
    {
        proof {
            reveal(spec_block_items);
        }
        if self.is_at_end() {
            return Err(ParserError::UnexpectedEOF);
        }
        if matches!(&self.tokens[self.cursor], Token::RightCurly) {
            let v: Vec<Stmt> = Vec::new();
            proof {
                assert(v@ =~= Seq::<Stmt>::empty());
                assert(view_stmts(v@) =~= Seq::<StmtV>::empty());
            }
            return Ok(v);
        }
        match self.stmt() {
            Err(e) => Err(e),
            Ok(s) => match self.block_items() {
                Err(e) => Err(e),
                Ok(mut rest) => {
                    let ghost sv = s@;
                    let ghost restv = rest@;
                    rest.insert(0, s);
                    proof {
                        crate::expr::lemma_view_stmts_len(rest@);
                        crate::expr::lemma_view_stmts_len(restv);
                        assert(view_stmts(rest@) =~= seq![sv] + view_stmts(restv));
                    }
                    Ok(rest)
                },
            },
        }
    }

    /// Attempts to parse a block statement; see [`spec_block`].
    #[verifier::rlimit(100)]
    #[verifier::spinoff_prover]
    fn block(&mut self) -> (r: Result<Stmt, ParserError>)
        requires
            old(self).cursor < old(self).tokens@.len(),
        ensures
            final(self).tokens == old(self).tokens,
            stmt_out(r, final(self).cursor as int) == spec_block(
                old(self).tokens.deep_view(),
                old(self).cursor as int,
            ),
            r is Ok ==> old(self).cursor < final(self).cursor,
        decreases rem_of(self.tokens@.len() as int, self.cursor as int), 23int,
    {
        proof {
            reveal(spec_block);
        }
        match self.block_seq() {
            Err(e) => Err(e),
            Ok(v) => Ok(Stmt::Block(v)),
        }
    }

    /// Parses an optional `else` branch; see [`spec_else_part`].
    #[verifier::rlimit(100)]
    #[verifier::spinoff_prover]
    fn else_part(&mut self) -> (r: Result<Option<Box<Stmt>>, ParserError>)
        ensures
            final(self).tokens == old(self).tokens,
            (match r {
                Ok(Some(s)) => Ok::<(Option<Box<StmtV>>, int), ParserErrorV>(
                    (Some(Box::new(s@)), final(self).cursor as int),
                ),
                Ok(None) => Ok((None, final(self).cursor as int)),
                Err(e) => Err(e.deep_view()),
            }) == spec_else_part(old(self).tokens.deep_view(), old(self).cursor as int),
            r is Ok ==> old(self).cursor <= final(self).cursor,
        decreases rem_of(self.tokens@.len() as int, self.cursor as int), 23int,
    {
        proof {
            reveal(spec_else_part);
        }
        let else_here = self.peek_same(&Token::Keyword(Keyword::Else));
        if !else_here {
            return Ok(None);
        }
        proof {
            assert(self.cursor < self.tokens.len());
        }
        self.adv();
        let curly = self.peek_same(&Token::LeftCurly);
        if curly {
            match self.block() {
                Err(e) => Err(e),
                Ok(b) => Ok(Some(Box::new(b))),
            }
        } else {
            match self.stmt() {
                Err(e) => Err(e),
                Ok(s) => Ok(Some(Box::new(s))),
            }
        }
    }

    /// Attempts to parse an if statement; see [`spec_if`].
    #[verifier::rlimit(100)]
    #[verifier::spinoff_prover]
    fn if_stmt(&mut self) -> (r: Result<Stmt, ParserError>)
        ensures
            final(self).tokens == old(self).tokens,
            stmt_out(r, final(self).cursor as int) == spec_if(
                old(self).tokens.deep_view(),
                old(self).cursor as int,
            ),
            r is Ok ==> old(self).cursor < final(self).cursor,
        decreases rem_of(self.tokens@.len() as int, self.cursor as int), 22int,
    {
        proof {
            reveal(spec_if);
        }
        let pos0 = self.cursor;
        let if_here = self.peek_same(&Token::Keyword(Keyword::If));
        if !if_here {
            return Err(ParserError::Expected(Token::LeftBracket, pos0));
        }
        proof {
            assert(self.cursor < self.tokens.len());
        }
        self.adv();
        let lb = self.peek_same(&Token::LeftBracket);
        if !lb {
            return Err(ParserError::Expected(Token::LeftBracket, pos0));
        }
        proof {
            assert(self.cursor < self.tokens.len());
        }
        self.adv();
        match self.expr() {
            Err(e) => Err(e),
            Ok(cond) => {
                let rb = self.peek_same(&Token::RightBracket);
                if !rb {
                    return Err(ParserError::Expected(Token::RightBracket, self.cursor));
                }
                proof {
                    assert(self.cursor < self.tokens.len());
                }
                self.adv();
                if self.is_at_end() {
                    return Err(ParserError::UnexpectedEOF);
                }
                let curly = self.peek_same(&Token::LeftCurly);
                let then_branch = if curly {
                    self.block()
                } else {
                    self.stmt()
                };
                match then_branch {
                    Err(e) => Err(e),
                    Ok(then) => match self.else_part() {
                        Err(e) => Err(e),
                        Ok(els) => Ok(Stmt::If(cond, Box::new(then), els)),
                    },
                }
            },
        }
    }

    /// Attempts to parse a while statement; see [`spec_while`].
    #[verifier::rlimit(100)]
    fn while_stmt(&mut self) -> (r: Result<Stmt, ParserError>)
        ensures
            final(self).tokens == old(self).tokens,
            stmt_out(r, final(self).cursor as int) == spec_while(
                old(self).tokens.deep_view(),
                old(self).cursor as int,
            ),
            r is Ok ==> old(self).cursor < final(self).cursor,
        decreases rem_of(self.tokens@.len() as int, self.cursor as int), 22int,
    {
        proof {
            reveal_with_fuel(spec_while, 2);
            reveal(spec_block);
        }
        let pos0 = self.cursor;
        let while_here = self.peek_same(&Token::Keyword(Keyword::While));
        if !while_here {
            return Err(
                ParserError::FailedRuleMatch(Self::rules_kw_bracket(Keyword::While), pos0),
            );
        }
        proof {
            assert(self.cursor < self.tokens.len());
        }
        self.adv();
        let lb = self.peek_same(&Token::LeftBracket);
        if !lb {
            return Err(
                ParserError::FailedRuleMatch(Self::rules_kw_bracket(Keyword::While), pos0),
            );
        }
        proof {
            assert(old(self).tokens.deep_view()[self.cursor as int] == TokenV::LeftBracket);
        }
        proof {
            assert(self.cursor < self.tokens.len());
        }
        self.adv();
        let ghost toksg = old(self).tokens.deep_view();
        let ghost posg = old(self).cursor as int;
        let ghost p2g = self.cursor as int;
        match self.expr() {
            Err(e) => Err(e),
            Ok(cond) => {
                let ghost p3g = self.cursor as int;
                let ghost condv = cond@;
                proof {
                    assert(spec_expr(toksg, p2g) == Ok::<(ExprV, int), ParserErrorV>(
                        (condv, p3g),
                    ));
                    assert(p3g > posg);
                }
                let rb = self.peek_same(&Token::RightBracket);
                if !rb {
                    return Err(
                        ParserError::FailedRuleMatch(
                            Self::rule_one(Token::RightBracket),
                            self.cursor,
                        ),
                    );
                }
                proof {
                    assert(self.cursor < self.tokens.len());
                }
                self.adv();
                if self.is_at_end() {
                    proof {
                        reveal(spec_block);
                        reveal(spec_block_seq);
                    }
                    return Err(ParserError::UnexpectedEOF);
                }
                match self.block() {
                    Err(e) => Err(e),
                    Ok(body) => Ok(Stmt::While(cond, Box::new(body))),
                }
            },
        }
    }

    /// Attempts to parse an assignment statement; see
    /// [`spec_assignment`].
    #[verifier::rlimit(100)]
    #[verifier::spinoff_prover]
    fn assignment(&mut self) -> (r: Result<Stmt, ParserError>)
        ensures
            final(self).tokens == old(self).tokens,
            stmt_out(r, final(self).cursor as int) == spec_assignment(
                old(self).tokens.deep_view(),
                old(self).cursor as int,
            ),
            r is Ok ==> old(self).cursor < final(self).cursor,
        decreases rem_of(self.tokens@.len() as int, self.cursor as int), 22int,
    {
        proof {
            reveal(spec_assignment);
            reveal_with_fuel(crate::expr::view_stmt, 3);
        }
        if self.is_at_end() {
            return Err(
                ParserError::FailedRuleMatch(
                    Self::rule_one(Token::Ident("".to_owned())),
                    self.cursor,
                ),
            );
        }
        proof {
            assert(self.cursor < self.tokens.len());
        }
        self.adv();
        let name_tok = match self.prev() {
            Err(e) => {
                return Err(e);
            },
            Ok(t) => t,
        };
        let sign = self.peek_same(&Token::DeclarationSign);
        if !sign {
            return Err(
                ParserError::FailedRuleMatch(Self::rule_one(Token::DeclarationSign), self.cursor),
            );
        }
        proof {
            assert(self.cursor < self.tokens.len());
        }
        self.adv();
        match self.expr() {
            Err(e) => Err(e),
            Ok(e) => match name_tok {
                Token::Ident(name) => Ok(Stmt::Assignment(Declaration { ident: name, val: e })),
                _ => Err(ParserError::TokenError(
                    crate::lexer::token::TokenError::FailedConversion,
                )),
            },
        }
    }

    /// Attempts to parse a for statement, desugaring it; see
    /// [`spec_for`].
    #[verifier::rlimit(100)]
    #[verifier::spinoff_prover]
    fn for_stmt(&mut self) -> (r: Result<Stmt, ParserError>)
        ensures
            final(self).tokens == old(self).tokens,
            stmt_out(r, final(self).cursor as int) == spec_for(
                old(self).tokens.deep_view(),
                old(self).cursor as int,
            ),
            r is Ok ==> old(self).cursor < final(self).cursor,
        decreases rem_of(self.tokens@.len() as int, self.cursor as int), 22int,
    {
        proof {
            reveal_with_fuel(spec_for, 2);
            reveal(spec_stmt);
            reveal(spec_block_seq);
            reveal(spec_expr);
            reveal_with_fuel(crate::expr::view_stmt, 6);
        }
        let pos0 = self.cursor;
        let for_here = self.peek_same(&Token::Keyword(Keyword::For));
        if !for_here {
            return Err(
                ParserError::FailedRuleMatch(Self::rules_kw_bracket(Keyword::For), pos0),
            );
        }
        proof {
            assert(self.cursor < self.tokens.len());
        }
        self.adv();
        let lb = self.peek_same(&Token::LeftBracket);
        if !lb {
            return Err(
                ParserError::FailedRuleMatch(Self::rules_kw_bracket(Keyword::For), pos0),
            );
        }
        proof {
            assert(self.cursor < self.tokens.len());
        }
        self.adv();
        match self.stmt() {
            Err(e) => Err(e),
            Ok(init) => match self.expr() {
                Err(e) => Err(e),
                Ok(cond) => match self.stmt() {
                    Err(e) => Err(e),
                    Ok(inc) => {
                        let rb = self.peek_same(&Token::RightBracket);
                        if !rb {
                            return Err(
                                ParserError::FailedRuleMatch(
                                    Self::rule_one(Token::RightBracket),
                                    self.cursor,
                                ),
                            );
                        }
                        proof {
                            assert(self.cursor < self.tokens.len());
                        }
                        self.adv();
                        if self.is_at_end() {
                            proof {
                                reveal(spec_block_seq);
                            }
                            return Err(ParserError::UnexpectedEOF);
                        }
                        match self.block_seq() {
                            Err(e) => Err(e),
                            Ok(mut body) => {
                                let ghost bodyv = body@;
                                let ghost incv = inc@;
                                body.push(inc);
                                proof {
                                    assert(body@.drop_last() =~= bodyv);
                                    crate::expr::lemma_view_stmts_push(
                                        body@.drop_last(),
                                        body@.last(),
                                    );
                                    assert(body@ =~= body@.drop_last().push(body@.last()));
                                }
                                let whole = Stmt::While(
                                    cond,
                                    Box::new(Stmt::Block(body)),
                                );
                                let mut stmts: Vec<Stmt> = Vec::new();
                                stmts.push(init);
                                stmts.push(whole);
                                proof {
                                    crate::expr::lemma_view_stmts_len(stmts@);
                                    assert(view_stmts(stmts@) =~= seq![
                                        stmts@[0]@,
                                        stmts@[1]@,
                                    ]);
                                }
                                Ok(Stmt::Block(stmts))
                            },
                        }
                    },
                },
            },
        }
    }

    /// Attempts to parse a function declaration; see [`spec_func`].
    #[verifier::rlimit(100)]
    #[verifier::spinoff_prover]
    pub fn func(&mut self) -> (r: Result<Stmt, ParserError>)
        ensures
            final(self).tokens == old(self).tokens,
            stmt_out(r, final(self).cursor as int) == spec_func(
                old(self).tokens.deep_view(),
                old(self).cursor as int,
            ),
            r is Ok ==> old(self).cursor < final(self).cursor,
        decreases rem_of(self.tokens@.len() as int, self.cursor as int), 22int,
    {
        proof {
            reveal_with_fuel(spec_func, 2);
            reveal(spec_params);
            reveal(spec_block);
            reveal(spec_block_seq);
            reveal_with_fuel(crate::expr::view_stmt, 6);
        }
        let func_here = self.peek_same(&Token::Keyword(Keyword::Func));
        if !func_here {
            return Err(
                ParserError::FailedRuleMatch(
                    Self::rule_one(Token::Keyword(Keyword::Func)),
                    self.cursor,
                ),
            );
        }
        proof {
            assert(self.cursor < self.tokens.len());
        }
        self.adv();
        if self.is_at_end() {
            return Err(ParserError::UnexpectedEOF);
        }
        let name = match self.tokens[self.cursor].dup() {
            Token::Ident(name) => name,
            _ => {
                return Err(ParserError::TokenError(
                    crate::lexer::token::TokenError::FailedConversion,
                ));
            },
        };
        proof {
            assert(self.cursor < self.tokens.len());
        }
        self.adv();
        let lb = self.peek_same(&Token::LeftBracket);
        if !lb {
            return Err(
                ParserError::FailedRuleMatch(Self::rule_one(Token::LeftBracket), self.cursor),
            );
        }
        proof {
            assert(self.cursor < self.tokens.len());
        }
        self.adv();
        let empty_params = self.peek_same(&Token::RightBracket);
        let params_out = if empty_params {
            proof {
                assert(self.cursor < self.tokens.len());
            }
            self.adv();
            let v: Vec<String> = Vec::new();
            proof {
                assert(v.deep_view() =~= Seq::<Seq<char>>::empty());
            }
            Ok(v)
        } else {
            let acc: Vec<String> = Vec::new();
            proof {
                assert(acc.deep_view() =~= Seq::<Seq<char>>::empty());
            }
            self.params(acc)
        };
        match params_out {
            Err(e) => Err(e),
            Ok(params) => {
                if self.is_at_end() {
                    proof {
                        reveal(spec_block);
                        reveal(spec_block_seq);
                    }
                    return Err(ParserError::UnexpectedEOF);
                }
                match self.block() {
                    Err(e) => Err(e),
                    Ok(body) => Ok(
                        Stmt::Declaration(
                            Declaration { ident: name, val: Expr::Func(Func::new(body, params)) },
                        ),
                    ),
                }
            },
        }
    }

    /// Parses the parameter names of a function declaration; see
    /// [`spec_params`].
    #[verifier::rlimit(100)]
    #[verifier::spinoff_prover]
    fn params(&mut self, acc: Vec<String>) -> (r: Result<Vec<String>, ParserError>)
        ensures
            final(self).tokens == old(self).tokens,
            (match r {
                Ok(v) => Ok((v.deep_view(), final(self).cursor as int)),
                Err(e) => Err::<(Seq<Seq<char>>, int), ParserErrorV>(e.deep_view()),
            }) == spec_params(
                old(self).tokens.deep_view(),
                old(self).cursor as int,
                acc.deep_view(),
            ),
            r is Ok ==> old(self).cursor <= final(self).cursor,
        decreases rem_of(self.tokens@.len() as int, self.cursor as int), 0int,
    {
        proof {
            reveal(spec_params);
        }
        if self.is_at_end() {
            return Err(ParserError::UnexpectedEOF);
        }
        match self.tokens[self.cursor].dup() {
            Token::Ident(name) => {
                proof {
                    assert(self.cursor < self.tokens.len());
                }
                self.adv();
                let comma = self.peek_same(&Token::Comma);
                let rb = self.peek_same(&Token::RightBracket);
                let ghost accv = acc.deep_view();
                let ghost namev = name@;
                let mut acc2 = acc;
                acc2.push(name);
                proof {
                    assert(acc2.deep_view() =~= accv.push(namev));
                }
                if comma {
                    proof {
                        assert(self.cursor < self.tokens.len());
                    }
                    self.adv();
                    self.params(acc2)
                } else if rb {
                    proof {
                        assert(self.cursor < self.tokens.len());
                    }
                    self.adv();
                    Ok(acc2)
                } else {
                    Err(ParserError::Expected(Token::RightBracket, self.cursor))
                }
            },
            t => Err(ParserError::UnexpectedToken(t, self.cursor)),
        }
    }

    /// Attempts to parse a return statement; see [`spec_return`].
    #[verifier::rlimit(100)]
    #[verifier::spinoff_prover]
    pub fn return_stmt(&mut self) -> (r: Result<Stmt, ParserError>)
        ensures
            final(self).tokens == old(self).tokens,
            stmt_out(r, final(self).cursor as int) == spec_return(
                old(self).tokens.deep_view(),
                old(self).cursor as int,
            ),
            r is Ok ==> old(self).cursor < final(self).cursor,
        decreases rem_of(self.tokens@.len() as int, self.cursor as int), 22int,
    {
        proof {
            reveal(spec_return);
        }
        let return_here = self.peek_same(&Token::Keyword(Keyword::Return));
        if !return_here {
            return Err(
                ParserError::FailedRuleMatch(
                    Self::rule_one(Token::Keyword(Keyword::Return)),
                    self.cursor,
                ),
            );
        }
        proof {
            assert(self.cursor < self.tokens.len());
        }
        self.adv();
        match self.expr() {
            Err(e) => Err(e),
            Ok(e) => Ok(Stmt::Return(e)),
        }
    }

    /// Parses the whole token stream into statements; see
    /// [`spec_program`].
    #[verifier::rlimit(100)]
    #[verifier::spinoff_prover]
    pub fn get_statements(&mut self) -> (r: Result<Vec<Stmt>, ParserError>)
        ensures
            final(self).tokens == old(self).tokens,
            (match r {
                Ok(v) => Ok(view_stmts(v@)),
                Err(e) => Err::<Seq<StmtV>, ParserErrorV>(e.deep_view()),
            }) == spec_program(old(self).tokens.deep_view(), old(self).cursor as int),
        decreases rem_of(self.tokens@.len() as int, self.cursor as int), 28int,
    {
        proof {
            reveal(spec_program);
            reveal(spec_stmt);
        }
        match self.stmt() {
            Err(e) => Err(e),
            Ok(s) => {
                if self.is_at_end() {
                    let mut v: Vec<Stmt> = Vec::new();
                    let ghost sv = s@;
                    v.push(s);
                    proof {
                        crate::expr::lemma_view_stmts_len(v@);
                        assert(view_stmts(v@) =~= seq![sv]);
                    }
                    Ok(v)
                } else {
                    match self.get_statements() {
                        Err(e) => Err(e),
                        Ok(mut rest) => {
                            let ghost sv = s@;
                            let ghost restv = rest@;
                            rest.insert(0, s);
                            proof {
                                crate::expr::lemma_view_stmts_len(rest@);
                                crate::expr::lemma_view_stmts_len(restv);
                                assert(view_stmts(rest@) =~= seq![sv] + view_stmts(restv));
                            }
                            Ok(rest)
                        },
                    }
                }
            },
        }
    }
}

} // verus!
