//! Expression parsing: a precedence ladder from `or` down to primaries,
//! with a dedicated call level so invocations chain. Each executable
//! method is proved to agree with its spec-level mirror.
use vstd::prelude::*;

use crate::expr::{view_expr, view_exprs, BinExpr, BinExprV, Expr, ExprV};
use crate::lexer::op::{BinOp, UnOp};
use crate::lexer::token::{Keyword, Token, TokenV};
use crate::parser::err::{ParserError, ParserErrorV};
use crate::parser::{rem_of, spec_adv, spec_curr, Parser};

verus! {

/// A parse position that certainly moved past `p_old`: the new
/// position when it advanced, one past `p_old` otherwise. The parsers
/// always advance on success, so the fallback never fires; it only
/// keeps the spec recursion visibly well-founded.
pub open spec fn bump(p_old: int, p_new: int) -> int {
    if p_new > p_old {
        p_new
    } else {
        p_old + 1
    }
}

/// View of an expression parse result at a cursor.
pub open spec fn expr_out(r: Result<Expr, ParserError>, pos: int) -> Result<
    (ExprV, int),
    ParserErrorV,
> {
    match r {
        Ok(e) => Ok((view_expr(e), pos)),
        Err(e) => Err(e.deep_view()),
    }
}

/// Folds `lhs op rhs` into a binary node.
pub open spec fn mk_bin(lhs: ExprV, op: BinOp, rhs: ExprV) -> ExprV {
    ExprV::Bin(BinExprV { lhs: Box::new(lhs), rhs: Box::new(rhs), op: op })
}

/// The binary operator under `pos`, if there is one.
pub open spec fn op_at(toks: Seq<TokenV>, pos: int) -> Option<BinOp> {
    if 0 <= pos < toks.len() {
        match toks[pos] {
            TokenV::Op(o) => Some(o),
            _ => None,
        }
    } else {
        None
    }
}

/// A primary: a literal, an identifier, `true`/`false`, or a
/// parenthesised expression.
#[verifier::opaque]
pub open spec fn spec_primary(toks: Seq<TokenV>, pos: int) -> Result<(ExprV, int), ParserErrorV>
    decreases rem_of(toks.len() as int, pos), 2int,
{
    match spec_curr(toks, pos) {
        Err(e) => Err(e),
        Ok(t) => match t {
            TokenV::Int(n) => Ok((ExprV::Num(n), spec_adv(toks, pos))),
            TokenV::Str(s) => Ok((ExprV::Str(s), spec_adv(toks, pos))),
            TokenV::Ident(s) => Ok((ExprV::Var(s), spec_adv(toks, pos))),
            TokenV::Keyword(k) => if k == Keyword::True {
                Ok((ExprV::Bool(true), spec_adv(toks, pos)))
            } else if k == Keyword::False {
                Ok((ExprV::Bool(false), spec_adv(toks, pos)))
            } else {
                Err(ParserErrorV::UnexpectedToken(TokenV::Keyword(k), pos as usize))
            },
            TokenV::LeftBracket => {
                let p2 = spec_adv(toks, pos);
                match spec_expr(toks, p2) {
                    Err(e) => Err(e),
                    Ok((e, p3)) => if p3 < toks.len() && toks[p3] == TokenV::RightBracket {
                        Ok((e, spec_adv(toks, p3)))
                    } else {
                        Err(ParserErrorV::Expected(TokenV::RightBracket, p3 as usize))
                    },
                }
            },
            _ => Err(ParserErrorV::Expected(TokenV::LeftBracket, pos as usize)),
        },
    }
}

/// Zero or more argument lists after a callee: each `( … )` wraps the
/// expression so far in another call node.
#[verifier::opaque]
pub open spec fn spec_call_rest(toks: Seq<TokenV>, pos: int, callee: ExprV) -> Result<
    (ExprV, int),
    ParserErrorV,
>
    decreases rem_of(toks.len() as int, pos), 0int,
{
    if 0 <= pos < toks.len() && toks[pos] == TokenV::LeftBracket {
        let p2 = spec_adv(toks, pos);
        if p2 < toks.len() && toks[p2] == TokenV::RightBracket {
            let p3 = spec_adv(toks, p2);
            spec_call_rest(toks, bump(pos, p3), ExprV::Funcall(Box::new(callee), Seq::empty()))
        } else {
            match spec_expr(toks, p2) {
                Err(e) => Err(e),
                Ok((first, p3)) => match spec_call_args(toks, bump(p2, p3), seq![first]) {
                    Err(e) => Err(e),
                    Ok((args, p4)) => if p4 < toks.len() && toks[p4] == TokenV::RightBracket {
                        spec_call_rest(
                            toks,
                            bump(pos, spec_adv(toks, p4)),
                            ExprV::Funcall(Box::new(callee), args),
                        )
                    } else {
                        Err(ParserErrorV::Expected(TokenV::RightBracket, p4 as usize))
                    },
                },
            }
        }
    } else {
        Ok((callee, pos))
    }
}

/// The comma-separated arguments that follow the first one.
#[verifier::opaque]
pub open spec fn spec_call_args(toks: Seq<TokenV>, pos: int, acc: Seq<ExprV>) -> Result<
    (Seq<ExprV>, int),
    ParserErrorV,
>
    decreases rem_of(toks.len() as int, pos), 0int,
{
    if 0 <= pos < toks.len() && toks[pos] == TokenV::Comma {
        let p2 = spec_adv(toks, pos);
        match spec_expr(toks, p2) {
            Err(e) => Err(e),
            Ok((e, p3)) => spec_call_args(toks, bump(p2, p3), acc.push(e)),
        }
    } else {
        Ok((acc, pos))
    }
}

/// The call level: a primary followed by any number of argument lists.
#[verifier::opaque]
pub open spec fn spec_call(toks: Seq<TokenV>, pos: int) -> Result<(ExprV, int), ParserErrorV>
    decreases rem_of(toks.len() as int, pos), 4int,
{
    match spec_primary(toks, pos) {
        Err(e) => Err(e),
        Ok((callee, p2)) => spec_call_rest(toks, bump(pos, p2), callee),
    }
}

/// A unary expression: an optional prefix `!` over a call.
#[verifier::opaque]
pub open spec fn spec_unary(toks: Seq<TokenV>, pos: int) -> Result<(ExprV, int), ParserErrorV>
    decreases rem_of(toks.len() as int, pos), 6int,
{
    if 0 <= pos < toks.len() && toks[pos] == TokenV::UnOp(UnOp::Bang) {
        let p2 = spec_adv(toks, pos);
        match spec_call(toks, p2) {
            Err(e) => Err(e),
            Ok((e, p3)) => Ok((ExprV::Unary(UnOp::Bang, Box::new(e)), p3)),
        }
    } else {
        spec_call(toks, pos)
    }
}

/// A factor: unaries folded left under `*` and `/`.
#[verifier::opaque]
pub open spec fn spec_factor(toks: Seq<TokenV>, pos: int) -> Result<(ExprV, int), ParserErrorV>
    decreases rem_of(toks.len() as int, pos), 8int,
{
    match spec_unary(toks, pos) {
        Err(e) => Err(e),
        Ok((lhs, p2)) => spec_factor_rest(toks, bump(pos, p2), lhs),
    }
}

/// The left fold of `* /` operands onto `lhs`.
#[verifier::opaque]
pub open spec fn spec_factor_rest(toks: Seq<TokenV>, pos: int, lhs: ExprV) -> Result<
    (ExprV, int),
    ParserErrorV,
>
    decreases rem_of(toks.len() as int, pos), 0int,
{
    match op_at(toks, pos) {
        Some(o) => if o == BinOp::Mul || o == BinOp::Div {
            let p2 = spec_adv(toks, pos);
            match spec_unary(toks, p2) {
                Err(e) => Err(e),
                Ok((rhs, p3)) => spec_factor_rest(toks, bump(p2, p3), mk_bin(lhs, o, rhs)),
            }
        } else {
            Ok((lhs, pos))
        },
        None => Ok((lhs, pos)),
    }
}

/// A term: factors folded left under `+` and `-`.
#[verifier::opaque]
pub open spec fn spec_term(toks: Seq<TokenV>, pos: int) -> Result<(ExprV, int), ParserErrorV>
    decreases rem_of(toks.len() as int, pos), 10int,
{
    match spec_factor(toks, pos) {
        Err(e) => Err(e),
        Ok((lhs, p2)) => spec_term_rest(toks, bump(pos, p2), lhs),
    }
}

/// The left fold of `+ -` operands onto `lhs`.
#[verifier::opaque]
pub open spec fn spec_term_rest(toks: Seq<TokenV>, pos: int, lhs: ExprV) -> Result<
    (ExprV, int),
    ParserErrorV,
>
    decreases rem_of(toks.len() as int, pos), 0int,
{
    match op_at(toks, pos) {
        Some(o) => if o == BinOp::Add || o == BinOp::Sub {
            let p2 = spec_adv(toks, pos);
            match spec_factor(toks, p2) {
                Err(e) => Err(e),
                Ok((rhs, p3)) => spec_term_rest(toks, bump(p2, p3), mk_bin(lhs, o, rhs)),
            }
        } else {
            Ok((lhs, pos))
        },
        None => Ok((lhs, pos)),
    }
}

/// A comparison: terms folded left under `> >= < <=`.
#[verifier::opaque]
pub open spec fn spec_comparision(toks: Seq<TokenV>, pos: int) -> Result<
    (ExprV, int),
    ParserErrorV,
>
    decreases rem_of(toks.len() as int, pos), 12int,
{
    match spec_term(toks, pos) {
        Err(e) => Err(e),
        Ok((lhs, p2)) => spec_comparision_rest(toks, bump(pos, p2), lhs),
    }
}

/// The left fold of ordering operands onto `lhs`.
#[verifier::opaque]
pub open spec fn spec_comparision_rest(toks: Seq<TokenV>, pos: int, lhs: ExprV) -> Result<
    (ExprV, int),
    ParserErrorV,
>
    decreases rem_of(toks.len() as int, pos), 0int,
{
    match op_at(toks, pos) {
        Some(o) => if o == BinOp::GreaterSign || o == BinOp::GreaterEqSign || o == BinOp::LessSign
            || o == BinOp::LessEqSign {
            let p2 = spec_adv(toks, pos);
            match spec_term(toks, p2) {
                Err(e) => Err(e),
                Ok((rhs, p3)) => spec_comparision_rest(toks, bump(p2, p3), mk_bin(lhs, o, rhs)),
            }
        } else {
            Ok((lhs, pos))
        },
        None => Ok((lhs, pos)),
    }
}

/// An equality: comparisons folded left under `==` and `!=`.
#[verifier::opaque]
pub open spec fn spec_equality(toks: Seq<TokenV>, pos: int) -> Result<(ExprV, int), ParserErrorV>
    decreases rem_of(toks.len() as int, pos), 14int,
{
    match spec_comparision(toks, pos) {
        Err(e) => Err(e),
        Ok((lhs, p2)) => spec_equality_rest(toks, bump(pos, p2), lhs),
    }
}

/// The left fold of `== !=` operands onto `lhs`.
#[verifier::opaque]
pub open spec fn spec_equality_rest(toks: Seq<TokenV>, pos: int, lhs: ExprV) -> Result<
    (ExprV, int),
    ParserErrorV,
>
    decreases rem_of(toks.len() as int, pos), 0int,
{
    match op_at(toks, pos) {
        Some(o) => if o == BinOp::EqSign || o == BinOp::NeqSign {
            let p2 = spec_adv(toks, pos);
            match spec_comparision(toks, p2) {
                Err(e) => Err(e),
                Ok((rhs, p3)) => spec_equality_rest(toks, bump(p2, p3), mk_bin(lhs, o, rhs)),
            }
        } else {
            Ok((lhs, pos))
        },
        None => Ok((lhs, pos)),
    }
}

/// A conjunction: equalities folded left under `and`.
#[verifier::opaque]
pub open spec fn spec_logical_and(toks: Seq<TokenV>, pos: int) -> Result<
    (ExprV, int),
    ParserErrorV,
>
    decreases rem_of(toks.len() as int, pos), 16int,
{
    match spec_equality(toks, pos) {
        Err(e) => Err(e),
        Ok((lhs, p2)) => spec_logical_and_rest(toks, bump(pos, p2), lhs),
    }
}

/// The left fold of `and` operands onto `lhs`.
#[verifier::opaque]
pub open spec fn spec_logical_and_rest(toks: Seq<TokenV>, pos: int, lhs: ExprV) -> Result<
    (ExprV, int),
    ParserErrorV,
>
    decreases rem_of(toks.len() as int, pos), 0int,
{
    match op_at(toks, pos) {
        Some(o) => if o == BinOp::And {
            let p2 = spec_adv(toks, pos);
            match spec_equality(toks, p2) {
                Err(e) => Err(e),
                Ok((rhs, p3)) => spec_logical_and_rest(
                    toks,
                    bump(p2, p3),
                    mk_bin(lhs, BinOp::And, rhs),
                ),
            }
        } else {
            Ok((lhs, pos))
        },
        None => Ok((lhs, pos)),
    }
}

/// A disjunction: conjunctions folded left under `or`.
#[verifier::opaque]
pub open spec fn spec_logical_or(toks: Seq<TokenV>, pos: int) -> Result<(ExprV, int), ParserErrorV>
    decreases rem_of(toks.len() as int, pos), 18int,
{
    match spec_logical_and(toks, pos) {
        Err(e) => Err(e),
        Ok((lhs, p2)) => spec_logical_or_rest(toks, bump(pos, p2), lhs),
    }
}

/// The left fold of `or` operands onto `lhs`.
#[verifier::opaque]
pub open spec fn spec_logical_or_rest(toks: Seq<TokenV>, pos: int, lhs: ExprV) -> Result<
    (ExprV, int),
    ParserErrorV,
>
    decreases rem_of(toks.len() as int, pos), 0int,
{
    match op_at(toks, pos) {
        Some(o) => if o == BinOp::Or {
            let p2 = spec_adv(toks, pos);
            match spec_logical_and(toks, p2) {
                Err(e) => Err(e),
                Ok((rhs, p3)) => spec_logical_or_rest(
                    toks,
                    bump(p2, p3),
                    mk_bin(lhs, BinOp::Or, rhs),
                ),
            }
        } else {
            Ok((lhs, pos))
        },
        None => Ok((lhs, pos)),
    }
}

/// A whole expression: the lowest precedence level.
#[verifier::opaque]
pub open spec fn spec_expr(toks: Seq<TokenV>, pos: int) -> Result<(ExprV, int), ParserErrorV>
    decreases rem_of(toks.len() as int, pos), 20int,
{
    spec_logical_or(toks, pos)
}

impl Parser {
    /// The binary operator under the cursor, if any; does not advance.
    #[verifier::rlimit(100)]
    #[verifier::spinoff_prover]
    fn peek_op(&self) -> (r: Option<BinOp>)
        ensures
            r == op_at(self.tokens.deep_view(), self.cursor as int),
    {
        if self.is_at_end() {
            return None;
        }
        match &self.tokens[self.cursor] {
            Token::Op(o) => Some(*o),
            _ => None,
        }
    }

    /// Attempts to parse an expression.
    #[verifier::rlimit(100)]
    #[verifier::spinoff_prover]
    pub fn expr(&mut self) -> (r: Result<Expr, ParserError>)
        ensures
            final(self).tokens == old(self).tokens,
            expr_out(r, final(self).cursor as int) == spec_expr(
                old(self).tokens.deep_view(),
                old(self).cursor as int,
            ),
            r is Ok ==> old(self).cursor < final(self).cursor,
        decreases rem_of(self.tokens@.len() as int, self.cursor as int), 20int,
    {
        proof {
            reveal(spec_expr);
        }
        self.logical_or()
    }

    /// Attempts to parse a logical `or` expression.
    #[verifier::rlimit(100)]
    #[verifier::spinoff_prover]
    pub fn logical_or(&mut self) -> (r: Result<Expr, ParserError>)
        ensures
            final(self).tokens == old(self).tokens,
            expr_out(r, final(self).cursor as int) == spec_logical_or(
                old(self).tokens.deep_view(),
                old(self).cursor as int,
            ),
            r is Ok ==> old(self).cursor < final(self).cursor,
        decreases rem_of(self.tokens@.len() as int, self.cursor as int), 18int,
    {
        proof {
            reveal(spec_logical_or);
        }
        match self.logical_and() {
            Err(e) => Err(e),
            Ok(lhs) => self.logical_or_rest(lhs),
        }
    }

    /// Parses the trailing `or` operands onto `lhs`.
    #[verifier::rlimit(100)]
    #[verifier::spinoff_prover]
    fn logical_or_rest(&mut self, lhs: Expr) -> (r: Result<Expr, ParserError>)
        ensures
            final(self).tokens == old(self).tokens,
            expr_out(r, final(self).cursor as int) == spec_logical_or_rest(
                old(self).tokens.deep_view(),
                old(self).cursor as int,
                lhs@,
            ),
            r is Ok ==> old(self).cursor <= final(self).cursor,
        decreases rem_of(self.tokens@.len() as int, self.cursor as int), 0int,
    {
        proof {
            reveal(spec_logical_or_rest);
        }
        let take = match self.peek_op() {
            Some(BinOp::Or) => true,
            _ => false,
        };
        if !take {
            return Ok(lhs);
        }
        proof {
            assert(self.cursor < self.tokens.len());
        }
        self.adv();
        match self.logical_and() {
            Err(e) => Err(e),
            Ok(rhs) => {
                let folded = Expr::Bin(
                    BinExpr { lhs: Box::new(lhs), rhs: Box::new(rhs), op: BinOp::Or },
                );
                self.logical_or_rest(folded)
            },
        }
    }

    /// Attempts to parse a logical `and` expression.
    #[verifier::rlimit(100)]
    #[verifier::spinoff_prover]
    pub fn logical_and(&mut self) -> (r: Result<Expr, ParserError>)
        ensures
            final(self).tokens == old(self).tokens,
            expr_out(r, final(self).cursor as int) == spec_logical_and(
                old(self).tokens.deep_view(),
                old(self).cursor as int,
            ),
            r is Ok ==> old(self).cursor < final(self).cursor,
        decreases rem_of(self.tokens@.len() as int, self.cursor as int), 16int,
    {
        proof {
            reveal(spec_logical_and);
        }
        match self.equality() {
            Err(e) => Err(e),
            Ok(lhs) => self.logical_and_rest(lhs),
        }
    }

    /// Parses the trailing `and` operands onto `lhs`.
    #[verifier::rlimit(100)]
    #[verifier::spinoff_prover]
    fn logical_and_rest(&mut self, lhs: Expr) -> (r: Result<Expr, ParserError>)
        ensures
            final(self).tokens == old(self).tokens,
            expr_out(r, final(self).cursor as int) == spec_logical_and_rest(
                old(self).tokens.deep_view(),
                old(self).cursor as int,
                lhs@,
            ),
            r is Ok ==> old(self).cursor <= final(self).cursor,
        decreases rem_of(self.tokens@.len() as int, self.cursor as int), 0int,
    {
        proof {
            reveal(spec_logical_and_rest);
        }
        let take = match self.peek_op() {
            Some(BinOp::And) => true,
            _ => false,
        };
        if !take {
            return Ok(lhs);
        }
        proof {
            assert(self.cursor < self.tokens.len());
        }
        self.adv();
        match self.equality() {
            Err(e) => Err(e),
            Ok(rhs) => {
                let folded = Expr::Bin(
                    BinExpr { lhs: Box::new(lhs), rhs: Box::new(rhs), op: BinOp::And },
                );
                self.logical_and_rest(folded)
            },
        }
    }

    /// Attempts to parse an equality expression.
    #[verifier::rlimit(100)]
    #[verifier::spinoff_prover]
    pub fn equality(&mut self) -> (r: Result<Expr, ParserError>)
        ensures
            final(self).tokens == old(self).tokens,
            expr_out(r, final(self).cursor as int) == spec_equality(
                old(self).tokens.deep_view(),
                old(self).cursor as int,
            ),
            r is Ok ==> old(self).cursor < final(self).cursor,
        decreases rem_of(self.tokens@.len() as int, self.cursor as int), 14int,
    {
        proof {
            reveal(spec_equality);
        }
        match self.comparision() {
            Err(e) => Err(e),
            Ok(lhs) => self.equality_rest(lhs),
        }
    }

    /// Parses the trailing `==`/`!=` operands onto `lhs`.
    #[verifier::rlimit(100)]
    #[verifier::spinoff_prover]
    fn equality_rest(&mut self, lhs: Expr) -> (r: Result<Expr, ParserError>)
        ensures
            final(self).tokens == old(self).tokens,
            expr_out(r, final(self).cursor as int) == spec_equality_rest(
                old(self).tokens.deep_view(),
                old(self).cursor as int,
                lhs@,
            ),
            r is Ok ==> old(self).cursor <= final(self).cursor,
        decreases rem_of(self.tokens@.len() as int, self.cursor as int), 0int,
    {
        proof {
            reveal(spec_equality_rest);
        }
        let op = match self.peek_op() {
            Some(BinOp::EqSign) => Some(BinOp::EqSign),
            Some(BinOp::NeqSign) => Some(BinOp::NeqSign),
            _ => None,
        };
        match op {
            None => Ok(lhs),
            Some(o) => {
                proof {
                    assert(self.cursor < self.tokens.len());
                }
                self.adv();
                match self.comparision() {
                    Err(e) => Err(e),
                    Ok(rhs) => {
                        let folded = Expr::Bin(
                            BinExpr { lhs: Box::new(lhs), rhs: Box::new(rhs), op: o },
                        );
                        self.equality_rest(folded)
                    },
                }
            },
        }
    }

    /// Attempts to parse a comparison expression.
    #[verifier::rlimit(100)]
    #[verifier::spinoff_prover]
    pub fn comparision(&mut self) -> (r: Result<Expr, ParserError>)
        ensures
            final(self).tokens == old(self).tokens,
            expr_out(r, final(self).cursor as int) == spec_comparision(
                old(self).tokens.deep_view(),
                old(self).cursor as int,
            ),
            r is Ok ==> old(self).cursor < final(self).cursor,
        decreases rem_of(self.tokens@.len() as int, self.cursor as int), 12int,
    {
        proof {
            reveal(spec_comparision);
        }
        match self.term() {
            Err(e) => Err(e),
            Ok(lhs) => self.comparision_rest(lhs),
        }
    }

    /// Parses the trailing ordering operands onto `lhs`.
    #[verifier::rlimit(100)]
    #[verifier::spinoff_prover]
    fn comparision_rest(&mut self, lhs: Expr) -> (r: Result<Expr, ParserError>)
        ensures
            final(self).tokens == old(self).tokens,
            expr_out(r, final(self).cursor as int) == spec_comparision_rest(
                old(self).tokens.deep_view(),
                old(self).cursor as int,
                lhs@,
            ),
            r is Ok ==> old(self).cursor <= final(self).cursor,
        decreases rem_of(self.tokens@.len() as int, self.cursor as int), 0int,
    {
        proof {
            reveal(spec_comparision_rest);
        }
        let op = match self.peek_op() {
            Some(BinOp::GreaterSign) => Some(BinOp::GreaterSign),
            Some(BinOp::GreaterEqSign) => Some(BinOp::GreaterEqSign),
            Some(BinOp::LessSign) => Some(BinOp::LessSign),
            Some(BinOp::LessEqSign) => Some(BinOp::LessEqSign),
            _ => None,
        };
        match op {
            None => Ok(lhs),
            Some(o) => {
                proof {
                    assert(self.cursor < self.tokens.len());
                }
                self.adv();
                match self.term() {
                    Err(e) => Err(e),
                    Ok(rhs) => {
                        let folded = Expr::Bin(
                            BinExpr { lhs: Box::new(lhs), rhs: Box::new(rhs), op: o },
                        );
                        self.comparision_rest(folded)
                    },
                }
            },
        }
    }

    /// Attempts to parse a term.
    #[verifier::rlimit(100)]
    #[verifier::spinoff_prover]
    pub fn term(&mut self) -> (r: Result<Expr, ParserError>)
        ensures
            final(self).tokens == old(self).tokens,
            expr_out(r, final(self).cursor as int) == spec_term(
                old(self).tokens.deep_view(),
                old(self).cursor as int,
            ),
            r is Ok ==> old(self).cursor < final(self).cursor,
        decreases rem_of(self.tokens@.len() as int, self.cursor as int), 10int,
    {
        proof {
            reveal(spec_term);
        }
        match self.factor() {
            Err(e) => Err(e),
            Ok(lhs) => self.term_rest(lhs),
        }
    }

    /// Parses the trailing `+`/`-` operands onto `lhs`.
    #[verifier::rlimit(100)]
    #[verifier::spinoff_prover]
    fn term_rest(&mut self, lhs: Expr) -> (r: Result<Expr, ParserError>)
        ensures
            final(self).tokens == old(self).tokens,
            expr_out(r, final(self).cursor as int) == spec_term_rest(
                old(self).tokens.deep_view(),
                old(self).cursor as int,
                lhs@,
            ),
            r is Ok ==> old(self).cursor <= final(self).cursor,
        decreases rem_of(self.tokens@.len() as int, self.cursor as int), 0int,
    {
        proof {
            reveal(spec_term_rest);
        }
        let op = match self.peek_op() {
            Some(BinOp::Add) => Some(BinOp::Add),
            Some(BinOp::Sub) => Some(BinOp::Sub),
            _ => None,
        };
        match op {
            None => Ok(lhs),
            Some(o) => {
                proof {
                    assert(self.cursor < self.tokens.len());
                }
                self.adv();
                match self.factor() {
                    Err(e) => Err(e),
                    Ok(rhs) => {
                        let folded = Expr::Bin(
                            BinExpr { lhs: Box::new(lhs), rhs: Box::new(rhs), op: o },
                        );
                        self.term_rest(folded)
                    },
                }
            },
        }
    }

    /// Attempts to parse a factor.
    #[verifier::rlimit(100)]
    #[verifier::spinoff_prover]
    pub fn factor(&mut self) -> (r: Result<Expr, ParserError>)
        ensures
            final(self).tokens == old(self).tokens,
            expr_out(r, final(self).cursor as int) == spec_factor(
                old(self).tokens.deep_view(),
                old(self).cursor as int,
            ),
            r is Ok ==> old(self).cursor < final(self).cursor,
        decreases rem_of(self.tokens@.len() as int, self.cursor as int), 8int,
    {
        proof {
            reveal(spec_factor);
        }
        match self.unary() {
            Err(e) => Err(e),
            Ok(lhs) => self.factor_rest(lhs),
        }
    }

    /// Parses the trailing `*`/`/` operands onto `lhs`.
    #[verifier::rlimit(100)]
    #[verifier::spinoff_prover]
    fn factor_rest(&mut self, lhs: Expr) -> (r: Result<Expr, ParserError>)
        ensures
            final(self).tokens == old(self).tokens,
            expr_out(r, final(self).cursor as int) == spec_factor_rest(
                old(self).tokens.deep_view(),
                old(self).cursor as int,
                lhs@,
            ),
            r is Ok ==> old(self).cursor <= final(self).cursor,
        decreases rem_of(self.tokens@.len() as int, self.cursor as int), 0int,
    {
        proof {
            reveal(spec_factor_rest);
        }
        let op = match self.peek_op() {
            Some(BinOp::Mul) => Some(BinOp::Mul),
            Some(BinOp::Div) => Some(BinOp::Div),
            _ => None,
        };
        match op {
            None => Ok(lhs),
            Some(o) => {
                proof {
                    assert(self.cursor < self.tokens.len());
                }
                self.adv();
                match self.unary() {
                    Err(e) => Err(e),
                    Ok(rhs) => {
                        let folded = Expr::Bin(
                            BinExpr { lhs: Box::new(lhs), rhs: Box::new(rhs), op: o },
                        );
                        self.factor_rest(folded)
                    },
                }
            },
        }
    }

    /// Attempts to parse a unary expression.
    #[verifier::rlimit(100)]
    #[verifier::spinoff_prover]
    pub fn unary(&mut self) -> (r: Result<Expr, ParserError>)
        ensures
            final(self).tokens == old(self).tokens,
            expr_out(r, final(self).cursor as int) == spec_unary(
                old(self).tokens.deep_view(),
                old(self).cursor as int,
            ),
            r is Ok ==> old(self).cursor < final(self).cursor,
        decreases rem_of(self.tokens@.len() as int, self.cursor as int), 6int,
    {
        proof {
            reveal(spec_unary);
        }
        let bang = if self.is_at_end() {
            false
        } else {
            matches!(&self.tokens[self.cursor], Token::UnOp(UnOp::Bang))
        };
        if bang {
            proof {
                assert(self.cursor < self.tokens.len());
            }
            self.adv();
            match self.call() {
                Err(e) => Err(e),
                Ok(e) => Ok(Expr::Unary(UnOp::Bang, Box::new(e))),
            }
        } else {
            self.call()
        }
    }

    /// Attempts to parse a call chain: a primary followed by zero or
    /// more argument lists.
    #[verifier::rlimit(100)]
    #[verifier::spinoff_prover]
    pub fn call(&mut self) -> (r: Result<Expr, ParserError>)
        ensures
            final(self).tokens == old(self).tokens,
            expr_out(r, final(self).cursor as int) == spec_call(
                old(self).tokens.deep_view(),
                old(self).cursor as int,
            ),
            r is Ok ==> old(self).cursor < final(self).cursor,
        decreases rem_of(self.tokens@.len() as int, self.cursor as int), 4int,
    {
        proof {
            reveal(spec_call);
        }
        match self.primary() {
            Err(e) => Err(e),
            Ok(callee) => self.call_rest(callee),
        }
    }

    /// Parses the trailing argument lists onto `callee`.
    #[verifier::rlimit(100)]
    #[verifier::spinoff_prover]
    fn call_rest(&mut self, callee: Expr) -> (r: Result<Expr, ParserError>)
        ensures
            final(self).tokens == old(self).tokens,
            expr_out(r, final(self).cursor as int) == spec_call_rest(
                old(self).tokens.deep_view(),
                old(self).cursor as int,
                callee@,
            ),
            r is Ok ==> old(self).cursor <= final(self).cursor,
        decreases rem_of(self.tokens@.len() as int, self.cursor as int), 0int,
    {
        proof {
            reveal(spec_call_rest);
        }
        let open_bracket = if self.is_at_end() {
            false
        } else {
            matches!(&self.tokens[self.cursor], Token::LeftBracket)
        };
        if !open_bracket {
            return Ok(callee);
        }
        proof {
            assert(self.cursor < self.tokens.len());
        }
        self.adv();
        let empty_args = if self.is_at_end() {
            false
        } else {
            matches!(&self.tokens[self.cursor], Token::RightBracket)
        };
        if empty_args {
            proof {
                assert(self.cursor < self.tokens.len());
            }
            self.adv();
            let no_args: Vec<Expr> = Vec::new();
            proof {
                assert(no_args@ =~= Seq::<Expr>::empty());
                assert(view_exprs(no_args@) =~= Seq::<ExprV>::empty());
            }
            let folded = Expr::Funcall(Box::new(callee), no_args);
            self.call_rest(folded)
        } else {
            match self.expr() {
                Err(e) => Err(e),
                Ok(first) => {
                    let ghost firstv = first@;
                    let mut args: Vec<Expr> = Vec::new();
                    args.push(first);
                    proof {
                        crate::expr::lemma_view_exprs_push(args@.drop_last(), args@.last());
                        assert(args@.drop_last() =~= Seq::<Expr>::empty());
                        assert(view_exprs(Seq::<Expr>::empty()) =~= Seq::<ExprV>::empty());
                        assert(view_exprs(args@) =~= seq![firstv]);
                    }
                    match self.call_args(args) {
                        Err(e) => Err(e),
                        Ok(args2) => {
                            let close_bracket = if self.is_at_end() {
                                false
                            } else {
                                matches!(&self.tokens[self.cursor], Token::RightBracket)
                            };
                            if close_bracket {
                                proof {
                                    assert(self.cursor < self.tokens.len());
                                }
                                self.adv();
                                let folded = Expr::Funcall(Box::new(callee), args2);
                                self.call_rest(folded)
                            } else {
                                Err(ParserError::Expected(Token::RightBracket, self.cursor))
                            }
                        },
                    }
                },
            }
        }
    }

    /// Parses `, expression` groups, extending `acc`.
    #[verifier::rlimit(100)]
    #[verifier::spinoff_prover]
    fn call_args(&mut self, acc: Vec<Expr>) -> (r: Result<Vec<Expr>, ParserError>)
        ensures
            final(self).tokens == old(self).tokens,
            (match r {
                Ok(v) => Ok((view_exprs(v@), final(self).cursor as int)),
                Err(e) => Err::<(Seq<ExprV>, int), ParserErrorV>(e.deep_view()),
            }) == spec_call_args(
                old(self).tokens.deep_view(),
                old(self).cursor as int,
                view_exprs(acc@),
            ),
            r is Ok ==> old(self).cursor <= final(self).cursor,
        decreases rem_of(self.tokens@.len() as int, self.cursor as int), 0int,
    {
        proof {
            reveal(spec_call_args);
        }
        let comma = if self.is_at_end() {
            false
        } else {
            matches!(&self.tokens[self.cursor], Token::Comma)
        };
        if !comma {
            return Ok(acc);
        }
        proof {
            assert(self.cursor < self.tokens.len());
        }
        self.adv();
        match self.expr() {
            Err(e) => Err(e),
            Ok(e) => {
                let ghost accseq = acc@;
                let ghost accv = view_exprs(acc@);
                let ghost ev = e@;
                let mut acc2 = acc;
                acc2.push(e);
                proof {
                    assert(acc2@.drop_last() =~= accseq);
                    crate::expr::lemma_view_exprs_push(acc2@.drop_last(), acc2@.last());
                    assert(acc2@ =~= acc2@.drop_last().push(acc2@.last()));
                    assert(view_exprs(acc2@) == accv.push(ev));
                }
                self.call_args(acc2)
            },
        }
    }

    /// Parses a bracketed expression once the cursor stands on `(`.
    #[verifier::rlimit(100)]
    #[verifier::spinoff_prover]
    fn grouping(&mut self) -> (r: Result<Expr, ParserError>)
        requires
            old(self).cursor < old(self).tokens@.len(),
            old(self).tokens.deep_view()[old(self).cursor as int] == TokenV::LeftBracket,
        ensures
            final(self).tokens == old(self).tokens,
            expr_out(r, final(self).cursor as int) == spec_primary(
                old(self).tokens.deep_view(),
                old(self).cursor as int,
            ),
            r is Ok ==> old(self).cursor < final(self).cursor,
        decreases rem_of(self.tokens@.len() as int, self.cursor as int), 1int,
    {
        proof {
            reveal(spec_primary);
        }
        proof {
            assert(self.cursor < self.tokens.len());
        }
        self.adv();
        match self.expr() {
            Err(e) => Err(e),
            Ok(e) => {
                let close_bracket = if self.is_at_end() {
                    false
                } else {
                    matches!(&self.tokens[self.cursor], Token::RightBracket)
                };
                if close_bracket {
                    proof {
                        assert(self.cursor < self.tokens.len());
                    }
                    self.adv();
                    Ok(e)
                } else {
                    Err(ParserError::Expected(Token::RightBracket, self.cursor))
                }
            },
        }
    }

    /// Attempts to parse a primary: a literal, an identifier, or an
    /// expression wrapped in brackets.
    #[verifier::rlimit(100)]
    #[verifier::spinoff_prover]
    pub fn primary(&mut self) -> (r: Result<Expr, ParserError>)
        ensures
            final(self).tokens == old(self).tokens,
            expr_out(r, final(self).cursor as int) == spec_primary(
                old(self).tokens.deep_view(),
                old(self).cursor as int,
            ),
            r is Ok ==> old(self).cursor < final(self).cursor,
        decreases rem_of(self.tokens@.len() as int, self.cursor as int), 2int,
    {
        proof {
            reveal(spec_primary);
        }
        match self.curr() {
            Err(e) => Err(e),
            Ok(tok) => match tok {
                Token::Int(n) => {
                    proof {
                        assert(self.cursor < self.tokens.len());
                    }
                    self.adv();
                    Ok(Expr::Num(n))
                },
                Token::String(s) => {
                    proof {
                        assert(self.cursor < self.tokens.len());
                    }
                    self.adv();
                    Ok(Expr::Str(s))
                },
                Token::Ident(ident) => {
                    proof {
                        assert(self.cursor < self.tokens.len());
                    }
                    self.adv();
                    Ok(Expr::Var(ident))
                },
                Token::Keyword(k) => match k {
                    Keyword::True => {
                        proof {
                            assert(self.cursor < self.tokens.len());
                        }
                        self.adv();
                        Ok(Expr::Bool(true))
                    },
                    Keyword::False => {
                        proof {
                            assert(self.cursor < self.tokens.len());
                        }
                        self.adv();
                        Ok(Expr::Bool(false))
                    },
                    _ => Err(ParserError::UnexpectedToken(Token::Keyword(k), self.cursor)),
                },
                Token::LeftBracket => self.grouping(),
                _ => Err(ParserError::Expected(Token::LeftBracket, self.cursor)),
            },
        }
    }
}

} // verus!
