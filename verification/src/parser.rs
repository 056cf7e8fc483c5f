//! The recursive-descent parser: turns the token sequence into a list of
//! statements. This file holds the parser state and its cursor helpers;
//! expression parsing lives in [`expr`] and statement parsing in
//! [`stmt`]. Every helper is proved to agree with a spec-level mirror
//! over the token views.

pub mod err;
pub mod expr;
pub mod stmt;

use vstd::prelude::*;

use crate::lexer::token::{Token, TokenV};
use crate::parser::err::{ParserError, ParserErrorV};

verus! {

/// How many tokens remain before `pos` runs off the end of a stream of
/// length `len`. Serves as the termination measure of the parser.
pub open spec fn rem_of(len: int, pos: int) -> int {
    if pos < len {
        len - pos
    } else {
        0
    }
}

/// The cursor after one advance: one step forward, and one more when
/// that lands on a semicolon that is not the last token position. This
/// quirk makes every expression swallow the semicolon that terminates
/// its statement.
pub open spec fn spec_adv(toks: Seq<TokenV>, pos: int) -> int {
    let p1 = pos + 1;
    if p1 < toks.len() && toks[p1] == TokenV::Semi {
        p1 + 1
    } else {
        p1
    }
}

/// The current token, or an error at the end of the stream.
pub open spec fn spec_curr(toks: Seq<TokenV>, pos: int) -> Result<TokenV, ParserErrorV> {
    if 0 <= pos < toks.len() {
        Ok(toks[pos])
    } else {
        Err(ParserErrorV::UnexpectedEOF)
    }
}

/// What `matches` returns and where it leaves the cursor: when the
/// current token equals one of the candidates, that token together with
/// the advanced cursor; otherwise nothing, cursor unchanged.
pub open spec fn spec_matches(toks: Seq<TokenV>, pos: int, pats: Seq<TokenV>) -> (
    Option<TokenV>,
    int,
) {
    if 0 <= pos < toks.len() && pats.contains(toks[pos]) {
        (Some(toks[pos]), spec_adv(toks, pos))
    } else {
        (None, pos)
    }
}

/// One step of `match_rule`: whether the rule token accepts the current
/// token. An integer rule accepts any integer literal, an identifier
/// rule accepts anything, and every other rule demands equality.
pub open spec fn rule_accepts(rule: TokenV, cur: TokenV) -> bool {
    match rule {
        TokenV::Int(_) => cur is Int,
        TokenV::Ident(_) => true,
        _ => cur == rule,
    }
}

/// Matching a whole rule sequence from `pos`, advancing after each
/// accepted token; fails as soon as a token is refused or the stream
/// ends.
pub open spec fn spec_match_seq(toks: Seq<TokenV>, pos: int, rules: Seq<TokenV>) -> (bool, int)
    decreases rules.len(),
{
    if rules.len() == 0 {
        (true, pos)
    } else if !(0 <= pos < toks.len()) {
        (false, pos)
    } else if rule_accepts(rules[0], toks[pos]) {
        spec_match_seq(toks, spec_adv(toks, pos), rules.drop_first())
    } else {
        (false, pos)
    }
}

/// What `match_rule` returns: like [`spec_match_seq`], but the cursor
/// is restored on failure.
pub open spec fn spec_match_rule(toks: Seq<TokenV>, pos: int, rules: Seq<TokenV>) -> (bool, int) {
    let (ok, p2) = spec_match_seq(toks, pos, rules);
    if ok {
        (true, p2)
    } else {
        (false, pos)
    }
}

/// Matching a single-token rule is just one acceptance check.
pub proof fn lemma_match_single(toks: Seq<TokenV>, pos: int, t: TokenV)
    ensures
        spec_match_rule(toks, pos, seq![t]) == (if 0 <= pos < toks.len() && rule_accepts(
            t,
            toks[pos],
        ) {
            (true, spec_adv(toks, pos))
        } else {
            (false, pos)
        }),
{
    reveal_with_fuel(spec_match_seq, 3);
    assert(seq![t].drop_first() =~= Seq::<TokenV>::empty());
    assert(seq![t][0] == t);
}

/// View of a token parse result.
pub open spec fn tok_res_view(r: Result<Token, ParserError>) -> Result<TokenV, ParserErrorV> {
    match r {
        Ok(t) => Ok(t@),
        Err(e) => Err(e.deep_view()),
    }
}

/// View of an optional token.
pub open spec fn opt_tok_view(r: Option<Token>) -> Option<TokenV> {
    match r {
        Some(t) => Some(t@),
        None => None,
    }
}

/// Copies a slice of tokens into a vector with the same view.
pub fn dup_tokens(rules: &[Token]) -> (r: Vec<Token>)
    ensures
        r.deep_view() == rules.deep_view(),
{
    let mut r: Vec<Token> = Vec::new();
    let mut i: usize = 0;
    while i < rules.len()
        invariant
            i <= rules@.len(),
            r@.len() == i,
            forall|j: int| 0 <= j < i ==> r@[j]@ == rules@[j]@,
        decreases rules@.len() - i,
    {
        let t = rules[i].dup();
        r.push(t);
        i = i + 1;
    }
    proof {
        assert(r.deep_view() =~= rules.deep_view());
    }
    r
}

/// A parser: a token sequence and a cursor into it.
pub struct Parser {
    pub tokens: Vec<Token>,
    pub cursor: usize,
}

impl Parser {
    /// Builds a parser positioned at the first token.
    pub fn new(tokens: Vec<Token>) -> (r: Parser)
        ensures
            r.tokens == tokens,
            r.cursor == 0usize,
    {
        Self { tokens, cursor: 0 }
    }

    /// Returns the current cursor of the parser.
    pub fn pos(&self) -> (r: usize)
        ensures
            r == self.cursor,
    {
        self.cursor
    }

    /// Whether the cursor is at or past the end of the token stream.
    pub fn is_at_end(&self) -> (r: bool)
        ensures
            r == (self.cursor >= self.tokens@.len()),
    {
        self.cursor >= self.tokens.len()
    }

    /// Whether the token under the cursor equals `t`.
    pub fn peek_same(&self, t: &Token) -> (r: bool)
        ensures
            r == (self.cursor < self.tokens@.len() && self.tokens.deep_view()[self.cursor as int]
                == t@),
    {
        if self.is_at_end() {
            return false;
        }
        self.tokens[self.cursor].same_as(t)
    }

    /// Advances the cursor; see [`spec_adv`].
    pub fn adv(&mut self)
        requires
            old(self).cursor < usize::MAX,
        ensures
            final(self).tokens == old(self).tokens,
            final(self).cursor == spec_adv(old(self).tokens.deep_view(), old(self).cursor as int),
    {
        self.cursor = self.cursor + 1;
        if self.cursor < self.tokens.len() {
            if let Token::Semi = &self.tokens[self.cursor] {
                self.cursor = self.cursor + 1;
            }
        }
    }

    /// The token just before the cursor, if there is one.
    pub fn prev(&self) -> (r: Result<Token, ParserError>)
        ensures
            tok_res_view(r) == (if 1 <= self.cursor && self.cursor - 1 < self.tokens@.len() {
                Ok::<TokenV, ParserErrorV>(self.tokens.deep_view()[self.cursor - 1])
            } else {
                Err::<TokenV, ParserErrorV>(
                    ParserErrorV::InvalidTokenIndex(self.cursor as usize),
                )
            }),
    {
        if self.cursor == 0 || self.cursor - 1 >= self.tokens.len() {
            return Err(ParserError::InvalidTokenIndex(self.cursor));
        }
        Ok(self.tokens[self.cursor - 1].dup())
    }

    /// The token under the cursor, if there is one.
    pub fn curr(&self) -> (r: Result<Token, ParserError>)
        ensures
            tok_res_view(r) == spec_curr(self.tokens.deep_view(), self.cursor as int),
    {
        if self.is_at_end() {
            return Err(ParserError::UnexpectedEOF);
        }
        Ok(self.tokens[self.cursor].dup())
    }

    /// The token at index `i`, if in range.
    pub fn at(&self, i: usize) -> (r: Result<Token, ParserError>)
        ensures
            tok_res_view(r) == (if i < self.tokens@.len() {
                Ok::<TokenV, ParserErrorV>(self.tokens.deep_view()[i as int])
            } else {
                Err::<TokenV, ParserErrorV>(ParserErrorV::InvalidTokenIndex(i))
            }),
    {
        if i >= self.tokens.len() {
            return Err(ParserError::InvalidTokenIndex(i));
        }
        Ok(self.tokens[i].dup())
    }

    /// If the current token equals one of `possible_tokens`, consumes
    /// it and returns it; see [`spec_matches`].
    #[verifier::loop_isolation(false)]
    pub fn matches(&mut self, possible_tokens: &[Token]) -> (r: Option<Token>)
        ensures
            final(self).tokens == old(self).tokens,
            (opt_tok_view(r), final(self).cursor as int) == spec_matches(
                old(self).tokens.deep_view(),
                old(self).cursor as int,
                possible_tokens.deep_view(),
            ),
    {
        if self.is_at_end() {
            return None;
        }
        let mut j: usize = 0;
        while j < possible_tokens.len()
            invariant
                self.tokens == old(self).tokens,
                self.cursor == old(self).cursor,
                self.cursor < self.tokens@.len(),
                j <= possible_tokens@.len(),
                forall|i: int| 0 <= i < j ==> possible_tokens.deep_view()[i] != self.tokens.deep_view()[self.cursor as int],
            decreases possible_tokens@.len() - j,
        {
            if self.tokens[self.cursor].same_as(&possible_tokens[j]) {
                proof {
                    assert(possible_tokens.deep_view()[j as int] == self.tokens.deep_view()[
                        self.cursor as int]);
                    assert(possible_tokens.deep_view().contains(
                        self.tokens.deep_view()[self.cursor as int],
                    ));
                }
                let t = possible_tokens[j].dup();
                proof {
                    assert(self.cursor < self.tokens.len());
                }
                self.adv();
                return Some(t);
            }
            j = j + 1;
        }
        proof {
            if possible_tokens.deep_view().contains(
                self.tokens.deep_view()[self.cursor as int],
            ) {
                let i = choose|i: int|
                    0 <= i < possible_tokens.deep_view().len()
                        && possible_tokens.deep_view()[i] == self.tokens.deep_view()[
                        self.cursor as int];
                assert(false);
            }
        }
        None
    }

    /// Attempts to match a whole rule sequence, advancing on success
    /// and restoring the cursor on failure; see [`spec_match_rule`].
    #[verifier::loop_isolation(false)]
    pub fn match_rule(&mut self, rules: &[Token]) -> (r: bool)
        ensures
            final(self).tokens == old(self).tokens,
            (r, final(self).cursor as int) == spec_match_rule(
                old(self).tokens.deep_view(),
                old(self).cursor as int,
                rules.deep_view(),
            ),
            final(self).cursor >= old(self).cursor,
            r ==> final(self).cursor as int == spec_match_seq(
                old(self).tokens.deep_view(),
                old(self).cursor as int,
                rules.deep_view(),
            ).1,
    {
        let old_pos = self.cursor;
        let mut j: usize = 0;
        let mut failed = false;
        proof {
            assert(rules.deep_view().skip(0) =~= rules.deep_view());
        }
        while j < rules.len() && !failed
            invariant
                self.tokens == old(self).tokens,
                old(self).cursor <= self.cursor,
                j <= rules@.len(),
                old_pos == old(self).cursor,
                !failed ==> spec_match_seq(
                    self.tokens.deep_view(),
                    old(self).cursor as int,
                    rules.deep_view(),
                ) == spec_match_seq(
                    self.tokens.deep_view(),
                    self.cursor as int,
                    rules.deep_view().skip(j as int),
                ),
                failed ==> !spec_match_seq(
                    self.tokens.deep_view(),
                    old(self).cursor as int,
                    rules.deep_view(),
                ).0,
            decreases rules@.len() - j + if failed { 0int } else { 1int },
        {
            proof {
                assert(rules.deep_view().skip(j as int)[0] == rules.deep_view()[j as int]);
                assert(rules.deep_view().skip(j as int).drop_first() =~= rules.deep_view().skip(
                    j + 1,
                ));
            }
            if self.is_at_end() {
                failed = true;
            } else {
                let accepted = match &rules[j] {
                    Token::Int(_) => matches!(&self.tokens[self.cursor], Token::Int(_)),
                    Token::Ident(_) => true,
                    _ => self.tokens[self.cursor].same_as(&rules[j]),
                };
                if accepted {
                    proof {
                        assert(self.cursor < self.tokens.len());
                    }
                    self.adv();
                    j = j + 1;
                } else {
                    failed = true;
                }
            }
        }
        proof {
            if !failed {
                assert(rules.deep_view().skip(j as int) =~= Seq::<TokenV>::empty());
            }
        }
        if failed {
            self.cursor = old_pos;
            false
        } else {
            true
        }
    }

    /// Demands that the rule sequence matches, reporting the expected
    /// tokens and the cursor on failure.
    pub fn expect_consume(&mut self, tokens: &[Token]) -> (r: Result<(), ParserError>)
        ensures
            final(self).tokens == old(self).tokens,
            final(self).cursor >= old(self).cursor,
            ({
                let m = spec_match_rule(
                    old(self).tokens.deep_view(),
                    old(self).cursor as int,
                    tokens.deep_view(),
                );
                if m.0 {
                    r matches Ok(()) && final(self).cursor as int == m.1
                } else {
                    r matches Err(e) && e.deep_view() == ParserErrorV::FailedRuleMatch(
                        tokens.deep_view(),
                        old(self).cursor as usize,
                    ) && final(self).cursor == old(self).cursor
                }
            }),
            r is Ok ==> final(self).cursor as int == spec_match_seq(
                old(self).tokens.deep_view(),
                old(self).cursor as int,
                tokens.deep_view(),
            ).1,
    {
        if !self.match_rule(tokens) {
            return Err(ParserError::FailedRuleMatch(dup_tokens(tokens), self.cursor));
        }
        Ok(())
    }
}

} // verus!
