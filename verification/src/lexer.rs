//! The lexer: a single forward pass over the source string that produces
//! a sequence of tokens. The functions here are proved to agree with a
//! spec-level description of the same scan ([`spec_tokenize`]).

pub mod err;
pub mod op;
pub mod token;

use vstd::prelude::*;
use vstd::string::StrSliceExecFns;
use vstd::string::StringExecFns;

use crate::lexer::err::LexerError;
use crate::lexer::op::{BinOp, UnOp};
use crate::lexer::token::{Keyword, Token, TokenV};

verus! {

/// Whether `c` is treated as whitespace: spaces, tabs and line breaks
/// separate tokens and are discarded.
pub open spec fn is_space_char(c: char) -> bool {
    c == ' ' || c == '\t' || c == '\n' || c == '\r'
}

/// Whether `c` is an ASCII decimal digit.
pub open spec fn is_digit_char(c: char) -> bool {
    '0' <= c && c <= '9'
}

/// Whether `c` is alphanumeric in the sense of `char::is_alphanumeric`.
/// The full predicate is a function of the Unicode tables, so it stays
/// a name here; on ASCII it holds of exactly the letters and digits
/// (see [`word_char`]).
pub uninterp spec fn alnum_of(c: char) -> bool;

/// Whether `c` may appear in an identifier or keyword: identifiers are
/// alphanumeric sequences.
pub open spec fn is_word_char(c: char) -> bool {
    alnum_of(c)
}

/// The numeric value of the digit `c`.
pub open spec fn digit_val(c: char) -> int {
    c as int - '0' as int
}

/// Whether `c` begins an operator, punctuation or string token, and so
/// can never start a word.
pub open spec fn starts_other_token(c: char) -> bool {
    c == '+' || c == '-' || c == '*' || c == '/' || c == '=' || c == '(' || c == ')' || c == '{'
        || c == '}' || c == ';' || c == ',' || c == '!' || c == '>' || c == '<' || c == '\u{22}'
        || c == '\u{27}'
}

/// Executable form of [`is_space_char`].
pub fn space_char(c: char) -> (r: bool)
    ensures
        r == is_space_char(c),
{
    c == ' ' || c == '\t' || c == '\n' || c == '\r'
}

/// Executable form of [`is_digit_char`].
pub fn digit_char(c: char) -> (r: bool)
    ensures
        r == is_digit_char(c),
{
    '0' <= c && c <= '9'
}

/// Executable form of [`is_word_char`]. Relies on
/// `char::is_alphanumeric`: true of a character that is alphabetic or
/// carries one of the Unicode number categories, a function of the
/// character alone; on ASCII that is exactly the letters and digits.
#[verifier::external_body]
fn word_char(c: char) -> (r: bool)
    ensures
        r == alnum_of(c),
        (c as u32) < 128 ==> r == (('a' <= c && c <= 'z') || ('A' <= c && c <= 'Z') || ('0' <= c
            && c <= '9')),
{
    c.is_alphanumeric()
}

// ------------------------------------------------------------------
// The spec-level scan.
// ------------------------------------------------------------------

/// The first index at or after `pos` whose character fails `p`, or the
/// length of `s` if every character from `pos` on satisfies it.
pub open spec fn spec_scan(s: Seq<char>, pos: int, p: spec_fn(char) -> bool) -> int
    decreases s.len() - pos,
{
    if pos < 0 || pos >= s.len() {
        pos
    } else if p(s[pos]) {
        spec_scan(s, pos + 1, p)
    } else {
        pos
    }
}

/// `spec_scan` stays between its start and the length of the input, and
/// is characterised by its prefix satisfying `p`.
pub proof fn lemma_scan_bounds(s: Seq<char>, pos: int, p: spec_fn(char) -> bool)
    requires
        0 <= pos <= s.len(),
    ensures
        pos <= spec_scan(s, pos, p) <= s.len(),
        forall|j: int| pos <= j < spec_scan(s, pos, p) ==> p(s[j]),
        spec_scan(s, pos, p) < s.len() ==> !p(s[spec_scan(s, pos, p)]),
    decreases s.len() - pos,
{
    if pos < s.len() && p(s[pos]) {
        lemma_scan_bounds(s, pos + 1, p);
    }
}

/// Any index with an all-satisfying prefix and a failing character (or
/// the end) right after it is `spec_scan`.
pub proof fn lemma_scan_unique(s: Seq<char>, pos: int, p: spec_fn(char) -> bool, l: int)
    requires
        0 <= pos <= l <= s.len(),
        forall|j: int| pos <= j < l ==> p(s[j]),
        l < s.len() ==> !p(s[l]),
    ensures
        spec_scan(s, pos, p) == l,
    decreases s.len() - pos,
{
    if pos < s.len() && pos < l {
        lemma_scan_unique(s, pos + 1, p, l);
    }
}

/// The first non-whitespace index at or after `pos`, or the length of
/// `s` when only whitespace remains.
pub open spec fn spec_skip_ws(s: Seq<char>, pos: int) -> int {
    spec_scan(s, pos, |c: char| is_space_char(c))
}

/// The value of a sequence of decimal digits, most significant first.
pub open spec fn digits_val(s: Seq<char>) -> int
    decreases s.len(),
{
    if s.len() == 0 {
        0
    } else {
        digits_val(s.drop_last()) * 10 + digit_val(s.last())
    }
}

/// A digit string's value is nonnegative and grows with its length.
pub proof fn lemma_digits_val_bounds(s: Seq<char>)
    requires
        forall|j: int| 0 <= j < s.len() ==> is_digit_char(s[j]),
    ensures
        digits_val(s) >= 0,
        s.len() > 0 ==> digits_val(s) >= digits_val(s.drop_last()),
    decreases s.len(),
{
    if s.len() > 0 {
        assert(forall|j: int| 0 <= j < s.drop_last().len() ==> is_digit_char(s.drop_last()[j]));
        lemma_digits_val_bounds(s.drop_last());
        assert(digit_val(s.last()) >= 0);
    }
}

/// The keyword or identifier token for the word `w`.
pub open spec fn spec_word_token(w: Seq<char>) -> TokenV {
    if w == "let"@ {
        TokenV::Keyword(Keyword::Let)
    } else if w == "true"@ {
        TokenV::Keyword(Keyword::True)
    } else if w == "false"@ {
        TokenV::Keyword(Keyword::False)
    } else if w == "print"@ {
        TokenV::Keyword(Keyword::Print)
    } else if w == "if"@ {
        TokenV::Keyword(Keyword::If)
    } else if w == "else"@ {
        TokenV::Keyword(Keyword::Else)
    } else if w == "while"@ {
        TokenV::Keyword(Keyword::While)
    } else if w == "for"@ {
        TokenV::Keyword(Keyword::For)
    } else if w == "func"@ {
        TokenV::Keyword(Keyword::Func)
    } else if w == "return"@ {
        TokenV::Keyword(Keyword::Return)
    } else if w == "and"@ {
        TokenV::Op(BinOp::And)
    } else if w == "or"@ {
        TokenV::Op(BinOp::Or)
    } else {
        TokenV::Ident(w)
    }
}

/// The token at the head of `s`, with the number of characters it
/// spans. Two-character operators win over their one-character
/// prefixes; string literals keep the text between their matching
/// delimiters verbatim; integer literals must fit a signed 32-bit
/// integer; words become keywords or identifiers; any other character
/// is invalid.
pub open spec fn spec_parse_token(s: Seq<char>) -> Result<(TokenV, int), LexerError> {
    if s.len() == 0 {
        Err(LexerError::UnexpectedEOF)
    } else {
        let c = s[0];
        if c == '+' {
            Ok((TokenV::Op(BinOp::Add), 1))
        } else if c == '-' {
            Ok((TokenV::Op(BinOp::Sub), 1))
        } else if c == '*' {
            Ok((TokenV::Op(BinOp::Mul), 1))
        } else if c == '/' {
            Ok((TokenV::Op(BinOp::Div), 1))
        } else if c == '=' {
            if s.len() > 1 && s[1] == '=' {
                Ok((TokenV::Op(BinOp::EqSign), 2))
            } else {
                Ok((TokenV::DeclarationSign, 1))
            }
        } else if c == '(' {
            Ok((TokenV::LeftBracket, 1))
        } else if c == ')' {
            Ok((TokenV::RightBracket, 1))
        } else if c == '{' {
            Ok((TokenV::LeftCurly, 1))
        } else if c == '}' {
            Ok((TokenV::RightCurly, 1))
        } else if c == ';' {
            Ok((TokenV::Semi, 1))
        } else if c == ',' {
            Ok((TokenV::Comma, 1))
        } else if c == '!' {
            if s.len() > 1 && s[1] == '=' {
                Ok((TokenV::Op(BinOp::NeqSign), 2))
            } else {
                Ok((TokenV::UnOp(UnOp::Bang), 1))
            }
        } else if c == '>' {
            if s.len() > 1 && s[1] == '=' {
                Ok((TokenV::Op(BinOp::GreaterEqSign), 2))
            } else {
                Ok((TokenV::Op(BinOp::GreaterSign), 1))
            }
        } else if c == '<' {
            if s.len() > 1 && s[1] == '=' {
                Ok((TokenV::Op(BinOp::LessEqSign), 2))
            } else {
                Ok((TokenV::Op(BinOp::LessSign), 1))
            }
        } else if c == '"' || c == '\'' {
            let k = spec_scan(s, 1, |ch: char| ch != c);
            if k >= s.len() {
                Err(LexerError::Expected(c))
            } else {
                Ok((TokenV::Str(s.subrange(1, k)), k + 1))
            }
        } else if is_digit_char(c) {
            let k = spec_scan(s, 0, |ch: char| is_digit_char(ch));
            let v = digits_val(s.subrange(0, k));
            if v > i32::MAX {
                Err(LexerError::IntError)
            } else {
                Ok((TokenV::Int(v as i32), k))
            }
        } else if is_word_char(c) {
            let k = spec_scan(s, 0, |ch: char| is_word_char(ch));
            Ok((spec_word_token(s.subrange(0, k)), k))
        } else {
            Err(LexerError::InvalidChar(c))
        }
    }
}

/// On nonempty input the token parser never reports an unexpected end.
pub proof fn lemma_parse_token_not_eof(s: Seq<char>)
    requires
        s.len() > 0,
    ensures
        !(spec_parse_token(s) matches Err(e) && e == LexerError::UnexpectedEOF),
{
}

/// A successfully parsed token spans at least one character and at most
/// the remaining input.
pub proof fn lemma_parse_token_len(s: Seq<char>)
    ensures
        spec_parse_token(s) matches Ok((t, l)) ==> 1 <= l <= s.len(),
{
    if s.len() > 0 {
        let c = s[0];
        if c == '"' || c == '\'' {
            lemma_scan_bounds(s, 1, |ch: char| ch != c);
        } else if is_digit_char(c) {
            let p = |ch: char| is_digit_char(ch);
            lemma_scan_bounds(s, 0, p);
            lemma_scan_unique(s, 1, p, spec_scan(s, 0, p));
            assert(p(s[0]));
            assert(spec_scan(s, 0, p) >= 1);
        } else if is_word_char(c) {
            let p = |ch: char| is_word_char(ch);
            lemma_scan_bounds(s, 0, p);
            assert(p(s[0]));
            assert(spec_scan(s, 0, p) >= 1);
        }
    }
}

/// The token sequence of `s` from position `pos` on: whitespace is
/// skipped, tokens are read one after the other, and the scan ends
/// quietly at the end of the input.
pub open spec fn spec_tokenize(s: Seq<char>, pos: int) -> Result<Seq<TokenV>, LexerError>
    decreases s.len() - pos,
{
    if pos < 0 {
        Err(LexerError::UnexpectedEOF)
    } else {
        let start = spec_skip_ws(s, pos);
        if start >= s.len() {
            Ok(Seq::empty())
        } else {
            match spec_parse_token(s.subrange(start, s.len() as int)) {
                Err(e) => Err(e),
                Ok((t, l)) => {
                    let advanced = if start + l > pos {
                        start + l
                    } else {
                        pos + 1
                    };
                    let next = if advanced > s.len() {
                        s.len() as int
                    } else {
                        advanced
                    };
                    match spec_tokenize(s, next) {
                        Err(e) => Err(e),
                        Ok(rest) => Ok(seq![t] + rest),
                    }
                },
            }
        }
    }
}

// ------------------------------------------------------------------
// The executable lexer.
// ------------------------------------------------------------------

/// View of a token-with-length result.
pub open spec fn tok_res_view(r: Result<(Token, usize), LexerError>) -> Result<
    (TokenV, int),
    LexerError,
> {
    match r {
        Ok((t, l)) => Ok((t@, l as int)),
        Err(e) => Err(e),
    }
}

/// View of a token-sequence result.
pub open spec fn toks_res_view(r: Result<Vec<Token>, LexerError>) -> Result<
    Seq<TokenV>,
    LexerError,
> {
    match r {
        Ok(v) => Ok(v.deep_view()),
        Err(e) => Err(e),
    }
}

/// A lexer: the source text and the current reading position, counted
/// in characters.
#[derive(Debug)]
pub struct Lexer<'a> {
    pub input: &'a str,
    pub position: usize,
}

impl<'a> Lexer<'a> {
    /// Creates a new lexer over `input`, positioned at its start.
    pub fn new(input: &'a str) -> (r: Lexer<'a>)
        ensures
            r.input@ == input@,
            r.position == 0usize,
    {
        Self { input, position: 0 }
    }

    /// Advances `position` past any whitespace. The result is `Err`
    /// exactly when only whitespace (or nothing) remained.
    pub fn skip_whitespace(&mut self) -> (r: Result<(), LexerError>)
        ensures
            final(self).input@ == old(self).input@,
            final(self).position == spec_skip_ws(old(self).input@, old(self).position as int),
            old(self).position <= final(self).position,
            r matches Ok(()) <==> final(self).position < old(self).input@.len(),
            r matches Err(e) ==> e == LexerError::UnexpectedEOF,
    {
        let n = self.input.unicode_len();
        loop
            invariant
                self.input@ == old(self).input@,
                n == self.input@.len(),
                old(self).position <= self.position,
                spec_skip_ws(self.input@, old(self).position as int) == spec_skip_ws(
                    self.input@,
                    self.position as int,
                ),
            decreases n - self.position,
        {
            if self.position >= n {
                return Err(LexerError::UnexpectedEOF);
            }
            let c = self.input.get_char(self.position);
            if space_char(c) {
                self.position = self.position + 1;
            } else {
                return Ok(());
            }
        }
    }

    /// The first index at or after `i` whose character fails the
    /// predicate, or the end of `s`.
    fn scan_from<F: Fn(char) -> bool>(s: &str, i: usize, predicate: &F) -> (r: usize)
        requires
            i <= s@.len(),
            forall|c: char| #[trigger] predicate.requires((c,)),
        ensures
            i <= r <= s@.len(),
            forall|j: int| i <= j < r ==> predicate.ensures((s@[j],), true),
            r < s@.len() ==> predicate.ensures((s@[r as int],), false),
        decreases s@.len() - i,
    {
        if i >= s.unicode_len() {
            i
        } else {
            let c = s.get_char(i);
            if predicate(c) {
                Self::scan_from(s, i + 1, predicate)
            } else {
                i
            }
        }
    }

    /// The longest prefix of `s` whose characters satisfy the
    /// predicate, together with its length, counted in characters.
    /// Never fails.
    pub fn take_while<F: Fn(char) -> bool>(s: &str, predicate: F) -> (r: Result<
        (String, usize),
        LexerError,
    >)
        requires
            forall|c: char| #[trigger] predicate.requires((c,)),
        ensures
            r is Ok,
            r matches Ok((w, l)) ==> l <= s@.len() && w@ == s@.subrange(0, l as int),
            r matches Ok((w, l)) ==> forall|j: int|
                0 <= j < l ==> predicate.ensures((s@[j],), true),
            r matches Ok((w, l)) ==> (l < s@.len() ==> predicate.ensures((s@[l as int],), false)),
    {
        let l = Self::scan_from(s, 0, &predicate);
        let w = s.substring_char(0, l).to_owned();
        Ok((w, l))
    }

    /// Parses one token from the head of `data`.
    pub fn parse_token(data: &str) -> (r: Result<(Token, usize), LexerError>)
        ensures
            tok_res_view(r) == spec_parse_token(data@),
    {
        let n = data.unicode_len();
        if n == 0 {
            return Err(LexerError::UnexpectedEOF);
        }
        let c = data.get_char(0);
        if c == '+' {
            Ok((Token::Op(BinOp::Add), 1))
        } else if c == '-' {
            Ok((Token::Op(BinOp::Sub), 1))
        } else if c == '*' {
            Ok((Token::Op(BinOp::Mul), 1))
        } else if c == '/' {
            Ok((Token::Op(BinOp::Div), 1))
        } else if c == '=' {
            if n > 1 && data.get_char(1) == '=' {
                Ok((Token::Op(BinOp::EqSign), 2))
            } else {
                Ok((Token::DeclarationSign, 1))
            }
        } else if c == '(' {
            Ok((Token::LeftBracket, 1))
        } else if c == ')' {
            Ok((Token::RightBracket, 1))
        } else if c == '{' {
            Ok((Token::LeftCurly, 1))
        } else if c == '}' {
            Ok((Token::RightCurly, 1))
        } else if c == ';' {
            Ok((Token::Semi, 1))
        } else if c == ',' {
            Ok((Token::Comma, 1))
        } else if c == '!' {
            if n > 1 && data.get_char(1) == '=' {
                Ok((Token::Op(BinOp::NeqSign), 2))
            } else {
                Ok((Token::UnOp(UnOp::Bang), 1))
            }
        } else if c == '>' {
            if n > 1 && data.get_char(1) == '=' {
                Ok((Token::Op(BinOp::GreaterEqSign), 2))
            } else {
                Ok((Token::Op(BinOp::GreaterSign), 1))
            }
        } else if c == '<' {
            if n > 1 && data.get_char(1) == '=' {
                Ok((Token::Op(BinOp::LessEqSign), 2))
            } else {
                Ok((Token::Op(BinOp::LessSign), 1))
            }
        } else if c == '"' || c == '\'' {
            Self::tokenize_string(data)
        } else if digit_char(c) {
            Self::tokenize_num(data)
        } else if word_char(c) {
            Self::tokenize_word(data)
        } else {
            Err(LexerError::InvalidChar(c))
        }
    }

    /// Reads a string literal: the text between the opening delimiter
    /// and its matching close, taken verbatim.
    fn tokenize_string(data: &str) -> (r: Result<(Token, usize), LexerError>)
        requires
            data@.len() > 0,
            data@[0] == '"' || data@[0] == '\'',
        ensures
            tok_res_view(r) == spec_parse_token(data@),
    {
        let quote = data.get_char(0);
        let k = Self::scan_from(data, 1, &(|ch: char| -> (b: bool)
            ensures
                b == (ch != quote),
            { ch != quote }));
        proof {
            lemma_scan_unique(data@, 1, |ch: char| ch != quote, k as int);
        }
        if k >= data.unicode_len() {
            Err(LexerError::Expected(quote))
        } else {
            let w = data.substring_char(1, k).to_owned();
            Ok((Token::String(w), k + 1))
        }
    }

    /// Reads an integer literal; its value must fit a signed 32-bit
    /// integer.
    #[verifier::loop_isolation(false)]
    fn tokenize_num(data: &str) -> (r: Result<(Token, usize), LexerError>)
        requires
            data@.len() > 0,
            is_digit_char(data@[0]),
        ensures
            tok_res_view(r) == spec_parse_token(data@),
    {
        let k = Self::scan_from(data, 0, &(|ch: char| -> (b: bool)
            ensures
                b == is_digit_char(ch),
            { digit_char(ch) }));
        proof {
            lemma_scan_unique(data@, 0, |ch: char| is_digit_char(ch), k as int);
        }
        let ghost digits = data@.subrange(0, k as int);
        let mut acc: u64 = 0;
        let mut i: usize = 0;
        while i < k
            invariant
                k <= data@.len(),
                i <= k,
                forall|j: int| 0 <= j < k ==> is_digit_char(data@[j]),
                acc == digits_val(data@.subrange(0, i as int)),
                acc <= i32::MAX,
            decreases k - i,
        {
            let c = data.get_char(i);
            let d: u64 = (c as u32 - '0' as u32) as u64;
            acc = acc * 10 + d;
            proof {
                assert(data@.subrange(0, i + 1).drop_last() =~= data@.subrange(0, i as int));
                assert(data@.subrange(0, i + 1).last() == data@[i as int]);
            }
            i = i + 1;
            if acc > (i32::MAX as u64) {
                proof {
                    lemma_digits_val_monotone(data@, i as int, k as int);
                }
                return Err(LexerError::IntError);
            }
        }
        proof {
            assert(digits =~= data@.subrange(0, k as int));
        }
        Ok((Token::Int(acc as i32), k))
    }

    /// Reads a word and classifies it as a keyword or an identifier.
    fn tokenize_word(data: &str) -> (r: Result<(Token, usize), LexerError>)
        requires
            data@.len() > 0,
            is_word_char(data@[0]),
            !is_digit_char(data@[0]),
            !starts_other_token(data@[0]),
        ensures
            tok_res_view(r) == spec_parse_token(data@),
    {
        let k = Self::scan_from(data, 0, &(|ch: char| -> (b: bool)
            ensures
                b == is_word_char(ch),
            { word_char(ch) }));
        proof {
            lemma_scan_unique(data@, 0, |ch: char| is_word_char(ch), k as int);
        }
        let w = data.substring_char(0, k).to_owned();
        let token = if w == String::from_str("let") {
            Token::Keyword(Keyword::Let)
        } else if w == String::from_str("true") {
            Token::Keyword(Keyword::True)
        } else if w == String::from_str("false") {
            Token::Keyword(Keyword::False)
        } else if w == String::from_str("print") {
            Token::Keyword(Keyword::Print)
        } else if w == String::from_str("if") {
            Token::Keyword(Keyword::If)
        } else if w == String::from_str("else") {
            Token::Keyword(Keyword::Else)
        } else if w == String::from_str("while") {
            Token::Keyword(Keyword::While)
        } else if w == String::from_str("for") {
            Token::Keyword(Keyword::For)
        } else if w == String::from_str("func") {
            Token::Keyword(Keyword::Func)
        } else if w == String::from_str("return") {
            Token::Keyword(Keyword::Return)
        } else if w == String::from_str("and") {
            Token::Op(BinOp::And)
        } else if w == String::from_str("or") {
            Token::Op(BinOp::Or)
        } else {
            Token::Ident(w)
        };
        Ok((token, k))
    }

    /// Reads the next token, skipping leading whitespace and advancing
    /// the position past what was read.
    fn next_token(&mut self) -> (r: Result<(Token, usize), LexerError>)
        ensures
            final(self).input@ == old(self).input@,
            ({
                let s = old(self).input@;
                let start = spec_skip_ws(s, old(self).position as int);
                if start >= s.len() {
                    r matches Err(e) && e == LexerError::UnexpectedEOF && final(self).position
                        == start
                } else {
                    match spec_parse_token(s.subrange(start, s.len() as int)) {
                        Ok((t, l)) => r matches Ok(p) && p.0@ == t && p.1 == l && 1 <= l
                            && final(self).position == start + l
                            && old(self).position <= start && start + l <= s.len(),
                        Err(e) => r matches Err(e2) && e2 == e && final(self).position == start,
                    }
                }
            }),
    {
        match self.skip_whitespace() {
            Err(e) => Err(e),
            Ok(()) => {
                let n = self.input.unicode_len();
                let rest = self.input.substring_char(self.position, n);
                proof {
                    lemma_parse_token_len(rest@);
                }
                match Self::parse_token(rest) {
                    Err(e) => Err(e),
                    Ok((token, len)) => {
                        self.position = self.position + len;
                        Ok((token, len))
                    },
                }
            },
        }
    }

    /// Tokenizes the whole remaining input; see [`spec_tokenize`].
    pub fn tokenize(&mut self) -> (r: Result<Vec<Token>, LexerError>)
        ensures
            final(self).input@ == old(self).input@,
            toks_res_view(r) == spec_tokenize(old(self).input@, old(self).position as int),
        decreases old(self).input@.len() - old(self).position,
    {
        match self.next_token() {
            Err(e) => match e {
                LexerError::UnexpectedEOF => {
                    let r: Vec<Token> = Vec::new();
                    proof {
                        let s = old(self).input@;
                        let start = spec_skip_ws(s, old(self).position as int);
                        if start < s.len() {
                            lemma_parse_token_not_eof(s.subrange(start, s.len() as int));
                        }
                        assert(r.deep_view() =~= Seq::<TokenV>::empty());
                    }
                    Ok(r)
                },
                _ => Err(e),
            },
            Ok((token, _len)) => {
                let ghost tokv = token@;
                match self.tokenize() {
                    Err(e) => Err(e),
                    Ok(mut rest) => {
                        let ghost restv = rest.deep_view();
                        rest.insert(0, token);
                        proof {
                            assert(rest.deep_view() =~= seq![tokv] + restv);
                        }
                        Ok(rest)
                    },
                }
            },
        }
    }
}

/// A digit string's value only grows as digits are appended.
pub proof fn lemma_digits_val_monotone(s: Seq<char>, i: int, k: int)
    requires
        0 <= i <= k <= s.len(),
        forall|j: int| 0 <= j < k ==> is_digit_char(s[j]),
    ensures
        digits_val(s.subrange(0, i)) <= digits_val(s.subrange(0, k)),
    decreases k - i,
{
    if i < k {
        lemma_digits_val_monotone(s, i, k - 1);
        let pre = s.subrange(0, k);
        assert(pre.drop_last() =~= s.subrange(0, k - 1));
        assert(forall|j: int| 0 <= j < pre.len() ==> is_digit_char(pre[j]));
        lemma_digits_val_bounds(pre);
    }
}

} // verus!
