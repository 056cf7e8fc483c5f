//! The laws of the library: statements that hold of every input, proved
//! once and for all against the spec-level lexer and parser that the
//! executable code is verified to implement.
use vstd::prelude::*;

use crate::expr::{dec_digits, digit_char_of, BinExprV, ExprV};
use crate::lexer::err::LexerError;
use crate::lexer::op::BinOp;
use crate::lexer::token::TokenV;
use crate::lexer::{
    digit_val, digits_val, is_digit_char, is_space_char, lemma_scan_unique, spec_parse_token,
    spec_skip_ws, spec_tokenize,
};
use crate::parser::expr::{
    spec_call, spec_call_args, spec_call_rest, spec_comparision, spec_comparision_rest, spec_equality,
    spec_equality_rest, spec_expr, spec_factor, spec_factor_rest, spec_logical_and,
    spec_logical_and_rest, spec_logical_or, spec_logical_or_rest, spec_primary, spec_term,
    spec_term_rest, spec_unary,
};

verus! {

/// Shorthand for a binary node over values.
pub open spec fn bin_v(lhs: ExprV, op: BinOp, rhs: ExprV) -> ExprV {
    ExprV::Bin(BinExprV { lhs: Box::new(lhs), rhs: Box::new(rhs), op: op })
}

/// Left-associativity: a difference chain `a - b - c` parses as
/// `(a - b) - c`, never as `a - (b - c)`.
pub proof fn lemma_left_associativity(a: i32, b: i32, c: i32)
    ensures
        spec_expr(
            seq![
                TokenV::Int(a),
                TokenV::Op(BinOp::Sub),
                TokenV::Int(b),
                TokenV::Op(BinOp::Sub),
                TokenV::Int(c),
            ],
            0,
        ) == Ok::<(ExprV, int), crate::parser::err::ParserErrorV>(
            (
                bin_v(bin_v(ExprV::Num(a), BinOp::Sub, ExprV::Num(b)), BinOp::Sub, ExprV::Num(c)),
                5,
            ),
        ),
{
    reveal(spec_expr);
    reveal(spec_logical_or);
    reveal(spec_logical_or_rest);
    reveal(spec_logical_and);
    reveal(spec_logical_and_rest);
    reveal(spec_equality);
    reveal(spec_equality_rest);
    reveal(spec_comparision);
    reveal(spec_comparision_rest);
    reveal(spec_term);
    reveal_with_fuel(spec_term_rest, 4);
    reveal(spec_factor);
    reveal(spec_factor_rest);
    reveal(spec_unary);
    reveal(spec_call);
    reveal(spec_call_rest);
    reveal(spec_primary);
    let toks = seq![
        TokenV::Int(a),
        TokenV::Op(BinOp::Sub),
        TokenV::Int(b),
        TokenV::Op(BinOp::Sub),
        TokenV::Int(c),
    ];
    let ea = ExprV::Num(a);
    let eb = ExprV::Num(b);
    let ec = ExprV::Num(c);
    let t_ab = bin_v(ea, BinOp::Sub, eb);
    let t_abc = bin_v(t_ab, BinOp::Sub, ec);
    assert(spec_primary(toks, 0) == Ok::<(ExprV, int), crate::parser::err::ParserErrorV>(
        (ea, 1),
    ));
    assert(spec_factor(toks, 0) == Ok::<(ExprV, int), crate::parser::err::ParserErrorV>((ea, 1)));
    assert(spec_primary(toks, 2) == Ok::<(ExprV, int), crate::parser::err::ParserErrorV>(
        (eb, 3),
    ));
    assert(spec_factor(toks, 2) == Ok::<(ExprV, int), crate::parser::err::ParserErrorV>((eb, 3)));
    assert(spec_primary(toks, 4) == Ok::<(ExprV, int), crate::parser::err::ParserErrorV>(
        (ec, 5),
    ));
    assert(spec_factor(toks, 4) == Ok::<(ExprV, int), crate::parser::err::ParserErrorV>((ec, 5)));
    assert(spec_term_rest(toks, 5, t_abc) == Ok::<
        (ExprV, int),
        crate::parser::err::ParserErrorV,
    >((t_abc, 5)));
    assert(spec_term_rest(toks, 3, t_ab) == Ok::<(ExprV, int), crate::parser::err::ParserErrorV>(
        (t_abc, 5),
    ));
    assert(spec_term_rest(toks, 1, ea) == Ok::<(ExprV, int), crate::parser::err::ParserErrorV>(
        (t_abc, 5),
    ));
    assert(spec_term(toks, 0) == Ok::<(ExprV, int), crate::parser::err::ParserErrorV>(
        (t_abc, 5),
    ));
    assert(spec_comparision(toks, 0) == Ok::<(ExprV, int), crate::parser::err::ParserErrorV>(
        (t_abc, 5),
    ));
    assert(spec_equality(toks, 0) == Ok::<(ExprV, int), crate::parser::err::ParserErrorV>(
        (t_abc, 5),
    ));
    assert(spec_logical_and(toks, 0) == Ok::<(ExprV, int), crate::parser::err::ParserErrorV>(
        (t_abc, 5),
    ));
    assert(spec_logical_or(toks, 0) == Ok::<(ExprV, int), crate::parser::err::ParserErrorV>(
        (t_abc, 5),
    ));
}

/// Operator precedence: in `a + b * c - d` the product binds tighter
/// than the sum and the difference, so the tree is
/// `((a + (b * c)) - d)`.
pub proof fn lemma_operator_precedence(a: i32, b: i32, c: i32, d: i32)
    ensures
        spec_expr(
            seq![
                TokenV::Int(a),
                TokenV::Op(BinOp::Add),
                TokenV::Int(b),
                TokenV::Op(BinOp::Mul),
                TokenV::Int(c),
                TokenV::Op(BinOp::Sub),
                TokenV::Int(d),
            ],
            0,
        ) == Ok::<(ExprV, int), crate::parser::err::ParserErrorV>(
            (
                bin_v(
                    bin_v(ExprV::Num(a), BinOp::Add, bin_v(ExprV::Num(b), BinOp::Mul, ExprV::Num(c))),
                    BinOp::Sub,
                    ExprV::Num(d),
                ),
                7,
            ),
        ),
{
    reveal(spec_expr);
    reveal(spec_logical_or);
    reveal(spec_logical_or_rest);
    reveal(spec_logical_and);
    reveal(spec_logical_and_rest);
    reveal(spec_equality);
    reveal(spec_equality_rest);
    reveal(spec_comparision);
    reveal(spec_comparision_rest);
    reveal(spec_term);
    reveal_with_fuel(spec_term_rest, 4);
    reveal(spec_factor);
    reveal_with_fuel(spec_factor_rest, 3);
    reveal(spec_unary);
    reveal(spec_call);
    reveal(spec_call_rest);
    reveal(spec_primary);
    let toks = seq![
        TokenV::Int(a),
        TokenV::Op(BinOp::Add),
        TokenV::Int(b),
        TokenV::Op(BinOp::Mul),
        TokenV::Int(c),
        TokenV::Op(BinOp::Sub),
        TokenV::Int(d),
    ];
    let ea = ExprV::Num(a);
    let eb = ExprV::Num(b);
    let ec = ExprV::Num(c);
    let ed = ExprV::Num(d);
    let t_bc = bin_v(eb, BinOp::Mul, ec);
    let t_abc = bin_v(ea, BinOp::Add, t_bc);
    let whole = bin_v(t_abc, BinOp::Sub, ed);
    assert(spec_primary(toks, 0) == Ok::<(ExprV, int), crate::parser::err::ParserErrorV>(
        (ea, 1),
    ));
    assert(spec_factor(toks, 0) == Ok::<(ExprV, int), crate::parser::err::ParserErrorV>((ea, 1)));
    assert(spec_primary(toks, 2) == Ok::<(ExprV, int), crate::parser::err::ParserErrorV>(
        (eb, 3),
    ));
    assert(spec_primary(toks, 4) == Ok::<(ExprV, int), crate::parser::err::ParserErrorV>(
        (ec, 5),
    ));
    assert(spec_unary(toks, 4) == Ok::<(ExprV, int), crate::parser::err::ParserErrorV>((ec, 5)));
    assert(spec_factor_rest(toks, 5, t_bc) == Ok::<
        (ExprV, int),
        crate::parser::err::ParserErrorV,
    >((t_bc, 5)));
    assert(spec_factor_rest(toks, 3, eb) == Ok::<(ExprV, int), crate::parser::err::ParserErrorV>(
        (t_bc, 5),
    ));
    assert(spec_factor(toks, 2) == Ok::<(ExprV, int), crate::parser::err::ParserErrorV>(
        (t_bc, 5),
    ));
    assert(spec_primary(toks, 6) == Ok::<(ExprV, int), crate::parser::err::ParserErrorV>(
        (ed, 7),
    ));
    assert(spec_factor(toks, 6) == Ok::<(ExprV, int), crate::parser::err::ParserErrorV>((ed, 7)));
    assert(spec_term_rest(toks, 7, whole) == Ok::<
        (ExprV, int),
        crate::parser::err::ParserErrorV,
    >((whole, 7)));
    assert(spec_term_rest(toks, 5, t_abc) == Ok::<
        (ExprV, int),
        crate::parser::err::ParserErrorV,
    >((whole, 7)));
    assert(spec_term_rest(toks, 1, ea) == Ok::<(ExprV, int), crate::parser::err::ParserErrorV>(
        (whole, 7),
    ));
    assert(spec_term(toks, 0) == Ok::<(ExprV, int), crate::parser::err::ParserErrorV>(
        (whole, 7),
    ));
    assert(spec_comparision(toks, 0) == Ok::<(ExprV, int), crate::parser::err::ParserErrorV>(
        (whole, 7),
    ));
    assert(spec_equality(toks, 0) == Ok::<(ExprV, int), crate::parser::err::ParserErrorV>(
        (whole, 7),
    ));
    assert(spec_logical_and(toks, 0) == Ok::<(ExprV, int), crate::parser::err::ParserErrorV>(
        (whole, 7),
    ));
    assert(spec_logical_or(toks, 0) == Ok::<(ExprV, int), crate::parser::err::ParserErrorV>(
        (whole, 7),
    ));
}

/// A lone name directly before a closing bracket parses as a variable
/// and consumes exactly one token.
proof fn lemma_var_before_rbracket(toks: Seq<TokenV>, pos: int, name: Seq<char>)
    requires
        0 <= pos,
        pos + 1 < toks.len(),
        toks[pos] == TokenV::Ident(name),
        toks[pos + 1] == TokenV::RightBracket,
    ensures
        spec_expr(toks, pos) == Ok::<(ExprV, int), crate::parser::err::ParserErrorV>(
            (ExprV::Var(name), pos + 1),
        ),
{
    reveal(spec_expr);
    reveal(spec_logical_or);
    reveal(spec_logical_or_rest);
    reveal(spec_logical_and);
    reveal(spec_logical_and_rest);
    reveal(spec_equality);
    reveal(spec_equality_rest);
    reveal(spec_comparision);
    reveal(spec_comparision_rest);
    reveal(spec_term);
    reveal(spec_term_rest);
    reveal(spec_factor);
    reveal(spec_factor_rest);
    reveal(spec_unary);
    reveal(spec_call);
    reveal(spec_call_rest);
    reveal(spec_primary);
    let v = ExprV::Var(name);
    assert(spec_primary(toks, pos) == Ok::<(ExprV, int), crate::parser::err::ParserErrorV>(
        (v, pos + 1),
    ));
    assert(spec_call_rest(toks, pos + 1, v) == Ok::<
        (ExprV, int),
        crate::parser::err::ParserErrorV,
    >((v, pos + 1)));
    assert(spec_factor(toks, pos) == Ok::<(ExprV, int), crate::parser::err::ParserErrorV>(
        (v, pos + 1),
    ));
    assert(spec_term(toks, pos) == Ok::<(ExprV, int), crate::parser::err::ParserErrorV>(
        (v, pos + 1),
    ));
    assert(spec_comparision(toks, pos) == Ok::<(ExprV, int), crate::parser::err::ParserErrorV>(
        (v, pos + 1),
    ));
    assert(spec_equality(toks, pos) == Ok::<(ExprV, int), crate::parser::err::ParserErrorV>(
        (v, pos + 1),
    ));
    assert(spec_logical_and(toks, pos) == Ok::<(ExprV, int), crate::parser::err::ParserErrorV>(
        (v, pos + 1),
    ));
}

/// Call chaining: `f(a)(b)(c)` parses as three nested calls,
/// `Call(Call(Call(f, [a]), [b]), [c])`, the leftmost call innermost.
pub proof fn lemma_call_chaining(nf: Seq<char>, na: Seq<char>, nb: Seq<char>, nc: Seq<char>)
    ensures
        spec_expr(
            seq![
                TokenV::Ident(nf),
                TokenV::LeftBracket,
                TokenV::Ident(na),
                TokenV::RightBracket,
                TokenV::LeftBracket,
                TokenV::Ident(nb),
                TokenV::RightBracket,
                TokenV::LeftBracket,
                TokenV::Ident(nc),
                TokenV::RightBracket,
            ],
            0,
        ) == Ok::<(ExprV, int), crate::parser::err::ParserErrorV>(
            (
                ExprV::Funcall(
                    Box::new(
                        ExprV::Funcall(
                            Box::new(
                                ExprV::Funcall(
                                    Box::new(ExprV::Var(nf)),
                                    seq![ExprV::Var(na)],
                                ),
                            ),
                            seq![ExprV::Var(nb)],
                        ),
                    ),
                    seq![ExprV::Var(nc)],
                ),
                10,
            ),
        ),
{
    reveal(spec_expr);
    reveal(spec_logical_or);
    reveal(spec_logical_or_rest);
    reveal(spec_logical_and);
    reveal(spec_logical_and_rest);
    reveal(spec_equality);
    reveal(spec_equality_rest);
    reveal(spec_comparision);
    reveal(spec_comparision_rest);
    reveal(spec_term);
    reveal(spec_term_rest);
    reveal(spec_factor);
    reveal(spec_factor_rest);
    reveal(spec_unary);
    reveal(spec_call);
    reveal_with_fuel(spec_call_rest, 5);
    reveal(spec_call_args);
    reveal(spec_primary);
    let toks = seq![
        TokenV::Ident(nf),
        TokenV::LeftBracket,
        TokenV::Ident(na),
        TokenV::RightBracket,
        TokenV::LeftBracket,
        TokenV::Ident(nb),
        TokenV::RightBracket,
        TokenV::LeftBracket,
        TokenV::Ident(nc),
        TokenV::RightBracket,
    ];
    let vf = ExprV::Var(nf);
    let va = ExprV::Var(na);
    let vb = ExprV::Var(nb);
    let vc = ExprV::Var(nc);
    let f1 = ExprV::Funcall(Box::new(vf), seq![va]);
    let f2 = ExprV::Funcall(Box::new(f1), seq![vb]);
    let f3 = ExprV::Funcall(Box::new(f2), seq![vc]);
    lemma_var_before_rbracket(toks, 2, na);
    lemma_var_before_rbracket(toks, 5, nb);
    lemma_var_before_rbracket(toks, 8, nc);
    assert(spec_call_args(toks, 3, seq![va]) == Ok::<
        (Seq<ExprV>, int),
        crate::parser::err::ParserErrorV,
    >((seq![va], 3)));
    assert(spec_call_args(toks, 6, seq![vb]) == Ok::<
        (Seq<ExprV>, int),
        crate::parser::err::ParserErrorV,
    >((seq![vb], 6)));
    assert(spec_call_args(toks, 9, seq![vc]) == Ok::<
        (Seq<ExprV>, int),
        crate::parser::err::ParserErrorV,
    >((seq![vc], 9)));
    assert(spec_primary(toks, 0) == Ok::<(ExprV, int), crate::parser::err::ParserErrorV>(
        (vf, 1),
    ));
    assert(spec_call_rest(toks, 10, f3) == Ok::<
        (ExprV, int),
        crate::parser::err::ParserErrorV,
    >((f3, 10)));
    assert(spec_call_rest(toks, 7, f2) == Ok::<(ExprV, int), crate::parser::err::ParserErrorV>(
        (f3, 10),
    ));
    assert(spec_call_rest(toks, 4, f1) == Ok::<(ExprV, int), crate::parser::err::ParserErrorV>(
        (f3, 10),
    ));
    assert(spec_call_rest(toks, 1, vf) == Ok::<(ExprV, int), crate::parser::err::ParserErrorV>(
        (f3, 10),
    ));
    assert(spec_call(toks, 0) == Ok::<(ExprV, int), crate::parser::err::ParserErrorV>((f3, 10)));
    assert(spec_unary(toks, 0) == Ok::<(ExprV, int), crate::parser::err::ParserErrorV>((f3, 10)));
    assert(spec_factor(toks, 0) == Ok::<(ExprV, int), crate::parser::err::ParserErrorV>(
        (f3, 10),
    ));
    assert(spec_term(toks, 0) == Ok::<(ExprV, int), crate::parser::err::ParserErrorV>((f3, 10)));
    assert(spec_comparision(toks, 0) == Ok::<(ExprV, int), crate::parser::err::ParserErrorV>(
        (f3, 10),
    ));
    assert(spec_equality(toks, 0) == Ok::<(ExprV, int), crate::parser::err::ParserErrorV>(
        (f3, 10),
    ));
    assert(spec_logical_and(toks, 0) == Ok::<(ExprV, int), crate::parser::err::ParserErrorV>(
        (f3, 10),
    ));
    assert(spec_logical_or(toks, 0) == Ok::<(ExprV, int), crate::parser::err::ParserErrorV>(
        (f3, 10),
    ));
}

/// Each digit character carries its digit's value.
proof fn lemma_digit_char_props(d: nat)
    requires
        d < 10,
    ensures
        is_digit_char(digit_char_of(d)),
        digit_val(digit_char_of(d)) == d,
{
}

/// The decimal rendering of a nonnegative integer is a nonempty string
/// of digits whose value is that integer.
proof fn lemma_dec_digits_props(n: nat)
    ensures
        dec_digits(n).len() >= 1,
        forall|j: int| 0 <= j < dec_digits(n).len() ==> is_digit_char(#[trigger] dec_digits(n)[j]),
        digits_val(dec_digits(n)) == n,
    decreases n,
{
    if n < 10 {
        lemma_digit_char_props(n);
        assert(dec_digits(n) =~= seq![digit_char_of(n)]);
        assert(dec_digits(n).drop_last() =~= Seq::<char>::empty());
        assert(digits_val(dec_digits(n)) == digits_val(Seq::<char>::empty()) * 10 + digit_val(
            digit_char_of(n),
        ));
    } else {
        lemma_dec_digits_props(n / 10);
        lemma_digit_char_props(n % 10);
        let rest = dec_digits(n / 10);
        let c = digit_char_of(n % 10);
        assert(dec_digits(n) == rest.push(c));
        assert(rest.push(c).drop_last() =~= rest);
        assert(rest.push(c).last() == c);
        assert(digits_val(dec_digits(n)) == digits_val(rest) * 10 + digit_val(c));
        assert(n / 10 * 10 + n % 10 == n) by {
            vstd::arithmetic::div_mod::lemma_fundamental_div_mod(n as int, 10);
        }
        assert forall|j: int| 0 <= j < dec_digits(n).len() implies is_digit_char(
            #[trigger] dec_digits(n)[j],
        ) by {
            if j < rest.len() {
                assert(dec_digits(n)[j] == rest[j]);
            } else {
                assert(dec_digits(n)[j] == c);
            }
        }
    }
}

/// Token round-trip for integer literals: lexing the decimal rendering
/// of any nonnegative 32-bit integer yields exactly the one integer
/// token carrying that integer.
pub proof fn lemma_int_literal_round_trip(n: i32)
    requires
        0 <= n,
    ensures
        spec_tokenize(dec_digits(n as nat), 0) == Ok::<Seq<TokenV>, LexerError>(
            seq![TokenV::Int(n)],
        ),
{
    let s = dec_digits(n as nat);
    lemma_dec_digits_props(n as nat);
    assert(!is_space_char(s[0]));
    assert(spec_skip_ws(s, 0) == 0);
    assert(spec_tokenize(s, s.len() as int) == Ok::<Seq<TokenV>, LexerError>(Seq::empty()));
    assert(s.subrange(0, s.len() as int) =~= s);
    lemma_scan_unique(s, 0, |ch: char| is_digit_char(ch), s.len() as int);
    assert(s.subrange(0, s.len() as int) =~= s);
    assert(digits_val(s.subrange(0, s.len() as int)) == n);
    assert(spec_parse_token(s) == Ok::<(TokenV, int), LexerError>(
        (TokenV::Int(n), s.len() as int),
    ));
    assert(seq![TokenV::Int(n)] + Seq::<TokenV>::empty() =~= seq![TokenV::Int(n)]);
}

/// Token round-trip for string literals: lexing a string quoted by
/// either delimiter, whose contents avoid that delimiter, yields
/// exactly the one string token whose payload is the source characters
/// between the quotes, verbatim.
pub proof fn lemma_string_literal_round_trip(q: char, inner: Seq<char>)
    requires
        q == '\u{22}' || q == '\u{27}',
        forall|i: int| 0 <= i < inner.len() ==> inner[i] != q,
    ensures
        spec_tokenize(seq![q] + inner + seq![q], 0) == Ok::<Seq<TokenV>, LexerError>(
            seq![TokenV::Str(inner)],
        ),
{
    let s = seq![q] + inner + seq![q];
    assert(s.len() == inner.len() + 2);
    assert(s[0] == q);
    assert(forall|j: int| 1 <= j < inner.len() as int + 1 ==> s[j] == inner[j - 1]);
    assert(s[inner.len() as int + 1] == q);
    assert(!is_space_char(q));
    assert(spec_skip_ws(s, 0) == 0);
    assert(spec_tokenize(s, s.len() as int) == Ok::<Seq<TokenV>, LexerError>(Seq::empty()));
    assert(s.subrange(0, s.len() as int) =~= s);
    let c0 = s[0];
    lemma_scan_unique(s, 1, |ch: char| ch != c0, inner.len() as int + 1);
    assert(s.subrange(1, inner.len() as int + 1) =~= inner);
    assert(spec_parse_token(s) == Ok::<(TokenV, int), LexerError>(
        (TokenV::Str(inner), s.len() as int),
    ));
    assert(seq![TokenV::Str(inner)] + Seq::<TokenV>::empty() =~= seq![TokenV::Str(inner)]);
}

} // verus!
