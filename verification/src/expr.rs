//! Expressions of the language, their spec-level view, and the
//! context-free evaluator used for constant expressions.
use vstd::prelude::*;

use crate::func::{Func, FuncV};
use crate::lexer::op::{BinOp, UnOp};
use crate::parser::err::{ParserError, ParserErrorV};
use crate::stmt::{Declaration, DeclV, Stmt, StmtV};

verus! {

/// An expression of the language. `Num`, `Str`, `Bool`, `Null` and `Func`
/// are the value forms that evaluation reduces to.
#[derive(Debug, PartialEq, Eq)]
pub enum Expr {
    Num(i32),
    Str(String),
    Var(String),
    Bool(bool),
    Bin(BinExpr),
    Unary(UnOp, Box<Expr>),
    /// A call; the callee is itself an expression, so calls chain.
    Funcall(Box<Expr>, Vec<Expr>),
    Func(Func),
    Null,
}

/// A binary expression: two operands around an operator.
#[derive(Debug, PartialEq, Eq)]
pub struct BinExpr {
    pub lhs: Box<Expr>,
    pub rhs: Box<Expr>,
    pub op: BinOp,
}

/// Errors raised while evaluating expressions.
#[derive(Debug, Clone, PartialEq, Eq, Structural)]
pub enum ExprError {
    FailedConversion,
    FailedBinEvaluation,
    InvalidUnaryOperation,
    InvalidComparision,
    /// Division by zero: a runtime-category failure that, like every
    /// evaluation failure, rides the expression-evaluation error
    /// channel.
    DivisionByZero,
}

/// The mathematical image of an [`Expr`].
pub enum ExprV {
    Num(i32),
    Str(Seq<char>),
    Var(Seq<char>),
    Bool(bool),
    Bin(BinExprV),
    Unary(UnOp, Box<ExprV>),
    Funcall(Box<ExprV>, Seq<ExprV>),
    Func(FuncV),
    Null,
}

/// The mathematical image of a [`BinExpr`].
pub struct BinExprV {
    pub lhs: Box<ExprV>,
    pub rhs: Box<ExprV>,
    pub op: BinOp,
}

// The abstraction functions from executable syntax to its mathematical
// image are mutually recursive across expressions, statements and
// function values, so they all live here as free spec functions; the
// `View`/`DeepView` impls in each module delegate to them.

/// View of an expression.
pub open spec fn view_expr(e: Expr) -> ExprV
    decreases e,
{
    match e {
        Expr::Num(n) => ExprV::Num(n),
        Expr::Str(s) => ExprV::Str(s@),
        Expr::Var(s) => ExprV::Var(s@),
        Expr::Bool(b) => ExprV::Bool(b),
        Expr::Bin(b) => ExprV::Bin(
            BinExprV { lhs: Box::new(view_expr(*b.lhs)), rhs: Box::new(view_expr(*b.rhs)), op: b.op },
        ),
        Expr::Unary(op, e1) => ExprV::Unary(op, Box::new(view_expr(*e1))),
        Expr::Funcall(callee, args) => ExprV::Funcall(
            Box::new(view_expr(*callee)),
            view_exprs(args@),
        ),
        Expr::Func(f) => ExprV::Func(view_func(f)),
        Expr::Null => ExprV::Null,
    }
}

/// View of a sequence of expressions, elementwise.
pub open spec fn view_exprs(s: Seq<Expr>) -> Seq<ExprV>
    decreases s,
{
    if s.len() == 0 {
        Seq::empty()
    } else {
        seq![view_expr(s[0])] + view_exprs(s.drop_first())
    }
}

/// View of a function value.
pub open spec fn view_func(f: Func) -> FuncV
    decreases f,
{
    FuncV {
        instructions: Box::new(view_stmt(*f.instructions)),
        args: f.args.deep_view(),
        closure: f.closure,
    }
}

/// View of a statement.
pub open spec fn view_stmt(s: Stmt) -> StmtV
    decreases s,
{
    match s {
        Stmt::Declaration(d) => StmtV::Declaration(view_decl(d)),
        Stmt::Assignment(d) => StmtV::Assignment(view_decl(d)),
        Stmt::Print(e) => StmtV::Print(view_expr(e)),
        Stmt::Expr(e) => StmtV::Expr(view_expr(e)),
        Stmt::Block(stmts) => StmtV::Block(view_stmts(stmts@)),
        Stmt::If(c, t, els) => StmtV::If(
            view_expr(c),
            Box::new(view_stmt(*t)),
            match els {
                Some(s2) => Some(Box::new(view_stmt(*s2))),
                None => None,
            },
        ),
        Stmt::While(c, b) => StmtV::While(view_expr(c), Box::new(view_stmt(*b))),
        Stmt::Return(e) => StmtV::Return(view_expr(e)),
    }
}

/// View of a sequence of statements, elementwise.
pub open spec fn view_stmts(s: Seq<Stmt>) -> Seq<StmtV>
    decreases s,
{
    if s.len() == 0 {
        Seq::empty()
    } else {
        seq![view_stmt(s[0])] + view_stmts(s.drop_first())
    }
}

/// View of a declaration.
pub open spec fn view_decl(d: Declaration) -> DeclV
    decreases d,
{
    DeclV { ident: d.ident@, val: view_expr(d.val) }
}

/// The elementwise view sequence has one view per element.
pub proof fn lemma_view_exprs_len(s: Seq<Expr>)
    ensures
        view_exprs(s).len() == s.len(),
        forall|i: int| 0 <= i < s.len() ==> view_exprs(s)[i] == view_expr(s[i]),
    decreases s.len(),
{
    if s.len() > 0 {
        lemma_view_exprs_len(s.drop_first());
    }
}

/// The elementwise view sequence has one view per statement.
pub proof fn lemma_view_stmts_len(s: Seq<Stmt>)
    ensures
        view_stmts(s).len() == s.len(),
        forall|i: int| 0 <= i < s.len() ==> view_stmts(s)[i] == view_stmt(s[i]),
    decreases s.len(),
{
    if s.len() > 0 {
        lemma_view_stmts_len(s.drop_first());
    }
}

/// Appending an element appends its view.
pub proof fn lemma_view_exprs_push(s: Seq<Expr>, e: Expr)
    ensures
        view_exprs(s.push(e)) == view_exprs(s).push(view_expr(e)),
{
    lemma_view_exprs_len(s.push(e));
    lemma_view_exprs_len(s);
    assert(view_exprs(s.push(e)) =~= view_exprs(s).push(view_expr(e)));
}

/// Appending a statement appends its view.
pub proof fn lemma_view_stmts_push(s: Seq<Stmt>, x: Stmt)
    ensures
        view_stmts(s.push(x)) == view_stmts(s).push(view_stmt(x)),
{
    lemma_view_stmts_len(s.push(x));
    lemma_view_stmts_len(s);
    assert(view_stmts(s.push(x)) =~= view_stmts(s).push(view_stmt(x)));
}

/// Sequences with elementwise-equal views have equal view sequences.
pub proof fn lemma_view_exprs_ext(a: Seq<Expr>, b: Seq<Expr>)
    requires
        a.len() == b.len(),
        forall|i: int| 0 <= i < a.len() ==> view_expr(a[i]) == view_expr(b[i]),
    ensures
        view_exprs(a) == view_exprs(b),
    decreases a.len(),
{
    if a.len() > 0 {
        assert forall|i: int| 0 <= i < a.drop_first().len() implies view_expr(
            a.drop_first()[i],
        ) == view_expr(b.drop_first()[i]) by {
            assert(a.drop_first()[i] == a[i + 1]);
            assert(b.drop_first()[i] == b[i + 1]);
        }
        lemma_view_exprs_ext(a.drop_first(), b.drop_first());
        assert(view_exprs(a) == view_exprs(b));
    } else {
        assert(view_exprs(a) == view_exprs(b));
    }
}

/// Statement sequences with elementwise-equal views have equal view
/// sequences.
pub proof fn lemma_view_stmts_ext(a: Seq<Stmt>, b: Seq<Stmt>)
    requires
        a.len() == b.len(),
        forall|i: int| 0 <= i < a.len() ==> view_stmt(a[i]) == view_stmt(b[i]),
    ensures
        view_stmts(a) == view_stmts(b),
    decreases a.len(),
{
    if a.len() > 0 {
        assert forall|i: int| 0 <= i < a.drop_first().len() implies view_stmt(
            a.drop_first()[i],
        ) == view_stmt(b.drop_first()[i]) by {
            assert(a.drop_first()[i] == a[i + 1]);
            assert(b.drop_first()[i] == b[i + 1]);
        }
        lemma_view_stmts_ext(a.drop_first(), b.drop_first());
        assert(view_stmts(a) == view_stmts(b));
    } else {
        assert(view_stmts(a) == view_stmts(b));
    }
}

/// Copies a vector of expressions; the copy has the same view.
pub fn dup_exprs(v: &Vec<Expr>) -> (r: Vec<Expr>)
    ensures
        r@.len() == v@.len(),
        view_exprs(r@) == view_exprs(v@),
    decreases v@,
{
    let mut r: Vec<Expr> = Vec::new();
    let mut i: usize = 0;
    while i < v.len()
        invariant
            i <= v@.len(),
            r@.len() == i,
            forall|j: int| 0 <= j < i ==> view_expr(r@[j]) == view_expr(v@[j]),
        decreases v@.len() - i,
    {
        proof {
            assert(decreases_to!(v@ => v@[i as int]));
        }
        let e = v[i].dup();
        r.push(e);
        i = i + 1;
    }
    proof {
        lemma_view_exprs_ext(r@, v@);
    }
    r
}

/// Copies a vector of statements; the copy has the same view.
pub fn dup_stmts(v: &Vec<Stmt>) -> (r: Vec<Stmt>)
    ensures
        r@.len() == v@.len(),
        view_stmts(r@) == view_stmts(v@),
    decreases v@,
{
    let mut r: Vec<Stmt> = Vec::new();
    let mut i: usize = 0;
    while i < v.len()
        invariant
            i <= v@.len(),
            r@.len() == i,
            forall|j: int| 0 <= j < i ==> view_stmt(r@[j]) == view_stmt(v@[j]),
        decreases v@.len() - i,
    {
        proof {
            assert(decreases_to!(v@ => v@[i as int]));
        }
        let s = v[i].dup();
        r.push(s);
        i = i + 1;
    }
    proof {
        lemma_view_stmts_ext(r@, v@);
    }
    r
}

/// Copies a vector of names; the copy has the same view.
pub fn dup_strings(v: &Vec<String>) -> (r: Vec<String>)
    ensures
        r.deep_view() == v.deep_view(),
{
    let mut r: Vec<String> = Vec::new();
    let mut i: usize = 0;
    while i < v.len()
        invariant
            i <= v@.len(),
            r@.len() == i,
            forall|j: int| 0 <= j < i ==> r@[j]@ == v@[j]@,
        decreases v@.len() - i,
    {
        let s = v[i].clone();
        r.push(s);
        i = i + 1;
    }
    proof {
        assert(r.deep_view() =~= v.deep_view());
    }
    r
}

impl Expr {
    /// Copies this expression. Unlike a derived clone, the result is
    /// known to have the same view as the original.
    pub fn dup(&self) -> (r: Expr)
        ensures
            r@ == self@,
        decreases self,
    {
        match self {
            Expr::Num(n) => Expr::Num(*n),
            Expr::Str(s) => Expr::Str(s.clone()),
            Expr::Var(s) => Expr::Var(s.clone()),
            Expr::Bool(b) => Expr::Bool(*b),
            Expr::Bin(b) => Expr::Bin(
                BinExpr { lhs: Box::new(b.lhs.dup()), rhs: Box::new(b.rhs.dup()), op: b.op },
            ),
            Expr::Unary(op, e) => Expr::Unary(*op, Box::new(e.dup())),
            Expr::Funcall(callee, args) => Expr::Funcall(Box::new(callee.dup()), dup_exprs(args)),
            Expr::Func(f) => Expr::Func(f.dup()),
            Expr::Null => Expr::Null,
        }
    }
}

impl Func {
    /// Copies this function value; the copy has the same view.
    pub fn dup(&self) -> (r: Func)
        ensures
            r@ == self@,
        decreases self,
    {
        Func {
            instructions: Box::new(self.instructions.dup()),
            args: dup_strings(&self.args),
            closure: self.closure,
        }
    }
}

impl Declaration {
    /// Copies this declaration; the copy has the same view.
    pub fn dup(&self) -> (r: Declaration)
        ensures
            r@ == self@,
        decreases self,
    {
        Declaration { ident: self.ident.clone(), val: self.val.dup() }
    }
}

impl Stmt {
    /// Copies this statement; the copy has the same view.
    pub fn dup(&self) -> (r: Stmt)
        ensures
            r@ == self@,
        decreases self,
    {
        match self {
            Stmt::Declaration(d) => Stmt::Declaration(d.dup()),
            Stmt::Assignment(d) => Stmt::Assignment(d.dup()),
            Stmt::Print(e) => Stmt::Print(e.dup()),
            Stmt::Expr(e) => Stmt::Expr(e.dup()),
            Stmt::Block(stmts) => Stmt::Block(dup_stmts(stmts)),
            Stmt::If(c, t, els) => Stmt::If(
                c.dup(),
                Box::new(t.dup()),
                match els {
                    Some(s2) => Some(Box::new(s2.dup())),
                    None => None,
                },
            ),
            Stmt::While(c, b) => Stmt::While(c.dup(), Box::new(b.dup())),
            Stmt::Return(e) => Stmt::Return(e.dup()),
        }
    }
}

/// Whether two expression vectors have equal views, elementwise.
pub fn eq_exprs(a: &Vec<Expr>, b: &Vec<Expr>) -> (r: bool)
    ensures
        r == (view_exprs(a@) == view_exprs(b@)),
    decreases a@,
{
    proof {
        lemma_view_exprs_len(a@);
        lemma_view_exprs_len(b@);
    }
    if a.len() != b.len() {
        return false;
    }
    let mut i: usize = 0;
    while i < a.len()
        invariant
            a@.len() == b@.len(),
            i <= a@.len(),
            forall|j: int| 0 <= j < i ==> view_expr(a@[j]) == view_expr(b@[j]),
        decreases a@.len() - i,
    {
        proof {
            assert(decreases_to!(a@ => a@[i as int]));
        }
        if !a[i].same_as(&b[i]) {
            proof {
                lemma_view_exprs_len(a@);
                lemma_view_exprs_len(b@);
                assert(view_exprs(a@)[i as int] == view_expr(a@[i as int]));
                assert(view_exprs(b@)[i as int] == view_expr(b@[i as int]));
            }
            return false;
        }
        i = i + 1;
    }
    proof {
        lemma_view_exprs_ext(a@, b@);
    }
    true
}

/// Whether two name vectors have equal views, elementwise.
pub fn eq_strings(a: &Vec<String>, b: &Vec<String>) -> (r: bool)
    ensures
        r == (a.deep_view() == b.deep_view()),
{
    if a.len() != b.len() {
        proof {
            assert(a.deep_view().len() == a@.len());
            assert(b.deep_view().len() == b@.len());
        }
        return false;
    }
    let mut i: usize = 0;
    while i < a.len()
        invariant
            a@.len() == b@.len(),
            i <= a@.len(),
            forall|j: int| 0 <= j < i ==> a@[j]@ == b@[j]@,
        decreases a@.len() - i,
    {
        if !(a[i] == b[i]) {
            proof {
                assert(a.deep_view()[i as int] == a@[i as int]@);
                assert(b.deep_view()[i as int] == b@[i as int]@);
            }
            return false;
        }
        i = i + 1;
    }
    proof {
        assert(a.deep_view() =~= b.deep_view());
    }
    true
}

impl Expr {
    /// Whether this expression is structurally equal to `other`:
    /// equality of views.
    pub fn same_as(&self, other: &Expr) -> (r: bool)
        ensures
            r == (self@ == other@),
        decreases self,
    {
        match (self, other) {
            (Expr::Num(a), Expr::Num(b)) => a == b,
            (Expr::Str(a), Expr::Str(b)) => *a == *b,
            (Expr::Var(a), Expr::Var(b)) => *a == *b,
            (Expr::Bool(a), Expr::Bool(b)) => a == b,
            (Expr::Bin(a), Expr::Bin(b)) => {
                a.op == b.op && a.lhs.same_as(&b.lhs) && a.rhs.same_as(&b.rhs)
            },
            (Expr::Unary(opa, ea), Expr::Unary(opb, eb)) => opa == opb && ea.same_as(eb),
            (Expr::Funcall(ca, aa), Expr::Funcall(cb, ab)) => {
                ca.same_as(cb) && eq_exprs(aa, ab)
            },
            (Expr::Func(fa), Expr::Func(fb)) => fa.same_as(fb),
            (Expr::Null, Expr::Null) => true,
            _ => {
                assert(self@ != other@);
                false
            },
        }
    }
}

impl Func {
    /// Whether this function value is structurally equal to `other`.
    pub fn same_as(&self, other: &Func) -> (r: bool)
        ensures
            r == (self@ == other@),
        decreases self,
    {
        let closures_eq = match (self.closure, other.closure) {
            (Some(a), Some(b)) => a == b,
            (None, None) => true,
            _ => false,
        };
        closures_eq && eq_strings(&self.args, &other.args) && self.instructions.same_as(
            &other.instructions,
        )
    }
}

impl Declaration {
    /// Whether this declaration is structurally equal to `other`.
    pub fn same_as(&self, other: &Declaration) -> (r: bool)
        ensures
            r == (self@ == other@),
        decreases self,
    {
        self.ident == other.ident && self.val.same_as(&other.val)
    }
}

/// Whether two statement vectors have equal views, elementwise.
pub fn eq_stmts(a: &Vec<Stmt>, b: &Vec<Stmt>) -> (r: bool)
    ensures
        r == (view_stmts(a@) == view_stmts(b@)),
    decreases a@,
{
    proof {
        lemma_view_stmts_len(a@);
        lemma_view_stmts_len(b@);
    }
    if a.len() != b.len() {
        return false;
    }
    let mut i: usize = 0;
    while i < a.len()
        invariant
            a@.len() == b@.len(),
            i <= a@.len(),
            forall|j: int| 0 <= j < i ==> view_stmt(a@[j]) == view_stmt(b@[j]),
        decreases a@.len() - i,
    {
        proof {
            assert(decreases_to!(a@ => a@[i as int]));
        }
        if !a[i].same_as(&b[i]) {
            proof {
                lemma_view_stmts_len(a@);
                lemma_view_stmts_len(b@);
                assert(view_stmts(a@)[i as int] == view_stmt(a@[i as int]));
                assert(view_stmts(b@)[i as int] == view_stmt(b@[i as int]));
            }
            return false;
        }
        i = i + 1;
    }
    proof {
        lemma_view_stmts_ext(a@, b@);
    }
    true
}

impl Stmt {
    /// Whether this statement is structurally equal to `other`.
    pub fn same_as(&self, other: &Stmt) -> (r: bool)
        ensures
            r == (self@ == other@),
        decreases self,
    {
        match (self, other) {
            (Stmt::Declaration(a), Stmt::Declaration(b)) => a.same_as(b),
            (Stmt::Assignment(a), Stmt::Assignment(b)) => a.same_as(b),
            (Stmt::Print(a), Stmt::Print(b)) => a.same_as(b),
            (Stmt::Expr(a), Stmt::Expr(b)) => a.same_as(b),
            (Stmt::Block(a), Stmt::Block(b)) => eq_stmts(a, b),
            (Stmt::If(ca, ta, ea), Stmt::If(cb, tb, eb)) => {
                let els_eq = match (ea, eb) {
                    (Some(sa), Some(sb)) => sa.same_as(sb),
                    (None, None) => true,
                    _ => false,
                };
                ca.same_as(cb) && ta.same_as(tb) && els_eq
            },
            (Stmt::While(ca, ba), Stmt::While(cb, bb)) => ca.same_as(cb) && ba.same_as(bb),
            (Stmt::Return(a), Stmt::Return(b)) => a.same_as(b),
            _ => {
                assert(self@ != other@);
                false
            },
        }
    }
}

// ------------------------------------------------------------------
// Display forms.
// ------------------------------------------------------------------

/// The decimal digit character for `d` (0 through 9).
pub open spec fn digit_char_of(d: nat) -> char {
    if d == 0 {
        '0'
    } else if d == 1 {
        '1'
    } else if d == 2 {
        '2'
    } else if d == 3 {
        '3'
    } else if d == 4 {
        '4'
    } else if d == 5 {
        '5'
    } else if d == 6 {
        '6'
    } else if d == 7 {
        '7'
    } else if d == 8 {
        '8'
    } else {
        '9'
    }
}

/// Decimal digits of a nonnegative integer, most significant first.
pub open spec fn dec_digits(n: nat) -> Seq<char>
    decreases n,
{
    if n < 10 {
        seq![digit_char_of(n)]
    } else {
        dec_digits(n / 10).push(digit_char_of(n % 10))
    }
}

/// Decimal rendering of an integer: digits, with a leading minus sign
/// when negative.
pub open spec fn dec_int(v: int) -> Seq<char> {
    if v < 0 {
        seq!['-'] + dec_digits((-v) as nat)
    } else {
        dec_digits(v as nat)
    }
}

/// The display form of an expression: numbers print their decimal
/// digits, booleans `true`/`false`, strings their contents verbatim,
/// `null` prints `null` and function values print `<func>`. Forms that
/// are not values display as `<expr>`.
pub open spec fn disp_v(e: ExprV) -> Seq<char> {
    match e {
        ExprV::Num(n) => dec_int(n as int),
        ExprV::Str(s) => s,
        ExprV::Bool(b) => if b {
            "true"@
        } else {
            "false"@
        },
        ExprV::Null => "null"@,
        ExprV::Func(_) => "<func>"@,
        _ => "<expr>"@,
    }
}

/// The single-character string for digit `d`.
fn digit_str(d: u32) -> (r: &'static str)
    requires
        d < 10,
    ensures
        r@ == seq![digit_char_of(d as nat)],
{
    match d {
        0u32 => {
            proof {
                reveal_strlit("0");
                assert("0"@ =~= seq!['0']);
            }
            "0"
        },
        1u32 => {
            proof {
                reveal_strlit("1");
                assert("1"@ =~= seq!['1']);
            }
            "1"
        },
        2u32 => {
            proof {
                reveal_strlit("2");
                assert("2"@ =~= seq!['2']);
            }
            "2"
        },
        3u32 => {
            proof {
                reveal_strlit("3");
                assert("3"@ =~= seq!['3']);
            }
            "3"
        },
        4u32 => {
            proof {
                reveal_strlit("4");
                assert("4"@ =~= seq!['4']);
            }
            "4"
        },
        5u32 => {
            proof {
                reveal_strlit("5");
                assert("5"@ =~= seq!['5']);
            }
            "5"
        },
        6u32 => {
            proof {
                reveal_strlit("6");
                assert("6"@ =~= seq!['6']);
            }
            "6"
        },
        7u32 => {
            proof {
                reveal_strlit("7");
                assert("7"@ =~= seq!['7']);
            }
            "7"
        },
        8u32 => {
            proof {
                reveal_strlit("8");
                assert("8"@ =~= seq!['8']);
            }
            "8"
        },
        _ => {
            proof {
                reveal_strlit("9");
                assert("9"@ =~= seq!['9']);
            }
            "9"
        },
    }
}

/// Renders an unsigned 32-bit integer in decimal.
pub fn u32_decimal(n: u32) -> (r: String)
    ensures
        r@ == dec_digits(n as nat),
    decreases n,
{
    if n < 10 {
        digit_str(n).to_owned()
    } else {
        let mut s = u32_decimal(n / 10);
        s.append(digit_str(n % 10));
        proof {
            assert(dec_digits((n / 10) as nat) + seq![digit_char_of((n % 10) as nat)]
                =~= dec_digits(n as nat));
        }
        s
    }
}

/// Renders a signed 32-bit integer in decimal.
pub fn i32_decimal(n: i32) -> (r: String)
    ensures
        r@ == dec_int(n as int),
{
    if n >= 0 {
        u32_decimal(n as u32)
    } else {
        let mag64: i64 = -(n as i64);
        let mag: u32 = mag64 as u32;
        let mut s = "-".to_owned();
        let digits = u32_decimal(mag);
        s.append(digits.as_str());
        proof {
            reveal_strlit("-");
            assert("-"@ =~= seq!['-']);
        }
        s
    }
}

impl Expr {
    /// The display form of this expression; see [`disp_v`].
    pub fn display_form(&self) -> (r: String)
        ensures
            r@ == disp_v(self@),
    {
        match self {
            Expr::Num(n) => i32_decimal(*n),
            Expr::Str(s) => s.clone(),
            Expr::Bool(b) => if *b {
                "true".to_owned()
            } else {
                "false".to_owned()
            },
            Expr::Null => "null".to_owned(),
            Expr::Func(_) => "<func>".to_owned(),
            Expr::Var(_) => "<expr>".to_owned(),
            Expr::Bin(_) => "<expr>".to_owned(),
            Expr::Unary(_, _) => "<expr>".to_owned(),
            Expr::Funcall(_, _) => "<expr>".to_owned(),
        }
    }
}

// ------------------------------------------------------------------
// Context-free evaluation of constant expressions.
// ------------------------------------------------------------------

/// Truncated integer division: the quotient of the magnitudes, negated
/// when the signs differ.
pub open spec fn spec_trunc_div(a: int, b: int) -> int {
    let q = (vstd::math::abs(a) / vstd::math::abs(b)) as int;
    if (a < 0) != (b < 0) {
        -q
    } else {
        q
    }
}

/// 32-bit division as the evaluator performs it: truncated division,
/// with the single overflowing case `i32::MIN / -1` wrapping to
/// `i32::MIN`.
pub open spec fn spec_div_i32(a: i32, b: i32) -> i32 {
    if a == i32::MIN && b == -1 {
        i32::MIN
    } else {
        spec_trunc_div(a as int, b as int) as i32
    }
}

/// Executable form of [`spec_div_i32`].
pub fn div_i32(a: i32, b: i32) -> (r: i32)
    requires
        b != 0,
    ensures
        r == spec_div_i32(a, b),
{
    if a == i32::MIN && b == -1 {
        i32::MIN
    } else {
        let am: u32 = if a < 0 {
            (-(a as i64)) as u32
        } else {
            a as u32
        };
        let bm: u32 = if b < 0 {
            (-(b as i64)) as u32
        } else {
            b as u32
        };
        let q: u32 = am / bm;
        proof {
            vstd::arithmetic::div_mod::lemma_div_basics(am as int);
            vstd::arithmetic::div_mod::lemma_div_is_ordered_by_denominator(am as int, 1, bm as int);
            if bm >= 2 {
                vstd::arithmetic::div_mod::lemma_div_is_ordered_by_denominator(
                    am as int,
                    2,
                    bm as int,
                );
                vstd::arithmetic::div_mod::lemma_div_is_ordered_by_denominator(am as int, 1, 2);
            }
        }
        if (a < 0) != (b < 0) {
            (-(q as i64)) as i32
        } else {
            q as i32
        }
    }
}

/// View of an evaluation result.
pub open spec fn res_view(r: Result<Expr, ParserError>) -> Result<ExprV, ParserErrorV> {
    match r {
        Ok(e) => Ok(view_expr(e)),
        Err(e) => Err(e.deep_view()),
    }
}

/// View of a numeric conversion result.
pub open spec fn num_res_view(r: Result<i32, ParserError>) -> Result<i32, ParserErrorV> {
    match r {
        Ok(n) => Ok(n),
        Err(e) => Err(e.deep_view()),
    }
}

/// View of a numeric pair conversion result.
pub open spec fn nums_res_view(r: Result<(i32, i32), ParserError>) -> Result<
    (i32, i32),
    ParserErrorV,
> {
    match r {
        Ok(p) => Ok(p),
        Err(e) => Err(e.deep_view()),
    }
}

/// View of a boolean coercion result.
pub open spec fn bool_res_view(r: Result<bool, ParserError>) -> Result<bool, ParserErrorV> {
    match r {
        Ok(b) => Ok(b),
        Err(e) => Err(e.deep_view()),
    }
}

/// View of a boolean pair coercion result.
pub open spec fn bools_res_view(r: Result<(bool, bool), ParserError>) -> Result<
    (bool, bool),
    ParserErrorV,
> {
    match r {
        Ok(p) => Ok(p),
        Err(e) => Err(e.deep_view()),
    }
}

/// Context-free evaluation of an expression: binary nodes are computed,
/// `!` coerces its operand to a boolean and negates it, and every other
/// form evaluates to itself. Variables are not resolved here; that is
/// the interpreter's task.
pub open spec fn spec_eval(e: ExprV) -> Result<ExprV, ParserErrorV>
    decreases e, 0int,
{
    match e {
        ExprV::Bin(b) => spec_eval_bin(b),
        ExprV::Unary(op, e1) => {
            if op == UnOp::Bang {
                match spec_bool_of(*e1) {
                    Ok(b) => Ok(ExprV::Bool(!b)),
                    Err(err) => Err(err),
                }
            } else {
                Err(ParserErrorV::ExprError(ExprError::InvalidUnaryOperation))
            }
        },
        _ => Ok(e),
    }
}

/// Evaluation followed by the demand for a number.
pub open spec fn spec_num_of(e: ExprV) -> Result<i32, ParserErrorV>
    decreases e, 1int,
{
    match spec_eval(e) {
        Err(err) => Err(err),
        Ok(v) => match v {
            ExprV::Num(n) => Ok(n),
            _ => Err(ParserErrorV::ExprError(ExprError::FailedConversion)),
        },
    }
}

/// Evaluation followed by boolean coercion: booleans stand for
/// themselves, numbers are true when positive, strings when nonempty,
/// `null` is false, and anything else refuses the coercion.
pub open spec fn spec_bool_of(e: ExprV) -> Result<bool, ParserErrorV>
    decreases e, 1int,
{
    match spec_eval(e) {
        Err(err) => Err(err),
        Ok(v) => match v {
            ExprV::Bool(b) => Ok(b),
            ExprV::Num(n) => Ok(n > 0),
            ExprV::Str(s) => Ok(s.len() > 0),
            ExprV::Null => Ok(false),
            _ => Err(ParserErrorV::ExprError(ExprError::FailedConversion)),
        },
    }
}

/// Both operands evaluated and demanded to be numbers, left first.
pub open spec fn spec_nums(b: BinExprV) -> Result<(i32, i32), ParserErrorV>
    decreases b, 1int,
{
    match spec_num_of(*b.lhs) {
        Err(err) => Err(err),
        Ok(x) => match spec_num_of(*b.rhs) {
            Err(err) => Err(err),
            Ok(y) => Ok((x, y)),
        },
    }
}

/// Both operands evaluated and coerced to booleans, left first.
pub open spec fn spec_bools(b: BinExprV) -> Result<(bool, bool), ParserErrorV>
    decreases b, 1int,
{
    match spec_bool_of(*b.lhs) {
        Err(err) => Err(err),
        Ok(x) => match spec_bool_of(*b.rhs) {
            Err(err) => Err(err),
            Ok(y) => Ok((x, y)),
        },
    }
}

/// Evaluation of a binary expression. Arithmetic demands numbers (except
/// `+`, which falls back to concatenating the display forms of the
/// operands), arithmetic wraps on 32-bit overflow, division by zero is
/// an error, `==`/`!=` compare structurally, the orderings demand
/// numbers, and `and`/`or` coerce both operands to booleans.
pub open spec fn spec_eval_bin(b: BinExprV) -> Result<ExprV, ParserErrorV>
    decreases b, 2int,
{
    match b.op {
        BinOp::Add => match spec_nums(b) {
            Ok((x, y)) => Ok(ExprV::Num(vstd::wrapping::i32_specs::wrapping_add(x, y))),
            Err(_) => Ok(ExprV::Str(disp_v(*b.lhs) + disp_v(*b.rhs))),
        },
        BinOp::Sub => match spec_nums(b) {
            Ok((x, y)) => Ok(ExprV::Num(vstd::wrapping::i32_specs::wrapping_sub(x, y))),
            Err(err) => Err(err),
        },
        BinOp::Mul => match spec_nums(b) {
            Ok((x, y)) => Ok(ExprV::Num(vstd::wrapping::i32_specs::wrapping_mul(x, y))),
            Err(err) => Err(err),
        },
        BinOp::Div => match spec_nums(b) {
            Ok((x, y)) => if y == 0 {
                Err(ParserErrorV::ExprError(ExprError::DivisionByZero))
            } else {
                Ok(ExprV::Num(spec_div_i32(x, y)))
            },
            Err(err) => Err(err),
        },
        BinOp::EqSign => match spec_eval(*b.lhs) {
            Err(err) => Err(err),
            Ok(l) => match spec_eval(*b.rhs) {
                Err(err) => Err(err),
                Ok(r) => Ok(ExprV::Bool(l == r)),
            },
        },
        BinOp::NeqSign => match spec_eval(*b.lhs) {
            Err(err) => Err(err),
            Ok(l) => match spec_eval(*b.rhs) {
                Err(err) => Err(err),
                Ok(r) => Ok(ExprV::Bool(l != r)),
            },
        },
        BinOp::GreaterSign => match spec_nums(b) {
            Ok((x, y)) => Ok(ExprV::Bool(x > y)),
            Err(err) => Err(err),
        },
        BinOp::LessSign => match spec_nums(b) {
            Ok((x, y)) => Ok(ExprV::Bool(x < y)),
            Err(err) => Err(err),
        },
        BinOp::GreaterEqSign => match spec_nums(b) {
            Ok((x, y)) => Ok(ExprV::Bool(x >= y)),
            Err(err) => Err(err),
        },
        BinOp::LessEqSign => match spec_nums(b) {
            Ok((x, y)) => Ok(ExprV::Bool(x <= y)),
            Err(err) => Err(err),
        },
        BinOp::And => match spec_bools(b) {
            Ok((x, y)) => Ok(ExprV::Bool(x && y)),
            Err(err) => Err(err),
        },
        BinOp::Or => match spec_bools(b) {
            Ok((x, y)) => Ok(ExprV::Bool(x || y)),
            Err(err) => Err(err),
        },
    }
}

impl Expr {
    /// Evaluates this expression without an environment; see
    /// [`spec_eval`].
    pub fn eval(&self) -> (r: Result<Expr, ParserError>)
        ensures
            res_view(r) == spec_eval(self@),
        decreases self, 0int,
    {
        match self {
            Expr::Bin(bexpr) => bexpr.eval(),
            Expr::Unary(op, e1) => {
                if *op == UnOp::Bang {
                    match e1.to_bool() {
                        Ok(b) => Ok(Expr::Bool(!b)),
                        Err(err) => Err(err),
                    }
                } else {
                    Err(ParserError::ExprError(ExprError::InvalidUnaryOperation))
                }
            },
            _ => Ok(self.dup()),
        }
    }

    /// Evaluates and demands a number; see [`spec_num_of`].
    fn to_num(&self) -> (r: Result<i32, ParserError>)
        ensures
            num_res_view(r) == spec_num_of(self@),
        decreases self, 1int,
    {
        match self.eval() {
            Err(err) => Err(err),
            Ok(v) => match v {
                Expr::Num(n) => Ok(n),
                _ => Err(ParserError::ExprError(ExprError::FailedConversion)),
            },
        }
    }

    /// Evaluates and coerces to a boolean; see [`spec_bool_of`].
    pub fn to_bool(&self) -> (r: Result<bool, ParserError>)
        ensures
            bool_res_view(r) == spec_bool_of(self@),
        decreases self, 1int,
    {
        match self.eval() {
            Err(err) => Err(err),
            Ok(v) => match v {
                Expr::Bool(b) => Ok(b),
                Expr::Num(n) => Ok(n > 0),
                Expr::Str(s) => Ok(!s.as_str().is_empty()),
                Expr::Null => Ok(false),
                _ => Err(ParserError::ExprError(ExprError::FailedConversion)),
            },
        }
    }
}

impl BinExpr {
    /// Builds a binary expression from two operands and an operator.
    pub fn new(lhs: Box<Expr>, rhs: Box<Expr>, op: BinOp) -> (r: BinExpr)
        ensures
            r@ == (BinExprV {
                lhs: Box::new(view_expr(*lhs)),
                rhs: Box::new(view_expr(*rhs)),
                op: op,
            }),
    {
        Self { lhs, rhs, op }
    }

    /// Evaluates both operands and demands numbers; see [`spec_nums`].
    fn try_into_nums(&self) -> (r: Result<(i32, i32), ParserError>)
        ensures
            nums_res_view(r) == spec_nums(self@),
        decreases self, 1int,
    {
        match self.lhs.to_num() {
            Err(err) => Err(err),
            Ok(x) => match self.rhs.to_num() {
                Err(err) => Err(err),
                Ok(y) => Ok((x, y)),
            },
        }
    }

    /// Evaluates both operands and coerces them to booleans; see
    /// [`spec_bools`].
    fn try_into_bools(&self) -> (r: Result<(bool, bool), ParserError>)
        ensures
            bools_res_view(r) == spec_bools(self@),
        decreases self, 1int,
    {
        match self.lhs.to_bool() {
            Err(err) => Err(err),
            Ok(x) => match self.rhs.to_bool() {
                Err(err) => Err(err),
                Ok(y) => Ok((x, y)),
            },
        }
    }

    /// Evaluates this binary expression; see [`spec_eval_bin`].
    pub fn eval(&self) -> (r: Result<Expr, ParserError>)
        ensures
            res_view(r) == spec_eval_bin(self@),
        decreases self, 2int,
    {
        match self.op {
            BinOp::Add => match self.try_into_nums() {
                Ok((x, y)) => Ok(Expr::Num(x.wrapping_add(y))),
                Err(_) => {
                    let mut s = self.lhs.display_form();
                    let rs = self.rhs.display_form();
                    s.append(rs.as_str());
                    Ok(Expr::Str(s))
                },
            },
            BinOp::Sub => match self.try_into_nums() {
                Ok((x, y)) => Ok(Expr::Num(x.wrapping_sub(y))),
                Err(err) => Err(err),
            },
            BinOp::Mul => match self.try_into_nums() {
                Ok((x, y)) => Ok(Expr::Num(x.wrapping_mul(y))),
                Err(err) => Err(err),
            },
            BinOp::Div => match self.try_into_nums() {
                Ok((x, y)) => if y == 0 {
                    Err(ParserError::ExprError(ExprError::DivisionByZero))
                } else {
                    Ok(Expr::Num(div_i32(x, y)))
                },
                Err(err) => Err(err),
            },
            BinOp::EqSign => match self.lhs.eval() {
                Err(err) => Err(err),
                Ok(l) => match self.rhs.eval() {
                    Err(err) => Err(err),
                    Ok(r) => Ok(Expr::Bool(l.same_as(&r))),
                },
            },
            BinOp::NeqSign => match self.lhs.eval() {
                Err(err) => Err(err),
                Ok(l) => match self.rhs.eval() {
                    Err(err) => Err(err),
                    Ok(r) => Ok(Expr::Bool(!l.same_as(&r))),
                },
            },
            BinOp::GreaterSign => match self.try_into_nums() {
                Ok((x, y)) => Ok(Expr::Bool(x > y)),
                Err(err) => Err(err),
            },
            BinOp::LessSign => match self.try_into_nums() {
                Ok((x, y)) => Ok(Expr::Bool(x < y)),
                Err(err) => Err(err),
            },
            BinOp::GreaterEqSign => match self.try_into_nums() {
                Ok((x, y)) => Ok(Expr::Bool(x >= y)),
                Err(err) => Err(err),
            },
            BinOp::LessEqSign => match self.try_into_nums() {
                Ok((x, y)) => Ok(Expr::Bool(x <= y)),
                Err(err) => Err(err),
            },
            BinOp::And => match self.try_into_bools() {
                Ok((x, y)) => Ok(Expr::Bool(x && y)),
                Err(err) => Err(err),
            },
            BinOp::Or => match self.try_into_bools() {
                Ok((x, y)) => Ok(Expr::Bool(x || y)),
                Err(err) => Err(err),
            },
        }
    }
}

impl DeepView for BinExpr {
    type V = BinExprV;

    open spec fn deep_view(&self) -> BinExprV {
        BinExprV {
            lhs: Box::new(view_expr(*self.lhs)),
            rhs: Box::new(view_expr(*self.rhs)),
            op: self.op,
        }
    }
}

impl View for BinExpr {
    type V = BinExprV;

    open spec fn view(&self) -> BinExprV {
        self.deep_view()
    }
}

impl DeepView for Expr {
    type V = ExprV;

    open spec fn deep_view(&self) -> ExprV {
        view_expr(*self)
    }
}

impl View for Expr {
    type V = ExprV;

    open spec fn view(&self) -> ExprV {
        view_expr(*self)
    }
}

} // verus!
