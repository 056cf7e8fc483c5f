//! The evaluator: walks statements against the environment arena,
//! collecting printed lines in an output buffer. Every step is proved
//! to agree with a fuel-indexed big-step semantics; fuel is consumed
//! only by function calls and loop iterations, and the starting budget
//! is so large that exhausting it amounts to nontermination.

pub mod env;
pub mod err;

use vstd::prelude::*;

use crate::expr::{
    disp_v, spec_bool_of, spec_eval_bin, view_expr, view_exprs, view_stmts, BinExpr, BinExprV,
    Expr, ExprV,
};
use crate::func::{Func, FuncV};
use crate::interpreter::env::{
    env_define, env_lookup, env_push, env_resolve, env_update_at, env_wf, Env, EnvV, FrameV,
};
use crate::interpreter::err::{ErrV, InterpErr, RuntimeErr, RuntimeErrV};
use crate::stmt::{Stmt, StmtV};

verus! {

broadcast use vstd::std_specs::vec::group_vec_axioms;

/// The evaluation depth budget handed to every top-level statement.
pub const FUEL_LIMIT: u64 = 0x1000_0000_0000_0000;

/// The full evaluator state: the environment and the lines printed so
/// far.
#[verifier::ext_equal]
pub struct StV {
    pub env: EnvV,
    pub out: Seq<Seq<char>>,
}

/// View of an evaluation result.
pub open spec fn eres(r: Result<Expr, InterpErr>) -> Result<ExprV, ErrV> {
    match r {
        Ok(e) => Ok(view_expr(e)),
        Err(e) => Err(e.deep_view()),
    }
}

/// View of a statement execution result.
pub open spec fn ures(r: Result<(), InterpErr>) -> Result<(), ErrV> {
    match r {
        Ok(()) => Ok(()),
        Err(e) => Err(e.deep_view()),
    }
}

/// The parameter frame of a call from index `j` on: names bound to the
/// corresponding argument values, missing arguments bound to `Null`.
pub open spec fn bind_params(env: EnvV, names: Seq<Seq<char>>, vals: Seq<ExprV>, j: int) -> EnvV
    decreases names.len() - j,
{
    if j < 0 || j >= names.len() {
        env
    } else {
        let v = if j < vals.len() {
            vals[j]
        } else {
            ExprV::Null
        };
        bind_params(env_define(env, names[j], v), names, vals, j + 1)
    }
}

/// Evaluates an expression: variables are resolved in the environment,
/// operator nodes are computed on the evaluated operands, and calls
/// run the named function's body in a fresh frame under its captured
/// closure. Returns the state (environments grown, output appended)
/// and the value or the error.
#[verifier::opaque]
pub open spec fn sem_expr(st: StV, e: ExprV, fuel: u64) -> (StV, Result<ExprV, ErrV>)
    decreases fuel, e, 0int,
{
    match e {
        ExprV::Var(name) => {
            match env_lookup(st.env, st.env.current, name) {
                Some(v) => (st, Ok(v)),
                None => (st, Err(ErrV::RuntimeErr(RuntimeErrV::UndefinedVar(name)))),
            }
        },
        ExprV::Bin(b) => {
            let (st2, lr) = sem_expr(st, *b.lhs, fuel);
            match lr {
                Err(err) => (st2, Err(err)),
                Ok(l) => {
                    let (st3, rr) = sem_expr(st2, *b.rhs, fuel);
                    match rr {
                        Err(err) => (st3, Err(err)),
                        Ok(r) => {
                            match spec_eval_bin(
                                BinExprV { lhs: Box::new(l), rhs: Box::new(r), op: b.op },
                            ) {
                                Ok(v) => (st3, Ok(v)),
                                Err(pe) => (st3, Err(ErrV::ParserError(pe))),
                            }
                        },
                    }
                },
            }
        },
        ExprV::Unary(op, e1) => {
            let (st2, vr) = sem_expr(st, *e1, fuel);
            match vr {
                Err(err) => (st2, Err(err)),
                Ok(v) => {
                    if op == crate::lexer::op::UnOp::Bang {
                        match spec_bool_of(v) {
                            Ok(b) => (st2, Ok(ExprV::Bool(!b))),
                            Err(pe) => (st2, Err(ErrV::ParserError(pe))),
                        }
                    } else {
                        (
                            st2,
                            Err(ErrV::ParserError(crate::parser::err::ParserErrorV::ExprError(
                                crate::expr::ExprError::InvalidUnaryOperation,
                            ))),
                        )
                    }
                },
            }
        },
        ExprV::Funcall(callee, args) => {
            let (st2, cr) = sem_expr(st, *callee, fuel);
            match cr {
                Err(err) => (st2, Err(err)),
                Ok(cv) => {
                    match cv {
                        ExprV::Func(f) => {
                            let (st3, ar) = sem_args(st2, args, fuel);
                            match ar {
                                Err(err) => (st3, Err(err)),
                                Ok(vals) => {
                                    if vals.len() != f.args.len() {
                                        (
                                            st3,
                                            Err(ErrV::RuntimeErr(RuntimeErrV::BadArgLength(
                                                f.args.len() as usize,
                                                vals.len() as usize,
                                            ))),
                                        )
                                    } else if fuel == 0 {
                                        (
                                            st3,
                                            Err(ErrV::RuntimeErr(RuntimeErrV::RecursionLimit)),
                                        )
                                    } else {
                                        sem_call(st3, f, vals, (fuel - 1) as u64)
                                    }
                                },
                            }
                        },
                        _ => (
                            st2,
                            Err(ErrV::RuntimeErr(RuntimeErrV::UnexpectedType(
                                crate::interpreter::err::LexerThingType::Func,
                            ))),
                        ),
                    }
                },
            }
        },
        _ => (st, Ok(e)),
    }
}

/// Evaluates arguments left to right.
#[verifier::opaque]
pub open spec fn sem_args(st: StV, es: Seq<ExprV>, fuel: u64) -> (StV, Result<Seq<ExprV>, ErrV>)
    decreases fuel, es, 1int,
{
    if es.len() == 0 {
        (st, Ok(Seq::empty()))
    } else {
        let (st2, vr) = sem_expr(st, es[0], fuel);
        match vr {
            Err(err) => (st2, Err(err)),
            Ok(v) => {
                let (st3, rr) = sem_args(st2, es.drop_first(), fuel);
                match rr {
                    Err(err) => (st3, Err(err)),
                    Ok(rest) => (st3, Ok(seq![v] + rest)),
                }
            },
        }
    }
}

/// Invokes a function value on evaluated arguments: a fresh frame is
/// parented at the captured closure (never at the caller), parameters
/// are bound, the body runs, a return signal becomes the call's value,
/// a silent end yields `Null`, and the caller's frame is restored on
/// every outcome.
#[verifier::opaque]
pub open spec fn sem_call(st: StV, f: FuncV, vals: Seq<ExprV>, fuel: u64) -> (
    StV,
    Result<ExprV, ErrV>,
)
    decreases fuel, f.instructions, 0int,
{
    if fuel == 0 {
        (st, Err(ErrV::RuntimeErr(RuntimeErrV::RecursionLimit)))
    } else {
        match f.closure {
            None => (st, Err(ErrV::RuntimeErr(RuntimeErrV::InvalidExpr(ExprV::Func(f))))),
            Some(c) => {
                if c as int >= st.env.frames.len() || st.env.frames.len() >= usize::MAX {
                    (st, Err(ErrV::RuntimeErr(RuntimeErrV::InvalidExpr(ExprV::Func(f)))))
                } else {
                    let saved = st.env.current;
                    let pushed = env_push(st.env);
                    let parented = EnvV {
                        frames: pushed.frames.update(
                            pushed.current,
                            FrameV { vals: Seq::empty(), parent: Some(c) },
                        ),
                        current: pushed.current,
                    };
                    let bound = bind_params(parented, f.args, vals, 0);
                    let (st2, br) = sem_stmt(
                        StV { env: bound, out: st.out },
                        *f.instructions,
                        (fuel - 1) as u64,
                    );
                    let restored = StV {
                        env: EnvV { frames: st2.env.frames, current: saved },
                        out: st2.out,
                    };
                    match br {
                        Ok(()) => (restored, Ok(ExprV::Null)),
                        Err(ErrV::ReturnStmt(v)) => (restored, Ok(v)),
                        Err(err) => (restored, Err(err)),
                    }
                }
            },
        }
    }
}

/// Executes one statement; see the arms for the language's rules.
#[verifier::opaque]
pub open spec fn sem_stmt(st: StV, s: StmtV, fuel: u64) -> (StV, Result<(), ErrV>)
    decreases fuel, s, 0int,
{
    match s {
        StmtV::Declaration(d) => {
            let (st2, vr) = sem_expr(st, d.val, fuel);
            match vr {
                Err(err) => (st2, Err(err)),
                Ok(v) => {
                    let v2 = match v {
                        ExprV::Func(f) => {
                            if f.closure is None {
                                ExprV::Func(
                                    FuncV {
                                        instructions: f.instructions,
                                        args: f.args,
                                        closure: Some(st2.env.current as usize),
                                    },
                                )
                            } else {
                                ExprV::Func(f)
                            }
                        },
                        other => other,
                    };
                    (
                        StV { env: env_define(st2.env, d.ident, v2), out: st2.out },
                        Ok(()),
                    )
                },
            }
        },
        StmtV::Assignment(d) => {
            let (st2, vr) = sem_expr(st, d.val, fuel);
            match vr {
                Err(err) => (st2, Err(err)),
                Ok(v) => {
                    match env_resolve(st2.env, st2.env.current, d.ident) {
                        Some(g) => (
                            StV { env: env_update_at(st2.env, g, d.ident, v), out: st2.out },
                            Ok(()),
                        ),
                        None => (
                            st2,
                            Err(ErrV::RuntimeErr(RuntimeErrV::UndefinedVar(d.ident))),
                        ),
                    }
                },
            }
        },
        StmtV::Print(e) => {
            let (st2, vr) = sem_expr(st, e, fuel);
            match vr {
                Err(err) => (st2, Err(err)),
                Ok(v) => (StV { env: st2.env, out: st2.out.push(disp_v(v)) }, Ok(())),
            }
        },
        StmtV::Expr(e) => {
            let (st2, vr) = sem_expr(st, e, fuel);
            match vr {
                Err(err) => (st2, Err(err)),
                Ok(_) => (st2, Ok(())),
            }
        },
        StmtV::Block(ss) => {
            if st.env.frames.len() >= usize::MAX || !(0 <= st.env.current
                < st.env.frames.len()) {
                (st, Err(ErrV::RuntimeErr(RuntimeErrV::RecursionLimit)))
            } else {
                let saved = st.env.current;
                let pushed = env_push(st.env);
                let parented = EnvV {
                    frames: pushed.frames.update(
                        pushed.current,
                        FrameV { vals: Seq::empty(), parent: Some(saved as usize) },
                    ),
                    current: pushed.current,
                };
                let (st2, br) = sem_block_items(StV { env: parented, out: st.out }, ss, fuel);
                let restored = StV {
                    env: EnvV { frames: st2.env.frames, current: saved },
                    out: st2.out,
                };
                (restored, br)
            }
        },
        StmtV::If(c, t, els) => {
            let (st2, vr) = sem_expr(st, c, fuel);
            match vr {
                Err(err) => (st2, Err(err)),
                Ok(v) => {
                    match v {
                        ExprV::Bool(b) => {
                            if b {
                                sem_stmt(st2, *t, fuel)
                            } else {
                                match els {
                                    Some(s2) => sem_stmt(st2, *s2, fuel),
                                    None => (st2, Ok(())),
                                }
                            }
                        },
                        other => (st2, Err(ErrV::RuntimeErr(RuntimeErrV::InvalidExpr(other)))),
                    }
                },
            }
        },
        StmtV::While(c, body) => {
            let (st2, vr) = sem_expr(st, c, fuel);
            match vr {
                Err(err) => (st2, Err(err)),
                Ok(v) => {
                    match spec_bool_of(v) {
                        Err(pe) => (st2, Err(ErrV::ParserError(pe))),
                        Ok(b) => {
                            if !b {
                                (st2, Ok(()))
                            } else {
                                let (st3, br) = sem_stmt(st2, *body, fuel);
                                match br {
                                    Err(err) => (st3, Err(err)),
                                    Ok(()) => {
                                        if fuel == 0 {
                                            (
                                                st3,
                                                Err(ErrV::RuntimeErr(
                                                    RuntimeErrV::RecursionLimit,
                                                )),
                                            )
                                        } else {
                                            sem_stmt(st3, s, (fuel - 1) as u64)
                                        }
                                    },
                                }
                            }
                        },
                    }
                },
            }
        },
        StmtV::Return(e) => {
            let (st2, vr) = sem_expr(st, e, fuel);
            match vr {
                Err(err) => (st2, Err(err)),
                Ok(v) => (st2, Err(ErrV::ReturnStmt(v))),
            }
        },
    }
}

/// Executes the statements of a block in order.
#[verifier::opaque]
pub open spec fn sem_block_items(st: StV, ss: Seq<StmtV>, fuel: u64) -> (StV, Result<(), ErrV>)
    decreases fuel, ss, 1int,
{
    if ss.len() == 0 {
        (st, Ok(()))
    } else {
        let (st2, r) = sem_stmt(st, ss[0], fuel);
        match r {
            Err(err) => (st2, Err(err)),
            Ok(()) => sem_block_items(st2, ss.drop_first(), fuel),
        }
    }
}

/// Runs a whole program: every top-level statement in order, each with
/// the full fuel budget. A return signal reaching the top level,
/// outside any function, is converted to a runtime error.
#[verifier::opaque]
pub open spec fn sem_program(st: StV, ss: Seq<StmtV>, fuel: u64) -> (StV, Result<(), ErrV>)
    decreases ss.len(),
{
    if ss.len() == 0 {
        (st, Ok(()))
    } else {
        let (st2, r) = sem_stmt(st, ss[0], fuel);
        match r {
            Err(ErrV::ReturnStmt(v)) => (
                st2,
                Err(ErrV::RuntimeErr(RuntimeErrV::TopLevelReturn(v))),
            ),
            Err(err) => (st2, Err(err)),
            Ok(()) => sem_program(st2, ss.drop_first(), fuel),
        }
    }
}

/// Arity is checked at every call: when the callee evaluates to a
/// function and the evaluated arguments are fewer or more than its
/// parameters, the call reports the mismatch (for a zero-parameter
/// function called with one argument as much as for any other
/// mismatch), and the state is exactly what evaluating callee and
/// arguments left behind.
pub proof fn lemma_call_arity_checked(
    st: StV,
    callee: ExprV,
    args: Seq<ExprV>,
    f: FuncV,
    vals: Seq<ExprV>,
    fuel: u64,
)
    requires
        sem_expr(st, callee, fuel).1 == Ok::<ExprV, ErrV>(ExprV::Func(f)),
        sem_args(sem_expr(st, callee, fuel).0, args, fuel).1 == Ok::<Seq<ExprV>, ErrV>(vals),
        vals.len() != f.args.len(),
    ensures
        sem_expr(st, ExprV::Funcall(Box::new(callee), args), fuel) == (
            sem_args(sem_expr(st, callee, fuel).0, args, fuel).0,
            Err::<ExprV, ErrV>(ErrV::RuntimeErr(RuntimeErrV::BadArgLength(
                f.args.len() as usize,
                vals.len() as usize,
            ))),
        ),
{
    reveal_with_fuel(sem_expr, 2);
    reveal(sem_args);
}

/// Lexical scoping of calls: a function body runs in a fresh frame
/// whose parent is the function's captured closure frame — never the
/// caller's current frame — with the parameters bound in it. Every
/// frame the body's execution created or changed persists in the
/// result, and the caller's current frame is restored whatever the
/// outcome. Mutations the body makes to the captured frame therefore
/// outlive the call: that is what makes a counter captured by a
/// closure advance across calls.
pub proof fn lemma_call_lexical_scope(st: StV, f: FuncV, vals: Seq<ExprV>, c: usize, fuel: u64)
    requires
        fuel > 0,
        f.closure == Some(c),
        (c as int) < st.env.frames.len(),
        st.env.frames.len() < usize::MAX,
    ensures
        ({
            let pushed = env_push(st.env);
            let entered = StV {
                env: bind_params(
                    EnvV {
                        frames: pushed.frames.update(
                            pushed.current,
                            FrameV { vals: Seq::empty(), parent: Some(c) },
                        ),
                        current: pushed.current,
                    },
                    f.args,
                    vals,
                    0,
                ),
                out: st.out,
            };
            let (st2, br) = sem_stmt(entered, *f.instructions, (fuel - 1) as u64);
            sem_call(st, f, vals, fuel) == (
                StV {
                    env: EnvV { frames: st2.env.frames, current: st.env.current },
                    out: st2.out,
                },
                match br {
                    Ok(()) => Ok::<ExprV, ErrV>(ExprV::Null),
                    Err(ErrV::ReturnStmt(v)) => Ok::<ExprV, ErrV>(v),
                    Err(err) => Err::<ExprV, ErrV>(err),
                },
            )
        }),
{
    reveal_with_fuel(sem_call, 2);
    reveal(sem_stmt);
}

/// The tree-walking interpreter: the program, the environment arena,
/// and the print output collected line by line.
pub struct Interpreter {
    pub instructions: Vec<Stmt>,
    pub env: Env,
    pub output: Vec<String>,
}

impl Interpreter {
    /// The spec-level state of this interpreter.
    pub open spec fn state(&self) -> StV {
        StV { env: self.env.deep_view(), out: self.output.deep_view() }
    }

    /// Builds an interpreter over a statement list, with an empty root
    /// environment and no output.
    pub fn new(instructions: Vec<Stmt>) -> (r: Interpreter)
        ensures
            env_wf(r.state().env),
            r.instructions == instructions,
            r.state().out == Seq::<Seq<char>>::empty(),
            r.state().env.frames.len() == 1,
            r.state().env.frames[0].vals == Seq::<(Seq<char>, ExprV)>::empty(),
            r.state().env.frames[0].parent is None,
            r.state().env.current == 0,
    {
        let r = Interpreter { instructions, env: Env::new(), output: Vec::new() };
        proof {
            assert(r.output.deep_view() =~= Seq::<Seq<char>>::empty());
        }
        r
    }

    /// Defines a variable in the current environment frame.
    pub fn define_var(&mut self, k: String, v: Expr)
        requires
            env_wf(old(self).state().env),
        ensures
            env_wf(final(self).state().env),
            final(self).instructions == old(self).instructions,
            final(self).state().env == env_define(old(self).state().env, k@, view_expr(v)),
            final(self).state().out == old(self).state().out,
    {
        self.env.define(k, v);
    }
}

impl Interpreter {
    /// Evaluates an expression; see [`sem_expr`].
    #[verifier::rlimit(100)]
    #[verifier::spinoff_prover]
    fn visit_expr(&mut self, e: &Expr, fuel: u64) -> (r: Result<Expr, InterpErr>)
        requires
            env_wf(old(self).state().env),
        ensures
            env_wf(final(self).state().env),
            final(self).instructions == old(self).instructions,
            old(self).state().env.frames.len() <= final(self).state().env.frames.len(),
            (final(self).state(), eres(r)) == sem_expr(old(self).state(), view_expr(*e), fuel),
        decreases fuel, *e, 1int,
    {
        match e {
            Expr::Var(_) => self.visit_var_expr(e, fuel),
            Expr::Bin(_) => self.visit_bin_expr(e, fuel),
            Expr::Unary(_, _) => self.visit_unary_expr(e, fuel),
            Expr::Funcall(_, _) => self.visit_funcall_expr(e, fuel),
            _ => {
                proof {
                    reveal(sem_expr);
                    reveal_with_fuel(crate::expr::view_expr, 3);
                }
                Ok(e.dup())
            },
        }
    }

    /// The variable arm of [`sem_expr`]: resolution in the environment.
    #[verifier::rlimit(100)]
    #[verifier::spinoff_prover]
    fn visit_var_expr(&mut self, e: &Expr, fuel: u64) -> (r: Result<Expr, InterpErr>)
        requires
            env_wf(old(self).state().env),
            *e matches Expr::Var(_),
        ensures
            env_wf(final(self).state().env),
            final(self).instructions == old(self).instructions,
            old(self).state().env.frames.len() <= final(self).state().env.frames.len(),
            (final(self).state(), eres(r)) == sem_expr(old(self).state(), view_expr(*e), fuel),
        decreases fuel, *e, 0int,
    {
        proof {
            reveal(sem_expr);
            reveal_with_fuel(crate::expr::view_expr, 3);
        }
        match e {
            Expr::Var(name) => {
                match self.env.get(name.as_str()) {
                    Ok(v) => Ok(v),
                    Err(err) => Err(InterpErr::RuntimeErr(err)),
                }
            },
            _ => unreached(),
        }
    }

    /// The binary arm of [`sem_expr`]: both operands, left first, then
    /// the operator on the values.
    #[verifier::rlimit(100)]
    #[verifier::spinoff_prover]
    fn visit_bin_expr(&mut self, e: &Expr, fuel: u64) -> (r: Result<Expr, InterpErr>)
        requires
            env_wf(old(self).state().env),
            *e matches Expr::Bin(_),
        ensures
            env_wf(final(self).state().env),
            final(self).instructions == old(self).instructions,
            old(self).state().env.frames.len() <= final(self).state().env.frames.len(),
            (final(self).state(), eres(r)) == sem_expr(old(self).state(), view_expr(*e), fuel),
        decreases fuel, *e, 0int,
    {
        proof {
            reveal(sem_expr);
            reveal_with_fuel(crate::expr::view_expr, 3);
        }
        match e {
            Expr::Bin(b) => {
                match self.visit_expr(&b.lhs, fuel) {
                    Err(err) => Err(err),
                    Ok(l) => {
                        match self.visit_expr(&b.rhs, fuel) {
                            Err(err) => Err(err),
                            Ok(rv) => {
                                let combined = BinExpr {
                                    lhs: Box::new(l),
                                    rhs: Box::new(rv),
                                    op: b.op,
                                };
                                match combined.eval() {
                                    Ok(v) => Ok(v),
                                    Err(pe) => Err(InterpErr::ParserError(pe)),
                                }
                            },
                        }
                    },
                }
            },
            _ => unreached(),
        }
    }

    /// The unary arm of [`sem_expr`]: the operand coerced to a boolean
    /// and negated.
    #[verifier::rlimit(100)]
    #[verifier::spinoff_prover]
    fn visit_unary_expr(&mut self, e: &Expr, fuel: u64) -> (r: Result<Expr, InterpErr>)
        requires
            env_wf(old(self).state().env),
            *e matches Expr::Unary(_, _),
        ensures
            env_wf(final(self).state().env),
            final(self).instructions == old(self).instructions,
            old(self).state().env.frames.len() <= final(self).state().env.frames.len(),
            (final(self).state(), eres(r)) == sem_expr(old(self).state(), view_expr(*e), fuel),
        decreases fuel, *e, 0int,
    {
        proof {
            reveal(sem_expr);
            reveal_with_fuel(crate::expr::view_expr, 3);
        }
        match e {
            Expr::Unary(op, e1) => {
                match self.visit_expr(e1, fuel) {
                    Err(err) => Err(err),
                    Ok(v) => {
                        if *op == crate::lexer::op::UnOp::Bang {
                            match v.to_bool() {
                                Ok(b) => Ok(Expr::Bool(!b)),
                                Err(pe) => Err(InterpErr::ParserError(pe)),
                            }
                        } else {
                            Err(InterpErr::ParserError(crate::parser::err::ParserError::ExprError(
                                crate::expr::ExprError::InvalidUnaryOperation,
                            )))
                        }
                    },
                }
            },
            _ => unreached(),
        }
    }

    /// The call arm of [`sem_expr`]: the callee must be a function
    /// value, the arguments evaluate left to right, the arity is
    /// checked, and the function runs.
    #[verifier::rlimit(100)]
    #[verifier::spinoff_prover]
    fn visit_funcall_expr(&mut self, e: &Expr, fuel: u64) -> (r: Result<Expr, InterpErr>)
        requires
            env_wf(old(self).state().env),
            *e matches Expr::Funcall(_, _),
        ensures
            env_wf(final(self).state().env),
            final(self).instructions == old(self).instructions,
            old(self).state().env.frames.len() <= final(self).state().env.frames.len(),
            (final(self).state(), eres(r)) == sem_expr(old(self).state(), view_expr(*e), fuel),
        decreases fuel, *e, 0int,
    {
        proof {
            reveal(sem_expr);
            reveal(sem_args);
            reveal(sem_call);
            reveal_with_fuel(crate::expr::view_expr, 3);
        }
        let ghost st0 = old(self).state();
        let ghost ev = view_expr(*e);
        match e {
            Expr::Funcall(callee, args) => {
                match self.visit_expr(callee, fuel) {
                    Err(err) => Err(err),
                    Ok(cv) => {
                        let ghost st2g = self.state();
                        let ghost cvv = view_expr(cv);
                        proof {
                            assert(sem_expr(st0, view_expr(**callee), fuel) == (st2g, Ok::<
                                ExprV,
                                ErrV,
                            >(cvv)));
                        }
                        match cv {
                            Expr::Func(f) => {
                                proof {
                                    assert(cvv == ExprV::Func(f@));
                                    assert(decreases_to!(*e => *args));
                                    assert(args@.subrange(0, args@.len() as int) =~= args@);
                                    crate::expr::lemma_view_exprs_len(args@);
                                    assert(view_exprs(args@).subrange(0, args@.len() as int)
                                        =~= view_exprs(args@));
                                }
                                match self.visit_args(args, 0, fuel) {
                                    Err(err) => Err(err),
                                    Ok(vals) => {
                                        let ghost st3g = self.state();
                                        let ghost valsv = view_exprs(vals@);
                                        proof {
                                            crate::expr::lemma_view_exprs_len(vals@);
                                            assert(sem_args(st2g, view_exprs(args@), fuel) == (
                                                st3g,
                                                Ok::<Seq<ExprV>, ErrV>(valsv),
                                            ));
                                        }
                                        if vals.len() != f.arg_len() {
                                            proof {
                                                assert(sem_expr(st0, ev, fuel) == (
                                                    st3g,
                                                    Err::<ExprV, ErrV>(ErrV::RuntimeErr(
                                                        RuntimeErrV::BadArgLength(
                                                            f@.args.len() as usize,
                                                            valsv.len() as usize,
                                                        ),
                                                    )),
                                                ));
                                                assert(f@.args.len() as usize == f.args@.len());
                                                assert(valsv.len() as usize == vals@.len());
                                            }
                                            Err(InterpErr::RuntimeErr(RuntimeErr::BadArgLength(
                                                f.args.len(),
                                                vals.len(),
                                            )))
                                        } else if fuel == 0 {
                                            proof {
                                                assert(sem_expr(st0, ev, fuel) == (
                                                    st3g,
                                                    Err::<ExprV, ErrV>(ErrV::RuntimeErr(
                                                        RuntimeErrV::RecursionLimit,
                                                    )),
                                                ));
                                            }
                                            Err(InterpErr::RuntimeErr(RuntimeErr::RecursionLimit))
                                        } else {
                                            proof {
                                                assert(sem_expr(st0, ev, fuel) == sem_call(
                                                    st3g,
                                                    f@,
                                                    valsv,
                                                    (fuel - 1) as u64,
                                                ));
                                            }
                                            self.exec_call(f, vals, fuel - 1)
                                        }
                                    },
                                }
                            },
                            _ => {
                                proof {
                                    assert(sem_expr(st0, ev, fuel) == (
                                        st2g,
                                        Err::<ExprV, ErrV>(ErrV::RuntimeErr(
                                            RuntimeErrV::UnexpectedType(
                                                crate::interpreter::err::LexerThingType::Func,
                                            ),
                                        )),
                                    ));
                                }
                                Err(InterpErr::RuntimeErr(RuntimeErr::UnexpectedType(
                                    crate::interpreter::err::LexerThingType::Func,
                                )))
                            },
                        }
                    },
                }
            },
            _ => unreached(),
        }
    }

    /// Evaluates the arguments of a call from index `i` on; see
    /// [`sem_args`].
    #[verifier::rlimit(100)]
    #[verifier::spinoff_prover]
    fn visit_args(&mut self, args: &Vec<Expr>, i: usize, fuel: u64) -> (r: Result<Vec<Expr>, InterpErr>)
        requires
            env_wf(old(self).state().env),
            i <= args@.len(),
        ensures
            env_wf(final(self).state().env),
            final(self).instructions == old(self).instructions,
            old(self).state().env.frames.len() <= final(self).state().env.frames.len(),
            (
                final(self).state(),
                match r {
                    Ok(v) => Ok(view_exprs(v@)),
                    Err(e) => Err::<Seq<ExprV>, ErrV>(e.deep_view()),
                },
            ) == sem_args(
                old(self).state(),
                view_exprs(args@).subrange(i as int, args@.len() as int),
                fuel,
            ),
        decreases fuel, args@.subrange(i as int, args@.len() as int), 1int,
    {
        proof {
            reveal_with_fuel(sem_args, 2);
            reveal(sem_expr);
            crate::expr::lemma_view_exprs_len(args@);
        }
        if i >= args.len() {
            let v: Vec<Expr> = Vec::new();
            proof {
                assert(view_exprs(args@).subrange(i as int, args@.len() as int) =~= Seq::<
                    ExprV,
                >::empty());
                assert(v@ =~= Seq::<Expr>::empty());
                assert(view_exprs(v@) =~= Seq::<ExprV>::empty());
            }
            return Ok(v);
        }
        proof {
            assert(decreases_to!(args@.subrange(i as int, args@.len() as int) => args@.subrange(
                i as int,
                args@.len() as int,
            )[0]));
            assert(args@.subrange(i as int, args@.len() as int)[0] == args@[i as int]);
            assert(args@.subrange(i as int, args@.len() as int).drop_first() =~= args@.subrange(
                i + 1,
                args@.len() as int,
            ));
            assert(view_exprs(args@).subrange(i as int, args@.len() as int)[0] == view_exprs(
                args@,
            )[i as int]);
            assert(view_exprs(args@).subrange(i as int, args@.len() as int).drop_first()
                =~= view_exprs(args@).subrange(i + 1, args@.len() as int));
        }
        match self.visit_expr(&args[i], fuel) {
            Err(err) => Err(err),
            Ok(v) => {
                match self.visit_args(args, i + 1, fuel) {
                    Err(err) => Err(err),
                    Ok(mut rest) => {
                        let ghost vv = view_expr(v);
                        let ghost restv = rest@;
                        rest.insert(0, v);
                        proof {
                            crate::expr::lemma_view_exprs_len(rest@);
                            crate::expr::lemma_view_exprs_len(restv);
                            assert(view_exprs(rest@) =~= seq![vv] + view_exprs(restv));
                        }
                        Ok(rest)
                    },
                }
            },
        }
    }

    /// Invokes a function value; see [`sem_call`].
    #[verifier::rlimit(100)]
    #[verifier::spinoff_prover]
    fn exec_call(&mut self, f: Func, vals: Vec<Expr>, fuel: u64) -> (r: Result<Expr, InterpErr>)
        requires
            env_wf(old(self).state().env),
        ensures
            env_wf(final(self).state().env),
            final(self).instructions == old(self).instructions,
            old(self).state().env.frames.len() <= final(self).state().env.frames.len(),
            (final(self).state(), eres(r)) == sem_call(
                old(self).state(),
                f@,
                view_exprs(vals@),
                fuel,
            ),
        decreases fuel, f.instructions, 0int,
    {
        proof {
            reveal_with_fuel(sem_call, 2);
            reveal(sem_stmt);
            reveal_with_fuel(crate::expr::view_expr, 3);
        }
        if fuel == 0 {
            return Err(InterpErr::RuntimeErr(RuntimeErr::RecursionLimit));
        }
        let c = match f.closure {
            None => {
                return Err(InterpErr::RuntimeErr(RuntimeErr::InvalidExpr(Expr::Func(f))));
            },
            Some(c) => c,
        };
        if c >= self.env.frames.len() || self.env.frames.len() >= usize::MAX {
            proof {
                crate::interpreter::env::lemma_view_frames(self.env.frames@);
            }
            return Err(InterpErr::RuntimeErr(RuntimeErr::InvalidExpr(Expr::Func(f))));
        }
        proof {
            crate::interpreter::env::lemma_view_frames(self.env.frames@);
        }
        let saved = self.env.current_frame();
        let new_frame = self.env.push_frame();
        self.env.set_parent(c);
        let ghost parented = self.env.deep_view();
        let n = f.args.len();
        let mut j: usize = 0;
        while j < n
            invariant
                env_wf(self.env.deep_view()),
                n == f.args@.len(),
                j <= n,
                self.instructions == old(self).instructions,
                self.output.deep_view() == old(self).output.deep_view(),
                old(self).state().env.frames.len() <= self.env.deep_view().frames.len(),
                bind_params(parented, f@.args, view_exprs(vals@), 0) == bind_params(
                    self.env.deep_view(),
                    f@.args,
                    view_exprs(vals@),
                    j as int,
                ),
            decreases n - j,
        {
            proof {
                crate::expr::lemma_view_exprs_len(vals@);
            }
            let name = f.args[j].clone();
            let v = if j < vals.len() {
                vals[j].dup()
            } else {
                Expr::Null
            };
            self.env.define(name, v);
            j = j + 1;
        }
        proof {
            crate::expr::lemma_view_exprs_len(vals@);
            assert(bind_params(parented, f@.args, view_exprs(vals@), 0) == self.env.deep_view());
        }
        let body_r = self.exec_stmt_at(&f.instructions, fuel - 1);
        proof {
            crate::interpreter::env::lemma_view_frames(self.env.frames@);
        }
        self.env.restore(saved);
        match body_r {
            Ok(()) => Ok(Expr::Null),
            Err(e) => match e {
                InterpErr::ReturnStmt(v) => Ok(v),
                other => Err(other),
            },
        }
    }

    /// Executes one statement with an explicit fuel budget; see
    /// [`sem_stmt`].
    #[verifier::rlimit(100)]
    #[verifier::spinoff_prover]
    fn exec_stmt_at(&mut self, s: &Stmt, fuel: u64) -> (r: Result<(), InterpErr>)
        requires
            env_wf(old(self).state().env),
        ensures
            env_wf(final(self).state().env),
            final(self).instructions == old(self).instructions,
            old(self).state().env.frames.len() <= final(self).state().env.frames.len(),
            (final(self).state(), ures(r)) == sem_stmt(
                old(self).state(),
                crate::expr::view_stmt(*s),
                fuel,
            ),
        decreases fuel, *s, 1int,
    {
        match s {
            Stmt::Declaration(_) => self.exec_declaration_stmt(s, fuel),
            Stmt::Assignment(_) => self.exec_assignment_stmt(s, fuel),
            Stmt::Print(_) => self.exec_print_stmt(s, fuel),
            Stmt::Expr(_) => self.exec_expr_stmt(s, fuel),
            Stmt::Block(_) => self.exec_block_stmt(s, fuel),
            Stmt::If(_, _, _) => self.exec_if_stmt(s, fuel),
            Stmt::While(_, _) => self.exec_while_stmt(s, fuel),
            Stmt::Return(_) => self.exec_return_stmt(s, fuel),
        }
    }

    /// The declaration arm of [`sem_stmt`]: the value is evaluated, an
    /// unbound function literal captures the current frame, and the
    /// name is bound in the current frame.
    #[verifier::rlimit(100)]
    #[verifier::spinoff_prover]
    fn exec_declaration_stmt(&mut self, s: &Stmt, fuel: u64) -> (r: Result<(), InterpErr>)
        requires
            env_wf(old(self).state().env),
            *s matches Stmt::Declaration(_),
        ensures
            env_wf(final(self).state().env),
            final(self).instructions == old(self).instructions,
            old(self).state().env.frames.len() <= final(self).state().env.frames.len(),
            (final(self).state(), ures(r)) == sem_stmt(
                old(self).state(),
                crate::expr::view_stmt(*s),
                fuel,
            ),
        decreases fuel, *s, 0int,
    {
        proof {
            reveal(sem_stmt);
            reveal_with_fuel(crate::expr::view_stmt, 3);
            reveal_with_fuel(crate::expr::view_expr, 3);
        }
        match s {
            Stmt::Declaration(d) => {
                match self.visit_expr(&d.val, fuel) {
                    Err(err) => Err(err),
                    Ok(v) => {
                        let v2 = match v {
                            Expr::Func(mut fv) => {
                                if fv.closure.is_none() {
                                    fv.closure = Some(self.env.current_frame());
                                }
                                Expr::Func(fv)
                            },
                            other => other,
                        };
                        self.env.define(d.ident.clone(), v2);
                        Ok(())
                    },
                }
            },
            _ => unreached(),
        }
    }

    /// The assignment arm of [`sem_stmt`]: the value is evaluated and
    /// an existing binding, found by walking parents, is overwritten.
    #[verifier::rlimit(100)]
    #[verifier::spinoff_prover]
    fn exec_assignment_stmt(&mut self, s: &Stmt, fuel: u64) -> (r: Result<(), InterpErr>)
        requires
            env_wf(old(self).state().env),
            *s matches Stmt::Assignment(_),
        ensures
            env_wf(final(self).state().env),
            final(self).instructions == old(self).instructions,
            old(self).state().env.frames.len() <= final(self).state().env.frames.len(),
            (final(self).state(), ures(r)) == sem_stmt(
                old(self).state(),
                crate::expr::view_stmt(*s),
                fuel,
            ),
        decreases fuel, *s, 0int,
    {
        proof {
            reveal(sem_stmt);
            reveal_with_fuel(crate::expr::view_stmt, 3);
        }
        match s {
            Stmt::Assignment(d) => {
                match self.visit_expr(&d.val, fuel) {
                    Err(err) => Err(err),
                    Ok(v) => {
                        let ghost mid = self.state();
                        let key = d.ident.clone();
                        let assigned = self.env.assign(key, v);
                        proof {
                            assert(mid.env.frames.len() <= self.state().env.frames.len());
                        }
                        match assigned {
                            Ok(()) => Ok(()),
                            Err(re) => Err(InterpErr::RuntimeErr(re)),
                        }
                    },
                }
            },
            _ => unreached(),
        }
    }

    /// The print arm of [`sem_stmt`]: the value's display form joins
    /// the output.
    #[verifier::rlimit(100)]
    #[verifier::spinoff_prover]
    fn exec_print_stmt(&mut self, s: &Stmt, fuel: u64) -> (r: Result<(), InterpErr>)
        requires
            env_wf(old(self).state().env),
            *s matches Stmt::Print(_),
        ensures
            env_wf(final(self).state().env),
            final(self).instructions == old(self).instructions,
            old(self).state().env.frames.len() <= final(self).state().env.frames.len(),
            (final(self).state(), ures(r)) == sem_stmt(
                old(self).state(),
                crate::expr::view_stmt(*s),
                fuel,
            ),
        decreases fuel, *s, 0int,
    {
        proof {
            reveal(sem_stmt);
            reveal_with_fuel(crate::expr::view_stmt, 3);
        }
        match s {
            Stmt::Print(e) => {
                match self.visit_expr(e, fuel) {
                    Err(err) => Err(err),
                    Ok(v) => {
                        let line = v.display_form();
                        let ghost outv = self.output.deep_view();
                        self.output.push(line);
                        proof {
                            assert(self.output.deep_view() =~= outv.push(disp_v(view_expr(v))));
                        }
                        Ok(())
                    },
                }
            },
            _ => unreached(),
        }
    }

    /// The expression-statement arm of [`sem_stmt`]: evaluated, value
    /// discarded.
    #[verifier::rlimit(100)]
    #[verifier::spinoff_prover]
    fn exec_expr_stmt(&mut self, s: &Stmt, fuel: u64) -> (r: Result<(), InterpErr>)
        requires
            env_wf(old(self).state().env),
            *s matches Stmt::Expr(_),
        ensures
            env_wf(final(self).state().env),
            final(self).instructions == old(self).instructions,
            old(self).state().env.frames.len() <= final(self).state().env.frames.len(),
            (final(self).state(), ures(r)) == sem_stmt(
                old(self).state(),
                crate::expr::view_stmt(*s),
                fuel,
            ),
        decreases fuel, *s, 0int,
    {
        proof {
            reveal(sem_stmt);
            reveal_with_fuel(crate::expr::view_stmt, 3);
        }
        match s {
            Stmt::Expr(e) => {
                match self.visit_expr(e, fuel) {
                    Err(err) => Err(err),
                    Ok(_) => Ok(()),
                }
            },
            _ => unreached(),
        }
    }

    /// The block arm of [`sem_stmt`]: a fresh frame parented at the
    /// current one, the items in order, the old frame restored on every
    /// outcome.
    #[verifier::rlimit(100)]
    #[verifier::spinoff_prover]
    fn exec_block_stmt(&mut self, s: &Stmt, fuel: u64) -> (r: Result<(), InterpErr>)
        requires
            env_wf(old(self).state().env),
            *s matches Stmt::Block(_),
        ensures
            env_wf(final(self).state().env),
            final(self).instructions == old(self).instructions,
            old(self).state().env.frames.len() <= final(self).state().env.frames.len(),
            (final(self).state(), ures(r)) == sem_stmt(
                old(self).state(),
                crate::expr::view_stmt(*s),
                fuel,
            ),
        decreases fuel, *s, 0int,
    {
        proof {
            reveal(sem_stmt);
            reveal(sem_block_items);
            reveal_with_fuel(crate::expr::view_stmt, 3);
        }
        let ghost st0 = old(self).state();
        match s {
            Stmt::Block(stmts) => {
                if self.env.frames.len() >= usize::MAX {
                    proof {
                        crate::interpreter::env::lemma_view_frames(self.env.frames@);
                    }
                    return Err(InterpErr::RuntimeErr(RuntimeErr::RecursionLimit));
                }
                proof {
                    crate::interpreter::env::lemma_view_frames(self.env.frames@);
                }
                let saved = self.env.current_frame();
                let _new_frame = self.env.push_frame();
                self.env.set_parent(saved);
                proof {
                    let pushed = env_push(st0.env);
                    assert(self.env.deep_view() =~= EnvV {
                        frames: pushed.frames.update(
                            pushed.current,
                            FrameV { vals: Seq::empty(), parent: Some(saved) },
                        ),
                        current: pushed.current,
                    });
                    assert(self.state() =~= StV {
                        env: EnvV {
                            frames: pushed.frames.update(
                                pushed.current,
                                FrameV { vals: Seq::empty(), parent: Some(saved) },
                            ),
                            current: pushed.current,
                        },
                        out: st0.out,
                    });
                    assert(decreases_to!(*s => *stmts));
                    assert(stmts@.subrange(0, stmts@.len() as int) =~= stmts@);
                    crate::expr::lemma_view_stmts_len(stmts@);
                    assert(view_stmts(stmts@).subrange(0, stmts@.len() as int) =~= view_stmts(
                        stmts@,
                    ));
                }
                let ghost entered = self.state();
                proof {
                    assert(st0.env.frames.len() < entered.env.frames.len());
                }
                let items_r = self.exec_block_items(stmts, 0, fuel);
                let ghost st2g = self.state();
                proof {
                    assert(entered.env.frames.len() <= st2g.env.frames.len());
                    crate::interpreter::env::lemma_view_frames(self.env.frames@);
                }
                self.env.restore(saved);
                proof {
                    assert(self.state() =~= StV {
                        env: EnvV { frames: st2g.env.frames, current: saved as int },
                        out: st2g.out,
                    });
                    assert(st0.env.frames.len() <= self.state().env.frames.len());
                }
                items_r
            },
            _ => unreached(),
        }
    }

    /// The conditional arm of [`sem_stmt`]: the condition must be a
    /// boolean and picks the branch.
    #[verifier::rlimit(100)]
    #[verifier::spinoff_prover]
    fn exec_if_stmt(&mut self, s: &Stmt, fuel: u64) -> (r: Result<(), InterpErr>)
        requires
            env_wf(old(self).state().env),
            *s matches Stmt::If(_, _, _),
        ensures
            env_wf(final(self).state().env),
            final(self).instructions == old(self).instructions,
            old(self).state().env.frames.len() <= final(self).state().env.frames.len(),
            (final(self).state(), ures(r)) == sem_stmt(
                old(self).state(),
                crate::expr::view_stmt(*s),
                fuel,
            ),
        decreases fuel, *s, 0int,
    {
        proof {
            reveal(sem_stmt);
            reveal_with_fuel(crate::expr::view_stmt, 3);
        }
        match s {
            Stmt::If(c, t, els) => {
                match self.visit_expr(c, fuel) {
                    Err(err) => Err(err),
                    Ok(v) => {
                        match v {
                            Expr::Bool(b) => {
                                if b {
                                    self.exec_stmt_at(t, fuel)
                                } else {
                                    match els {
                                        Some(s2) => self.exec_stmt_at(s2, fuel),
                                        None => Ok(()),
                                    }
                                }
                            },
                            other => Err(InterpErr::RuntimeErr(RuntimeErr::InvalidExpr(other))),
                        }
                    },
                }
            },
            _ => unreached(),
        }
    }

    /// The loop arm of [`sem_stmt`]: the condition coerces to a
    /// boolean; while it holds, the body runs and the loop statement
    /// repeats on one unit less fuel.
    #[verifier::rlimit(100)]
    #[verifier::spinoff_prover]
    fn exec_while_stmt(&mut self, s: &Stmt, fuel: u64) -> (r: Result<(), InterpErr>)
        requires
            env_wf(old(self).state().env),
            *s matches Stmt::While(_, _),
        ensures
            env_wf(final(self).state().env),
            final(self).instructions == old(self).instructions,
            old(self).state().env.frames.len() <= final(self).state().env.frames.len(),
            (final(self).state(), ures(r)) == sem_stmt(
                old(self).state(),
                crate::expr::view_stmt(*s),
                fuel,
            ),
        decreases fuel, *s, 0int,
    {
        proof {
            reveal_with_fuel(sem_stmt, 2);
            reveal_with_fuel(crate::expr::view_stmt, 3);
        }
        match s {
            Stmt::While(c, body) => {
                match self.visit_expr(c, fuel) {
                    Err(err) => Err(err),
                    Ok(v) => {
                        match v.to_bool() {
                            Err(pe) => Err(InterpErr::ParserError(pe)),
                            Ok(b) => {
                                if !b {
                                    Ok(())
                                } else {
                                    match self.exec_stmt_at(body, fuel) {
                                        Err(err) => Err(err),
                                        Ok(()) => {
                                            if fuel == 0 {
                                                Err(InterpErr::RuntimeErr(
                                                    RuntimeErr::RecursionLimit,
                                                ))
                                            } else {
                                                self.exec_stmt_at(s, fuel - 1)
                                            }
                                        },
                                    }
                                }
                            },
                        }
                    },
                }
            },
            _ => unreached(),
        }
    }

    /// The return arm of [`sem_stmt`]: the value rides the error
    /// channel up to the invocation boundary.
    #[verifier::rlimit(100)]
    #[verifier::spinoff_prover]
    fn exec_return_stmt(&mut self, s: &Stmt, fuel: u64) -> (r: Result<(), InterpErr>)
        requires
            env_wf(old(self).state().env),
            *s matches Stmt::Return(_),
        ensures
            env_wf(final(self).state().env),
            final(self).instructions == old(self).instructions,
            old(self).state().env.frames.len() <= final(self).state().env.frames.len(),
            (final(self).state(), ures(r)) == sem_stmt(
                old(self).state(),
                crate::expr::view_stmt(*s),
                fuel,
            ),
        decreases fuel, *s, 0int,
    {
        proof {
            reveal(sem_stmt);
            reveal_with_fuel(crate::expr::view_stmt, 3);
        }
        match s {
            Stmt::Return(e) => {
                match self.visit_expr(e, fuel) {
                    Err(err) => Err(err),
                    Ok(v) => Err(InterpErr::ReturnStmt(v)),
                }
            },
            _ => unreached(),
        }
    }

    /// Executes the statements of a block from index `i` on; see
    /// [`sem_block_items`].
    #[verifier::rlimit(100)]
    #[verifier::spinoff_prover]
    fn exec_block_items(&mut self, stmts: &Vec<Stmt>, i: usize, fuel: u64) -> (r: Result<(), InterpErr>)
        requires
            env_wf(old(self).state().env),
            i <= stmts@.len(),
        ensures
            env_wf(final(self).state().env),
            final(self).instructions == old(self).instructions,
            old(self).state().env.frames.len() <= final(self).state().env.frames.len(),
            (final(self).state(), ures(r)) == sem_block_items(
                old(self).state(),
                view_stmts(stmts@).subrange(i as int, stmts@.len() as int),
                fuel,
            ),
        decreases fuel, stmts@.subrange(i as int, stmts@.len() as int), 1int,
    {
        proof {
            reveal_with_fuel(sem_block_items, 2);
            reveal(sem_stmt);
            crate::expr::lemma_view_stmts_len(stmts@);
        }
        if i >= stmts.len() {
            proof {
                assert(view_stmts(stmts@).subrange(i as int, stmts@.len() as int) =~= Seq::<
                    StmtV,
                >::empty());
            }
            return Ok(());
        }
        proof {
            assert(stmts@.subrange(i as int, stmts@.len() as int)[0] == stmts@[i as int]);
            assert(stmts@.subrange(i as int, stmts@.len() as int).drop_first() =~= stmts@.subrange(
                i + 1,
                stmts@.len() as int,
            ));
            assert(view_stmts(stmts@).subrange(i as int, stmts@.len() as int)[0] == view_stmts(
                stmts@,
            )[i as int]);
            assert(view_stmts(stmts@).subrange(i as int, stmts@.len() as int).drop_first()
                =~= view_stmts(stmts@).subrange(i + 1, stmts@.len() as int));
        }
        match self.exec_stmt_at(&stmts[i], fuel) {
            Err(err) => Err(err),
            Ok(()) => self.exec_block_items(stmts, i + 1, fuel),
        }
    }

    /// Executes one statement with the full fuel budget; see
    /// [`sem_stmt`].
    pub fn execute_stmt(&mut self, stmt: &Stmt) -> (r: Result<(), InterpErr>)
        requires
            env_wf(old(self).state().env),
        ensures
            env_wf(final(self).state().env),
            final(self).instructions == old(self).instructions,
            (final(self).state(), ures(r)) == sem_stmt(
                old(self).state(),
                crate::expr::view_stmt(*stmt),
                FUEL_LIMIT,
            ),
    {
        self.exec_stmt_at(stmt, FUEL_LIMIT)
    }

    /// Runs the program from instruction `i` on; see [`sem_program`].
    #[verifier::rlimit(100)]
    fn run_from(&mut self, i: usize) -> (r: Result<(), InterpErr>)
        requires
            env_wf(old(self).state().env),
            i <= old(self).instructions@.len(),
        ensures
            env_wf(final(self).state().env),
            final(self).instructions == old(self).instructions,
            (final(self).state(), ures(r)) == sem_program(
                old(self).state(),
                view_stmts(old(self).instructions@).subrange(
                    i as int,
                    old(self).instructions@.len() as int,
                ),
                FUEL_LIMIT,
            ),
        decreases old(self).instructions@.len() - i,
    {
        proof {
            reveal_with_fuel(sem_program, 2);
            reveal(sem_stmt);
            crate::expr::lemma_view_stmts_len(self.instructions@);
        }
        if i >= self.instructions.len() {
            proof {
                assert(view_stmts(self.instructions@).subrange(
                    i as int,
                    self.instructions@.len() as int,
                ) =~= Seq::<StmtV>::empty());
            }
            return Ok(());
        }
        proof {
            assert(view_stmts(self.instructions@).subrange(
                i as int,
                self.instructions@.len() as int,
            )[0] == view_stmts(self.instructions@)[i as int]);
            assert(view_stmts(self.instructions@).subrange(
                i as int,
                self.instructions@.len() as int,
            ).drop_first() =~= view_stmts(self.instructions@).subrange(
                i + 1,
                self.instructions@.len() as int,
            ));
        }
        let stmt = self.instructions[i].dup();
        match self.exec_stmt_at(&stmt, FUEL_LIMIT) {
            Err(err) => match err {
                InterpErr::ReturnStmt(v) => Err(
                    InterpErr::RuntimeErr(RuntimeErr::TopLevelReturn(v)),
                ),
                other => Err(other),
            },
            Ok(()) => self.run_from(i + 1),
        }
    }

    /// Interprets the whole program; see [`sem_program`]. Printed
    /// lines accumulate in `output`; a return outside any function is a
    /// runtime error.
    pub fn interpret(&mut self) -> (r: Result<(), InterpErr>)
        requires
            env_wf(old(self).state().env),
        ensures
            env_wf(final(self).state().env),
            final(self).instructions == old(self).instructions,
            (final(self).state(), ures(r)) == sem_program(
                old(self).state(),
                view_stmts(old(self).instructions@),
                FUEL_LIMIT,
            ),
    {
        proof {
            crate::expr::lemma_view_stmts_len(self.instructions@);
            assert(view_stmts(self.instructions@).subrange(
                0,
                self.instructions@.len() as int,
            ) =~= view_stmts(self.instructions@));
        }
        self.run_from(0)
    }
}

impl Func {
    /// Invokes this function value on evaluated arguments within the
    /// given interpreter; see [`sem_call`].
    pub fn exec(self, interpreter: &mut Interpreter, args: Vec<Expr>) -> (r: Result<Expr, InterpErr>)
        requires
            env_wf(old(interpreter).state().env),
        ensures
            env_wf(final(interpreter).state().env),
            final(interpreter).instructions == old(interpreter).instructions,
            (final(interpreter).state(), eres(r)) == sem_call(
                old(interpreter).state(),
                self@,
                view_exprs(args@),
                FUEL_LIMIT,
            ),
    {
        interpreter.exec_call(self, args, FUEL_LIMIT)
    }
}

} // verus!
