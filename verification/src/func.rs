//! First-class function values.
use vstd::prelude::*;

use crate::stmt::{Stmt, StmtV};

verus! {

/// A first-class function value: ordered parameter names, a body
/// statement (a block), and the handle of the environment frame captured
/// when the function was first bound to a name. The handle indexes the
/// interpreter's frame arena; it is `None` until the function is bound.
#[derive(Debug, PartialEq, Eq)]
pub struct Func {
    pub instructions: Box<Stmt>,
    pub args: Vec<String>,
    pub closure: Option<usize>,
}

/// The mathematical image of a [`Func`].
pub struct FuncV {
    pub instructions: Box<StmtV>,
    pub args: Seq<Seq<char>>,
    pub closure: Option<usize>,
}

impl DeepView for Func {
    type V = FuncV;

    open spec fn deep_view(&self) -> FuncV {
        crate::expr::view_func(*self)
    }
}

impl View for Func {
    type V = FuncV;

    open spec fn view(&self) -> FuncV {
        self.deep_view()
    }
}

impl Func {
    /// Builds an unbound function value from a body and parameter names.
    pub fn new(instructions: Stmt, args: Vec<String>) -> (r: Func)
        ensures
            r@.instructions == Box::new(instructions@),
            r@.args == args.deep_view(),
            r@.closure == Option::<usize>::None,
    {
        Self { instructions: Box::new(instructions), args, closure: None }
    }

    /// The number of parameters this function declares.
    pub fn arg_len(&self) -> (r: usize)
        ensures
            r == self@.args.len(),
    {
        self.args.len()
    }

    /// Sets the captured environment frame of this function.
    pub fn set_closure(&mut self, closure: usize)
        ensures
            final(self)@.instructions == old(self)@.instructions,
            final(self)@.args == old(self)@.args,
            final(self)@.closure == Some(closure),
    {
        self.closure = Some(closure);
    }
}

} // verus!
