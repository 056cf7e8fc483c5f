//! The environment: a growing arena of frames, each a small map from
//! names to values with an optional parent handle. Frames are never
//! removed, so closures can keep handles to the frames they captured;
//! the acyclicity invariant is that a frame's parent always has a
//! smaller index.
use vstd::prelude::*;
use vstd::string::StringExecFns;

use crate::expr::{view_expr, Expr, ExprV};
use crate::interpreter::err::{RuntimeErr, RuntimeErrV};

verus! {

/// One frame: an association list of bindings (later entries shadow
/// earlier ones) and the handle of the parent frame, if any.
#[derive(Debug, PartialEq, Eq)]
pub struct Frame {
    pub vals: Vec<(String, Expr)>,
    pub parent: Option<usize>,
}

/// The mathematical image of a [`Frame`].
#[verifier::ext_equal]
pub struct FrameV {
    pub vals: Seq<(Seq<char>, ExprV)>,
    pub parent: Option<usize>,
}

/// View of a binding list.
pub open spec fn view_bindings(s: Seq<(String, Expr)>) -> Seq<(Seq<char>, ExprV)>
    decreases s,
{
    if s.len() == 0 {
        Seq::empty()
    } else {
        seq![(s[0].0@, view_expr(s[0].1))] + view_bindings(s.drop_first())
    }
}

/// The view sequence is elementwise.
pub proof fn lemma_view_bindings(s: Seq<(String, Expr)>)
    ensures
        view_bindings(s).len() == s.len(),
        forall|i: int|
            0 <= i < s.len() ==> view_bindings(s)[i] == (s[i].0@, view_expr(s[i].1)),
    decreases s.len(),
{
    if s.len() > 0 {
        lemma_view_bindings(s.drop_first());
    }
}

/// Appending a binding appends its view.
pub proof fn lemma_view_bindings_push(s: Seq<(String, Expr)>, k: String, v: Expr)
    ensures
        view_bindings(s.push((k, v))) == view_bindings(s).push((k@, view_expr(v))),
{
    lemma_view_bindings(s.push((k, v)));
    lemma_view_bindings(s);
    assert(view_bindings(s.push((k, v))) =~= view_bindings(s).push((k@, view_expr(v))));
}

impl DeepView for Frame {
    type V = FrameV;

    open spec fn deep_view(&self) -> FrameV {
        FrameV { vals: view_bindings(self.vals@), parent: self.parent }
    }
}

impl View for Frame {
    type V = FrameV;

    open spec fn view(&self) -> FrameV {
        self.deep_view()
    }
}

/// The whole environment: every frame ever created, and the handle of
/// the frame that is current.
#[derive(Debug, PartialEq, Eq)]
pub struct Env {
    pub frames: Vec<Frame>,
    pub current: usize,
}

/// The mathematical image of an [`Env`].
#[verifier::ext_equal]
pub struct EnvV {
    pub frames: Seq<FrameV>,
    pub current: int,
}

/// View of a frame list.
pub open spec fn view_frames(s: Seq<Frame>) -> Seq<FrameV>
    decreases s,
{
    if s.len() == 0 {
        Seq::empty()
    } else {
        seq![s[0].deep_view()] + view_frames(s.drop_first())
    }
}

/// The view sequence is elementwise.
pub proof fn lemma_view_frames(s: Seq<Frame>)
    ensures
        view_frames(s).len() == s.len(),
        forall|i: int| 0 <= i < s.len() ==> view_frames(s)[i] == s[i].deep_view(),
    decreases s.len(),
{
    if s.len() > 0 {
        lemma_view_frames(s.drop_first());
    }
}

impl DeepView for Env {
    type V = EnvV;

    open spec fn deep_view(&self) -> EnvV {
        EnvV { frames: view_frames(self.frames@), current: self.current as int }
    }
}

impl View for Env {
    type V = EnvV;

    open spec fn view(&self) -> EnvV {
        self.deep_view()
    }
}

/// Well-formedness: the current handle is in range, and every parent
/// handle points strictly downwards, so parent chains terminate.
pub open spec fn env_wf(env: EnvV) -> bool {
    &&& 0 <= env.current < env.frames.len()
    &&& forall|i: int|
        0 <= i < env.frames.len() ==> (#[trigger] env.frames[i].parent matches Some(p) ==> (
        p as int) < i)
}

/// The value bound to `name` in one frame: the latest entry wins.
pub open spec fn frame_lookup(vals: Seq<(Seq<char>, ExprV)>, name: Seq<char>) -> Option<ExprV>
    decreases vals.len(),
{
    if vals.len() == 0 {
        None
    } else if vals.last().0 == name {
        Some(vals.last().1)
    } else {
        frame_lookup(vals.drop_last(), name)
    }
}

/// The frame handle whose map binds `name`, walking parents from `f`.
pub open spec fn env_resolve(env: EnvV, f: int, name: Seq<char>) -> Option<int>
    decreases (if 0 <= f < env.frames.len() {
        f + 1
    } else {
        0
    }),
{
    if !(0 <= f < env.frames.len()) {
        None
    } else if frame_lookup(env.frames[f].vals, name) is Some {
        Some(f)
    } else {
        match env.frames[f].parent {
            Some(p) => if (p as int) < f {
                env_resolve(env, p as int, name)
            } else {
                None
            },
            None => None,
        }
    }
}

/// The value `name` denotes, walking parents from `f`.
pub open spec fn env_lookup(env: EnvV, f: int, name: Seq<char>) -> Option<ExprV> {
    match env_resolve(env, f, name) {
        Some(g) => frame_lookup(env.frames[g].vals, name),
        None => None,
    }
}

/// The environment after binding `name` to `v` in the current frame.
pub open spec fn env_define(env: EnvV, name: Seq<char>, v: ExprV) -> EnvV {
    EnvV {
        frames: env.frames.update(
            env.current,
            FrameV {
                vals: env.frames[env.current].vals.push((name, v)),
                parent: env.frames[env.current].parent,
            },
        ),
        current: env.current,
    }
}

/// The environment after overwriting `name` with `v` in frame `g`.
pub open spec fn env_update_at(env: EnvV, g: int, name: Seq<char>, v: ExprV) -> EnvV {
    EnvV {
        frames: env.frames.update(
            g,
            FrameV { vals: env.frames[g].vals.push((name, v)), parent: env.frames[g].parent },
        ),
        current: env.current,
    }
}

/// The environment after a fresh, empty, parentless frame is pushed
/// and made current.
pub open spec fn env_push(env: EnvV) -> EnvV {
    EnvV {
        frames: env.frames.push(FrameV { vals: Seq::empty(), parent: None }),
        current: env.frames.len() as int,
    }
}

impl Env {
    /// A fresh environment holding only an empty root frame.
    pub fn new() -> (r: Env)
        ensures
            env_wf(r@),
            r@.frames.len() == 1,
            r@.frames[0].vals == Seq::<(Seq<char>, ExprV)>::empty(),
            r@.frames[0].parent is None,
            r@.current == 0,
    {
        let mut frames: Vec<Frame> = Vec::new();
        frames.push(Frame { vals: Vec::new(), parent: None });
        let r = Env { frames, current: 0 };
        proof {
            lemma_view_frames(r.frames@);
            assert(view_bindings(Seq::<(String, Expr)>::empty()) =~= Seq::<
                (Seq<char>, ExprV),
            >::empty());
            assert(r.frames@[0].vals@ =~= Seq::<(String, Expr)>::empty());
        }
        r
    }

    /// The handle of the current frame.
    pub fn current_frame(&self) -> (r: usize)
        ensures
            r as int == self@.current,
    {
        self.current
    }

    /// Looks a name up in one frame, scanning latest bindings first.
    #[verifier::loop_isolation(false)]
    fn lookup_in(&self, f: usize, k: &String) -> (r: Option<Expr>)
        requires
            f < self.frames@.len(),
        ensures
            (match r {
                Some(e) => Some(view_expr(e)),
                None => None,
            }) == frame_lookup(self@.frames[f as int].vals, k@),
    {
        proof {
            lemma_view_frames(self.frames@);
            lemma_view_bindings(self.frames@[f as int].vals@);
        }
        let n = self.frames[f].vals.len();
        proof {
            assert(self@.frames[f as int].vals.take(n as int) =~= self@.frames[f as int].vals);
        }
        let mut i: usize = n;
        while i > 0
            invariant
                f < self.frames@.len(),
                i <= n,
                n == self.frames@[f as int].vals@.len(),
                frame_lookup(self@.frames[f as int].vals, k@) == frame_lookup(
                    self@.frames[f as int].vals.take(i as int),
                    k@,
                ),
            decreases i,
        {
            proof {
                lemma_view_frames(self.frames@);
                lemma_view_bindings(self.frames@[f as int].vals@);
                assert(self@.frames[f as int].vals.take(i as int).last() == self@.frames[
                    f as int].vals[i - 1]);
                assert(self@.frames[f as int].vals.take(i as int).drop_last() =~= self@.frames[
                    f as int].vals.take(i - 1));
            }
            if self.frames[f].vals[i - 1].0 == *k {
                let e = self.frames[f].vals[i - 1].1.dup();
                return Some(e);
            }
            i = i - 1;
        }
        proof {
            assert(self@.frames[f as int].vals.take(0) =~= Seq::<(Seq<char>, ExprV)>::empty());
        }
        None
    }

    /// Tries to get the value of a name, searching the current frame
    /// and then its ancestors.
    #[verifier::loop_isolation(false)]
    pub fn get(&self, k: &str) -> (r: Result<Expr, RuntimeErr>)
        requires
            env_wf(self@),
        ensures
            (match r {
                Ok(e) => Some(view_expr(e)),
                Err(_) => None,
            }) == env_lookup(self@, self@.current, k@),
            r matches Err(e) ==> e.deep_view() == RuntimeErrV::UndefinedVar(k@),
    {
        proof {
            lemma_view_frames(self.frames@);
        }
        let key = k.to_owned();
        let mut f = self.current;
        loop
            invariant
                env_wf(self@),
                f < self.frames@.len(),
                key@ == k@,
                env_resolve(self@, self@.current, k@) == env_resolve(self@, f as int, k@),
            decreases f,
        {
            match self.lookup_in(f, &key) {
                Some(e) => {
                    return Ok(e);
                },
                None => {
                    proof {
                        lemma_view_frames(self.frames@);
                    }
                    match &self.frames[f].parent {
                        Some(p) => {
                            f = *p;
                        },
                        None => {
                            return Err(RuntimeErr::UndefinedVar(key));
                        },
                    }
                },
            }
        }
    }

    /// Defines a binding in the current frame; a redefinition shadows
    /// the earlier one.
    pub fn define(&mut self, k: String, v: Expr)
        requires
            env_wf(old(self)@),
        ensures
            env_wf(final(self)@),
            final(self)@ == env_define(old(self)@, k@, view_expr(v)),
    {
        proof {
            lemma_view_frames(self.frames@);
        }
        let ghost kv = k@;
        let ghost vv = view_expr(v);
        let cur = self.current;
        let frame = &mut self.frames[cur];
        proof {
            lemma_view_bindings(frame.vals@);
        }
        frame.vals.push((k, v));
        proof {
            lemma_view_bindings_push(frame.vals@.drop_last(), frame.vals@.last().0, frame.vals@.last().1);
        }
        proof {
            lemma_view_frames(self.frames@);
            assert(self.frames@[cur as int].vals@.drop_last() =~= old(self).frames@[
                cur as int].vals@);
            assert(self.frames@[cur as int].vals@ =~= self.frames@[
                cur as int].vals@.drop_last().push(self.frames@[cur as int].vals@.last()));
            assert(view_frames(self.frames@) =~= view_frames(old(self).frames@).update(
                cur as int,
                FrameV {
                    vals: view_bindings(old(self).frames@[cur as int].vals@).push((kv, vv)),
                    parent: old(self).frames@[cur as int].parent,
                },
            ));
            assert forall|i: int|
                0 <= i < self.deep_view().frames.len() implies (#[trigger] self.deep_view(
            ).frames[i].parent matches Some(p) ==> (p as int) < i) by {
                if i != cur as int {
                    assert(self.deep_view().frames[i] == old(self).deep_view().frames[i]);
                } else {
                    assert(self.deep_view().frames[i].parent == old(self).deep_view().frames[
                        i].parent);
                }
            }
        }
    }

    /// Assigns to an existing binding, searching up the chain; fails
    /// when the name is nowhere bound.
    #[verifier::loop_isolation(false)]
    pub fn assign(&mut self, k: String, v: Expr) -> (r: Result<(), RuntimeErr>)
        requires
            env_wf(old(self)@),
        ensures
            env_wf(final(self)@),
            final(self)@.frames.len() == old(self)@.frames.len(),
            final(self)@.current == old(self)@.current,
            (match env_resolve(old(self)@, old(self)@.current, k@) {
                Some(g) => r matches Ok(()) && final(self)@ == env_update_at(
                    old(self)@,
                    g,
                    k@,
                    view_expr(v),
                ),
                None => r matches Err(e) && e.deep_view() == RuntimeErrV::UndefinedVar(k@) && final(self)@
                    == old(self)@,
            }),
    {
        proof {
            lemma_view_frames(self.frames@);
        }
        let mut f = self.current;
        loop
            invariant
                env_wf(self@),
                self.frames == old(self).frames,
                self.current == old(self).current,
                f < self.frames@.len(),
                env_resolve(self@, self@.current, k@) == env_resolve(self@, f as int, k@),
            decreases f,
        {
            let found = {
                let probe = self.lookup_in(f, &k);
                match probe {
                    Some(_) => true,
                    None => false,
                }
            };
            if found {
                proof {
                    lemma_view_frames(self.frames@);
                }
                let ghost kv = k@;
                let ghost vv = view_expr(v);
                let ghost prevals = self.frames@[f as int].vals@;
                let frame = &mut self.frames[f];
                proof {
                    lemma_view_bindings(frame.vals@);
                }
                frame.vals.push((k, v));
                proof {
                    lemma_view_bindings_push(
                        frame.vals@.drop_last(),
                        frame.vals@.last().0,
                        frame.vals@.last().1,
                    );
                }
                proof {
                    lemma_view_frames(self.frames@);
                    assert(prevals =~= old(self).frames@[f as int].vals@);
                    assert(self.frames@[f as int].vals@.drop_last() =~= prevals);
                    assert(self.frames@[f as int].vals@ =~= self.frames@[
                        f as int].vals@.drop_last().push(self.frames@[f as int].vals@.last()));
                    assert(view_frames(self.frames@) =~= view_frames(old(self).frames@).update(
                        f as int,
                        FrameV {
                            vals: view_bindings(old(self).frames@[f as int].vals@).push(
                                (kv, vv),
                            ),
                            parent: old(self).frames@[f as int].parent,
                        },
                    ));
                    assert forall|i: int|
                        0 <= i < self.deep_view().frames.len() implies (#[trigger] self.deep_view(
                    ).frames[i].parent matches Some(p) ==> (p as int) < i) by {
                        if i != f as int {
                            assert(self.deep_view().frames[i] == old(self).deep_view().frames[i]);
                        } else {
                            assert(self.deep_view().frames[i].parent == old(
                                self,
                            ).deep_view().frames[i].parent);
                        }
                    }
                }
                return Ok(());
            }
            proof {
                lemma_view_frames(self.frames@);
            }
            match &self.frames[f].parent {
                Some(p) => {
                    f = *p;
                },
                None => {
                    return Err(RuntimeErr::UndefinedVar(k));
                },
            }
        }
    }

    /// Pushes a fresh, empty, parentless frame and makes it current;
    /// returns its handle.
    pub fn push_frame(&mut self) -> (r: usize)
        requires
            env_wf(old(self)@),
            old(self)@.frames.len() < usize::MAX,
        ensures
            env_wf(final(self)@),
            final(self)@ == env_push(old(self)@),
            r as int == old(self)@.frames.len(),
    {
        proof {
            lemma_view_frames(self.frames@);
        }
        let idx = self.frames.len();
        self.frames.push(Frame { vals: Vec::new(), parent: None });
        self.current = idx;
        proof {
            lemma_view_frames(self.frames@);
            assert(self.frames@[idx as int].vals@ =~= Seq::<(String, Expr)>::empty());
            assert(view_bindings(Seq::<(String, Expr)>::empty()) =~= Seq::<
                (Seq<char>, ExprV),
            >::empty());
            assert(view_frames(self.frames@) =~= view_frames(old(self).frames@).push(
                FrameV { vals: Seq::empty(), parent: None },
            ));
        }
        idx
    }

    /// Wires the parent of the current frame.
    pub fn set_parent(&mut self, parent: usize)
        requires
            env_wf(old(self)@),
            parent < old(self)@.current,
        ensures
            env_wf(final(self)@),
            final(self)@.frames == old(self)@.frames.update(
                old(self)@.current,
                FrameV {
                    vals: old(self)@.frames[old(self)@.current].vals,
                    parent: Some(parent),
                },
            ),
            final(self)@.current == old(self)@.current,
    {
        proof {
            lemma_view_frames(self.frames@);
        }
        let cur = self.current;
        let frame = &mut self.frames[cur];
        frame.parent = Some(parent);
        proof {
            lemma_view_frames(self.frames@);
            assert(view_frames(self.frames@) =~= view_frames(old(self).frames@).update(
                cur as int,
                FrameV {
                    vals: view_bindings(old(self).frames@[cur as int].vals@),
                    parent: Some(parent),
                },
            ));
        }
    }

    /// The parent handle of the current frame.
    pub fn get_parent(&self) -> (r: Option<usize>)
        requires
            env_wf(self@),
        ensures
            r == self@.frames[self@.current].parent,
    {
        proof {
            lemma_view_frames(self.frames@);
        }
        match &self.frames[self.current].parent {
            Some(p) => Some(*p),
            None => None,
        }
    }

    /// Makes `h` the current frame again; used to leave a scope.
    pub fn restore(&mut self, h: usize)
        requires
            env_wf(old(self)@),
            h < old(self)@.frames.len(),
        ensures
            env_wf(final(self)@),
            final(self)@.frames == old(self)@.frames,
            final(self)@.current == h as int,
    {
        self.current = h;
    }

    /// Deletes every binding of `k` from the current frame.
    #[verifier::loop_isolation(false)]
    pub fn drop(&mut self, k: &str)
        requires
            env_wf(old(self)@),
        ensures
            env_wf(final(self)@),
            final(self)@.current == old(self)@.current,
            final(self)@.frames == old(self)@.frames.update(
                old(self)@.current,
                FrameV {
                    vals: remove_key(old(self)@.frames[old(self)@.current].vals, k@),
                    parent: old(self)@.frames[old(self)@.current].parent,
                },
            ),
    {
        proof {
            lemma_view_frames(self.frames@);
        }
        let key = k.to_owned();
        let cur = self.current;
        let n = self.frames[cur].vals.len();
        let mut kept: Vec<(String, Expr)> = Vec::new();
        let mut i: usize = 0;
        while i < n
            invariant
                cur < self.frames@.len(),
                self@ == old(self)@,
                cur == self.current,
                i <= n,
                n == self.frames@[cur as int].vals@.len(),
                key@ == k@,
                view_bindings(kept@) == remove_key(
                    view_bindings(self.frames@[cur as int].vals@.take(i as int)),
                    k@,
                ),
            decreases n - i,
        {
            proof {
                lemma_view_frames(self.frames@);
                lemma_view_bindings(self.frames@[cur as int].vals@);
                lemma_view_bindings(self.frames@[cur as int].vals@.take(i as int));
                lemma_view_bindings(self.frames@[cur as int].vals@.take(i + 1));
                assert(self.frames@[cur as int].vals@.take(i + 1).drop_last() =~= self.frames@[
                    cur as int].vals@.take(i as int));
                assert(view_bindings(self.frames@[cur as int].vals@.take(i + 1)).drop_last()
                    =~= view_bindings(self.frames@[cur as int].vals@.take(i as int)));
            }
            let ghost keptv = view_bindings(kept@);
            let ghost keptseq = kept@;
            let keep_it = !(self.frames[cur].vals[i].0 == key);
            if keep_it {
                let ghost kv0 = self.frames@[cur as int].vals@[i as int].0@;
                let ghost vv0 = view_expr(self.frames@[cur as int].vals@[i as int].1);
                let pair = (self.frames[cur].vals[i].0.clone(), self.frames[cur].vals[i].1.dup());
                kept.push(pair);
                proof {
                    assert(kept@.drop_last() =~= keptseq);
                    lemma_view_bindings_push(kept@.drop_last(), kept@.last().0, kept@.last().1);
                    assert(kept@ =~= kept@.drop_last().push(kept@.last()));
                    assert(view_bindings(kept@) =~= keptv.push((kv0, vv0)));
                }
            }
            i = i + 1;
        }
        proof {
            assert(self.frames@[cur as int].vals@.take(n as int) =~= self.frames@[
                cur as int].vals@);
        }
        let frame = &mut self.frames[cur];
        frame.vals = kept;
        proof {
            lemma_view_frames(self.frames@);
            assert(view_frames(self.frames@) =~= view_frames(old(self).frames@).update(
                cur as int,
                FrameV {
                    vals: remove_key(view_bindings(old(self).frames@[cur as int].vals@), k@),
                    parent: old(self).frames@[cur as int].parent,
                },
            ));
        }
    }
}

/// The bindings of a frame with every entry for `name` removed.
pub open spec fn remove_key(vals: Seq<(Seq<char>, ExprV)>, name: Seq<char>) -> Seq<
    (Seq<char>, ExprV),
>
    decreases vals.len(),
{
    if vals.len() == 0 {
        Seq::empty()
    } else if vals.last().0 != name {
        remove_key(vals.drop_last(), name).push(vals.last())
    } else {
        remove_key(vals.drop_last(), name)
    }
}

} // verus!
