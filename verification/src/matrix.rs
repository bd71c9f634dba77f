//! Matrix targets and matrix stacks for the OpenGL ES 1.x
//! fixed-function pipeline.
//!
//! The stack discipline — push, pop, the depth limit and its overflow
//! and underflow reports — does not depend on what a matrix is, so the
//! stack is generic over its element; the front end instantiates it with
//! its 4×4 floating-point matrices and does the arithmetic on them.
use vstd::prelude::*;

use crate::gl::{GL_MODELVIEW, GL_PROJECTION, GL_TEXTURE};

verus! {

/// Matrix targets selectable with `glMatrixMode`.
#[derive(Debug, Clone, Copy, PartialEq, Eq, Structural)]
pub enum MatrixMode {
    Modelview,
    Projection,
    Texture,
}

/// The target a `glMatrixMode` value names, if it names one.
pub open spec fn mode_of(value: u32) -> Option<MatrixMode> {
    if value == GL_MODELVIEW {
        Some(MatrixMode::Modelview)
    } else if value == GL_PROJECTION {
        Some(MatrixMode::Projection)
    } else if value == GL_TEXTURE {
        Some(MatrixMode::Texture)
    } else {
        None
    }
}

impl MatrixMode {
    /// Map a `GL_MODELVIEW` / `GL_PROJECTION` / `GL_TEXTURE` enum to a
    /// target. Returns `None` for anything else, which the caller
    /// should report as `GL_INVALID_ENUM`.
    pub fn from_enum(value: u32) -> (r: Option<Self>)
        ensures
            r == mode_of(value),
    {
        if value == GL_MODELVIEW {
            Some(MatrixMode::Modelview)
        } else if value == GL_PROJECTION {
            Some(MatrixMode::Projection)
        } else if value == GL_TEXTURE {
            Some(MatrixMode::Texture)
        } else {
            None
        }
    }
}

/// A stack as a value: the current matrix, the saved copies (oldest
/// first), the depth limit and the identity that `load_identity`
/// restores.
pub struct StackView<M> {
    pub current: M,
    pub saved: Seq<M>,
    pub depth_limit: nat,
    pub identity: M,
}

/// One matrix stack (current matrix plus saved copies).
///
/// OpenGL ES 1.1 guarantees a modelview stack at least 16 deep and
/// projection / texture stacks at least 2 deep. A single generous limit
/// serves all three; exceeding it must raise `GL_STACK_OVERFLOW` rather
/// than grow without bound.
pub struct MatrixStack<M> {
    current: M,
    saved: Vec<M>,
    depth_limit: usize,
    identity: M,
}

/// The depth (saved copies plus the current matrix) never exceeds the
/// limit, unless the limit leaves no room for a saved copy at all and
/// nothing is saved.
pub open spec fn depth_ok<M>(v: StackView<M>) -> bool {
    v.saved.len() == 0 || v.saved.len() + 1 <= v.depth_limit
}

/// What `push` does to `v`: whether it succeeds, and the stack after.
pub open spec fn after_push<M>(v: StackView<M>) -> (bool, StackView<M>) {
    if v.saved.len() + 1 >= v.depth_limit {
        (false, v)
    } else {
        (true, StackView { saved: v.saved.push(v.current), ..v })
    }
}

/// What `pop` does to `v`: whether it succeeds, and the stack after.
pub open spec fn after_pop<M>(v: StackView<M>) -> (bool, StackView<M>) {
    if v.saved.len() == 0 {
        (false, v)
    } else {
        (true, StackView { current: v.saved.last(), saved: v.saved.drop_last(), ..v })
    }
}

/// `v` with `m` loaded as the current matrix.
pub open spec fn loaded<M>(v: StackView<M>, m: M) -> StackView<M> {
    StackView { current: m, ..v }
}

impl<M> View for MatrixStack<M> {
    type V = StackView<M>;

    closed spec fn view(&self) -> StackView<M> {
        StackView {
            current: self.current,
            saved: self.saved@,
            depth_limit: self.depth_limit as nat,
            identity: self.identity,
        }
    }
}

impl<M> MatrixStack<M> {
    #[verifier::type_invariant]
    closed spec fn inv(self) -> bool {
        depth_ok(self@)
    }
}

impl<M: Copy> MatrixStack<M> {
    /// An empty stack whose current matrix is `identity`, refusing any
    /// push that would make its depth reach `depth_limit`.
    pub fn new(depth_limit: usize, identity: M) -> (s: Self)
        ensures
            s@ == (StackView { current: identity, saved: Seq::empty(), depth_limit: depth_limit as nat, identity }),
    {
        MatrixStack { current: identity, saved: Vec::new(), depth_limit, identity }
    }

    /// The current matrix.
    pub fn current(&self) -> (m: &M)
        ensures
            *m == self@.current,
    {
        &self.current
    }

    /// Replace the current matrix.
    pub fn load(&mut self, m: M)
        ensures
            final(self)@ == loaded(old(self)@, m),
    {
        proof {
            use_type_invariant(&*self);
        }
        self.current = m;
    }

    /// Replace the current matrix with the identity.
    pub fn load_identity(&mut self)
        ensures
            final(self)@ == loaded(old(self)@, old(self)@.identity),
    {
        proof {
            use_type_invariant(&*self);
        }
        self.current = self.identity;
    }

    /// Push a copy of the current matrix. Returns `false` on overflow,
    /// which the caller reports as `GL_STACK_OVERFLOW`; the stack is
    /// then unchanged.
    pub fn push(&mut self) -> (ok: bool)
        ensures
            (ok, final(self)@) == after_push(old(self)@),
    {
        proof {
            use_type_invariant(&*self);
        }
        if self.saved.len() >= self.depth_limit || self.saved.len() + 1 >= self.depth_limit {
            return false;
        }
        let m = self.current;
        let mut saved: Vec<M> = Vec::new();
        std::mem::swap(&mut saved, &mut self.saved);
        saved.push(m);
        self.saved = saved;
        true
    }

    /// Restore the most recently pushed matrix. Returns `false` on
    /// underflow, reported as `GL_STACK_UNDERFLOW`; the stack is then
    /// unchanged.
    pub fn pop(&mut self) -> (ok: bool)
        ensures
            (ok, final(self)@) == after_pop(old(self)@),
    {
        proof {
            use_type_invariant(&*self);
        }
        let mut saved: Vec<M> = Vec::new();
        std::mem::swap(&mut saved, &mut self.saved);
        let top = saved.pop();
        self.saved = saved;
        match top {
            Some(m) => {
                self.current = m;
                true
            },
            None => false,
        }
    }

    /// Matrices on the stack, the current one included.
    pub fn depth(&self) -> (d: usize)
        ensures
            d == self@.saved.len() + 1,
            d == 1 || d <= self@.depth_limit,
    {
        proof {
            use_type_invariant(self);
        }
        self.saved.len() + 1
    }
}

/// A successful push followed by any loads and one pop gives back
/// exactly the stack as it stood before the push.
pub proof fn lemma_pop_undoes_push<M>(v: StackView<M>, m: M)
    requires
        after_push(v).0,
    ensures
        after_pop(loaded(after_push(v).1, m)) == (true, v),
{
    let pushed = after_push(v).1;
    assert(pushed.saved.drop_last() =~= v.saved);
}

/// A push is refused exactly when the depth it would create reaches the
/// limit, and a refused push changes nothing.
pub proof fn lemma_push_refused_at_limit<M>(v: StackView<M>)
    ensures
        !after_push(v).0 <==> v.saved.len() + 2 > v.depth_limit,
        !after_push(v).0 ==> after_push(v).1 == v,
{
}

/// Pushes and pops keep a stack within its depth limit.
pub proof fn lemma_push_pop_keep_depth<M>(v: StackView<M>)
    requires
        depth_ok(v),
    ensures
        depth_ok(after_push(v).1),
        depth_ok(after_pop(v).1),
{
}

/// The current matrix is what was last loaded; a push keeps it current
/// and only saves a copy; a refused pop, on an empty stack, changes
/// nothing; and loading the identity brings back the stack's identity.
pub proof fn lemma_loads_read_back_and_pushes_keep_current<M>(v: StackView<M>, m: M)
    ensures
        loaded(v, m).current == m,
        loaded(v, m).saved == v.saved,
        after_push(v).0 ==> after_push(v).1.current == v.current && after_push(v).1.saved.last()
            == v.current && after_push(v).1.saved.len() == v.saved.len() + 1,
        v.saved.len() == 0 ==> after_pop(v) == (false, v),
        loaded(v, v.identity).current == v.identity,
{
}

} // verus!
