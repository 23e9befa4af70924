//! The capability set every tiling strategy offers: a display name, one
//! compute pass per layout request, message handling, and deep cloning.

use vstd::prelude::*;

use crate::conditional::Conditional;
use crate::fibonacci::Fibonacci;
use crate::geometry::Rect;
use crate::message::Message;
use crate::window::WindowId;

verus! {

/// A pure decoration applied uniformly to every algorithm of a registry: it
/// reserves a fixed band at one edge of the bounds before delegating, and
/// forwards names and messages unchanged.
#[derive(Clone, Copy, Debug, PartialEq, Eq, Structural)]
pub enum Transform {
    /// Keep this many pixels free at the top edge.
    ReserveTop(u32),
    /// Keep this many pixels free at the bottom edge.
    ReserveBottom(u32),
}

impl Transform {
    /// The bounds handed on to the decorated algorithm: the reserved band is
    /// clamped to the available height, so the result never underflows.
    pub open spec fn spec_apply(self, r: Rect) -> Rect {
        match self {
            Transform::ReserveTop(px) => {
                let d: int = if px <= r.h {
                    px as int
                } else {
                    r.h as int
                };
                Rect { x: r.x, y: (r.y + d) as i32, w: r.w, h: (r.h - d) as u32 }
            },
            Transform::ReserveBottom(px) => {
                let d: int = if px <= r.h {
                    px as int
                } else {
                    r.h as int
                };
                Rect { x: r.x, y: r.y, w: r.w, h: (r.h - d) as u32 }
            },
        }
    }

    /// Reserve the band inside `r`.
    pub fn apply(self, r: Rect) -> (res: Rect)
        requires
            r.fits(),
        ensures
            res == self.spec_apply(r),
            res.fits(),
    {
        match self {
            Transform::ReserveTop(px) => {
                let d: u32 = if px <= r.h {
                    px
                } else {
                    r.h
                };
                let ny: i32 = ((r.y as i64) + (d as i64)) as i32;
                Rect { x: r.x, y: ny, w: r.w, h: r.h - d }
            },
            Transform::ReserveBottom(px) => {
                let d: u32 = if px <= r.h {
                    px
                } else {
                    r.h
                };
                Rect { x: r.x, y: r.y, w: r.w, h: r.h - d }
            },
        }
    }
}

/// A layout algorithm. The set of strategies this core defines: the spiral
/// partition, the conditional combinator over two algorithms, and any
/// algorithm wrapped by a bounds decoration.
#[derive(Debug)]
pub enum Layout {
    /// The recursive spiral partition.
    Fibonacci(Fibonacci),
    /// The conditional combinator over two child algorithms.
    Conditional(Box<Conditional>),
    /// An algorithm with a bounds decoration applied in front of it.
    Decorated(Transform, Box<Layout>),
}

impl Layout {
    /// Every ratio held anywhere inside the algorithm lies in `[0, 1]`.
    pub open spec fn wf(self) -> bool
        decreases self,
    {
        match self {
            Layout::Fibonacci(f) => f.wf(),
            Layout::Conditional(c) => c.wf(),
            Layout::Decorated(_, inner) => inner.wf(),
        }
    }

    /// Display label: combinators and decorations forward the name of the
    /// algorithm that is actually running.
    pub open spec fn spec_name(self) -> Seq<char>
        decreases self,
    {
        match self {
            Layout::Fibonacci(_) => "Fibo"@,
            Layout::Conditional(c) => c.spec_name(),
            Layout::Decorated(_, inner) => inner.spec_name(),
        }
    }

    /// The state and placements of one compute pass.
    pub open spec fn spec_compute(self, ids: Seq<WindowId>, bounds: Rect) -> (
        Layout,
        Seq<(WindowId, Rect)>,
    )
        decreases self,
    {
        match self {
            Layout::Fibonacci(f) => (self, f.spec_placements(ids, bounds)),
            Layout::Conditional(c) => {
                let (c2, ps) = c.spec_compute(ids, bounds);
                (Layout::Conditional(Box::new(c2)), ps)
            },
            Layout::Decorated(t, inner) => {
                let (inner2, ps) = inner.spec_compute(ids, t.spec_apply(bounds));
                (Layout::Decorated(t, Box::new(inner2)), ps)
            },
        }
    }

    /// The state after one message.
    pub open spec fn spec_step_msg(self, m: Message) -> Layout
        decreases self,
    {
        match self {
            Layout::Fibonacci(f) => Layout::Fibonacci(f.spec_step(m)),
            Layout::Conditional(c) => Layout::Conditional(Box::new(c.spec_step_msg(m))),
            Layout::Decorated(t, inner) => Layout::Decorated(t, Box::new(inner.spec_step_msg(m))),
        }
    }

    /// Display label of this algorithm.
    pub fn name(&self) -> (r: &'static str)
        ensures
            r@ == self.spec_name(),
        decreases *self,
    {
        match self {
            Layout::Fibonacci(f) => f.name(),
            Layout::Conditional(c) => c.name(),
            Layout::Decorated(_, inner) => inner.name(),
        }
    }

    /// One compute pass: exactly one rectangle per placed window, in stack
    /// order, deterministic in the stack, the bounds, and the internal
    /// state. A returned replacement would ask the caller to swap its stored
    /// instance; the built-in strategies always update in place instead.
    pub fn compute(&mut self, stack: &Vec<WindowId>, bounds: Rect) -> (res: (
        Option<Layout>,
        Vec<(WindowId, Rect)>,
    ))
        requires
            old(self).wf(),
            bounds.fits(),
        ensures
            res.0 is None,
            *final(self) == old(self).spec_compute(stack@, bounds).0,
            res.1@ == old(self).spec_compute(stack@, bounds).1,
            final(self).wf(),
        decreases *old(self),
    {
        match self {
            Layout::Fibonacci(f) => f.compute(stack, bounds),
            Layout::Conditional(c) => c.compute(stack, bounds),
            Layout::Decorated(t, inner) => {
                let shrunk = t.apply(bounds);
                inner.compute(stack, shrunk)
            },
        }
    }

    /// React to a control message; unrecognized kinds are ignored by every
    /// built-in strategy. A returned replacement would ask the caller to
    /// swap its stored instance; the built-in strategies always update in
    /// place instead.
    pub fn handle_message(&mut self, m: &Message) -> (res: Option<Layout>)
        requires
            old(self).wf(),
        ensures
            res is None,
            *final(self) == old(self).spec_step_msg(*m),
            final(self).wf(),
        decreases *old(self),
    {
        match self {
            Layout::Fibonacci(f) => f.handle_message(m),
            Layout::Conditional(c) => c.handle_message(m),
            Layout::Decorated(_, inner) => inner.handle_message(m),
        }
    }

    /// An independent deep copy, sharing no state with the original.
    pub fn deep_clone(&self) -> (res: Layout)
        ensures
            res == *self,
        decreases *self,
    {
        match self {
            Layout::Fibonacci(f) => Layout::Fibonacci(*f),
            Layout::Conditional(c) => Layout::Conditional(Box::new(c.deep_clone())),
            Layout::Decorated(t, inner) => Layout::Decorated(*t, Box::new(inner.deep_clone())),
        }
    }

    /// As `deep_clone`, but boxed, ready to be stored in a registry slot.
    pub fn boxed_clone(&self) -> (res: Box<Layout>)
        ensures
            *res == *self,
    {
        Box::new(self.deep_clone())
    }
}

/// Law: an empty window stack produces an empty placement list from every
/// algorithm, whatever the bounds.
pub proof fn lemma_empty_stack_empty_placements(a: Layout, ids: Seq<WindowId>, bounds: Rect)
    requires
        ids.len() == 0,
    ensures
        a.spec_compute(ids, bounds).1.len() == 0,
    decreases a,
{
    match a {
        Layout::Fibonacci(f) => {
            assert(f.spec_rects(ids.len(), bounds).len() == 0);
            assert(a.spec_compute(ids, bounds).1 == f.spec_placements(ids, bounds));
        },
        Layout::Conditional(c) => {
            lemma_empty_stack_empty_placements(c.left, ids, bounds);
            lemma_empty_stack_empty_placements(c.right, ids, bounds);
            assert(a.spec_compute(ids, bounds).1 == c.spec_compute(ids, bounds).1);
        },
        Layout::Decorated(t, inner) => {
            lemma_empty_stack_empty_placements(*inner, ids, t.spec_apply(bounds));
            assert(a.spec_compute(ids, bounds).1 == inner.spec_compute(
                ids,
                t.spec_apply(bounds),
            ).1);
        },
    }
}

} // verus!
