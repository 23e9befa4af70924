//! The conditional combinator: runs one of two child algorithms, chosen per
//! compute pass by a predicate over the live window list and bounds.

use vstd::prelude::*;

use crate::algorithm::Layout;
use crate::geometry::Rect;
use crate::message::Message;
use crate::window::WindowId;

verus! {

/// The selection rule of a conditional combinator, evaluated on every
/// compute pass.
#[derive(Clone, Copy, Debug, PartialEq, Eq, Structural)]
pub enum Predicate {
    /// True when the bounds are at most this many pixels wide.
    WidthAtMost(u32),
    /// True when the number of windows to place is even.
    EvenWindowCount,
}

impl Predicate {
    /// What the predicate decides for a given window list and bounds.
    pub open spec fn spec_eval(self, ids: Seq<WindowId>, bounds: Rect) -> bool {
        match self {
            Predicate::WidthAtMost(px) => bounds.w <= px,
            Predicate::EvenWindowCount => ids.len() % 2 == 0,
        }
    }

    /// Evaluate the predicate on the live window list and bounds.
    pub fn eval(&self, stack: &Vec<WindowId>, bounds: Rect) -> (r: bool)
        ensures
            r == self.spec_eval(stack@, bounds),
    {
        match *self {
            Predicate::WidthAtMost(px) => bounds.w <= px,
            Predicate::EvenWindowCount => stack.len() % 2 == 0,
        }
    }
}

/// Runs the `left` child when the predicate holds, the `right` child
/// otherwise, re-deciding on every compute pass. One bit of hidden state,
/// `left_is_active`, records the most recent decision so that messages that
/// arrive between compute passes reach the child that is actually running.
#[derive(Debug)]
pub struct Conditional {
    /// Used when the predicate holds; also the default route for messages
    /// that arrive before the first compute pass.
    pub left: Layout,
    /// Used when the predicate does not hold.
    pub right: Layout,
    /// Decides which child a compute pass runs.
    pub should_use_left: Predicate,
    /// Which child the most recent compute pass used.
    pub left_is_active: bool,
}

impl Conditional {
    /// Both children are well formed.
    pub open spec fn wf(self) -> bool
        decreases self,
    {
        self.left.wf() && self.right.wf()
    }

    /// Display label: the name of the currently active child, not a fixed
    /// label of the combinator itself.
    pub open spec fn spec_name(self) -> Seq<char>
        decreases self,
    {
        if self.left_is_active {
            self.left.spec_name()
        } else {
            self.right.spec_name()
        }
    }

    /// The state and placements of one compute pass: the predicate picks a
    /// child, the decision is recorded, and that child alone computes (and
    /// may update itself in place); the other child is untouched.
    pub open spec fn spec_compute(self, ids: Seq<WindowId>, bounds: Rect) -> (
        Conditional,
        Seq<(WindowId, Rect)>,
    )
        decreases self,
    {
        if self.should_use_left.spec_eval(ids, bounds) {
            let (l2, ps) = self.left.spec_compute(ids, bounds);
            (
                Conditional {
                    left: l2,
                    right: self.right,
                    should_use_left: self.should_use_left,
                    left_is_active: true,
                },
                ps,
            )
        } else {
            let (r2, ps) = self.right.spec_compute(ids, bounds);
            (
                Conditional {
                    left: self.left,
                    right: r2,
                    should_use_left: self.should_use_left,
                    left_is_active: false,
                },
                ps,
            )
        }
    }

    /// The state after one message: it is forwarded, unconditionally, to
    /// whichever child is recorded active; the other child is untouched.
    pub open spec fn spec_step_msg(self, m: Message) -> Conditional
        decreases self,
    {
        if self.left_is_active {
            Conditional {
                left: self.left.spec_step_msg(m),
                right: self.right,
                should_use_left: self.should_use_left,
                left_is_active: self.left_is_active,
            }
        } else {
            Conditional {
                left: self.left,
                right: self.right.spec_step_msg(m),
                should_use_left: self.should_use_left,
                left_is_active: self.left_is_active,
            }
        }
    }

    /// Construct the combinator; before any compute pass has run, messages
    /// route to `left`.
    pub fn new(left: Layout, right: Layout, should_use_left: Predicate) -> (r: Self)
        requires
            left.wf(),
            right.wf(),
        ensures
            r == (Conditional { left, right, should_use_left, left_is_active: true }),
            r.wf(),
    {
        Conditional { left, right, should_use_left, left_is_active: true }
    }

    /// As `new`, but wrapped as a registry entry.
    pub fn boxed(left: Layout, right: Layout, should_use_left: Predicate) -> (r: Layout)
        requires
            left.wf(),
            right.wf(),
        ensures
            r == Layout::Conditional(
                Box::new(Conditional { left, right, should_use_left, left_is_active: true }),
            ),
            r.wf(),
    {
        Layout::Conditional(Box::new(Conditional::new(left, right, should_use_left)))
    }

    /// Display label of the currently active child.
    pub fn name(&self) -> (r: &'static str)
        ensures
            r@ == self.spec_name(),
        decreases *self,
    {
        if self.left_is_active {
            self.left.name()
        } else {
            self.right.name()
        }
    }

    /// One compute pass: evaluate the predicate, record the decision, and
    /// delegate entirely to the chosen child. A replacement returned by the
    /// child fills only that child's slot; the combinator never replaces
    /// itself.
    pub fn compute(&mut self, stack: &Vec<WindowId>, bounds: Rect) -> (res: (
        Option<Layout>,
        Vec<(WindowId, Rect)>,
    ))
        requires
            old(self).wf(),
            bounds.fits(),
        ensures
            res.0 is None,
            *final(self) == old(self).spec_compute(stack@, bounds).0,
            res.1@ == old(self).spec_compute(stack@, bounds).1,
            final(self).wf(),
        decreases *old(self),
    {
        let sel = self.should_use_left.eval(stack, bounds);
        self.left_is_active = sel;
        if sel {
            let (repl, ps) = self.left.compute(stack, bounds);
            if let Some(n) = repl {
                self.left = n;
            }
            (None, ps)
        } else {
            let (repl, ps) = self.right.compute(stack, bounds);
            if let Some(n) = repl {
                self.right = n;
            }
            (None, ps)
        }
    }

    /// Forward a message to the child recorded active by the most recent
    /// compute pass (to `left` if none has run yet).
    pub fn handle_message(&mut self, m: &Message) -> (res: Option<Layout>)
        requires
            old(self).wf(),
        ensures
            res is None,
            *final(self) == old(self).spec_step_msg(*m),
            final(self).wf(),
        decreases *old(self),
    {
        if self.left_is_active {
            let repl = self.left.handle_message(m);
            if let Some(n) = repl {
                self.left = n;
            }
        } else {
            let repl = self.right.handle_message(m);
            if let Some(n) = repl {
                self.right = n;
            }
        }
        None
    }

    /// An independent deep copy: both children are copied in full and the
    /// recorded decision is copied by value, so the copy shares no state
    /// with the original.
    pub fn deep_clone(&self) -> (res: Conditional)
        ensures
            res == *self,
        decreases *self,
    {
        Conditional {
            left: self.left.deep_clone(),
            right: self.right.deep_clone(),
            should_use_left: self.should_use_left,
            left_is_active: self.left_is_active,
        }
    }

    /// As `deep_clone`, but wrapped as a registry entry.
    pub fn boxed_clone(&self) -> (res: Layout)
        ensures
            res == Layout::Conditional(Box::new(*self)),
    {
        Layout::Conditional(Box::new(self.deep_clone()))
    }
}

/// Law: a compute pass delegates to exactly one child — the one the
/// predicate picks — records the decision, and a message that follows with
/// no compute pass in between is routed to that same child; the other child
/// is untouched throughout.
pub proof fn lemma_message_follows_compute(
    c: Conditional,
    ids: Seq<WindowId>,
    bounds: Rect,
    m: Message,
)
    ensures
        ({
            let sel = c.should_use_left.spec_eval(ids, bounds);
            let c2 = c.spec_compute(ids, bounds).0;
            &&& c2.left_is_active == sel
            &&& (sel ==> c.spec_compute(ids, bounds).1 == c.left.spec_compute(ids, bounds).1
                && c2.right == c.right)
            &&& (!sel ==> c.spec_compute(ids, bounds).1 == c.right.spec_compute(ids, bounds).1
                && c2.left == c.left)
            &&& (sel ==> c2.spec_step_msg(m).left == c2.left.spec_step_msg(m)
                && c2.spec_step_msg(m).right == c2.right)
            &&& (!sel ==> c2.spec_step_msg(m).right == c2.right.spec_step_msg(m)
                && c2.spec_step_msg(m).left == c2.left)
        }),
{
}

} // verus!
