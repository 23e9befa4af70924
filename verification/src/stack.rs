//! The ordered registry of layout algorithms with an active cursor: the
//! entry point the surrounding window manager drives once per layout pass.

use vstd::prelude::*;

use vstd::arithmetic::div_mod::{
    lemma_mod_add_multiples_vanish, lemma_mod_multiples_basic, lemma_mod_self_0, lemma_small_mod,
};

use crate::algorithm::{Layout, Transform};
use crate::geometry::Rect;
use crate::message::Message;
use crate::window::WindowId;

verus! {

/// The cursor after one forward cycle: wraps past the end, and stands still
/// when fewer than two algorithms are registered.
pub open spec fn next_cursor(c: int, len: int) -> int {
    if len <= 1 {
        c
    } else {
        (c + 1) % len
    }
}

/// The cursor after one backward cycle: wraps past the start, and stands
/// still when fewer than two algorithms are registered.
pub open spec fn prev_cursor(c: int, len: int) -> int {
    if len <= 1 {
        c
    } else {
        (c + len - 1) % len
    }
}

/// The cursor after `k` forward cycles.
pub open spec fn cursor_after_cycles(c: int, len: int, k: nat) -> int
    decreases k,
{
    if k == 0 {
        c
    } else {
        cursor_after_cycles(next_cursor(c, len), len, (k - 1) as nat)
    }
}

/// Cycling forward `k` times moves a valid cursor to `(c + k) % len`.
pub proof fn lemma_cursor_cycles_mod(c: int, len: int, k: nat)
    requires
        len >= 1,
        0 <= c < len,
    ensures
        cursor_after_cycles(c, len, k) == (c + k) % len,
    decreases k,
{
    if k == 0 {
        lemma_small_mod(c as nat, len as nat);
    } else {
        let k1 = (k - 1) as nat;
        if len == 1 {
            lemma_cursor_cycles_mod(c, len, k1);
            lemma_mod_multiples_basic(c + k1, 1);
            lemma_mod_multiples_basic(c + k, 1);
            assert((c + k1) * 1 == c + k1);
            assert((c + k) * 1 == c + k);
        } else if c + 1 < len {
            lemma_small_mod((c + 1) as nat, len as nat);
            lemma_cursor_cycles_mod(c + 1, len, k1);
        } else {
            lemma_mod_self_0(len);
            lemma_cursor_cycles_mod(0, len, k1);
            lemma_mod_add_multiples_vanish(k1 as int, len);
            assert(c + k == len + k1);
        }
    }
}

/// The ordered registry of algorithms. The cursor always points at a
/// registered algorithm unless the registry is empty, which is a legal
/// no-op state.
#[derive(Debug)]
pub struct LayoutStack {
    /// The registered algorithms, in order.
    pub algorithms: Vec<Layout>,
    /// Index of the active algorithm; `0` when the registry is empty.
    pub cursor: usize,
}

impl LayoutStack {
    /// The cursor is a valid index (or the registry is empty), and every
    /// registered algorithm is well formed.
    pub open spec fn wf(self) -> bool {
        &&& self.algorithms@.len() == 0 ==> self.cursor == 0
        &&& self.algorithms@.len() > 0 ==> (self.cursor as int) < self.algorithms@.len()
        &&& forall|k: int| 0 <= k < self.algorithms@.len() ==> self.algorithms@[k].wf()
    }

    /// Build the registry from an ordered list; the first algorithm starts
    /// active.
    pub fn new(algorithms: Vec<Layout>) -> (r: Self)
        requires
            forall|k: int| 0 <= k < algorithms@.len() ==> algorithms@[k].wf(),
        ensures
            r.algorithms == algorithms,
            r.cursor == 0,
            r.wf(),
    {
        LayoutStack { algorithms, cursor: 0 }
    }

    /// Read-only peek at the active algorithm; `None` exactly when the
    /// registry is empty.
    pub fn current(&self) -> (r: Option<&Layout>)
        requires
            self.wf(),
        ensures
            self.algorithms@.len() == 0 <==> r is None,
            r matches Some(a) ==> *a == self.algorithms@[self.cursor as int],
    {
        if self.algorithms.len() == 0 {
            None
        } else {
            Some(&self.algorithms[self.cursor])
        }
    }

    /// Move the cursor forward by one, wrapping past the end; a no-op when
    /// fewer than two algorithms are registered.
    pub fn cycle_next(&mut self)
        requires
            old(self).wf(),
        ensures
            final(self).algorithms == old(self).algorithms,
            final(self).cursor == next_cursor(
                old(self).cursor as int,
                old(self).algorithms@.len() as int,
            ),
            final(self).wf(),
    {
        let len = self.algorithms.len();
        if len > 1 {
            let next: usize = if self.cursor + 1 == len {
                0
            } else {
                self.cursor + 1
            };
            proof {
                if self.cursor + 1 == len {
                    lemma_mod_self_0(len as int);
                } else {
                    lemma_small_mod((self.cursor + 1) as nat, len as nat);
                }
            }
            self.cursor = next;
        }
    }

    /// Move the cursor backward by one, wrapping past the start; a no-op
    /// when fewer than two algorithms are registered.
    pub fn cycle_previous(&mut self)
        requires
            old(self).wf(),
        ensures
            final(self).algorithms == old(self).algorithms,
            final(self).cursor == prev_cursor(
                old(self).cursor as int,
                old(self).algorithms@.len() as int,
            ),
            final(self).wf(),
    {
        let len = self.algorithms.len();
        if len > 1 {
            let prev: usize = if self.cursor == 0 {
                len - 1
            } else {
                self.cursor - 1
            };
            proof {
                let c = self.cursor as int;
                let l = len as int;
                if self.cursor == 0 {
                    lemma_small_mod((len - 1) as nat, len as nat);
                    assert(c + l - 1 == l - 1);
                } else {
                    lemma_mod_add_multiples_vanish(c - 1, l);
                    lemma_small_mod((self.cursor - 1) as nat, len as nat);
                    assert(c + l - 1 == l + (c - 1));
                }
            }
            self.cursor = prev;
        }
    }

    /// Deliver a message to the active algorithm only; a replacement, if an
    /// algorithm returned one, is spliced in at the same position. The
    /// cursor never moves, and an empty registry ignores the message.
    pub fn broadcast(&mut self, m: &Message)
        requires
            old(self).wf(),
        ensures
            final(self).cursor == old(self).cursor,
            old(self).algorithms@.len() == 0 ==> final(self).algorithms == old(self).algorithms,
            old(self).algorithms@.len() > 0 ==> final(self).algorithms@ == old(
                self,
            ).algorithms@.update(
                old(self).cursor as int,
                old(self).algorithms@[old(self).cursor as int].spec_step_msg(*m),
            ),
            final(self).wf(),
    {
        if self.algorithms.len() == 0 {
            return ;
        }
        let c = self.cursor;
        let mut active = self.algorithms.remove(c);
        let repl = active.handle_message(m);
        let updated = match repl {
            Some(n) => n,
            None => active,
        };
        self.algorithms.insert(c, updated);
        proof {
            assert(self.algorithms@ =~= old(self).algorithms@.update(
                old(self).cursor as int,
                old(self).algorithms@[old(self).cursor as int].spec_step_msg(*m),
            ));
        }
    }

    /// One layout pass: the active algorithm computes inside `bounds`; its
    /// updated state (or returned replacement) is stored back at the same
    /// position and the cursor never moves. An empty registry — and likewise
    /// an empty window stack — yields an empty placement list.
    pub fn compute(&mut self, stack: &Vec<WindowId>, bounds: Rect) -> (res: Vec<(WindowId, Rect)>)
        requires
            old(self).wf(),
            bounds.fits(),
        ensures
            final(self).cursor == old(self).cursor,
            old(self).algorithms@.len() == 0 ==> final(self).algorithms == old(self).algorithms
                && res@ =~= Seq::<(WindowId, Rect)>::empty(),
            old(self).algorithms@.len() > 0 ==> ({
                let active = old(self).algorithms@[old(self).cursor as int];
                &&& final(self).algorithms@ == old(self).algorithms@.update(
                    old(self).cursor as int,
                    active.spec_compute(stack@, bounds).0,
                )
                &&& res@ == active.spec_compute(stack@, bounds).1
            }),
            stack@.len() == 0 ==> res@.len() == 0,
            final(self).wf(),
    {
        if self.algorithms.len() == 0 {
            let res: Vec<(WindowId, Rect)> = Vec::new();
            return res;
        }
        let c = self.cursor;
        let mut active = self.algorithms.remove(c);
        proof {
            if stack@.len() == 0 {
                crate::algorithm::lemma_empty_stack_empty_placements(active, stack@, bounds);
            }
        }
        let (repl, res) = active.compute(stack, bounds);
        let updated = match repl {
            Some(n) => n,
            None => active,
        };
        self.algorithms.insert(c, updated);
        proof {
            assert(self.algorithms@ =~= old(self).algorithms@.update(
                old(self).cursor as int,
                old(self).algorithms@[old(self).cursor as int].spec_compute(stack@, bounds).0,
            ));
        }
        res
    }

    /// Decorate every registered algorithm uniformly, producing a new
    /// registry of identical length and cursor; the decoration forwards
    /// names and messages to the wrapped algorithm unchanged.
    pub fn map(self, t: Transform) -> (r: Self)
        requires
            self.wf(),
        ensures
            r.cursor == self.cursor,
            r.algorithms@.len() == self.algorithms@.len(),
            forall|k: int|
                0 <= k < self.algorithms@.len() ==> r.algorithms@[k] == Layout::Decorated(
                    t,
                    Box::new(self.algorithms@[k]),
                ),
            r.wf(),
    {
        let ghost orig: Seq<Layout> = self.algorithms@;
        let mut rest = self.algorithms;
        let mut out: Vec<Layout> = Vec::new();
        while rest.len() > 0
            invariant
                out@.len() + rest@.len() == orig.len(),
                forall|k: int|
                    0 <= k < out@.len() ==> out@[k] == Layout::Decorated(t, Box::new(orig[k])),
                forall|k: int| 0 <= k < rest@.len() ==> rest@[k] == orig[out@.len() + k],
            decreases rest@.len(),
    {
            let a = rest.remove(0);
            out.push(Layout::Decorated(t, Box::new(a)));
        }
        LayoutStack { algorithms: out, cursor: self.cursor }
    }
}

/// Law: cycling forward as many times as the registry holds algorithms
/// returns the cursor to its starting index, whatever the registry size.
pub proof fn lemma_cycle_full_rotation(s: LayoutStack)
    requires
        s.wf(),
    ensures
        cursor_after_cycles(
            s.cursor as int,
            s.algorithms@.len() as int,
            s.algorithms@.len(),
        ) == s.cursor,
{
    let len = s.algorithms@.len() as int;
    let c = s.cursor as int;
    if len >= 1 {
        lemma_cursor_cycles_mod(c, len, s.algorithms@.len());
        lemma_mod_add_multiples_vanish(c, len);
        lemma_small_mod(s.cursor as nat, s.algorithms@.len());
        assert(c + len == len + c);
    }
}

} // verus!
