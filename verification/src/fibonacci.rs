//! The recursive spiral partition algorithm.
//!
//! The screen is split at the current ratio; each window takes the first
//! part and the remainder is split again, alternating between vertical and
//! horizontal cuts, until the last window or the cutoff is reached, at which
//! point the remainder is merged back into the final window's rectangle.

use vstd::prelude::*;

use crate::algorithm::Layout;
use crate::geometry::{
    lemma_split_height_parts, lemma_split_width_parts, spec_split_height, spec_split_width,
    split_height_pct, split_width_pct, Ratio, Rect, RATIO_UNIT,
};
use crate::message::Message;
use crate::window::WindowId;

verus! {

/// Subdivision stops once a rectangle's width or height is at most this many
/// pixels, unless a smaller cutoff is chosen explicitly.
pub const DEFAULT_CUTOFF: u32 = 40;

/// The spiral partition algorithm: state is the stop extent, the current
/// split fraction, and the step applied per resize message.
#[derive(Clone, Copy, Debug, PartialEq, Eq, Structural)]
pub struct Fibonacci {
    /// Minimum pixel extent at which subdivision stops.
    pub cutoff: u32,
    /// Current split fraction; kept inside `[0, 1]` at all times.
    pub ratio: Ratio,
    /// Amount added to or subtracted from the ratio per resize message.
    pub ratio_step: Ratio,
}

/// The rectangle handed to the last window placed: the unsplit remainder is
/// merged back in, widening the rectangle when the stop index is even and
/// deepening it when odd.
pub open spec fn merge_remainder(r1: Rect, r2: Rect, even: bool) -> Rect {
    if even {
        Rect { x: r1.x, y: r1.y, w: (r1.w + r2.w) as u32, h: r1.h }
    } else {
        Rect { x: r1.x, y: r1.y, w: r1.w, h: (r1.h + r2.h) as u32 }
    }
}

/// The rectangles of a spiral pass, given the current split pair `(r1, r2)`,
/// the index `i` of the window about to be placed, and how many windows
/// remain. The pass stops at the last window or as soon as `r1` is at most
/// `cutoff` on either axis; the remainder then merges into the final
/// rectangle, so a pass may place fewer rectangles than windows remain.
pub open spec fn spiral_rects(
    r1: Rect,
    r2: Rect,
    i: nat,
    remaining: nat,
    cutoff: u32,
    ratio: Ratio,
) -> Seq<Rect>
    decreases remaining,
{
    if remaining <= 1 || r1.w <= cutoff || r1.h <= cutoff {
        seq![merge_remainder(r1, r2, i % 2 == 0)]
    } else if i % 2 == 0 {
        let (a, b) = spec_split_height(r2, ratio);
        seq![r1] + spiral_rects(a, b, i + 1, (remaining - 1) as nat, cutoff, ratio)
    } else {
        let (a, b) = spec_split_width(r2, ratio);
        seq![r1] + spiral_rects(a, b, i + 1, (remaining - 1) as nat, cutoff, ratio)
    }
}

/// True when a spiral pass starting from `(r1, r2)` at index `i` never hits
/// the cutoff before the last of the `remaining` windows, so every window
/// receives a rectangle.
pub open spec fn spiral_is_full(
    r1: Rect,
    r2: Rect,
    i: nat,
    remaining: nat,
    cutoff: u32,
    ratio: Ratio,
) -> bool
    decreases remaining,
{
    if remaining <= 1 {
        true
    } else if r1.w <= cutoff || r1.h <= cutoff {
        false
    } else if i % 2 == 0 {
        let (a, b) = spec_split_height(r2, ratio);
        spiral_is_full(a, b, i + 1, (remaining - 1) as nat, cutoff, ratio)
    } else {
        let (a, b) = spec_split_width(r2, ratio);
        spiral_is_full(a, b, i + 1, (remaining - 1) as nat, cutoff, ratio)
    }
}

/// A full spiral pass places exactly one rectangle per remaining window.
pub proof fn lemma_spiral_full_len(
    r1: Rect,
    r2: Rect,
    i: nat,
    remaining: nat,
    cutoff: u32,
    ratio: Ratio,
)
    requires
        remaining >= 1,
        spiral_is_full(r1, r2, i, remaining, cutoff, ratio),
    ensures
        spiral_rects(r1, r2, i, remaining, cutoff, ratio).len() == remaining,
    decreases remaining,
{
    if remaining <= 1 || r1.w <= cutoff || r1.h <= cutoff {
    } else if i % 2 == 0 {
        let (a, b) = spec_split_height(r2, ratio);
        lemma_spiral_full_len(a, b, i + 1, (remaining - 1) as nat, cutoff, ratio);
    } else {
        let (a, b) = spec_split_width(r2, ratio);
        lemma_spiral_full_len(a, b, i + 1, (remaining - 1) as nat, cutoff, ratio);
    }
}

impl Fibonacci {
    /// The ratio state is a meaningful fraction, so a compute pass can never
    /// request an out-of-range split.
    pub open spec fn wf(self) -> bool {
        self.ratio.is_valid() && self.ratio_step.is_valid()
    }

    /// The rectangles a compute pass assigns to `n` windows inside `bounds`,
    /// in stack order.
    pub open spec fn spec_rects(self, n: nat, bounds: Rect) -> Seq<Rect> {
        if n == 0 {
            Seq::empty()
        } else {
            let (r1, r2) = spec_split_width(bounds, self.ratio);
            spiral_rects(r1, r2, 0, n, self.cutoff, self.ratio)
        }
    }

    /// The placement list of a compute pass: the windows in stack order,
    /// paired with the spiral rectangles, truncated where the spiral stopped.
    pub open spec fn spec_placements(self, ids: Seq<WindowId>, bounds: Rect) -> Seq<
        (WindowId, Rect),
    > {
        Seq::new(
            self.spec_rects(ids.len(), bounds).len(),
            |k: int| (ids[k], self.spec_rects(ids.len(), bounds)[k]),
        )
    }

    /// The state after one message: resize messages move the ratio by one
    /// step, clamped to `[0, 1]`; every other kind is ignored.
    pub open spec fn spec_step(self, m: Message) -> Fibonacci {
        match m {
            Message::ExpandMain => {
                let sum: int = self.ratio.thousandths + self.ratio_step.thousandths;
                let t: int = if sum > RATIO_UNIT {
                    RATIO_UNIT as int
                } else {
                    sum
                };
                Fibonacci {
                    cutoff: self.cutoff,
                    ratio: Ratio { thousandths: t as u32 },
                    ratio_step: self.ratio_step,
                }
            },
            Message::ShrinkMain => {
                let t: int = if self.ratio.thousandths < self.ratio_step.thousandths {
                    0
                } else {
                    self.ratio.thousandths - self.ratio_step.thousandths
                };
                Fibonacci {
                    cutoff: self.cutoff,
                    ratio: Ratio { thousandths: t as u32 },
                    ratio_step: self.ratio_step,
                }
            },
            _ => self,
        }
    }

    /// Create the algorithm with an explicit cutoff, split fraction, and
    /// resize step; the fractions must lie in `[0, 1]`.
    pub fn new(cutoff: u32, ratio: Ratio, ratio_step: Ratio) -> (r: Self)
        requires
            ratio.is_valid(),
            ratio_step.is_valid(),
        ensures
            r == (Fibonacci { cutoff, ratio, ratio_step }),
            r.wf(),
    {
        Fibonacci { cutoff, ratio, ratio_step }
    }

    /// As `new`, but wrapped as a registry entry.
    pub fn boxed(cutoff: u32, ratio: Ratio, ratio_step: Ratio) -> (r: Layout)
        requires
            ratio.is_valid(),
            ratio_step.is_valid(),
        ensures
            r == Layout::Fibonacci(Fibonacci { cutoff, ratio, ratio_step }),
            r.wf(),
    {
        Layout::Fibonacci(Fibonacci::new(cutoff, ratio, ratio_step))
    }

    /// The default configuration, wrapped as a registry entry.
    pub fn boxed_default() -> (r: Layout)
        ensures
            r == Layout::Fibonacci(Fibonacci::default_spec()),
            r.wf(),
    {
        Layout::Fibonacci(Fibonacci::default())
    }

    /// The default configuration: the standard cutoff, an even split, and a
    /// tenth per resize step.
    pub open spec fn default_spec() -> Fibonacci {
        Fibonacci {
            cutoff: DEFAULT_CUTOFF,
            ratio: Ratio { thousandths: 500 },
            ratio_step: Ratio { thousandths: 100 },
        }
    }

    /// Display label of this algorithm.
    pub fn name(&self) -> (r: &'static str)
        ensures
            r@ == "Fibo"@,
    {
        "Fibo"
    }

    /// One compute pass: assigns one rectangle per window in stack order,
    /// following the spiral subdivision, stopping early at the cutoff. The
    /// algorithm never replaces itself.
    pub fn compute(&self, stack: &Vec<WindowId>, bounds: Rect) -> (res: (
        Option<Layout>,
        Vec<(WindowId, Rect)>,
    ))
        requires
            self.wf(),
            bounds.fits(),
        ensures
            res.0 is None,
            res.1@ == self.spec_placements(stack@, bounds),
    {
        let n: usize = stack.len();
        let mut positions: Vec<(WindowId, Rect)> = Vec::new();
        if n == 0 {
            proof {
                assert(positions@ =~= self.spec_placements(stack@, bounds));
            }
            return (None, positions);
        }
        let pair0 = split_width_pct(bounds, self.ratio);
        proof {
            lemma_split_width_parts(bounds, self.ratio);
        }
        let (mut r1, mut r2) = pair0.unwrap();
        let ghost full: Seq<Rect> = self.spec_rects(stack@.len(), bounds);
        proof {
            assert(full.skip(0) =~= full);
        }
        let mut i: usize = 0;
        let mut done = false;
        while !done
            invariant
                self.wf(),
                bounds.fits(),
                n == stack@.len(),
                n >= 1,
                full == self.spec_rects(stack@.len(), bounds),
                positions@.len() == (if done {
                    full.len()
                } else {
                    i as nat
                }),
                forall|k: int|
                    0 <= k < positions@.len() ==> positions@[k] == (stack@[k], full[k]),
                !done ==> i < n,
                !done ==> i <= full.len(),
                !done ==> r1.fits() && r2.fits(),
                !done ==> (if i % 2 == 0 {
                    r2.x == r1.x + r1.w && r2.y == r1.y && r2.h == r1.h
                } else {
                    r2.y == r1.y + r1.h && r2.x == r1.x && r2.w == r1.w
                }),
                !done ==> spiral_rects(r1, r2, i as nat, (n - i) as nat, self.cutoff, self.ratio)
                    == full.skip(i as int),
            decreases (n - i) + (if done {
                0int
            } else {
                1int
            }),
        {
            let at_cutoff = i == n - 1 || r1.w <= self.cutoff || r1.h <= self.cutoff;
            if at_cutoff {
                let ghost r1_prev = r1;
                proof {
                    assert(spiral_rects(
                        r1,
                        r2,
                        i as nat,
                        (n - i) as nat,
                        self.cutoff,
                        self.ratio,
                    ) == seq![merge_remainder(r1, r2, (i as nat) % 2 == 0)]);
                    assert(full.skip(i as int).len() == 1);
                    assert(full.skip(i as int)[0] == full[i as int]);
                }
                if i % 2 == 0 {
                    r1.w = r1.w + r2.w;
                } else {
                    r1.h = r1.h + r2.h;
                }
                proof {
                    assert(r1 == merge_remainder(r1_prev, r2, (i as nat) % 2 == 0));
                    assert(full[i as int] == r1);
                }
                positions.push((stack[i], r1));
                done = true;
            } else {
                positions.push((stack[i], r1));
                let pair = if i % 2 == 0 {
                    split_height_pct(r2, self.ratio)
                } else {
                    split_width_pct(r2, self.ratio)
                };
                let (a, b) = pair.unwrap();
                proof {
                    if i % 2 == 0 {
                        lemma_split_height_parts(r2, self.ratio);
                    } else {
                        lemma_split_width_parts(r2, self.ratio);
                    }
                    assert(spiral_rects(
                        r1,
                        r2,
                        i as nat,
                        (n - i) as nat,
                        self.cutoff,
                        self.ratio,
                    ) == seq![r1] + spiral_rects(
                        a,
                        b,
                        (i + 1) as nat,
                        (n - i - 1) as nat,
                        self.cutoff,
                        self.ratio,
                    ));
                    assert(full.skip(i as int)[0] == full[i as int]);
                    assert(full[i as int] == r1);
                    assert(full.skip(i as int + 1) =~= spiral_rects(
                        a,
                        b,
                        (i + 1) as nat,
                        (n - i - 1) as nat,
                        self.cutoff,
                        self.ratio,
                    )) by {
                        let rest = spiral_rects(
                            a,
                            b,
                            (i + 1) as nat,
                            (n - i - 1) as nat,
                            self.cutoff,
                            self.ratio,
                        );
                        assert forall|k: int| 0 <= k < rest.len() implies full.skip(
                            i as int + 1,
                        )[k] == rest[k] by {
                            assert(full.skip(i as int)[k + 1] == rest[k]);
                            assert(full.skip(i as int)[k + 1] == full[i as int + 1 + k]);
                        }
                    }
                }
                r1 = a;
                r2 = b;
                i = i + 1;
            }
        }
        proof {
            assert(positions@ =~= self.spec_placements(stack@, bounds));
        }
        (None, positions)
    }

    /// React to a control message. `ExpandMain` and `ShrinkMain` move the
    /// ratio one step, clamping at the ends of `[0, 1]`; every other kind is
    /// ignored. The same instance always persists.
    pub fn handle_message(&mut self, m: &Message) -> (res: Option<Layout>)
        requires
            old(self).wf(),
        ensures
            res is None,
            *final(self) == old(self).spec_step(*m),
            final(self).wf(),
    {
        match *m {
            Message::ExpandMain => {
                let sum: u32 = self.ratio.thousandths + self.ratio_step.thousandths;
                let t: u32 = if sum > RATIO_UNIT {
                    RATIO_UNIT
                } else {
                    sum
                };
                self.ratio = Ratio { thousandths: t };
            },
            Message::ShrinkMain => {
                let t: u32 = if self.ratio.thousandths < self.ratio_step.thousandths {
                    0
                } else {
                    self.ratio.thousandths - self.ratio_step.thousandths
                };
                self.ratio = Ratio { thousandths: t };
            },
            _ => {},
        }
        None
    }
}

impl Default for Fibonacci {
    /// The default configuration: the standard cutoff, an even split, and a
    /// tenth per resize step.
    fn default() -> (r: Self)
        ensures
            r == Fibonacci::default_spec(),
            r.wf(),
    {
        Fibonacci {
            cutoff: DEFAULT_CUTOFF,
            ratio: Ratio { thousandths: 500 },
            ratio_step: Ratio { thousandths: 100 },
        }
    }
}

/// The state after a whole sequence of messages, applied front to back.
pub open spec fn after_messages(f: Fibonacci, ms: Seq<Message>) -> Fibonacci
    decreases ms.len(),
{
    if ms.len() == 0 {
        f
    } else {
        after_messages(f.spec_step(ms[0]), ms.drop_first())
    }
}

/// Law: however many resize messages arrive, and in whatever order, the
/// ratio never leaves `[0, 1]`.
pub proof fn lemma_ratio_stays_in_bounds(f: Fibonacci, ms: Seq<Message>)
    requires
        f.wf(),
    ensures
        after_messages(f, ms).wf(),
        after_messages(f, ms).ratio.thousandths <= RATIO_UNIT,
    decreases ms.len(),
{
    if ms.len() > 0 {
        lemma_ratio_stays_in_bounds(f.spec_step(ms[0]), ms.drop_first());
    }
}

/// Law: `ExpandMain` followed by `ShrinkMain` restores the state exactly,
/// provided the expansion does not clamp at `1`; the shrink of the same step
/// can then never clamp at `0`.
pub proof fn lemma_expand_shrink_roundtrip(f: Fibonacci)
    requires
        f.wf(),
        f.ratio.thousandths + f.ratio_step.thousandths <= RATIO_UNIT,
    ensures
        f.spec_step(Message::ExpandMain).spec_step(Message::ShrinkMain) == f,
{
}

/// Law: for a non-empty window stack inside positive-area bounds, when the
/// cutoff never stops subdivision early, a compute pass returns exactly one
/// placement per window: the windows appear in stack order, none invented,
/// none dropped.
pub proof fn lemma_full_coverage(f: Fibonacci, ids: Seq<WindowId>, bounds: Rect)
    requires
        f.wf(),
        ids.len() >= 1,
        bounds.w > 0,
        bounds.h > 0,
        ({
            let (r1, r2) = spec_split_width(bounds, f.ratio);
            spiral_is_full(r1, r2, 0, ids.len(), f.cutoff, f.ratio)
        }),
    ensures
        f.spec_placements(ids, bounds).len() == ids.len(),
        forall|k: int| 0 <= k < ids.len() ==> f.spec_placements(ids, bounds)[k].0 == ids[k],
{
    let (r1, r2) = spec_split_width(bounds, f.ratio);
    lemma_spiral_full_len(r1, r2, 0, ids.len(), f.cutoff, f.ratio);
}

} // verus!
