//! Discrete control messages delivered to layout algorithms at runtime.

use vstd::prelude::*;

verus! {

/// A tagged control message. The set of kinds is open-ended: an algorithm
/// that does not recognize a kind must treat the message as a no-op rather
/// than an error, so kinds defined outside this core stay forward
/// compatible.
#[derive(Clone, Copy, Debug, PartialEq, Eq, Structural)]
pub enum Message {
    /// Change how many windows the main area holds by the given amount.
    IncMain(i32),
    /// Grow the main area by one resize step.
    ExpandMain,
    /// Shrink the main area by one resize step.
    ShrinkMain,
    /// A kind this core does not define, carried by an external tag; every
    /// built-in algorithm ignores it.
    Other(u32),
}

} // verus!
