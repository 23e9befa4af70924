//! The window identifiers a layout pass works over.

use vstd::prelude::*;

verus! {

/// An opaque, externally issued window identifier. The engine uses it only
/// as a key: it is never interpreted, invented, or retained across calls.
pub type WindowId = u64;

} // verus!
