//! A verified tiling-layout core: rectangle-splitting primitives, a
//! recursive spiral partition algorithm, a conditional combinator over two
//! algorithms, and an ordered registry of algorithms with an active cursor.
//!
//! The surrounding window manager hands a window list and the screen bounds
//! to the registry once per layout pass and applies the rectangles that come
//! back; user actions arrive as discrete message values.

pub mod algorithm;
pub mod conditional;
pub mod fibonacci;
pub mod geometry;
pub mod message;
pub mod stack;
pub mod window;
