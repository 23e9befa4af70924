//! Behaviour of the spiral partition algorithm.

use penrose_from_scratch::fibonacci::Fibonacci;
use penrose_from_scratch::geometry::{Ratio, Rect};
use penrose_from_scratch::message::Message;

fn rect(x: i32, y: i32, w: u32, h: u32) -> Rect {
    Rect { x, y, w, h }
}

fn fib(cutoff: u32, ratio: u32, step: u32) -> Fibonacci {
    Fibonacci::new(cutoff, Ratio { thousandths: ratio }, Ratio { thousandths: step })
}

#[test]
fn spiral_places_four_windows() {
    let f = fib(40, 500, 100);
    let windows: Vec<u64> = vec![1, 2, 3, 4];
    let (repl, ps) = f.compute(&windows, rect(0, 0, 1000, 800));
    assert!(repl.is_none());
    assert_eq!(
        ps,
        vec![
            (1, rect(0, 0, 500, 800)),
            (2, rect(500, 0, 500, 400)),
            (3, rect(500, 400, 250, 400)),
            (4, rect(750, 400, 250, 400)),
        ]
    );
}

#[test]
fn empty_window_stack_gives_no_placements() {
    let f = fib(40, 500, 100);
    let windows: Vec<u64> = vec![];
    let (repl, ps) = f.compute(&windows, rect(0, 0, 1000, 800));
    assert!(repl.is_none());
    assert!(ps.is_empty());
}

#[test]
fn single_window_fills_the_bounds() {
    let f = fib(40, 500, 100);
    let windows: Vec<u64> = vec![9];
    let (_, ps) = f.compute(&windows, rect(0, 0, 1000, 800));
    assert_eq!(ps, vec![(9, rect(0, 0, 1000, 800))]);
}

#[test]
fn cutoff_stops_subdivision_early() {
    // With 100x100 bounds and a cutoff of 40, the third window reaches a
    // 25-pixel-wide slot, so the remainder merges there and the last two
    // windows receive no rectangle.
    let f = fib(40, 500, 100);
    let windows: Vec<u64> = vec![1, 2, 3, 4, 5];
    let (_, ps) = f.compute(&windows, rect(0, 0, 100, 100));
    assert_eq!(
        ps,
        vec![
            (1, rect(0, 0, 50, 100)),
            (2, rect(50, 0, 50, 50)),
            (3, rect(50, 50, 50, 50)),
        ]
    );
}

#[test]
fn compute_is_deterministic() {
    let f = fib(40, 500, 100);
    let windows: Vec<u64> = vec![3, 1, 4, 1];
    let a = f.compute(&windows, rect(0, 0, 800, 600)).1;
    let b = f.compute(&windows, rect(0, 0, 800, 600)).1;
    assert_eq!(a, b);
}

#[test]
fn expand_then_shrink_restores_ratio() {
    let mut f = fib(40, 500, 100);
    assert!(f.handle_message(&Message::ExpandMain).is_none());
    assert_eq!(f.ratio.thousandths, 600);
    assert!(f.handle_message(&Message::ShrinkMain).is_none());
    assert_eq!(f, fib(40, 500, 100));
}

#[test]
fn expand_clamps_at_one() {
    let mut f = fib(40, 950, 100);
    f.handle_message(&Message::ExpandMain);
    assert_eq!(f.ratio.thousandths, 1000);
    f.handle_message(&Message::ExpandMain);
    assert_eq!(f.ratio.thousandths, 1000);
}

#[test]
fn shrink_clamps_at_zero() {
    let mut f = fib(40, 50, 100);
    f.handle_message(&Message::ShrinkMain);
    assert_eq!(f.ratio.thousandths, 0);
    f.handle_message(&Message::ShrinkMain);
    assert_eq!(f.ratio.thousandths, 0);
}

#[test]
fn ratio_stays_in_bounds_under_message_storm() {
    let mut f = fib(40, 500, 100);
    for i in 0..100 {
        let m = if i % 3 == 0 {
            Message::ExpandMain
        } else {
            Message::ShrinkMain
        };
        f.handle_message(&m);
        assert!(f.ratio.thousandths <= 1000);
    }
}

#[test]
fn unrecognized_messages_are_ignored() {
    let mut f = fib(40, 500, 100);
    assert!(f.handle_message(&Message::IncMain(1)).is_none());
    assert!(f.handle_message(&Message::IncMain(-1)).is_none());
    assert!(f.handle_message(&Message::Other(7)).is_none());
    assert_eq!(f, fib(40, 500, 100));
}

#[test]
fn default_configuration() {
    let f = Fibonacci::default();
    assert_eq!(f.cutoff, 40);
    assert_eq!(f.ratio.thousandths, 500);
    assert_eq!(f.ratio_step.thousandths, 100);
}

#[test]
fn name_is_fibo() {
    assert_eq!(fib(40, 500, 100).name(), "Fibo");
}

#[test]
fn degenerate_ratio_yields_zero_area_rects() {
    // A ratio clamped at zero is valid: one side of each split just has no
    // area.
    let mut f = fib(40, 100, 100);
    f.handle_message(&Message::ShrinkMain);
    assert_eq!(f.ratio.thousandths, 0);
    let windows: Vec<u64> = vec![1, 2];
    let (_, ps) = f.compute(&windows, rect(0, 0, 100, 100));
    // The first slot is zero pixels wide, so the pass stops there at the
    // cutoff and merges the remainder into the first window.
    assert_eq!(ps, vec![(1, rect(0, 0, 100, 100))]);
}
