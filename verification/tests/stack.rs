//! Behaviour of the algorithm registry.

use penrose_from_scratch::algorithm::{Layout, Transform};
use penrose_from_scratch::fibonacci::Fibonacci;
use penrose_from_scratch::geometry::{Ratio, Rect};
use penrose_from_scratch::message::Message;
use penrose_from_scratch::stack::LayoutStack;

fn rect(x: i32, y: i32, w: u32, h: u32) -> Rect {
    Rect { x, y, w, h }
}

fn fib(cutoff: u32, ratio: u32, step: u32) -> Layout {
    Layout::Fibonacci(Fibonacci::new(
        cutoff,
        Ratio { thousandths: ratio },
        Ratio { thousandths: step },
    ))
}

fn fib_ratio(l: &Layout) -> u32 {
    match l {
        Layout::Fibonacci(f) => f.ratio.thousandths,
        _ => panic!("expected the spiral algorithm"),
    }
}

#[test]
fn cycling_full_length_returns_to_start() {
    let mut s = LayoutStack::new(vec![fib(40, 300, 100), fib(40, 500, 100), fib(40, 700, 100)]);
    assert_eq!(s.cursor, 0);
    s.cycle_next();
    assert_eq!(s.cursor, 1);
    s.cycle_next();
    assert_eq!(s.cursor, 2);
    s.cycle_next();
    assert_eq!(s.cursor, 0);
}

#[test]
fn cycle_previous_wraps_to_end() {
    let mut s = LayoutStack::new(vec![fib(40, 300, 100), fib(40, 500, 100), fib(40, 700, 100)]);
    s.cycle_previous();
    assert_eq!(s.cursor, 2);
    s.cycle_previous();
    assert_eq!(s.cursor, 1);
}

#[test]
fn cycling_is_a_noop_with_one_algorithm() {
    let mut s = LayoutStack::new(vec![fib(40, 500, 100)]);
    s.cycle_next();
    assert_eq!(s.cursor, 0);
    s.cycle_previous();
    assert_eq!(s.cursor, 0);
}

#[test]
fn empty_registry_is_a_legal_noop_state() {
    let mut s = LayoutStack::new(vec![]);
    assert!(s.current().is_none());
    s.cycle_next();
    s.cycle_previous();
    s.broadcast(&Message::ExpandMain);
    let windows: Vec<u64> = vec![1, 2];
    let ps = s.compute(&windows, rect(0, 0, 1000, 800));
    assert!(ps.is_empty());
    assert_eq!(s.cursor, 0);
}

#[test]
fn empty_window_stack_gives_empty_placements_for_any_bounds() {
    let mut s = LayoutStack::new(vec![fib(40, 500, 100), fib(40, 700, 100)]);
    let windows: Vec<u64> = vec![];
    assert!(s.compute(&windows, rect(0, 0, 1, 1)).is_empty());
    assert!(s.compute(&windows, rect(500, 300, 1920, 1080)).is_empty());
    assert!(s.compute(&windows, rect(0, 0, 0, 0)).is_empty());
}

#[test]
fn compute_delegates_to_the_active_algorithm() {
    let mut s = LayoutStack::new(vec![fib(40, 300, 100), fib(40, 700, 100)]);
    s.cycle_next();
    let windows: Vec<u64> = vec![1, 2];
    let ps = s.compute(&windows, rect(0, 0, 1000, 800));
    // The second algorithm splits at 0.7.
    assert_eq!(ps[0], (1, rect(0, 0, 700, 800)));
    assert_eq!(s.cursor, 1);
}

#[test]
fn broadcast_reaches_only_the_active_algorithm() {
    let mut s = LayoutStack::new(vec![fib(40, 500, 100), fib(40, 500, 100)]);
    s.broadcast(&Message::ExpandMain);
    assert_eq!(fib_ratio(&s.algorithms[0]), 600);
    assert_eq!(fib_ratio(&s.algorithms[1]), 500);
    assert_eq!(s.cursor, 0);
}

#[test]
fn current_peeks_at_the_active_algorithm() {
    let mut s = LayoutStack::new(vec![fib(40, 300, 100), fib(40, 700, 100)]);
    assert_eq!(fib_ratio(s.current().unwrap()), 300);
    s.cycle_next();
    assert_eq!(fib_ratio(s.current().unwrap()), 700);
}

#[test]
fn map_decorates_every_algorithm_and_keeps_the_cursor() {
    let s = LayoutStack::new(vec![fib(40, 500, 100), fib(40, 700, 100)]);
    let mut s = s.map(Transform::ReserveBottom(24));
    assert_eq!(s.algorithms.len(), 2);
    assert_eq!(s.cursor, 0);
    let windows: Vec<u64> = vec![1];
    let ps = s.compute(&windows, rect(0, 0, 1000, 800));
    // The single window fills the bounds minus the reserved band.
    assert_eq!(ps, vec![(1, rect(0, 0, 1000, 776))]);
}

#[test]
fn decoration_forwards_messages_to_the_wrapped_algorithm() {
    let s = LayoutStack::new(vec![fib(40, 500, 100)]);
    let mut s = s.map(Transform::ReserveTop(24));
    s.broadcast(&Message::ExpandMain);
    match &s.algorithms[0] {
        Layout::Decorated(Transform::ReserveTop(px), inner) => {
            assert_eq!(*px, 24);
            assert_eq!(fib_ratio(inner), 600);
        }
        _ => panic!("expected a decorated algorithm"),
    }
}
