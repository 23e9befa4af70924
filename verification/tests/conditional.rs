//! Behaviour of the conditional combinator.

use penrose_from_scratch::algorithm::Layout;
use penrose_from_scratch::conditional::{Conditional, Predicate};
use penrose_from_scratch::fibonacci::Fibonacci;
use penrose_from_scratch::geometry::{Ratio, Rect};
use penrose_from_scratch::message::Message;

fn rect(x: i32, y: i32, w: u32, h: u32) -> Rect {
    Rect { x, y, w, h }
}

fn fib(cutoff: u32, ratio: u32, step: u32) -> Layout {
    Layout::Fibonacci(Fibonacci::new(
        cutoff,
        Ratio { thousandths: ratio },
        Ratio { thousandths: step },
    ))
}

fn fib_ratio(l: &Layout) -> u32 {
    match l {
        Layout::Fibonacci(f) => f.ratio.thousandths,
        _ => panic!("expected the spiral algorithm"),
    }
}

#[test]
fn predicate_picks_left_under_threshold() {
    let mut c = Conditional::new(fib(40, 300, 100), fib(40, 700, 100), Predicate::WidthAtMost(1400));
    let windows: Vec<u64> = vec![1, 2];
    let (repl, ps) = c.compute(&windows, rect(0, 0, 1000, 800));
    assert!(repl.is_none());
    assert!(c.left_is_active);
    // The left child splits at 0.3, so the first window gets 300 pixels.
    assert_eq!(ps[0], (1, rect(0, 0, 300, 800)));
}

#[test]
fn predicate_picks_right_over_threshold() {
    let mut c = Conditional::new(fib(40, 300, 100), fib(40, 700, 100), Predicate::WidthAtMost(1400));
    let windows: Vec<u64> = vec![1, 2];
    let (_, ps) = c.compute(&windows, rect(0, 0, 1920, 1080));
    assert!(!c.left_is_active);
    // The right child splits at 0.7.
    assert_eq!(ps[0], (1, rect(0, 0, 1344, 1080)));
}

#[test]
fn compute_matches_the_chosen_child_exactly() {
    let mut c = Conditional::new(fib(40, 500, 100), fib(40, 700, 100), Predicate::EvenWindowCount);
    let windows: Vec<u64> = vec![1, 2, 3, 4];
    let ps = c.compute(&windows, rect(0, 0, 1000, 800)).1;
    let direct = Fibonacci::new(40, Ratio { thousandths: 500 }, Ratio { thousandths: 100 })
        .compute(&windows, rect(0, 0, 1000, 800))
        .1;
    assert_eq!(ps, direct);
}

#[test]
fn message_follows_the_compute_decision() {
    let mut c = Conditional::new(fib(40, 500, 100), fib(40, 500, 100), Predicate::EvenWindowCount);
    let windows: Vec<u64> = vec![1, 2, 3];
    // Three windows: the predicate is false, so the right child runs.
    c.compute(&windows, rect(0, 0, 1000, 800));
    assert!(!c.left_is_active);
    assert!(c.handle_message(&Message::ExpandMain).is_none());
    assert_eq!(fib_ratio(&c.left), 500);
    assert_eq!(fib_ratio(&c.right), 600);
}

#[test]
fn message_before_any_compute_routes_left() {
    let mut c = Conditional::new(fib(40, 500, 100), fib(40, 500, 100), Predicate::EvenWindowCount);
    c.handle_message(&Message::ShrinkMain);
    assert_eq!(fib_ratio(&c.left), 400);
    assert_eq!(fib_ratio(&c.right), 500);
}

#[test]
fn name_reflects_active_child() {
    let mut c = Conditional::new(fib(40, 500, 100), fib(40, 700, 100), Predicate::WidthAtMost(1400));
    assert_eq!(c.name(), "Fibo");
    let windows: Vec<u64> = vec![1];
    c.compute(&windows, rect(0, 0, 1920, 1080));
    assert_eq!(c.name(), "Fibo");
}

#[test]
fn clone_shares_no_state_with_the_original() {
    let mut c = Conditional::new(fib(40, 500, 100), fib(40, 500, 100), Predicate::EvenWindowCount);
    let copy = c.deep_clone();
    c.handle_message(&Message::ExpandMain);
    assert_eq!(fib_ratio(&c.left), 600);
    assert_eq!(fib_ratio(&copy.left), 500);
    assert_eq!(fib_ratio(&copy.right), 500);
    assert!(copy.left_is_active);
}
