use pathtracer::integrator::{Outcome, PathTracer, Terminal};

#[test]
fn depth_zero_is_black_without_tracing() {
    let t = PathTracer::new(0);
    assert!(t.is_finished());
    assert_eq!(t.terminal(), Some(Terminal::Black));
    assert_eq!(t.bounces(), 0);
}

#[test]
fn first_miss_shows_background() {
    let mut t = PathTracer::new(50);
    assert!(!t.is_finished());
    t.record(Outcome::Miss);
    assert!(t.is_finished());
    assert_eq!(t.terminal(), Some(Terminal::Background));
    assert_eq!(t.bounces(), 0);
}

#[test]
fn absorbed_path_keeps_earlier_bounces() {
    let mut t = PathTracer::new(50);
    t.record(Outcome::Scattered);
    t.record(Outcome::Scattered);
    assert!(!t.is_finished());
    assert_eq!(t.bounces(), 2);
    t.record(Outcome::Absorbed);
    assert!(t.is_finished());
    assert_eq!(t.terminal(), Some(Terminal::Black));
    assert_eq!(t.bounces(), 2);
}

#[test]
fn miss_after_bounces_ends_on_background() {
    let mut t = PathTracer::new(5);
    t.record(Outcome::Scattered);
    t.record(Outcome::Miss);
    assert_eq!(t.terminal(), Some(Terminal::Background));
    assert_eq!(t.bounces(), 1);
}

#[test]
fn bounce_limit_ends_path_on_black() {
    let mut t = PathTracer::new(3);
    for expected in [2u32, 1, 0] {
        assert!(!t.is_finished());
        t.record(Outcome::Scattered);
        assert_eq!(t.remaining(), expected);
    }
    assert!(t.is_finished());
    assert_eq!(t.terminal(), Some(Terminal::Black));
    assert_eq!(t.bounces(), 3);
}

#[test]
fn depth_one_allows_a_single_trace() {
    let mut t = PathTracer::new(1);
    assert_eq!(t.remaining(), 1);
    t.record(Outcome::Scattered);
    assert!(t.is_finished());
    assert_eq!(t.terminal(), Some(Terminal::Black));
    assert_eq!(t.bounces(), 1);
}
