use lanmic::util::{millis, now_ms, Clock};

#[test]
fn the_clock_moves_forward_only() {
    let start = std::time::Instant::now();
    let a = now_ms(&start);
    let b = now_ms(&start);
    assert!(b >= a);
    assert!(a >= 0);
}

#[test]
fn a_clock_that_has_run_too_long_is_pinned() {
    assert_eq!(millis(0), 0);
    assert_eq!(millis(1234), 1234);
    assert_eq!(millis(i64::MAX as u128), i64::MAX);
    assert_eq!(millis(u128::MAX), i64::MAX);
}

#[test]
fn the_clock_counts_milliseconds() {
    let start = std::time::Instant::now();
    while start.elapsed().as_millis() < 5 {}
    let ms = now_ms(&start);
    assert!((5..5_000).contains(&ms), "{ms}");
}

#[test]
fn a_clock_never_shows_less_than_it_has_shown() {
    let mut clock = Clock::new(std::time::Instant::now());
    assert_eq!(clock.show(0), 0);
    assert_eq!(clock.show(7), 7);
    assert_eq!(clock.show(3), 7);
    assert_eq!(clock.show(8), 8);
    assert_eq!(clock.show(u128::MAX), i64::MAX);
    assert_eq!(clock.show(8), i64::MAX);
}

#[test]
fn a_clock_keeps_the_time() {
    let start = std::time::Instant::now();
    let mut clock = Clock::new(start);
    let a = clock.now_ms();
    while start.elapsed().as_millis() < 5 {}
    let b = clock.now_ms();
    assert!(a >= 0 && b >= a);
    assert!((5..5_000).contains(&b), "{b}");
}
