use burster::time::elapsed_millis;
use burster::{CantConsume, FixedWindow, FixedWindowState, Limiter, MockClock};
use std::time::Duration;

#[test]
fn fixed_window_impl_verify_rate() {
    let clock = MockClock::new();
    // Each call steps the clock 100us forward
    let mut w = FixedWindow::new_with_time_provider(1000, 1, || clock.step(100));

    // T = 100us, tokens left = 1000
    assert!(w.try_consume(500).is_ok());
    // T = 200us, tokens left = 500
    assert!(w.try_consume(500).is_ok());
    // T = 300us, tokens left = 0
    assert!(w.try_consume_one().is_err());
    // T = 400us, tokens left = 0
    assert!(w.try_consume_one().is_err());
    // T = 500us, tokens left = 0
    assert!(w.try_consume_one().is_err());
    // T = 600us, tokens left = 0
    assert!(w.try_consume_one().is_err());
    // T = 700us, tokens left = 0
    assert!(w.try_consume_one().is_err());
    // T = 800us, tokens left = 0
    assert!(w.try_consume_one().is_err());
    // T = 900us, tokens left = 0
    assert!(w.try_consume_one().is_err());
    // T = 1000us, tokens left = 1000
    assert!(w.try_consume_one().is_ok());
    // T = 1100us, tokens left = 999
    assert!(w.try_consume(998).is_ok());
    // T = 1100us, tokens left = 1
    assert!(w.try_consume(2).is_err());
}

#[test]
fn test_fixed_window_average_rate() {
    let n = 200_000;
    let epsilon = 0.01;
    let rate = 100;
    let clock = MockClock::new();

    // Fake timekeeping increments our "clock" by 1ms each call
    // 100 tokens per 1000 milliseconds should add up to a rate of 100/s.
    let mut w = FixedWindow::new_with_time_provider(100, 1000, || clock.step(1000));

    let mut n_pass = 0;
    for _ in 0..n {
        if w.try_consume_one().is_ok() {
            n_pass += 1;
        }
    }

    let seconds = n as f64 * 0.001;
    let tokens_per_second = n_pass as f64 / seconds;
    assert!((tokens_per_second - rate as f64).abs() <= epsilon);
}

#[test]
fn refusal_message() {
    assert_eq!(CantConsume.message(), "can't consume from limiter");
}

#[test]
fn mock_clock_reports_then_steps() {
    let clock = MockClock::new();
    assert_eq!(clock.step(250), Duration::from_micros(0));
    assert_eq!(clock.step(1), Duration::from_micros(250));
    assert_eq!(clock.step(0), Duration::from_micros(251));
    assert_eq!(clock.step(0).as_nanos(), 251_000);
}

#[test]
fn elapsed_millis_rounds_down_and_saturates() {
    assert_eq!(elapsed_millis(0, 999_999), 0);
    assert_eq!(elapsed_millis(0, 1_000_000), 1);
    assert_eq!(elapsed_millis(500_000, 2_499_999), 1);
    assert_eq!(elapsed_millis(500_000, 2_500_000), 2);
    assert_eq!(elapsed_millis(7_000_000, 7_000_000), 0);
    // A clock that ran backwards counts as no time elapsed.
    assert_eq!(elapsed_millis(7_000_000, 1), 0);
    assert_eq!(elapsed_millis(0, u128::MAX), u128::MAX / 1_000_000);
}

#[test]
fn fixed_window_starts_full_in_window_zero() {
    let s = FixedWindowState::new(7, 3, 42);
    assert_eq!(
        s,
        FixedWindowState { capacity: 7, width_ms: 3, tokens: 7, window_index: 0, start_ns: 42 }
    );
}

#[test]
fn fixed_window_reads_its_clock_at_construction() {
    let clock = MockClock::new();
    clock.step(5_000);
    let w = FixedWindow::new_with_time_provider(10, 2, || clock.step(1_000));
    assert_eq!(
        w.state(),
        FixedWindowState { capacity: 10, width_ms: 2, tokens: 10, window_index: 0, start_ns: 5_000_000 }
    );
}

#[test]
fn fixed_window_indexes_from_construction() {
    // Windows are 10 ms wide and start 3 ms after the epoch.
    let mut s = FixedWindowState::new(5, 10, 3_000_000);
    assert!(s.try_consume_at(5, 12_999_999).is_ok());
    assert_eq!((s.tokens, s.window_index), (0, 0));
    assert_eq!(s.try_consume_at(1, 12_999_999), Err(CantConsume));
    assert_eq!((s.tokens, s.window_index), (0, 0));
    // 10 ms after construction the next window begins.
    assert!(s.try_consume_at(2, 13_000_000).is_ok());
    assert_eq!((s.tokens, s.window_index), (3, 1));
    // Window 7 holds the times from 73 ms to just before 83 ms.
    assert!(s.try_consume_at(0, 82_999_999).is_ok());
    assert_eq!((s.tokens, s.window_index), (5, 7));
}

#[test]
fn fixed_window_refusal_still_opens_new_window() {
    let mut s = FixedWindowState::new(5, 1, 0);
    assert!(s.try_consume_at(4, 0).is_ok());
    assert_eq!(s.try_consume_at(6, 2_000_000), Err(CantConsume));
    // The new window was opened and is untouched.
    assert_eq!((s.tokens, s.window_index), (5, 2));
}

#[test]
fn fixed_window_allows_double_burst_at_boundary() {
    let mut s = FixedWindowState::new(100, 1000, 0);
    assert!(s.try_consume_at(100, 999_999_999).is_ok());
    assert!(s.try_consume_at(100, 1_000_000_000).is_ok());
    assert!(s.try_consume_at(1, 1_000_000_001).is_err());
}

#[test]
fn fixed_window_backward_clock_is_window_zero() {
    let mut s = FixedWindowState::new(3, 1, 5_000_000);
    assert!(s.try_consume_at(1, 9_000_000).is_ok());
    assert_eq!((s.tokens, s.window_index), (2, 4));
    // Before construction: no time elapsed, which is window 0 again.
    assert!(s.try_consume_at(3, 1_000_000).is_ok());
    assert_eq!((s.tokens, s.window_index), (0, 0));
}

#[test]
fn fixed_window_same_instant_replenishes_once() {
    let mut s = FixedWindowState::new(10, 1, 0);
    assert!(s.try_consume_at(10, 0).is_ok());
    assert!(s.try_consume_at(6, 5_000_000).is_ok());
    assert!(s.try_consume_at(4, 5_000_000).is_ok());
    assert!(s.try_consume_at(1, 5_000_000).is_err());
    assert_eq!(s.tokens, 0);
}

#[test]
fn fixed_window_millis_wrap_at_64_bits() {
    // 2^64 ms and 5 ms more: the count of milliseconds wraps to 5.
    let now: u128 = ((1u128 << 64) + 5) * 1_000_000;
    let mut s = FixedWindowState::new(1, 2, 0);
    assert!(s.try_consume_at(0, now).is_ok());
    assert_eq!(s.window_index, 2);
}
