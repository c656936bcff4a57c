use burster::{
    CantConsume, Limiter, LimiterResult, MockClock, SlidingWindowCounter,
    SlidingWindowCounterState, SlidingWindowLog, SlidingWindowLogState,
};
use std::time::Duration;

/// One attempt on a sliding window counter: the share of the previous window
/// that still counts is weighed in floating point.
fn counter_try_consume<T: Fn() -> Duration>(
    w: &mut SlidingWindowCounter<T>,
    tokens: u64,
) -> LimiterResult {
    let delta_t = w.elapsed_millis() as f64;
    let index_float = delta_t / w.state().window_width_ms as f64;
    let index = index_float.trunc() as u64;
    let overlap = index_float.fract();
    w.roll_to(index);
    let effective_tokens_previous = (w.state().tokens_prev as f64 * (1.0 - overlap)) as u64;
    w.try_consume_weighted(tokens, effective_tokens_previous)
}

#[test]
fn verify_rate_sliding() {
    let clock = MockClock::new();
    // Each call steps the clock 1ms forward
    let mut w = SlidingWindowLog::<_, 10>::new_with_time_provider(1000, || clock.step(1000));

    // T = 1ms, tokens left = 1000
    assert!(w.try_consume(500).is_ok());
    // T = 2ms, tokens left = 500
    assert!(w.try_consume(500).is_ok());
    // T = 3ms, tokens left = 0
    assert!(w.try_consume_one().is_err());
    // T = 4ms, tokens left = 0
    assert!(w.try_consume_one().is_err());
    // T = 5ms, tokens left = 0
    assert!(w.try_consume_one().is_err());
    // T = 6ms, tokens left = 0
    assert!(w.try_consume_one().is_err());
    // T = 7ms, tokens left = 0
    assert!(w.try_consume_one().is_err());
    // T = 8ms, tokens left = 0
    assert!(w.try_consume_one().is_err());
    // T = 9ms, tokens left = 0
    assert!(w.try_consume_one().is_err());
    // T = 10ms, tokens left = 0
    assert!(w.try_consume_one().is_err());
    // T = 11ms, tokens left = 500
    assert!(w.try_consume_one().is_ok());
    // T = 12ms, tokens left = 999
    assert!(w.try_consume(999).is_ok());
    // T = 13ms, tokens left = 0
    assert!(w.try_consume_one().is_err());
}

#[test]
fn verify_rate_sliding_counter() {
    let clock = MockClock::new();
    // Each call steps the clock 1ms forward
    let mut w = SlidingWindowCounter::new_with_time_provider(1000, 10, || clock.step(1000));

    // First window
    // T = 1ms, tokens left = 1000
    assert!(counter_try_consume(&mut w, 1000).is_ok());
    // T = 2ms, tokens left = 0
    assert!(counter_try_consume(&mut w, 1).is_err());
    // T = 3ms, tokens left = 0
    assert!(counter_try_consume(&mut w, 1).is_err());
    // T = 4ms, tokens left = 0
    assert!(counter_try_consume(&mut w, 1).is_err());
    // T = 5ms, tokens left = 0
    assert!(counter_try_consume(&mut w, 1).is_err());
    // T = 6ms, tokens left = 0
    assert!(counter_try_consume(&mut w, 1).is_err());
    // T = 7ms, tokens left = 0
    assert!(counter_try_consume(&mut w, 1).is_err());
    // T = 8ms, tokens left = 0
    assert!(counter_try_consume(&mut w, 1).is_err());
    // T = 9ms, tokens left = 0
    assert!(counter_try_consume(&mut w, 1).is_err());
    // T = 10ms, tokens left = 0
    assert!(counter_try_consume(&mut w, 1).is_err());
    // Second
    // T = 11ms, effective tokens used by previous window = 0.10.. * 1000 = 899
    assert!(counter_try_consume(&mut w, 101).is_ok());
    // T = 12ms, effective tokens used by previous window = 0.199.. * 1000 = 800
    // tokens used by this window = 101
    // total left = 99
    assert!(counter_try_consume(&mut w, 99).is_ok());

    // T = 12ms, effective tokens used by previous window = 0.30.. * 1000 = 700
    // tokens used by this window = 200
    // total left = 100
    assert!(counter_try_consume(&mut w, 101).is_err());
}

#[test]
fn test_sliding_window_average_rate() {
    let n = 200_000;
    let epsilon = 0.01;
    let rate = 100;
    let clock = MockClock::new();

    // Fake timekeeping increments our "clock" by 1ms each call
    // 100 tokens per 1000 milliseconds should add up to a rate of 100/s.
    let mut w = SlidingWindowLog::<_, 1000>::new_with_time_provider(100, || clock.step(1000));

    let mut n_pass = 0;
    for _ in 0..n {
        if w.try_consume_one().is_ok() {
            n_pass += 1;
        }
    }

    let seconds = n as f64 * 0.001;
    let tokens_per_second = n_pass as f64 / seconds;
    assert!((tokens_per_second - rate as f64).abs() <= epsilon);
}

#[test]
fn test_sliding_counter_average_rate() {
    let n = 200_000;
    let epsilon = 5.0;
    let rate = 100;
    let clock = MockClock::new();
    let mut w = SlidingWindowCounter::new_with_time_provider(100, 1000, || clock.step(1000));

    let mut n_pass = 0;
    for _ in 0..n {
        if counter_try_consume(&mut w, 1).is_ok() {
            n_pass += 1;
        }
    }

    let seconds = n as f64 * 0.001;
    let tokens_per_second = n_pass as f64 / seconds;
    assert!((tokens_per_second - rate as f64).abs() <= epsilon);
}

#[test]
fn sliding_log_starts_empty() {
    let s = SlidingWindowLogState::<4>::new(10, 0);
    assert_eq!(s.used(), 0);
}

#[test]
fn sliding_log_frees_tokens_slot_by_slot() {
    let mut s = SlidingWindowLogState::<3>::new(10, 0);
    assert!(s.try_consume_at(4, 0).is_ok());
    assert!(s.try_consume_at(6, 1_000_000).is_ok());
    assert_eq!(s.used(), 10);
    assert_eq!(s.try_consume_at(1, 2_000_000), Err(CantConsume));
    assert_eq!(s.used(), 10);
    // 3 ms after the first grant its slot has left the window.
    assert_eq!(s.try_consume_at(5, 3_000_000), Err(CantConsume));
    assert_eq!(s.used(), 6);
    assert!(s.try_consume_at(4, 3_000_000).is_ok());
    assert_eq!(s.used(), 10);
    // One more millisecond frees the 6 tokens granted at 1 ms.
    assert!(s.try_consume_at(6, 4_000_000).is_ok());
    assert_eq!(s.used(), 10);
}

#[test]
fn sliding_log_shifts_by_several_slots() {
    let mut s = SlidingWindowLogState::<5>::new(100, 0);
    assert!(s.try_consume_at(1, 0).is_ok());
    assert!(s.try_consume_at(10, 1_000_000).is_ok());
    assert!(s.try_consume_at(100 - 11, 2_000_000).is_ok());
    // Three slots on, the grant at 0 ms has left and the others remain.
    assert!(s.try_consume_at(0, 5_000_000).is_ok());
    assert_eq!(s.used(), 99);
    // One more and the grant at 1 ms has left too.
    assert!(s.try_consume_at(0, 6_000_000).is_ok());
    assert_eq!(s.used(), 89);
}

#[test]
fn sliding_log_refusal_still_ages() {
    let mut s = SlidingWindowLogState::<2>::new(5, 0);
    assert!(s.try_consume_at(5, 0).is_ok());
    // The refusal at 1 ms moves the buffer; at 1.5 ms nothing has left yet,
    // at 2 ms the grant is gone.
    assert!(s.try_consume_at(6, 1_000_000).is_err());
    assert!(s.try_consume_at(1, 1_500_000).is_err());
    assert_eq!(s.used(), 5);
    assert!(s.try_consume_at(5, 2_000_000).is_ok());
    assert_eq!(s.used(), 5);
}

#[test]
fn sliding_log_keeps_fractions_of_a_millisecond() {
    let mut s = SlidingWindowLogState::<2>::new(5, 0);
    assert!(s.try_consume_at(5, 0).is_ok());
    // Attempts less than a millisecond apart do not restart the count.
    assert!(s.try_consume_at(1, 600_000).is_err());
    assert!(s.try_consume_at(1, 1_200_000).is_err());
    assert!(s.try_consume_at(1, 1_800_000).is_err());
    assert!(s.try_consume_at(1, 2_200_000).is_ok());
}

#[test]
fn sliding_log_grants_anything_after_a_whole_window() {
    let mut s = SlidingWindowLogState::<10>::new(5, 0);
    assert!(s.try_consume_at(6, 9_000_000).is_err());
    // The whole window has aged out: granted, even beyond the capacity.
    assert!(s.try_consume_at(6, 19_000_000).is_ok());
    assert_eq!(s.used(), 6);
    assert!(s.try_consume_at(0, 19_000_000).is_err());
    assert!(s.try_consume_at(u64::MAX, 29_000_000).is_ok());
    assert_eq!(s.used(), u64::MAX as u128);
}

#[test]
fn sliding_log_backward_clock_changes_nothing() {
    let mut s = SlidingWindowLogState::<2>::new(5, 10_000_000);
    assert!(s.try_consume_at(5, 10_000_000).is_ok());
    assert!(s.try_consume_at(1, 0).is_err());
    assert_eq!(s.used(), 5);
    // The buffer moves one slot at 11.999999 ms and the next a whole
    // millisecond after that.
    assert!(s.try_consume_at(1, 11_999_999).is_err());
    assert!(s.try_consume_at(1, 12_000_000).is_err());
    assert!(s.try_consume_at(1, 12_999_999).is_ok());
    assert_eq!(s.used(), 1);
}

#[test]
fn sliding_log_reads_its_clock() {
    let clock = MockClock::new();
    let mut w = SlidingWindowLog::<_, 2>::new_with_time_provider(3, || clock.step(1_000));
    assert!(w.try_consume(3).is_ok());
    assert_eq!(w.used(), 3);
    assert!(w.try_consume(1).is_err());
    assert!(w.try_consume(2).is_ok());
    assert_eq!(w.used(), 2);
}

#[test]
fn sliding_counter_starts_empty() {
    assert_eq!(
        SlidingWindowCounterState::new(9, 4, 17),
        SlidingWindowCounterState {
            capacity: 9,
            tokens_prev: 0,
            tokens_this: 0,
            window_index: 0,
            window_width_ms: 4,
            start_ns: 17,
        }
    );
}

#[test]
fn sliding_counter_rolls_windows() {
    let mut s = SlidingWindowCounterState::new(10, 5, 0);
    assert!(s.try_consume_weighted(7, 0).is_ok());
    s.roll_to(0);
    assert_eq!((s.tokens_prev, s.tokens_this, s.window_index), (0, 7, 0));
    s.roll_to(1);
    assert_eq!((s.tokens_prev, s.tokens_this, s.window_index), (7, 0, 1));
    assert!(s.try_consume_weighted(2, 7).is_ok());
    // Back in time: nothing moves.
    s.roll_to(0);
    assert_eq!((s.tokens_prev, s.tokens_this, s.window_index), (7, 2, 1));
    // Two windows on: both counters are empty.
    s.roll_to(3);
    assert_eq!((s.tokens_prev, s.tokens_this, s.window_index), (0, 0, 3));
    assert!(s.try_consume_weighted(4, 0).is_ok());
    // Many windows on.
    s.roll_to(u64::MAX);
    assert_eq!((s.tokens_prev, s.tokens_this, s.window_index), (0, 0, u64::MAX));
    s.roll_to(0);
    assert_eq!(s.window_index, u64::MAX);
}

#[test]
fn sliding_counter_weighs_previous_window() {
    let mut s = SlidingWindowCounterState::new(1000, 10, 0);
    assert!(s.try_consume_weighted(200, 0).is_ok());
    // 700 + 200 + 101 = 1001 is over the capacity, 700 + 200 + 100 is not.
    assert_eq!(s.try_consume_weighted(101, 700), Err(CantConsume));
    assert_eq!(s.tokens_this, 200);
    assert!(s.try_consume_weighted(100, 700).is_ok());
    assert_eq!(s.tokens_this, 300);
    // No overflow on large requests.
    assert!(s.try_consume_weighted(u64::MAX, u64::MAX).is_err());
    assert_eq!(s.tokens_this, 300);
}

#[test]
fn sliding_counter_reads_its_clock() {
    let clock = MockClock::new();
    clock.step(2_000);
    let w = SlidingWindowCounter::new_with_time_provider(5, 10, || clock.step(1_500));
    assert_eq!(w.state().start_ns, 2_000_000);
    assert_eq!(w.elapsed_millis(), 1);
    assert_eq!(w.elapsed_millis(), 3);
}

#[test]
fn sliding_log_moves_slot_contents() {
    let mut s = SlidingWindowLogState::<4>::new(100, 0);
    assert_eq!(s.slots(), [0, 0, 0, 0]);
    assert!(s.try_consume_at(1, 0).is_ok());
    assert!(s.try_consume_at(2, 0).is_ok());
    assert_eq!(s.slots(), [3, 0, 0, 0]);
    assert!(s.try_consume_at(10, 1_000_000).is_ok());
    assert_eq!(s.slots(), [10, 3, 0, 0]);
    assert!(s.try_consume_at(88, 3_000_000).is_err());
    assert_eq!(s.slots(), [0, 0, 10, 3]);
    assert!(s.try_consume_at(87, 3_000_000).is_ok());
    assert_eq!(s.slots(), [87, 0, 10, 3]);
    assert!(s.try_consume_at(4, 4_000_000).is_err());
    assert_eq!(s.slots(), [0, 87, 0, 10]);
    assert!(s.try_consume_at(3, 4_000_000).is_ok());
    assert_eq!(s.slots(), [3, 87, 0, 10]);
    assert!(s.try_consume_at(0, 7_000_000).is_ok());
    assert_eq!(s.slots(), [0, 0, 0, 3]);
    assert!(s.try_consume_at(7, 11_000_000).is_ok());
    assert_eq!(s.slots(), [7, 0, 0, 0]);
}

#[test]
fn sliding_log_same_instant_ages_once() {
    let mut s = SlidingWindowLogState::<3>::new(10, 0);
    assert!(s.try_consume_at(10, 0).is_ok());
    assert!(s.try_consume_at(4, 3_000_000).is_ok());
    assert_eq!(s.slots(), [4, 0, 0]);
    assert!(s.try_consume_at(7, 3_000_000).is_err());
    assert!(s.try_consume_at(6, 3_000_000).is_ok());
    assert_eq!(s.slots(), [10, 0, 0]);
    assert!(s.try_consume_at(1, 3_000_000).is_err());
}

#[test]
fn sliding_log_counts_in_whole_milliseconds() {
    // The window is counted in whole milliseconds since the last shift: a
    // grant at 10.9 ms has left a window of two milliseconds at 12.0 ms.
    let mut s = SlidingWindowLogState::<2>::new(5, 10_000_000);
    assert!(s.try_consume_at(5, 10_900_000).is_ok());
    assert!(s.try_consume_at(5, 12_000_000).is_ok());
    assert_eq!(s.slots(), [5, 0]);

    // Within the last millisecond before an attempt the bound is exact.
    let mut s = SlidingWindowLogState::<2>::new(5, 10_000_000);
    assert!(s.try_consume_at(5, 10_900_000).is_ok());
    assert!(s.try_consume_at(1, 11_899_999).is_err());
}

#[test]
fn sliding_log_never_exceeds_capacity_within_window() {
    // Ask for three tokens every 0.7 ms and add up what was granted during
    // the last four slots as the log counts them.
    let mut s = SlidingWindowLogState::<4>::new(10, 0);
    let mut now: u128 = 0;
    for _ in 0..200 {
        now += 700_000;
        let _ = s.try_consume_at(3, now);
        assert!(s.used() <= 10);
        assert_eq!(s.used(), s.slots().iter().map(|&t| t as u128).sum::<u128>());
    }
}

#[test]
fn sliding_counter_same_instant_rolls_once() {
    let mut s = SlidingWindowCounterState::new(10, 5, 0);
    assert!(s.try_consume_weighted(6, 0).is_ok());
    s.roll_to(1);
    assert!(s.try_consume_weighted(3, 6).is_ok());
    s.roll_to(1);
    assert_eq!((s.tokens_prev, s.tokens_this, s.window_index), (6, 3, 1));
    assert!(s.try_consume_weighted(2, 6).is_err());
    assert!(s.try_consume_weighted(1, 6).is_ok());
    assert_eq!((s.tokens_prev, s.tokens_this, s.window_index), (6, 4, 1));
}

/// Ask for single tokens `attempts` times and count the grants.
fn count_grants<L: Limiter>(limiter: &mut L, attempts: u32) -> u32 {
    let mut granted = 0;
    for _ in 0..attempts {
        if limiter.try_consume_one().is_ok() {
            granted += 1;
        }
    }
    granted
}

#[test]
fn limiters_share_one_interface() {
    let clock = MockClock::new();
    let mut log = SlidingWindowLog::<_, 5>::new_with_time_provider(3, || clock.step(1_000));
    // Three grants, then one more for each grant that leaves the window.
    assert_eq!(count_grants(&mut log, 4), 3);
    assert_eq!(count_grants(&mut log, 3), 2);
    let mut fixed = burster::FixedWindow::new_with_time_provider(3, 5, || clock.step(1_000));
    assert_eq!(count_grants(&mut fixed, 4), 3);
    assert_eq!(count_grants(&mut fixed, 5), 3);
}
