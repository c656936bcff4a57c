//! A clock that moves only when it is read.

use core::sync::atomic::AtomicU64;
use core::sync::atomic::Ordering;
use crate::time::duration_nanos;
use core::time::Duration;
use vstd::prelude::*;

verus! {

/// A manual clock for driving limiters in tests: every reading moves it on.
pub struct MockClock(AtomicU64);

impl MockClock {
    /// A clock that stands at zero.
    pub fn new() -> (clock: Self) {
        MockClock(AtomicU64::new(0))
    }

    /// Return the time of the clock and then move it on by `step`
    /// microseconds. The time is a whole number of microseconds; when the
    /// count of them passes 2^64 it starts again at zero.
    pub fn step(&self, step: u64) -> (now: Duration)
        ensures
            duration_nanos(now) % 1000 == 0,
            duration_nanos(now) <= 0xffff_ffff_ffff_ffff * 1000,
    {
        Duration::from_micros(self.0.fetch_add(step, Ordering::Relaxed))
    }
}

} // verus!
