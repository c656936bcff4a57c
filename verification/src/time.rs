//! Timestamps as plain integers.
//!
//! A time source hands out `Duration` values. The limiters turn each reading
//! into a count of nanoseconds at once and do all their arithmetic on that.

use core::time::Duration;
use vstd::prelude::*;

verus! {

/// Nanoseconds in one millisecond.
pub const NANOS_PER_MILLI: u128 = 1_000_000;

/// The whole length of a `Duration`, in nanoseconds.
pub uninterp spec fn duration_nanos(d: Duration) -> nat;

/// `Duration::as_nanos` returns the whole length of the duration in
/// nanoseconds; that number is what `duration_nanos` names.
pub assume_specification[ Duration::as_nanos ](d: &Duration) -> (nanos: u128)
    ensures
        nanos == duration_nanos(*d),
;

/// `Duration::from_micros` returns a duration of that many microseconds.
pub assume_specification[ Duration::from_micros ](micros: u64) -> (d: Duration)
    ensures
        duration_nanos(d) == micros as nat * 1000,
;

/// Whole milliseconds from `start_ns` to `now_ns`, zero when `now_ns` is the
/// earlier of the two.
pub open spec fn spec_elapsed_millis(start_ns: nat, now_ns: nat) -> nat {
    if now_ns >= start_ns {
        ((now_ns - start_ns) / 1_000_000) as nat
    } else {
        0
    }
}

/// Whole milliseconds elapsed between two timestamps given in nanoseconds.
/// A clock that ran backwards counts as no time elapsed.
pub fn elapsed_millis(start_ns: u128, now_ns: u128) -> (millis: u128)
    ensures
        millis == spec_elapsed_millis(start_ns as nat, now_ns as nat),
{
    if now_ns >= start_ns {
        (now_ns - start_ns) / NANOS_PER_MILLI
    } else {
        0
    }
}

} // verus!
