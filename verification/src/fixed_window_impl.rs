//! Fixed window limiter.

use crate::limiter::{CantConsume, Limiter, LimiterResult};
use crate::time::{duration_nanos, elapsed_millis, spec_elapsed_millis};
use core::time::Duration;
use vstd::prelude::*;

verus! {

/// Counters of a fixed window limiter.
///
/// The timeline is cut into windows of `width_ms` milliseconds, counted from
/// `start_ns`. Each window starts with `capacity` tokens.
#[derive(Clone, Copy, Debug, PartialEq, Eq, Structural)]
pub struct FixedWindowState {
    /// Tokens that one window grants.
    pub capacity: u64,
    /// Width of a window in milliseconds.
    pub width_ms: u64,
    /// Tokens left in the window `window_index`.
    pub tokens: u64,
    /// The window that `tokens` belongs to.
    pub window_index: u64,
    /// Time of construction, in nanoseconds since the epoch of the time source.
    pub start_ns: u128,
}

impl FixedWindowState {
    /// The window width is positive and the balance is within the capacity.
    pub open spec fn wf(&self) -> bool {
        &&& self.width_ms > 0
        &&& self.tokens <= self.capacity
    }

    /// Index of the window that holds the time `now_ns`. The count of
    /// elapsed milliseconds is taken modulo 2^64 before it is divided.
    pub open spec fn spec_window_at(&self, now_ns: nat) -> u64 {
        ((spec_elapsed_millis(self.start_ns as nat, now_ns) % 0x1_0000_0000_0000_0000)
            / (self.width_ms as nat)) as u64
    }

    /// The state at time `now_ns` before anything is taken: a full window
    /// if the time lies in another window than the current one.
    pub open spec fn spec_tick(&self, now_ns: nat) -> FixedWindowState {
        if self.spec_window_at(now_ns) != self.window_index {
            FixedWindowState {
                tokens: self.capacity,
                window_index: self.spec_window_at(now_ns),
                ..*self
            }
        } else {
            *self
        }
    }

    /// Whether `tokens` tokens are granted at time `now_ns`.
    pub open spec fn spec_grants_at(&self, tokens: u64, now_ns: nat) -> bool {
        tokens <= self.spec_tick(now_ns).tokens
    }

    /// The state after an attempt to take `tokens` tokens at time `now_ns`.
    /// A refusal changes nothing but what the passing of time changed.
    pub open spec fn spec_consume_at(&self, tokens: u64, now_ns: nat) -> FixedWindowState {
        let fresh = self.spec_tick(now_ns);
        if self.spec_grants_at(tokens, now_ns) {
            FixedWindowState { tokens: (fresh.tokens - tokens) as u64, ..fresh }
        } else {
            fresh
        }
    }

    /// A limiter created at time `now_ns`, with a full first window.
    pub fn new(capacity: u64, window_width_ms: u64, now_ns: u128) -> (state: Self)
        requires
            window_width_ms > 0,
        ensures
            state == (FixedWindowState {
                capacity,
                width_ms: window_width_ms,
                tokens: capacity,
                window_index: 0,
                start_ns: now_ns,
            }),
            state.wf(),
    {
        FixedWindowState {
            capacity,
            width_ms: window_width_ms,
            tokens: capacity,
            window_index: 0,
            start_ns: now_ns,
        }
    }

    /// Try to take `tokens` tokens at time `now_ns`.
    pub fn try_consume_at(&mut self, tokens: u64, now_ns: u128) -> (result: LimiterResult)
        requires
            old(self).wf(),
        ensures
            final(self).wf(),
            *final(self) == old(self).spec_consume_at(tokens, now_ns as nat),
            result.is_ok() == old(self).spec_grants_at(tokens, now_ns as nat),
            result.is_err() ==> *final(self) == old(self).spec_tick(now_ns as nat),
    {
        let millis: u128 = elapsed_millis(self.start_ns, now_ns);
        let index: u64 = (millis % 0x1_0000_0000_0000_0000) as u64 / self.width_ms;
        if index != self.window_index {
            self.tokens = self.capacity;
            self.window_index = index;
        }
        if tokens <= self.tokens {
            self.tokens = self.tokens - tokens;
            Ok(())
        } else {
            Err(CantConsume)
        }
    }
}

/// Fixed window limiter bound to a time source.
///
/// Consumes succeed as long as the window that holds the current time still
/// has enough tokens.
pub struct FixedWindow<T> where T: Fn() -> Duration {
    state: FixedWindowState,
    time_provider: T,
}

impl<T> View for FixedWindow<T> where T: Fn() -> Duration {
    type V = FixedWindowState;

    closed spec fn view(&self) -> FixedWindowState {
        self.state
    }
}

impl<T> FixedWindow<T> where T: Fn() -> Duration {
    /// The time source of this limiter.
    pub closed spec fn clock(&self) -> T {
        self.time_provider
    }

    /// A new fixed window limiter that reads the time from `time_provider`.
    ///
    /// The windows are aligned to the time that `time_provider` reports now.
    pub fn new_with_time_provider(capacity: u64, window_width_ms: u64, time_provider: T) -> (limiter: Self)
        requires
            window_width_ms > 0,
            call_requires(time_provider, ()),
        ensures
            limiter.wf(),
            limiter.clock() == time_provider,
            exists|now: Duration| #[trigger]
                call_ensures(time_provider, (), now) && limiter@ == (FixedWindowState {
                    capacity,
                    width_ms: window_width_ms,
                    tokens: capacity,
                    window_index: 0,
                    start_ns: duration_nanos(now) as u128,
                }),
    {
        let time_now = time_provider();
        let state = FixedWindowState::new(capacity, window_width_ms, time_now.as_nanos());
        FixedWindow { state, time_provider }
    }
}

impl<T> FixedWindow<T> where T: Fn() -> Duration {
    /// The counters as they are now.
    pub fn state(&self) -> (state: FixedWindowState)
        ensures
            state == self@,
    {
        self.state
    }
}

impl<T> Limiter for FixedWindow<T> where T: Fn() -> Duration {
    open spec fn wf(&self) -> bool {
        &&& self@.wf()
        &&& call_requires(self.clock(), ())
    }

    open spec fn consumes(pre: &Self, tokens: u64, post: &Self, granted: bool) -> bool {
        &&& post.clock() == pre.clock()
        &&& exists|now: Duration| #[trigger]
            call_ensures(pre.clock(), (), now) && post@ == pre@.spec_consume_at(
                tokens,
                duration_nanos(now),
            ) && granted == pre@.spec_grants_at(tokens, duration_nanos(now))
    }

    fn try_consume(&mut self, tokens: u64) -> (result: LimiterResult) {
        let now = (self.time_provider)();
        self.state.try_consume_at(tokens, now.as_nanos())
    }
}

} // verus!
