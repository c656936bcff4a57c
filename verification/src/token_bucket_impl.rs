//! Token bucket limiter.

use crate::limiter::{CantConsume, LimiterResult};
use crate::time::duration_nanos;
use core::time::Duration;
use vstd::prelude::*;

verus! {

/// Counters of a token bucket.
///
/// The bucket fills at `rate_per_s` tokens per second up to `capacity`, and
/// consumes take tokens out. How many tokens an elapsed time is worth is
/// weighed by the caller, who hands in the result as `to_add`.
#[derive(Clone, Copy, Debug, PartialEq, Eq, Structural)]
pub struct TokenBucketState {
    /// Size of the bucket.
    pub capacity: u64,
    /// Tokens that the bucket gains per second.
    pub rate_per_s: u64,
    /// Tokens in the bucket.
    pub tokens: u64,
    /// Time of the last refill, in nanoseconds since the epoch of the time source.
    pub last_update_ns: u128,
}

impl TokenBucketState {
    /// The bucket holds no more than its capacity.
    pub open spec fn wf(&self) -> bool {
        self.tokens <= self.capacity
    }

    /// Nanoseconds from the last refill to `now_ns`, zero when `now_ns` is
    /// the earlier of the two.
    pub open spec fn spec_elapsed_nanos(&self, now_ns: nat) -> nat {
        if now_ns >= self.last_update_ns {
            (now_ns - self.last_update_ns) as nat
        } else {
            0
        }
    }

    /// The tokens that are added at time `now_ns` when the elapsed time is
    /// worth `to_add` tokens: no time is worth nothing.
    pub open spec fn spec_refill(&self, now_ns: nat, to_add: u64) -> u64 {
        if self.spec_elapsed_nanos(now_ns) == 0 {
            0
        } else {
            to_add
        }
    }

    /// The state at time `now_ns` before anything is taken. A refill that
    /// adds nothing leaves the time of the last refill as it was, so that
    /// the time that has passed keeps counting.
    pub open spec fn spec_tick(&self, now_ns: nat, to_add: u64) -> TokenBucketState {
        let refill = self.spec_refill(now_ns, to_add);
        if refill == 0 {
            *self
        } else {
            TokenBucketState {
                tokens: if self.tokens + refill <= self.capacity {
                    (self.tokens + refill) as u64
                } else {
                    self.capacity
                },
                last_update_ns: now_ns as u128,
                ..*self
            }
        }
    }

    /// Whether `tokens` tokens are granted at time `now_ns`.
    pub open spec fn spec_grants_at(&self, tokens: u64, now_ns: nat, to_add: u64) -> bool {
        tokens <= self.spec_tick(now_ns, to_add).tokens
    }

    /// The state after an attempt to take `tokens` tokens at time `now_ns`.
    pub open spec fn spec_consume_at(&self, tokens: u64, now_ns: nat, to_add: u64) -> TokenBucketState {
        let filled = self.spec_tick(now_ns, to_add);
        if self.spec_grants_at(tokens, now_ns, to_add) {
            TokenBucketState { tokens: (filled.tokens - tokens) as u64, ..filled }
        } else {
            filled
        }
    }

    /// A full bucket created at time `now_ns`.
    pub fn new(rate_per_s: u64, capacity: u64, now_ns: u128) -> (state: Self)
        ensures
            state == (TokenBucketState {
                capacity,
                rate_per_s,
                tokens: capacity,
                last_update_ns: now_ns,
            }),
            state.wf(),
    {
        TokenBucketState { capacity, rate_per_s, tokens: capacity, last_update_ns: now_ns }
    }

    /// Nanoseconds from the last refill to `now_ns`.
    pub fn elapsed_nanos_at(&self, now_ns: u128) -> (nanos: u128)
        ensures
            nanos == self.spec_elapsed_nanos(now_ns as nat),
    {
        if now_ns >= self.last_update_ns {
            now_ns - self.last_update_ns
        } else {
            0
        }
    }

    /// Try to take `tokens` tokens at time `now_ns`, when the time since the
    /// last refill is worth `to_add` tokens. A refusal changes nothing but
    /// what the refill changed.
    pub fn try_consume_at(&mut self, tokens: u64, now_ns: u128, to_add: u64) -> (result:
        LimiterResult)
        requires
            old(self).wf(),
        ensures
            final(self).wf(),
            *final(self) == old(self).spec_consume_at(tokens, now_ns as nat, to_add),
            result.is_ok() == old(self).spec_grants_at(tokens, now_ns as nat, to_add),
            result.is_err() ==> *final(self) == old(self).spec_tick(now_ns as nat, to_add),
    {
        if to_add != 0 && now_ns > self.last_update_ns {
            self.last_update_ns = now_ns;
            if to_add <= self.capacity - self.tokens {
                self.tokens = self.tokens + to_add;
            } else {
                self.tokens = self.capacity;
            }
        }
        if self.tokens >= tokens {
            self.tokens = self.tokens - tokens;
            Ok(())
        } else {
            Err(CantConsume)
        }
    }
}

/// Token bucket limiter bound to a time source.
///
/// A soft limiter: as long as the bucket holds tokens they can be consumed
/// at any rate, so the size of the bucket sets the burstiness.
///
/// An attempt reads the time once with [`Self::read_clock`] and then decides
/// with [`Self::try_consume_at`].
pub struct TokenBucket<T> where T: Fn() -> Duration {
    state: TokenBucketState,
    time_provider: T,
}

impl<T> View for TokenBucket<T> where T: Fn() -> Duration {
    type V = TokenBucketState;

    closed spec fn view(&self) -> TokenBucketState {
        self.state
    }
}

impl<T> TokenBucket<T> where T: Fn() -> Duration {
    /// The time source of this limiter.
    pub closed spec fn clock(&self) -> T {
        self.time_provider
    }

    /// The bucket holds no more than its capacity and the time source can
    /// be read.
    pub open spec fn wf(&self) -> bool {
        &&& self@.wf()
        &&& call_requires(self.clock(), ())
    }

    /// A new, full token bucket that reads the time from `time_provider`.
    pub fn new_with_time_provider(rate_per_s: u64, capacity: u64, time_provider: T) -> (limiter:
        Self)
        requires
            call_requires(time_provider, ()),
        ensures
            limiter.wf(),
            limiter.clock() == time_provider,
            exists|now: Duration| #[trigger]
                call_ensures(time_provider, (), now) && limiter@ == (TokenBucketState {
                    capacity,
                    rate_per_s,
                    tokens: capacity,
                    last_update_ns: duration_nanos(now) as u128,
                }),
    {
        let time_now = time_provider();
        let state = TokenBucketState::new(rate_per_s, capacity, time_now.as_nanos());
        TokenBucket { state, time_provider }
    }

    /// The counters as they are now.
    pub fn state(&self) -> (state: TokenBucketState)
        ensures
            state == self@,
    {
        self.state
    }

    /// Read the time source. Returns the time in nanoseconds and the
    /// nanoseconds that have passed since the last refill.
    pub fn read_clock(&self) -> (reading: (u128, u128))
        requires
            self.wf(),
        ensures
            exists|now: Duration| #[trigger]
                call_ensures(self.clock(), (), now) && reading.0 == duration_nanos(now),
            reading.1 == self@.spec_elapsed_nanos(reading.0 as nat),
    {
        let now = (self.time_provider)();
        let now_ns: u128 = now.as_nanos();
        (now_ns, self.state.elapsed_nanos_at(now_ns))
    }

    /// Try to take `tokens` tokens at time `now_ns`, when the time since the
    /// last refill is worth `to_add` tokens.
    pub fn try_consume_at(&mut self, tokens: u64, now_ns: u128, to_add: u64) -> (result:
        LimiterResult)
        requires
            old(self).wf(),
        ensures
            final(self).wf(),
            final(self).clock() == old(self).clock(),
            final(self)@ == old(self)@.spec_consume_at(tokens, now_ns as nat, to_add),
            result.is_ok() == old(self)@.spec_grants_at(tokens, now_ns as nat, to_add),
            result.is_err() ==> final(self)@ == old(self)@.spec_tick(now_ns as nat, to_add),
    {
        self.state.try_consume_at(tokens, now_ns, to_add)
    }
}

} // verus!
