//! Sliding window limiters: the exact log and its two-counter approximation.

use crate::limiter::{CantConsume, Limiter, LimiterResult};
use crate::time::{duration_nanos, elapsed_millis, spec_elapsed_millis};
use core::time::Duration;
use vstd::prelude::*;

verus! {

/// Sum of all slots of a window buffer.
pub open spec fn spec_sum(slots: Seq<u64>) -> nat
    decreases slots.len(),
{
    if slots.len() == 0 {
        0
    } else {
        spec_sum(slots.drop_last()) + slots.last() as nat
    }
}

/// The buffer `slots` after `delta` milliseconds: the value of slot `i` has
/// moved to slot `i + delta`, what moved past the end is gone, and the first
/// `delta` slots are empty.
pub open spec fn spec_shift(slots: Seq<u64>, delta: nat) -> Seq<u64> {
    Seq::new(
        slots.len(),
        |i: int|
            if i < delta {
                0u64
            } else {
                slots[i - delta]
            },
    )
}

/// A buffer of `len` empty slots.
pub open spec fn spec_empty(len: nat) -> Seq<u64> {
    Seq::new(len, |i: int| 0u64)
}

/// The sum of a buffer grows by one step with its last slot.
pub proof fn lemma_sum_take_step(slots: Seq<u64>, i: int)
    requires
        0 <= i < slots.len(),
    ensures
        spec_sum(slots.take(i + 1)) == spec_sum(slots.take(i)) + slots[i] as nat,
{
    assert(slots.take(i + 1).drop_last() =~= slots.take(i));
}

/// An empty buffer sums to zero.
pub proof fn lemma_sum_empty(len: nat)
    ensures
        spec_sum(spec_empty(len)) == 0,
    decreases len,
{
    if len > 0 {
        assert(spec_empty(len).drop_last() =~= spec_empty((len - 1) as nat));
        lemma_sum_empty((len - 1) as nat);
    }
}

/// Writing `value` into slot `i` changes the sum by the difference to what
/// the slot held.
pub proof fn lemma_sum_update(slots: Seq<u64>, i: int, value: u64)
    requires
        0 <= i < slots.len(),
    ensures
        spec_sum(slots.update(i, value)) == spec_sum(slots) - slots[i] as nat + value as nat,
    decreases slots.len(),
{
    if i == slots.len() - 1 {
        assert(slots.update(i, value).drop_last() =~= slots.drop_last());
    } else {
        assert(slots.update(i, value).drop_last() =~= slots.drop_last().update(i, value));
        lemma_sum_update(slots.drop_last(), i, value);
    }
}

/// What is left after `delta` milliseconds is what the youngest
/// `len - delta` slots held.
pub proof fn lemma_sum_shift(slots: Seq<u64>, delta: nat)
    requires
        delta <= slots.len(),
    ensures
        spec_sum(spec_shift(slots, delta)) == spec_sum(slots.take(slots.len() - delta)),
    decreases slots.len() - delta,
{
    let len = slots.len() as int;
    let shifted = spec_shift(slots, delta);
    if delta == len {
        assert(shifted =~= spec_empty(slots.len()));
        lemma_sum_empty(slots.len());
    } else {
        // One slot more falls off the end when the buffer moves one step further.
        lemma_sum_shift(slots, delta + 1);
        lemma_sum_take_step(slots, len - delta - 1);
        lemma_sum_shift_step(slots, delta);
    }
}

/// Moving a buffer one step further drops the slot that reaches the end.
proof fn lemma_sum_shift_step(slots: Seq<u64>, delta: nat)
    requires
        delta < slots.len(),
    ensures
        spec_sum(spec_shift(slots, delta)) == spec_sum(spec_shift(slots, delta + 1))
            + slots[slots.len() - delta - 1] as nat,
    decreases slots.len(),
{
    let len = slots.len() as int;
    let a = spec_shift(slots, delta);
    let b = spec_shift(slots, delta + 1);
    if delta == len - 1 {
        assert(b =~= spec_empty(slots.len()));
        lemma_sum_empty(slots.len());
        assert(a =~= spec_empty(slots.len()).update(len - 1, slots[0]));
        lemma_sum_update(spec_empty(slots.len()), len - 1, slots[0]);
    } else {
        // Both buffers end in a slot of `slots`; compare what is before it.
        let front = slots.drop_last();
        assert(a.drop_last() =~= spec_shift(front, delta));
        assert(b.drop_last() =~= spec_shift(front, delta + 1));
        lemma_sum_shift_step(front, delta);
    }
}

/// The sum of a part of a buffer is at most the sum of the whole.
pub proof fn lemma_sum_take_le(slots: Seq<u64>, n: int)
    requires
        0 <= n <= slots.len(),
    ensures
        spec_sum(slots.take(n)) <= spec_sum(slots),
    decreases slots.len() - n,
{
    if n < slots.len() {
        lemma_sum_take_step(slots, n);
        lemma_sum_take_le(slots, n + 1);
    } else {
        assert(slots.take(n) =~= slots);
    }
}

/// A buffer of `W` empty slots.
fn empty_buffer<const W: usize>() -> (buffer: [u64; W])
    ensures
        buffer@ == spec_empty(W as nat),
{
    let buffer: [u64; W] = [0u64;W];
    assert(buffer == vstd::array::spec_array_fill_for_copy_type::<u64, W>(0u64));
    assert(buffer@ =~= spec_empty(W as nat));
    buffer
}

/// The model of a sliding window log: what the contracts speak of.
pub struct SlidingWindowLogView {
    /// Tokens that may be granted within one window.
    pub capacity: u64,
    /// Tokens granted per millisecond; slot 0 is the current millisecond and
    /// the last slot the oldest of the window.
    pub slots: Seq<u64>,
    /// Time of the last shift of the buffer, in nanoseconds.
    pub last_update_ns: u128,
}

impl SlidingWindowLogView {
    /// Whole milliseconds from the last shift to `now_ns`.
    pub open spec fn spec_delta(&self, now_ns: nat) -> nat {
        spec_elapsed_millis(self.last_update_ns as nat, now_ns)
    }

    /// Tokens granted within the window.
    pub open spec fn spec_used(&self) -> nat {
        spec_sum(self.slots)
    }

    /// The tokens granted within the window do not exceed the capacity.
    pub open spec fn within_capacity(&self) -> bool {
        self.spec_used() <= self.capacity
    }

    /// The state at time `now_ns` before anything is taken. If a whole
    /// millisecond or more has passed, the buffer has moved by as many slots
    /// and the time of the last shift is `now_ns`.
    pub open spec fn spec_tick(&self, now_ns: nat) -> SlidingWindowLogView {
        let delta = self.spec_delta(now_ns);
        if delta == 0 {
            *self
        } else {
            SlidingWindowLogView {
                capacity: self.capacity,
                slots: if delta >= self.slots.len() {
                    spec_empty(self.slots.len())
                } else {
                    spec_shift(self.slots, delta)
                },
                last_update_ns: now_ns as u128,
            }
        }
    }

    /// Whether `tokens` tokens are granted at time `now_ns`: always when the
    /// whole window has aged out, else when they fit beside what is used.
    pub open spec fn spec_grants_at(&self, tokens: u64, now_ns: nat) -> bool {
        self.spec_delta(now_ns) >= self.slots.len() || self.spec_tick(now_ns).spec_used() + tokens
            <= self.capacity
    }

    /// The state after an attempt to take `tokens` tokens at time `now_ns`.
    /// A refusal changes nothing but what the passing of time changed.
    pub open spec fn spec_consume_at(&self, tokens: u64, now_ns: nat) -> SlidingWindowLogView {
        let aged = self.spec_tick(now_ns);
        if self.spec_grants_at(tokens, now_ns) {
            SlidingWindowLogView {
                slots: aged.slots.update(0, (aged.slots[0] + tokens) as u64),
                ..aged
            }
        } else {
            aged
        }
    }
}

/// Counters of a sliding window log limiter with a window of `W`
/// milliseconds.
#[derive(Clone, Copy, Debug)]
pub struct SlidingWindowLogState<const W: usize> {
    capacity: u64,
    window_buffer: [u64; W],
    last_update_ns: u128,
}

impl<const W: usize> View for SlidingWindowLogState<W> {
    type V = SlidingWindowLogView;

    closed spec fn view(&self) -> SlidingWindowLogView {
        SlidingWindowLogView {
            capacity: self.capacity,
            slots: self.window_buffer@,
            last_update_ns: self.last_update_ns,
        }
    }
}

impl<const W: usize> SlidingWindowLogState<W> {
    /// The buffer has `W` slots, as it has for every value of this type.
    pub proof fn lemma_slots_len(&self)
        ensures
            self@.slots.len() == W,
    {
    }

    /// A limiter created at time `now_ns`, with nothing used.
    pub fn new(capacity: u64, now_ns: u128) -> (state: Self)
        requires
            W > 0,
        ensures
            state@ == (SlidingWindowLogView {
                capacity,
                slots: spec_empty(W as nat),
                last_update_ns: now_ns,
            }),
    {
        SlidingWindowLogState { capacity, window_buffer: empty_buffer(), last_update_ns: now_ns }
    }

    /// Tokens granted within the window.
    pub fn used(&self) -> (total: u128)
        ensures
            total == self@.spec_used(),
    {
        let mut total: u128 = 0;
        let mut i: usize = 0;
        while i < W
            invariant
                i <= W,
                total == spec_sum(self.window_buffer@.take(i as int)),
                total <= i * 0xffff_ffff_ffff_ffff,
            decreases W - i,
        {
            proof {
                lemma_sum_take_step(self.window_buffer@, i as int);
            }
            total = total + self.window_buffer[i] as u128;
            i = i + 1;
        }
        assert(self.window_buffer@.take(W as int) =~= self.window_buffer@);
        total
    }

    /// The buffer: the tokens granted per millisecond, slot 0 first.
    pub fn slots(&self) -> (slots: [u64; W])
        ensures
            slots@ == self@.slots,
    {
        self.window_buffer
    }

    /// Empty every slot of the buffer.
    fn clear(&mut self)
        ensures
            final(self)@ == (SlidingWindowLogView { slots: spec_empty(W as nat), ..old(self)@ }),
    {
        self.window_buffer = empty_buffer();
    }

    /// Move the buffer by `delta` slots towards the old end.
    fn shift(&mut self, delta: usize)
        requires
            0 < delta < W,
        ensures
            final(self)@ == (SlidingWindowLogView {
                slots: spec_shift(old(self)@.slots, delta as nat),
                ..old(self)@
            }),
    {
        let ghost before = self.window_buffer@;
        let mut i: usize = W;
        while i > delta
            invariant
                delta <= i <= W,
                self.capacity == old(self).capacity,
                self.last_update_ns == old(self).last_update_ns,
                forall|j: int| 0 <= j < i ==> self.window_buffer@[j] == before[j],
                forall|j: int| i <= j < W ==> self.window_buffer@[j] == before[j - delta],
            decreases i,
        {
            i = i - 1;
            let moved: u64 = self.window_buffer[i - delta];
            self.window_buffer[i] = moved;
        }
        let mut k: usize = 0;
        while k < delta
            invariant
                k <= delta < W,
                self.capacity == old(self).capacity,
                self.last_update_ns == old(self).last_update_ns,
                forall|j: int| 0 <= j < k ==> self.window_buffer@[j] == 0,
                forall|j: int| delta <= j < W ==> self.window_buffer@[j] == before[j - delta],
            decreases delta - k,
        {
            self.window_buffer[k] = 0;
            k = k + 1;
        }
        assert(self.window_buffer@ =~= spec_shift(before, delta as nat));
    }

    /// Try to take `tokens` tokens at time `now_ns`.
    ///
    /// The buffer ages by the milliseconds that passed since its last shift,
    /// whether or not the tokens are granted. When the whole window has aged
    /// out the tokens are granted whatever the capacity is.
    pub fn try_consume_at(&mut self, tokens: u64, now_ns: u128) -> (result: LimiterResult)
        requires
            W > 0,
        ensures
            final(self)@ == old(self)@.spec_consume_at(tokens, now_ns as nat),
            result.is_ok() == old(self)@.spec_grants_at(tokens, now_ns as nat),
            result.is_err() ==> final(self)@ == old(self)@.spec_tick(now_ns as nat),
            old(self)@.within_capacity() && (tokens <= old(self)@.capacity || old(self)@.spec_delta(
                now_ns as nat,
            ) < W) ==> final(self)@.within_capacity(),
    {
        let delta: u128 = elapsed_millis(self.last_update_ns, now_ns);
        if delta >= W as u128 {
            self.last_update_ns = now_ns;
            self.clear();
            self.window_buffer[0] = tokens;
            proof {
                assert(old(self)@.spec_tick(now_ns as nat).slots =~= spec_empty(W as nat));
                lemma_sum_empty(W as nat);
                lemma_sum_update(spec_empty(W as nat), 0, tokens);
                assert(self.window_buffer@ =~= spec_empty(W as nat).update(0, tokens));
            }
            return Ok(());
        }
        if delta != 0 {
            self.last_update_ns = now_ns;
            self.shift(delta as usize);
            proof {
                lemma_sum_shift(old(self)@.slots, delta as nat);
                lemma_sum_take_le(old(self)@.slots, W - delta);
            }
        }
        let used: u128 = self.used();
        let capacity: u128 = self.capacity as u128;
        if used <= capacity && tokens as u128 <= capacity - used {
            proof {
                lemma_sum_take_step(self.window_buffer@, 0);
                lemma_sum_take_le(self.window_buffer@, 1);
                lemma_sum_update(
                    self.window_buffer@,
                    0,
                    (self.window_buffer@[0] + tokens) as u64,
                );
            }
            let slot: u64 = self.window_buffer[0];
            self.window_buffer[0] = slot + tokens;
            Ok(())
        } else {
            Err(CantConsume)
        }
    }
}

/// Sliding window log limiter bound to a time source.
///
/// It keeps track of the tokens granted during the last `W` milliseconds and
/// refuses what would take that number over the capacity. Each attempt costs
/// `O(W)`; [`SlidingWindowCounter`] is a cheaper approximation.
pub struct SlidingWindowLog<T, const W: usize> where T: Fn() -> Duration {
    state: SlidingWindowLogState<W>,
    time_provider: T,
}

impl<T, const W: usize> View for SlidingWindowLog<T, W> where T: Fn() -> Duration {
    type V = SlidingWindowLogView;

    closed spec fn view(&self) -> SlidingWindowLogView {
        self.state@
    }
}

impl<T, const W: usize> SlidingWindowLog<T, W> where T: Fn() -> Duration {
    /// The time source of this limiter.
    pub closed spec fn clock(&self) -> T {
        self.time_provider
    }

    /// The buffer has `W` slots, as it has for every value of this type.
    pub proof fn lemma_slots_len(&self)
        ensures
            self@.slots.len() == W,
    {
    }

    /// A new sliding window log limiter that reads the time from
    /// `time_provider`. The window is `W` milliseconds wide.
    pub fn new_with_time_provider(capacity: u64, time_provider: T) -> (limiter: Self)
        requires
            W > 0,
            call_requires(time_provider, ()),
        ensures
            limiter.wf(),
            limiter.clock() == time_provider,
            exists|now: Duration| #[trigger]
                call_ensures(time_provider, (), now) && limiter@ == (SlidingWindowLogView {
                    capacity,
                    slots: spec_empty(W as nat),
                    last_update_ns: duration_nanos(now) as u128,
                }),
    {
        let time_now = time_provider();
        let state = SlidingWindowLogState::new(capacity, time_now.as_nanos());
        SlidingWindowLog { state, time_provider }
    }
}

impl<T, const W: usize> SlidingWindowLog<T, W> where T: Fn() -> Duration {
    /// Tokens granted within the window, as of the last attempt.
    pub fn used(&self) -> (total: u128)
        ensures
            total == self@.spec_used(),
    {
        self.state.used()
    }
}

impl<T, const W: usize> Limiter for SlidingWindowLog<T, W> where T: Fn() -> Duration {
    open spec fn wf(&self) -> bool {
        &&& W > 0
        &&& call_requires(self.clock(), ())
    }

    open spec fn consumes(pre: &Self, tokens: u64, post: &Self, granted: bool) -> bool {
        &&& post.clock() == pre.clock()
        &&& exists|now: Duration| #[trigger]
            call_ensures(pre.clock(), (), now) && post@ == pre@.spec_consume_at(
                tokens,
                duration_nanos(now),
            ) && granted == pre@.spec_grants_at(tokens, duration_nanos(now))
    }

    fn try_consume(&mut self, tokens: u64) -> (result: LimiterResult) {
        let now = (self.time_provider)();
        self.state.try_consume_at(tokens, now.as_nanos())
    }
}

/// Counters of a sliding window counter limiter.
///
/// The timeline is cut into windows of `window_width_ms` milliseconds,
/// counted from `start_ns`. The usage of the trailing window is estimated
/// from the tokens granted in the current window and a share of those
/// granted in the window before it. That share is the part of the previous
/// window that the trailing window still covers; the caller weighs it and
/// hands in the result as `effective_prev`.
#[derive(Clone, Copy, Debug, PartialEq, Eq, Structural)]
pub struct SlidingWindowCounterState {
    /// Tokens that may be granted within one window.
    pub capacity: u64,
    /// Tokens granted in the window before `window_index`.
    pub tokens_prev: u64,
    /// Tokens granted in the window `window_index`.
    pub tokens_this: u64,
    /// The current window.
    pub window_index: u64,
    /// Width of a window in milliseconds.
    pub window_width_ms: u64,
    /// Time of construction, in nanoseconds since the epoch of the time source.
    pub start_ns: u128,
}

impl SlidingWindowCounterState {
    /// Both counters are within the capacity.
    pub open spec fn wf(&self) -> bool {
        &&& self.tokens_prev <= self.capacity
        &&& self.tokens_this <= self.capacity
    }

    /// The state after the time has reached the window `index`: in the next
    /// window the current counter becomes the previous one, further on both
    /// are empty, and in the current window or an earlier one nothing moves.
    pub open spec fn spec_roll_to(&self, index: u64) -> SlidingWindowCounterState {
        if index == self.window_index + 1 {
            SlidingWindowCounterState {
                tokens_prev: self.tokens_this,
                tokens_this: 0,
                window_index: index,
                ..*self
            }
        } else if index >= self.window_index + 2 {
            SlidingWindowCounterState { tokens_prev: 0, tokens_this: 0, window_index: index, ..*self }
        } else {
            *self
        }
    }

    /// Whether `tokens` tokens are granted when `effective_prev` tokens of
    /// the previous window still count.
    pub open spec fn spec_grants(&self, tokens: u64, effective_prev: u64) -> bool {
        effective_prev + self.tokens_this + tokens <= self.capacity
    }

    /// The state after an attempt to take `tokens` tokens when
    /// `effective_prev` tokens of the previous window still count.
    pub open spec fn spec_consume_weighted(
        &self,
        tokens: u64,
        effective_prev: u64,
    ) -> SlidingWindowCounterState {
        if self.spec_grants(tokens, effective_prev) {
            SlidingWindowCounterState { tokens_this: (self.tokens_this + tokens) as u64, ..*self }
        } else {
            *self
        }
    }

    /// A limiter created at time `now_ns`, with nothing used.
    pub fn new(capacity: u64, window_width_ms: u64, now_ns: u128) -> (state: Self)
        ensures
            state == (SlidingWindowCounterState {
                capacity,
                tokens_prev: 0,
                tokens_this: 0,
                window_index: 0,
                window_width_ms,
                start_ns: now_ns,
            }),
            state.wf(),
    {
        SlidingWindowCounterState {
            capacity,
            tokens_prev: 0,
            tokens_this: 0,
            window_index: 0,
            window_width_ms,
            start_ns: now_ns,
        }
    }

    /// Whole milliseconds from construction to `now_ns`.
    pub fn elapsed_millis_at(&self, now_ns: u128) -> (millis: u128)
        ensures
            millis == spec_elapsed_millis(self.start_ns as nat, now_ns as nat),
    {
        elapsed_millis(self.start_ns, now_ns)
    }

    /// Move on to the window `index`.
    pub fn roll_to(&mut self, index: u64)
        ensures
            *final(self) == old(self).spec_roll_to(index),
            old(self).wf() ==> final(self).wf(),
    {
        if index > self.window_index {
            if index - self.window_index == 1 {
                self.tokens_prev = self.tokens_this;
            } else {
                self.tokens_prev = 0;
            }
            self.tokens_this = 0;
            self.window_index = index;
        }
    }

    /// Try to take `tokens` tokens when `effective_prev` tokens of the
    /// previous window still count. A refusal leaves the state as it was.
    pub fn try_consume_weighted(&mut self, tokens: u64, effective_prev: u64) -> (result:
        LimiterResult)
        ensures
            *final(self) == old(self).spec_consume_weighted(tokens, effective_prev),
            result.is_ok() == old(self).spec_grants(tokens, effective_prev),
            result.is_err() ==> *final(self) == *old(self),
            old(self).wf() ==> final(self).wf(),
    {
        let wanted: u128 = effective_prev as u128 + self.tokens_this as u128 + tokens as u128;
        if wanted > self.capacity as u128 {
            Err(CantConsume)
        } else {
            self.tokens_this = self.tokens_this + tokens;
            Ok(())
        }
    }
}

/// Sliding window counter limiter bound to a time source.
///
/// An attempt reads the time once with [`Self::elapsed_millis`], moves on to
/// the window that holds that time with [`Self::roll_to`], and then decides
/// with [`Self::try_consume_weighted`].
pub struct SlidingWindowCounter<T> where T: Fn() -> Duration {
    state: SlidingWindowCounterState,
    time_provider: T,
}

impl<T> View for SlidingWindowCounter<T> where T: Fn() -> Duration {
    type V = SlidingWindowCounterState;

    closed spec fn view(&self) -> SlidingWindowCounterState {
        self.state
    }
}

impl<T> SlidingWindowCounter<T> where T: Fn() -> Duration {
    /// The time source of this limiter.
    pub closed spec fn clock(&self) -> T {
        self.time_provider
    }

    /// The counters are within the capacity and the time source can be read.
    pub open spec fn wf(&self) -> bool {
        &&& self@.wf()
        &&& call_requires(self.clock(), ())
    }

    /// A new sliding window counter limiter that reads the time from
    /// `time_provider`.
    pub fn new_with_time_provider(capacity: u64, window_width_ms: u64, time_provider: T) -> (limiter:
        Self)
        requires
            call_requires(time_provider, ()),
        ensures
            limiter.wf(),
            limiter.clock() == time_provider,
            exists|now: Duration| #[trigger]
                call_ensures(time_provider, (), now) && limiter@ == (SlidingWindowCounterState {
                    capacity,
                    tokens_prev: 0,
                    tokens_this: 0,
                    window_index: 0,
                    window_width_ms,
                    start_ns: duration_nanos(now) as u128,
                }),
    {
        let time_now = time_provider();
        let state = SlidingWindowCounterState::new(capacity, window_width_ms, time_now.as_nanos());
        SlidingWindowCounter { state, time_provider }
    }

    /// The counters as they are now.
    pub fn state(&self) -> (state: SlidingWindowCounterState)
        ensures
            state == self@,
    {
        self.state
    }

    /// Read the time source and return the whole milliseconds since
    /// construction.
    pub fn elapsed_millis(&self) -> (millis: u128)
        requires
            self.wf(),
        ensures
            exists|now: Duration| #[trigger]
                call_ensures(self.clock(), (), now) && millis == spec_elapsed_millis(
                    self@.start_ns as nat,
                    duration_nanos(now),
                ),
    {
        let now = (self.time_provider)();
        self.state.elapsed_millis_at(now.as_nanos())
    }

    /// Move on to the window `index`.
    pub fn roll_to(&mut self, index: u64)
        ensures
            final(self)@ == old(self)@.spec_roll_to(index),
            final(self).clock() == old(self).clock(),
            old(self).wf() ==> final(self).wf(),
    {
        self.state.roll_to(index);
    }

    /// Try to take `tokens` tokens when `effective_prev` tokens of the
    /// previous window still count. A refusal leaves the limiter as it was.
    pub fn try_consume_weighted(&mut self, tokens: u64, effective_prev: u64) -> (result:
        LimiterResult)
        ensures
            final(self)@ == old(self)@.spec_consume_weighted(tokens, effective_prev),
            final(self).clock() == old(self).clock(),
            result.is_ok() == old(self)@.spec_grants(tokens, effective_prev),
            result.is_err() ==> final(self)@ == old(self)@,
            old(self).wf() ==> final(self).wf(),
    {
        self.state.try_consume_weighted(tokens, effective_prev)
    }
}

} // verus!
