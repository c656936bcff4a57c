//! Laws of the limiters, proved about their transition functions.

use crate::fixed_window_impl::FixedWindowState;
use crate::sliding_window_impl::{
    lemma_sum_empty, lemma_sum_shift, lemma_sum_take_le, lemma_sum_take_step, lemma_sum_update,
    spec_empty, spec_shift, spec_sum, SlidingWindowCounterState, SlidingWindowLogView,
};
use crate::token_bucket_impl::TokenBucketState;
use vstd::prelude::*;

verus! {

/// The tokens that an attempt hands out: all that were asked for, or none.
pub open spec fn spec_granted(granted: bool, tokens: u64) -> nat {
    if granted {
        tokens as nat
    } else {
        0
    }
}

/// The balance of a fixed window never leaves the range from zero to the
/// capacity.
pub proof fn lemma_fixed_window_balance_in_range(state: FixedWindowState, tokens: u64, now_ns: u128)
    requires
        state.wf(),
    ensures
        state.spec_tick(now_ns as nat).wf(),
        state.spec_consume_at(tokens, now_ns as nat).wf(),
        0 <= state.spec_consume_at(tokens, now_ns as nat).tokens <= state.capacity,
{
}

/// A fixed window that refuses is left as the passing of time alone would
/// leave it, and untouched if the time lies in the current window.
pub proof fn lemma_fixed_window_refusal_keeps_state(
    state: FixedWindowState,
    tokens: u64,
    now_ns: u128,
)
    requires
        !state.spec_grants_at(tokens, now_ns as nat),
    ensures
        state.spec_consume_at(tokens, now_ns as nat) == state.spec_tick(now_ns as nat),
        state.spec_window_at(now_ns as nat) == state.window_index ==> state.spec_consume_at(
            tokens,
            now_ns as nat,
        ) == state,
{
}

/// A fixed window is replenished once per instant: a second attempt at the
/// same time finds what the first one left, and both together hand out no
/// more than was there for the first.
pub proof fn lemma_fixed_window_same_instant(
    state: FixedWindowState,
    first: u64,
    second: u64,
    now_ns: u128,
)
    ensures
        ({
            let mid = state.spec_consume_at(first, now_ns as nat);
            &&& mid.spec_tick(now_ns as nat) == mid
            &&& spec_granted(state.spec_grants_at(first, now_ns as nat), first) + spec_granted(
                mid.spec_grants_at(second, now_ns as nat),
                second,
            ) <= state.spec_tick(now_ns as nat).tokens
        }),
{
}

/// The balance of a token bucket never leaves the range from zero to the
/// capacity.
pub proof fn lemma_token_bucket_balance_in_range(
    state: TokenBucketState,
    tokens: u64,
    now_ns: u128,
    to_add: u64,
)
    requires
        state.wf(),
    ensures
        state.spec_tick(now_ns as nat, to_add).wf(),
        state.spec_consume_at(tokens, now_ns as nat, to_add).wf(),
        0 <= state.spec_consume_at(tokens, now_ns as nat, to_add).tokens <= state.capacity,
{
}

/// A token bucket that refuses is left as the refill alone would leave it,
/// and untouched if nothing was added.
pub proof fn lemma_token_bucket_refusal_keeps_state(
    state: TokenBucketState,
    tokens: u64,
    now_ns: u128,
    to_add: u64,
)
    requires
        !state.spec_grants_at(tokens, now_ns as nat, to_add),
    ensures
        state.spec_consume_at(tokens, now_ns as nat, to_add) == state.spec_tick(
            now_ns as nat,
            to_add,
        ),
        state.spec_refill(now_ns as nat, to_add) == 0 ==> state.spec_consume_at(
            tokens,
            now_ns as nat,
            to_add,
        ) == state,
{
}

/// A token bucket is refilled once per instant, whatever `worth` says an
/// elapsed time is worth in tokens: a second attempt at the same time adds
/// nothing, and both together hand out no more than the bucket held after
/// the one refill.
pub proof fn lemma_token_bucket_same_instant(
    state: TokenBucketState,
    worth: spec_fn(nat) -> u64,
    first: u64,
    second: u64,
    now_ns: u128,
)
    ensures
        ({
            let now = now_ns as nat;
            let to_add = worth(state.spec_elapsed_nanos(now));
            let mid = state.spec_consume_at(first, now, to_add);
            let again = worth(mid.spec_elapsed_nanos(now));
            &&& mid.spec_refill(now, again) == 0
            &&& mid.spec_tick(now, again) == mid
            &&& spec_granted(state.spec_grants_at(first, now, to_add), first) + spec_granted(
                mid.spec_grants_at(second, now, again),
                second,
            ) <= state.spec_tick(now, to_add).tokens
        }),
{
}

/// One attempt on a token bucket hands out no more than the bucket held
/// plus what was added, and never more than the capacity.
pub proof fn lemma_token_bucket_grant_bounded(
    state: TokenBucketState,
    tokens: u64,
    now_ns: u128,
    to_add: u64,
)
    requires
        state.wf(),
    ensures
        ({
            let now = now_ns as nat;
            let granted = spec_granted(state.spec_grants_at(tokens, now, to_add), tokens);
            &&& granted <= state.capacity
            &&& granted + state.spec_consume_at(tokens, now, to_add).tokens <= state.tokens
                + state.spec_refill(now, to_add)
        }),
{
}

/// As long as no more than the capacity is asked for when the whole window
/// has aged out, the tokens granted within the window of a sliding window
/// log never exceed the capacity.
pub proof fn lemma_sliding_log_used_in_range(state: SlidingWindowLogView, tokens: u64, now_ns: u128)
    requires
        state.slots.len() > 0,
        state.within_capacity(),
        tokens <= state.capacity || state.spec_delta(now_ns as nat) < state.slots.len(),
    ensures
        state.spec_tick(now_ns as nat).within_capacity(),
        state.spec_consume_at(tokens, now_ns as nat).within_capacity(),
        state.spec_consume_at(tokens, now_ns as nat).slots.len() == state.slots.len(),
{
    let now = now_ns as nat;
    let len = state.slots.len();
    let delta = state.spec_delta(now);
    let aged = state.spec_tick(now);
    lemma_sum_empty(len);
    if 0 < delta < len {
        lemma_sum_shift(state.slots, delta);
        lemma_sum_take_le(state.slots, len - delta);
    }
    if state.spec_grants_at(tokens, now) {
        lemma_sum_take_step(aged.slots, 0);
        lemma_sum_take_le(aged.slots, 1);
        lemma_sum_update(aged.slots, 0, (aged.slots[0] + tokens) as u64);
    }
}

/// A sliding window log that refuses is left as the passing of time alone
/// would leave it, and untouched if less than a millisecond has passed
/// since its last shift.
pub proof fn lemma_sliding_log_refusal_keeps_state(
    state: SlidingWindowLogView,
    tokens: u64,
    now_ns: u128,
)
    requires
        !state.spec_grants_at(tokens, now_ns as nat),
    ensures
        state.spec_consume_at(tokens, now_ns as nat) == state.spec_tick(now_ns as nat),
        state.spec_delta(now_ns as nat) == 0 ==> state.spec_consume_at(tokens, now_ns as nat)
            == state,
{
}

/// A sliding window log ages once per instant: a second attempt at the same
/// time moves nothing, so it is granted only what fits beside the first.
pub proof fn lemma_sliding_log_same_instant(
    state: SlidingWindowLogView,
    first: u64,
    second: u64,
    now_ns: u128,
)
    requires
        state.slots.len() > 0,
    ensures
        ({
            let mid = state.spec_consume_at(first, now_ns as nat);
            &&& mid.spec_delta(now_ns as nat) == 0
            &&& mid.spec_tick(now_ns as nat) == mid
            &&& mid.spec_grants_at(second, now_ns as nat) == (mid.spec_used() + second
                <= mid.capacity)
        }),
{
}

/// The counters of a sliding window counter never leave the range from zero
/// to the capacity.
pub proof fn lemma_sliding_counter_balance_in_range(
    state: SlidingWindowCounterState,
    index: u64,
    tokens: u64,
    effective_prev: u64,
)
    requires
        state.wf(),
    ensures
        state.spec_roll_to(index).wf(),
        state.spec_consume_weighted(tokens, effective_prev).wf(),
        state.spec_roll_to(index).spec_consume_weighted(tokens, effective_prev).wf(),
{
}

/// A sliding window counter that refuses is left as it was.
pub proof fn lemma_sliding_counter_refusal_keeps_state(
    state: SlidingWindowCounterState,
    tokens: u64,
    effective_prev: u64,
)
    requires
        !state.spec_grants(tokens, effective_prev),
    ensures
        state.spec_consume_weighted(tokens, effective_prev) == state,
{
}

/// A sliding window counter moves on once per instant: a second attempt in
/// the same window rolls nothing, and with the same weight for the previous
/// window both attempts together stay within the capacity.
pub proof fn lemma_sliding_counter_same_instant(
    state: SlidingWindowCounterState,
    index: u64,
    effective_prev: u64,
    first: u64,
    second: u64,
)
    ensures
        ({
            let rolled = state.spec_roll_to(index);
            let mid = rolled.spec_consume_weighted(first, effective_prev);
            let last = mid.spec_consume_weighted(second, effective_prev);
            &&& mid.spec_roll_to(index) == mid
            &&& last.tokens_this == rolled.tokens_this + spec_granted(
                rolled.spec_grants(first, effective_prev),
                first,
            ) + spec_granted(mid.spec_grants(second, effective_prev), second)
            &&& effective_prev + rolled.tokens_this <= rolled.capacity ==> effective_prev
                + last.tokens_this <= rolled.capacity
        }),
{
}

/// The fixed window after a sequence of attempts. An attempt is the number
/// of tokens asked for and the time in nanoseconds.
pub open spec fn spec_window_run(state: FixedWindowState, calls: Seq<(u64, u128)>) -> FixedWindowState
    decreases calls.len(),
{
    if calls.len() == 0 {
        state
    } else {
        let call = calls.last();
        spec_window_run(state, calls.drop_last()).spec_consume_at(call.0, call.1 as nat)
    }
}

/// All tokens that a sequence of attempts on a fixed window hands out.
pub open spec fn spec_window_granted(state: FixedWindowState, calls: Seq<(u64, u128)>) -> nat
    decreases calls.len(),
{
    if calls.len() == 0 {
        0
    } else {
        let call = calls.last();
        let pre = spec_window_run(state, calls.drop_last());
        spec_window_granted(state, calls.drop_last()) + spec_granted(
            pre.spec_grants_at(call.0, call.1 as nat),
            call.0,
        )
    }
}

/// The number of attempts of a sequence that find the fixed window in
/// another window than the one before them did.
pub open spec fn spec_window_changes(state: FixedWindowState, calls: Seq<(u64, u128)>) -> nat
    decreases calls.len(),
{
    if calls.len() == 0 {
        0
    } else {
        let pre = spec_window_run(state, calls.drop_last());
        let changed: nat = if pre.spec_window_at(calls.last().1 as nat) != pre.window_index {
            1
        } else {
            0
        };
        spec_window_changes(state, calls.drop_last()) + changed
    }
}

/// Whatever the attempts on a fixed window are, they hand out no more than
/// what the window held at first and one capacity for every change of
/// window. Attempts that all fall into the first window and the one after
/// it can so be handed twice the capacity, and no more.
pub proof fn lemma_fixed_window_capacity_bound(state: FixedWindowState, calls: Seq<(u64, u128)>)
    requires
        state.wf(),
    ensures
        spec_window_run(state, calls).wf(),
        spec_window_run(state, calls).capacity == state.capacity,
        spec_window_granted(state, calls) + spec_window_run(state, calls).tokens <= state.tokens
            + spec_window_changes(state, calls) * state.capacity,
        spec_window_granted(state, calls) <= (1 + spec_window_changes(state, calls))
            * state.capacity,
    decreases calls.len(),
{
    if calls.len() > 0 {
        lemma_fixed_window_capacity_bound(state, calls.drop_last());
        let pre = spec_window_run(state, calls.drop_last());
        let before = spec_window_changes(state, calls.drop_last());
        let capacity = state.capacity as int;
        assert((before + 1) * capacity == before * capacity + capacity) by (nonlinear_arith);
        assert((1 + (before + 1)) * capacity == (before + 1) * capacity + capacity)
            by (nonlinear_arith);
        assert((1 + before) * capacity == before * capacity + capacity) by (nonlinear_arith);
    } else {
        assert((1 + 0) * (state.capacity as int) == state.capacity as int) by (nonlinear_arith);
        assert(0 * (state.capacity as int) == 0) by (nonlinear_arith);
    }
}

/// The token bucket after a sequence of attempts. An attempt is the number
/// of tokens asked for, the time in nanoseconds, and the tokens that the
/// time since the last refill is worth.
pub open spec fn spec_bucket_run(
    state: TokenBucketState,
    calls: Seq<(u64, u128, u64)>,
) -> TokenBucketState
    decreases calls.len(),
{
    if calls.len() == 0 {
        state
    } else {
        let call = calls.last();
        spec_bucket_run(state, calls.drop_last()).spec_consume_at(call.0, call.1 as nat, call.2)
    }
}

/// All tokens that a sequence of attempts on a token bucket hands out.
pub open spec fn spec_bucket_granted(state: TokenBucketState, calls: Seq<(u64, u128, u64)>) -> nat
    decreases calls.len(),
{
    if calls.len() == 0 {
        0
    } else {
        let call = calls.last();
        let pre = spec_bucket_run(state, calls.drop_last());
        spec_bucket_granted(state, calls.drop_last()) + spec_granted(
            pre.spec_grants_at(call.0, call.1 as nat, call.2),
            call.0,
        )
    }
}

/// All tokens that the refills of a sequence of attempts on a token bucket
/// are worth.
pub open spec fn spec_bucket_refilled(state: TokenBucketState, calls: Seq<(u64, u128, u64)>) -> nat
    decreases calls.len(),
{
    if calls.len() == 0 {
        0
    } else {
        let call = calls.last();
        let pre = spec_bucket_run(state, calls.drop_last());
        spec_bucket_refilled(state, calls.drop_last()) + pre.spec_refill(call.1 as nat, call.2) as nat
    }
}

/// Whatever the attempts on a token bucket are, all that they hand out and
/// what is left in the bucket come to no more than what the bucket held at
/// first and what the refills were worth. So the attempts hand out no more
/// than the capacity beyond the refills.
pub proof fn lemma_token_bucket_capacity_bound(
    state: TokenBucketState,
    calls: Seq<(u64, u128, u64)>,
)
    requires
        state.wf(),
    ensures
        spec_bucket_run(state, calls).wf(),
        spec_bucket_run(state, calls).capacity == state.capacity,
        spec_bucket_granted(state, calls) + spec_bucket_run(state, calls).tokens <= state.tokens
            + spec_bucket_refilled(state, calls),
        spec_bucket_granted(state, calls) <= state.capacity + spec_bucket_refilled(state, calls),
    decreases calls.len(),
{
    if calls.len() > 0 {
        let call = calls.last();
        lemma_token_bucket_capacity_bound(state, calls.drop_last());
        lemma_token_bucket_grant_bounded(
            spec_bucket_run(state, calls.drop_last()),
            call.0,
            call.1,
            call.2,
        );
    }
}

/// The sliding window log after a sequence of attempts. An attempt is the
/// number of tokens asked for and the time in nanoseconds.
pub open spec fn spec_log_run(
    state: SlidingWindowLogView,
    calls: Seq<(u64, u128)>,
) -> SlidingWindowLogView
    decreases calls.len(),
{
    if calls.len() == 0 {
        state
    } else {
        let call = calls.last();
        spec_log_run(state, calls.drop_last()).spec_consume_at(call.0, call.1 as nat)
    }
}

/// The tokens that were granted less than `width` milliseconds before the
/// end of a sequence of attempts, where the milliseconds are counted as the
/// log counts them: by the slots that its buffer has moved. What the buffer
/// held before the first attempt counts as granted at the age of its slot.
pub open spec fn spec_log_granted_within(
    state: SlidingWindowLogView,
    calls: Seq<(u64, u128)>,
    width: nat,
) -> nat
    decreases calls.len(),
{
    if calls.len() == 0 {
        spec_sum(state.slots.take(width as int))
    } else {
        let call = calls.last();
        let pre = spec_log_run(state, calls.drop_last());
        let delta = pre.spec_delta(call.1 as nat);
        let now = if width > 0 {
            spec_granted(pre.spec_grants_at(call.0, call.1 as nat), call.0)
        } else {
            0
        };
        let before = if delta < width {
            spec_log_granted_within(state, calls.drop_last(), (width - delta) as nat)
        } else {
            0
        };
        now + before
    }
}

/// No attempt of the sequence asks for more than the capacity at a time
/// when the whole window has aged out.
pub open spec fn spec_log_calls_fit(state: SlidingWindowLogView, calls: Seq<(u64, u128)>) -> bool {
    forall|i: int|
        0 <= i < calls.len() ==> calls[i].0 <= state.capacity || (#[trigger] spec_log_run(
            state,
            calls.take(i),
        )).spec_delta(calls[i].1 as nat) < state.slots.len()
}

/// The first slots of an empty buffer sum to zero.
proof fn lemma_sum_empty_take(len: nat, width: nat)
    requires
        width <= len,
    ensures
        spec_sum(spec_empty(len).take(width as int)) == 0,
{
    assert(spec_empty(len).take(width as int) =~= spec_empty(width));
    lemma_sum_empty(width);
}

/// The first `width` slots of a buffer that has moved by `delta` slots hold
/// what its first `width - delta` slots held.
proof fn lemma_sum_shift_take(slots: Seq<u64>, delta: nat, width: nat)
    requires
        width <= slots.len(),
    ensures
        spec_sum(spec_shift(slots, delta).take(width as int)) == if delta < width {
            spec_sum(slots.take(width - delta))
        } else {
            0
        },
{
    let moved = spec_shift(slots, delta).take(width as int);
    if delta < width {
        let front = slots.take(width as int);
        assert(moved =~= spec_shift(front, delta));
        lemma_sum_shift(front, delta);
        assert(front.take(width - delta) =~= slots.take(width - delta));
    } else {
        assert(moved =~= spec_empty(width));
        lemma_sum_empty(width);
    }
}

/// The log counts what it granted: after any sequence of attempts the first
/// `width` slots of its buffer hold the tokens granted less than `width`
/// milliseconds ago, and all its slots those granted within the window.
pub proof fn lemma_sliding_log_counts_grants(
    state: SlidingWindowLogView,
    calls: Seq<(u64, u128)>,
    width: nat,
)
    requires
        state.slots.len() > 0,
        width <= state.slots.len(),
    ensures
        spec_log_run(state, calls).slots.len() == state.slots.len(),
        spec_log_run(state, calls).capacity == state.capacity,
        spec_sum(spec_log_run(state, calls).slots.take(width as int)) == spec_log_granted_within(
            state,
            calls,
            width,
        ),
        width == state.slots.len() ==> spec_log_run(state, calls).spec_used()
            == spec_log_granted_within(state, calls, width),
    decreases calls.len(),
{
    let len = state.slots.len();
    if calls.len() > 0 {
        let call = calls.last();
        let now = call.1 as nat;
        let pre = spec_log_run(state, calls.drop_last());
        let delta = pre.spec_delta(now);
        let aged = pre.spec_tick(now);
        let post = pre.spec_consume_at(call.0, now);
        lemma_sliding_log_counts_grants(state, calls.drop_last(), 0);
        // What the buffer holds once it has aged.
        if delta == 0 {
            lemma_sliding_log_counts_grants(state, calls.drop_last(), width);
        } else if delta >= len {
            lemma_sum_empty_take(len, width);
        } else {
            lemma_sum_shift_take(pre.slots, delta, width);
            if delta < width {
                lemma_sliding_log_counts_grants(state, calls.drop_last(), (width - delta) as nat);
            }
        }
        // What the grant adds to it.
        if width == 0 {
            assert(post.slots.take(0) =~= Seq::<u64>::empty());
            assert(aged.slots.take(0) =~= Seq::<u64>::empty());
        } else if pre.spec_grants_at(call.0, now) {
            if delta >= len {
                lemma_sum_empty(len);
            } else {
                lemma_sum_take_step(aged.slots, 0);
                lemma_sum_take_le(aged.slots, 1);
            }
            let slot = (aged.slots[0] + call.0) as u64;
            assert(post.slots.take(width as int) =~= aged.slots.take(width as int).update(0, slot));
            lemma_sum_update(aged.slots.take(width as int), 0, slot);
        }
    }
    assert(spec_log_run(state, calls).slots.take(len as int) =~= spec_log_run(state, calls).slots);
}

/// Whatever the attempts on a sliding window log are, as long as none asks
/// for more than the capacity when the whole window has aged out, the
/// tokens granted within the trailing window never exceed the capacity.
pub proof fn lemma_sliding_log_capacity_bound(state: SlidingWindowLogView, calls: Seq<(u64, u128)>)
    requires
        state.slots.len() > 0,
        state.within_capacity(),
        spec_log_calls_fit(state, calls),
    ensures
        spec_log_run(state, calls).within_capacity(),
        spec_log_granted_within(state, calls, state.slots.len()) <= state.capacity,
    decreases calls.len(),
{
    lemma_sliding_log_counts_grants(state, calls, state.slots.len());
    if calls.len() > 0 {
        let call = calls.last();
        let rest = calls.drop_last();
        assert(calls.take(calls.len() - 1) =~= rest);
        assert forall|i: int| 0 <= i < rest.len() implies calls[i].0 <= state.capacity || (
        #[trigger] spec_log_run(state, rest.take(i))).spec_delta(calls[i].1 as nat)
            < state.slots.len() by {
            assert(rest.take(i) =~= calls.take(i));
        }
        lemma_sliding_log_capacity_bound(state, rest);
        lemma_sliding_log_counts_grants(state, rest, state.slots.len());
        lemma_sliding_log_used_in_range(spec_log_run(state, rest), call.0, call.1);
    }
}

/// The attempts come in the order of their times, and none is earlier than
/// the last shift of the log that they start from.
pub open spec fn spec_log_calls_in_order(
    state: SlidingWindowLogView,
    calls: Seq<(u64, u128)>,
) -> bool {
    &&& forall|i: int| 0 <= i < calls.len() ==> state.last_update_ns <= (#[trigger] calls[i]).1
    &&& forall|i: int, j: int|
        0 <= i <= j < calls.len() ==> (#[trigger] calls[i]).1 <= (#[trigger] calls[j]).1
}

/// The tokens that a sequence of attempts on a sliding window log hands out
/// at the time `since_ns` or later.
pub open spec fn spec_log_granted_since(
    state: SlidingWindowLogView,
    calls: Seq<(u64, u128)>,
    since_ns: int,
) -> nat
    decreases calls.len(),
{
    if calls.len() == 0 {
        0
    } else {
        let call = calls.last();
        let pre = spec_log_run(state, calls.drop_last());
        let now = if call.1 >= since_ns {
            spec_granted(pre.spec_grants_at(call.0, call.1 as nat), call.0)
        } else {
            0
        };
        spec_log_granted_since(state, calls.drop_last(), since_ns) + now
    }
}

/// A later time leaves fewer attempts to count.
proof fn lemma_log_granted_since_later(
    state: SlidingWindowLogView,
    calls: Seq<(u64, u128)>,
    earlier_ns: int,
    later_ns: int,
)
    requires
        earlier_ns <= later_ns,
    ensures
        spec_log_granted_since(state, calls, later_ns) <= spec_log_granted_since(
            state,
            calls,
            earlier_ns,
        ),
    decreases calls.len(),
{
    if calls.len() > 0 {
        lemma_log_granted_since_later(state, calls.drop_last(), earlier_ns, later_ns);
    }
}

/// Nothing was granted since a time that is later than every attempt.
proof fn lemma_log_granted_since_none(
    state: SlidingWindowLogView,
    calls: Seq<(u64, u128)>,
    since_ns: int,
)
    requires
        forall|i: int| 0 <= i < calls.len() ==> (#[trigger] calls[i]).1 < since_ns,
    ensures
        spec_log_granted_since(state, calls, since_ns) == 0,
    decreases calls.len(),
{
    if calls.len() > 0 {
        let rest = calls.drop_last();
        assert(calls.last() == calls[calls.len() - 1]);
        assert forall|i: int| 0 <= i < rest.len() implies (#[trigger] rest[i]).1 < since_ns by {
            assert(rest[i] == calls[i]);
        }
        lemma_log_granted_since_none(state, rest, since_ns);
    }
}

/// A shorter sequence of ordered attempts is ordered.
proof fn lemma_log_calls_in_order_rest(state: SlidingWindowLogView, calls: Seq<(u64, u128)>)
    requires
        calls.len() > 0,
        spec_log_calls_in_order(state, calls),
    ensures
        spec_log_calls_in_order(state, calls.drop_last()),
{
    let rest = calls.drop_last();
    assert forall|i: int| 0 <= i < rest.len() implies state.last_update_ns <= (
    #[trigger] rest[i]).1 by {
        assert(rest[i] == calls[i]);
    }
    assert forall|i: int, j: int| 0 <= i <= j < rest.len() implies (#[trigger] rest[i]).1 <= (
    #[trigger] rest[j]).1 by {
        assert(rest[i] == calls[i]);
        assert(rest[j] == calls[j]);
    }
}

/// After ordered attempts the last shift of the log is no later than the
/// last attempt, and no attempt is a millisecond or more later than it.
proof fn lemma_log_last_shift_is_recent(state: SlidingWindowLogView, calls: Seq<(u64, u128)>)
    requires
        spec_log_calls_in_order(state, calls),
    ensures
        state.last_update_ns <= spec_log_run(state, calls).last_update_ns,
        calls.len() > 0 ==> spec_log_run(state, calls).last_update_ns <= calls.last().1,
        forall|i: int|
            0 <= i < calls.len() ==> (#[trigger] calls[i]).1 < spec_log_run(
                state,
                calls,
            ).last_update_ns + 1_000_000,
    decreases calls.len(),
{
    if calls.len() > 0 {
        let rest = calls.drop_last();
        let call = calls.last();
        let pre = spec_log_run(state, rest);
        let post = spec_log_run(state, calls);
        lemma_log_calls_in_order_rest(state, calls);
        lemma_log_last_shift_is_recent(state, rest);
        assert(call == calls[calls.len() - 1]);
        assert(state.last_update_ns <= call.1);
        if rest.len() > 0 {
            assert(rest.last() == calls[calls.len() - 2]);
        }
        assert(pre.last_update_ns <= call.1);
        assert forall|i: int| 0 <= i < calls.len() implies (#[trigger] calls[i]).1
            < post.last_update_ns + 1_000_000 by {
            if i < rest.len() {
                assert(rest[i] == calls[i]);
            }
        }
    }
}

/// The slots of the log against real time: after ordered attempts every
/// grant of the last `width - 1` milliseconds before the last shift of the
/// log is still counted in the first `width` slots of its buffer.
pub proof fn lemma_sliding_log_counts_recent_grants(
    state: SlidingWindowLogView,
    calls: Seq<(u64, u128)>,
    width: nat,
)
    requires
        state.slots.len() > 0,
        1 <= width <= state.slots.len(),
        spec_log_calls_in_order(state, calls),
    ensures
        spec_log_granted_since(
            state,
            calls,
            spec_log_run(state, calls).last_update_ns - (width - 1) * 1_000_000,
        ) <= spec_log_granted_within(state, calls, width),
    decreases calls.len(),
{
    if calls.len() > 0 {
        let rest = calls.drop_last();
        let call = calls.last();
        let pre = spec_log_run(state, rest);
        let post = spec_log_run(state, calls);
        let delta = pre.spec_delta(call.1 as nat);
        let since = post.last_update_ns - (width - 1) * 1_000_000;
        lemma_log_calls_in_order_rest(state, calls);
        lemma_log_last_shift_is_recent(state, rest);
        if delta < width {
            let left = (width - delta) as nat;
            lemma_sliding_log_counts_recent_grants(state, rest, left);
            lemma_log_granted_since_later(
                state,
                rest,
                pre.last_update_ns - (left - 1) * 1_000_000,
                since,
            );
        } else {
            lemma_log_granted_since_none(state, rest, since);
        }
    }
}

/// The capacity bound in real time: whatever the ordered attempts on a
/// sliding window log are, as long as none asks for more than the capacity
/// when the whole window has aged out, the tokens granted during the
/// milliseconds of the window but the oldest, counted back from the last
/// attempt, never exceed the capacity.
pub proof fn lemma_sliding_log_real_time_bound(state: SlidingWindowLogView, calls: Seq<(u64, u128)>)
    requires
        state.slots.len() > 0,
        state.within_capacity(),
        spec_log_calls_fit(state, calls),
        spec_log_calls_in_order(state, calls),
        calls.len() > 0,
    ensures
        spec_log_granted_since(
            state,
            calls,
            calls.last().1 - (state.slots.len() - 1) * 1_000_000,
        ) <= state.capacity,
{
    let len = state.slots.len();
    let post = spec_log_run(state, calls);
    lemma_log_last_shift_is_recent(state, calls);
    lemma_sliding_log_counts_recent_grants(state, calls, len);
    lemma_sliding_log_capacity_bound(state, calls);
    lemma_log_granted_since_later(
        state,
        calls,
        post.last_update_ns - (len - 1) * 1_000_000,
        calls.last().1 - (len - 1) * 1_000_000,
    );
}

} // verus!
