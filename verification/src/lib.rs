//! Rate limiters as small state machines over an injected time source.
//!
//! Every limiter owns a time source, a closure that returns the time since
//! some fixed epoch, and counters that are plain values. The counters of
//! each limiter have `spec` transition functions; the executable methods are
//! proved to follow them, and the laws in [`laws`] are proved about the
//! transitions.

pub mod fixed_window_impl;
pub mod laws;
pub mod limiter;
pub mod mock_assets;
pub mod sliding_window_impl;
pub mod time;
pub mod token_bucket_impl;

pub use fixed_window_impl::{FixedWindow, FixedWindowState};
pub use limiter::{CantConsume, Limiter, LimiterResult};
pub use mock_assets::MockClock;
pub use sliding_window_impl::{
    SlidingWindowCounter, SlidingWindowCounterState, SlidingWindowLog, SlidingWindowLogState,
    SlidingWindowLogView,
};
pub use token_bucket_impl::{TokenBucket, TokenBucketState};
