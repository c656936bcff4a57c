//! The interface shared by all limiters.

use vstd::prelude::*;

verus! {

/// Signals that the requested amount of tokens cannot be consumed right now:
/// the limiter limits.
#[derive(Debug, Clone, Copy, PartialEq, Eq, Structural)]
pub struct CantConsume;

impl CantConsume {
    /// The human-readable message of this refusal.
    pub fn message(&self) -> (text: &'static str)
        ensures
            text@ == "can't consume from limiter"@,
    {
        "can't consume from limiter"
    }
}

/// Result of a consume attempt. The error carries no information beyond the
/// fact that the tokens were refused.
pub type LimiterResult = Result<(), CantConsume>;

/// A rate limiter: something that grants or refuses tokens.
pub trait Limiter {
    /// The limiter is in a state that its constructor and methods maintain.
    /// A limiter that does not say otherwise has no such condition.
    open spec fn wf(&self) -> bool {
        true
    }

    /// `post` and `granted` are a possible outcome of asking `pre` for
    /// `tokens` tokens. The outcome is fixed by the state, the request and
    /// the one reading of the time source that the attempt takes. A limiter
    /// that does not say otherwise leaves every outcome open.
    open spec fn consumes(pre: &Self, tokens: u64, post: &Self, granted: bool) -> bool {
        true
    }

    /// Try to consume `tokens` tokens: all of them are granted, or none.
    fn try_consume(&mut self, tokens: u64) -> (result: LimiterResult)
        requires
            old(self).wf(),
        ensures
            final(self).wf(),
            Self::consumes(old(self), tokens, final(self), result.is_ok()),
    ;

    /// Try to consume a single token.
    fn try_consume_one(&mut self) -> (result: LimiterResult)
        requires
            old(self).wf(),
        ensures
            final(self).wf(),
            Self::consumes(old(self), 1, final(self), result.is_ok()),
    {
        self.try_consume(1)
    }
}

} // verus!
