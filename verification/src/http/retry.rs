//! Retry rules for transient failures.

use vstd::prelude::*;
use crate::error::{GatewayError, GatewayErrorView};
use crate::time::{Duration, NANOS_PER_SEC};

verus! {

/// How often a failed operation is retried, and after what delay at most.
#[derive(Debug, Clone, Copy, PartialEq, Eq, Structural)]
pub struct RetryPolicy {
    /// Maximum number of retry attempts (not including the initial attempt).
    pub max_retries: u32,
    /// Maximum delay between retries.
    pub max_delay: Duration,
}

/// What is done about a failed operation.
#[derive(Debug, Clone, Copy, PartialEq, Eq, Structural)]
pub enum RetryStep {
    /// The error is returned.
    GiveUp,
    /// The operation is tried again after a delay.
    Wait(Duration),
}

/// The shorter of two spans.
pub open spec fn shorter(a: Duration, b: Duration) -> Duration {
    if b.nanos < a.nanos {
        b
    } else {
        a
    }
}

impl RetryPolicy {
    /// What is done about an error of an attempt: a transient error is tried again while
    /// there are attempts left, after the delay that a rate limit asks for, or else after the
    /// delay of the backoff, and in no case after more than the longest delay.
    pub open spec fn spec_step(self, error: GatewayErrorView, attempt: u32, backoff: Duration) -> RetryStep {
        if error.is_retryable() && attempt < self.max_retries {
            let wanted = match error {
                GatewayErrorView::RateLimited { retry_after_seconds: Some(seconds), .. } => {
                    Duration { nanos: (seconds * NANOS_PER_SEC) as u128 }
                },
                _ => backoff,
            };
            RetryStep::Wait(shorter(wanted, self.max_delay))
        } else {
            RetryStep::GiveUp
        }
    }

    /// Decides whether a failed operation is retried.
    ///
    /// Respects `retry_after_seconds` from rate limit responses.
    pub fn step(&self, error: &GatewayError, attempt: u32, backoff: Duration) -> (step: RetryStep)
        ensures
            step == self.spec_step(error@, attempt, backoff),
    {
        if !error.is_retryable() || attempt >= self.max_retries {
            return RetryStep::GiveUp;
        }
        let wanted = match error {
            GatewayError::RateLimited { retry_after_seconds: Some(seconds), .. } => {
                Duration::from_secs(*seconds)
            },
            _ => backoff,
        };
        RetryStep::Wait(self.capped(wanted))
    }

    /// A delay, but no more than the longest.
    pub fn capped(&self, delay: Duration) -> (d: Duration)
        ensures
            d == shorter(delay, self.max_delay),
    {
        if self.max_delay.nanos < delay.nanos {
            self.max_delay
        } else {
            delay
        }
    }
}

/// No attempt is followed by a delay longer than the longest, and the last is followed by
/// none.
pub proof fn law_retries_end(
    policy: RetryPolicy,
    error: GatewayErrorView,
    attempt: u32,
    backoff: Duration,
)
    ensures
        attempt >= policy.max_retries ==> policy.spec_step(error, attempt, backoff) is GiveUp,
        policy.spec_step(error, attempt, backoff) matches RetryStep::Wait(delay) ==> delay.nanos
            <= policy.max_delay.nanos && attempt < policy.max_retries && error.is_retryable(),
{
}

/// A failed operation is given up exactly where its error is not transient or no attempt is left.
/// Otherwise it waits as long as a rate limit asks, else as long as the backoff, or as long as is
/// allowed where that is shorter.
pub proof fn law_how_long_a_retry_waits(
    policy: RetryPolicy,
    error: GatewayErrorView,
    attempt: u32,
    backoff: Duration,
)
    ensures
        ({
            let step = policy.spec_step(error, attempt, backoff);
            &&& step is GiveUp <==> !error.is_retryable() || attempt >= policy.max_retries
            &&& step matches RetryStep::Wait(delay) ==> {
                &&& error matches GatewayErrorView::RateLimited {
                    retry_after_seconds: Some(seconds),
                    ..
                } ==> (seconds * 1_000_000_000 <= policy.max_delay.nanos ==> delay.nanos == seconds
                    * 1_000_000_000) && (seconds * 1_000_000_000 > policy.max_delay.nanos
                    ==> delay.nanos == policy.max_delay.nanos)
                &&& !(error matches GatewayErrorView::RateLimited {
                    retry_after_seconds: Some(_),
                    ..
                }) ==> (backoff.nanos <= policy.max_delay.nanos ==> delay.nanos == backoff.nanos)
                    && (backoff.nanos > policy.max_delay.nanos ==> delay.nanos
                    == policy.max_delay.nanos)
            }
        }),
{
}

/// The shorter of two spans is one of them, and neither is shorter.
pub proof fn law_shorter_span(a: Duration, b: Duration)
    ensures
        shorter(a, b) == a || shorter(a, b) == b,
        shorter(a, b).nanos <= a.nanos && shorter(a, b).nanos <= b.nanos,
{
}

} // verus!
