//! Adapter circuit breaker for detecting provider outages.
//!
//! Detects systematic provider outages and fails fast, preventing strategies from wasting
//! time on requests that will likely fail.
//!
//! # Error Classification
//!
//! Only provider outage errors count toward the circuit breaker:
//! - 503 Service Unavailable (provider maintenance)
//! - 502 Bad Gateway (upstream issues)
//! - Connection timeouts
//!
//! The following do NOT count:
//! - 429 Rate Limited (handled by retry with backoff)
//! - 422 Order Rejected (client/business error)
//! - 404 Not Found (resource doesn't exist)
//! - 401 Unauthorized (credential issue)

use vstd::prelude::*;
use vstd::string::*;
use std::time::Instant;
use crate::error::{GatewayError, GatewayErrorView};
use crate::failure_window::{BreakerView, COOLDOWN_MESSAGE, FailureWindow};
use crate::text::join3;
use crate::time::{Duration, NANOS_PER_SEC, instant_now, nanos_between};

verus! {

/// State of the adapter circuit breaker.
#[derive(Debug, Clone, Copy, PartialEq, Eq, Structural)]
pub enum CircuitState {
    /// Normal operation — requests allowed.
    Closed,
    /// Circuit tripped — requests blocked. Requires manual reset.
    Open,
}

/// Adapter circuit breaker for detecting provider outages.
///
/// Trips after N failures within a time window to prevent strategies from
/// wasting time on requests to an unavailable provider.
#[derive(Debug)]
pub struct AdapterCircuitBreaker {
    failures: FailureWindow,
    provider: String,
    epoch: Instant,
}

impl View for AdapterCircuitBreaker {
    type V = BreakerView;

    /// What the breaker remembers; times count from its creation.
    closed spec fn view(&self) -> BreakerView {
        self.failures@
    }
}

impl AdapterCircuitBreaker {
    /// The provider whose outages are detected.
    pub closed spec fn spec_provider(self) -> Seq<char> {
        self.provider@
    }

    /// Create a new circuit breaker with the given threshold and window.
    pub fn new(failure_threshold: usize, failure_window: Duration, provider: &str) -> (
        b: AdapterCircuitBreaker)
        ensures
            b@ == BreakerView::fresh(failure_threshold as nat, failure_window.nanos as nat),
            b.spec_provider() == provider@,
    {
        AdapterCircuitBreaker {
            failures: FailureWindow::new(failure_threshold, failure_window),
            provider: provider.to_owned(),
            epoch: instant_now(),
        }
    }

    /// Record a provider outage failure at a time, counted from the breaker's creation.
    pub fn record_failure_at(&mut self, now: u128)
        ensures
            final(self)@ == old(self)@.after_failure(now),
            final(self).spec_provider() == old(self).spec_provider(),
    {
        self.failures.record_failure_at(now);
    }

    /// Record a provider outage failure, at the time that the clock shows.
    ///
    /// Prunes old failures outside the window and checks if the threshold
    /// is reached. If so, trips the circuit breaker.
    pub fn record_failure(&mut self)
        ensures
            final(self)@ == old(self)@.after_failure(final(self)@.failures.last()),
            final(self).spec_provider() == old(self).spec_provider(),
    {
        let now: u128 = nanos_between(&instant_now(), &self.epoch);
        self.record_failure_at(now);
    }

    /// Check if the circuit breaker is open (blocking requests).
    pub fn is_open(&self) -> (open: bool)
        ensures
            open == self@.open,
    {
        self.failures.is_open()
    }

    /// Reset the circuit breaker at a time, counted from its creation.
    pub fn reset_at(&mut self, now: u128) -> (result: Result<(), &'static str>)
        ensures
            match result {
                Ok(()) => !old(self)@.cooling_down(now) && final(self)@ == old(self)@.after_reset(
                    now,
                ),
                Err(message) => old(self)@.cooling_down(now) && message@ == COOLDOWN_MESSAGE@
                    && final(self)@ == old(self)@,
            },
            final(self).spec_provider() == old(self).spec_provider(),
    {
        self.failures.reset_at(now)
    }

    /// Reset the circuit breaker to closed state, at the time that the clock shows.
    ///
    /// Returns `Err` if the breaker re-tripped within the cooldown window,
    /// preventing strategies from defeating the breaker in a tight loop.
    ///
    /// Should only be called after manual investigation of the failure cause.
    pub fn reset(&mut self) -> (result: Result<(), &'static str>)
        ensures
            match result {
                Ok(()) => final(self)@.last_reset matches Some(now) && !old(self)@.cooling_down(now)
                    && final(self)@ == old(self)@.after_reset(now),
                Err(message) => old(self)@.last_reset is Some && message@ == COOLDOWN_MESSAGE@
                    && final(self)@ == old(self)@,
            },
            final(self).spec_provider() == old(self).spec_provider(),
    {
        let now: u128 = nanos_between(&instant_now(), &self.epoch);
        self.reset_at(now)
    }

    /// Get the number of recent failures within the window at a time, counted from the breaker's
    /// creation.
    pub fn failure_count_at(&self, now: u128) -> (n: usize)
        ensures
            n == self@.count_at(now),
    {
        self.failures.failure_count_at(now)
    }

    /// Get the current number of recent failures within the window, at the time that the clock
    /// shows.
    pub fn failure_count(&self) -> (n: usize)
        ensures
            exists|now: u128| n == #[trigger] self@.count_at(now),
    {
        let now: u128 = nanos_between(&instant_now(), &self.epoch);
        self.failure_count_at(now)
    }

    /// Get the current circuit state.
    pub fn state(&self) -> (state: CircuitState)
        ensures
            state == (if self@.open {
                CircuitState::Open
            } else {
                CircuitState::Closed
            }),
    {
        if self.failures.is_open() {
            CircuitState::Open
        } else {
            CircuitState::Closed
        }
    }

    /// Create the error to return when circuit breaker is open.
    pub fn open_error(&self) -> (e: GatewayError)
        ensures
            e@ == (GatewayErrorView::ProviderUnavailable {
                message: "Adapter circuit breaker open — "@ + self.spec_provider()
                    + " provider outage detected. Manual reset required."@,
            }),
    {
        GatewayError::ProviderUnavailable {
            message: join3(
                "Adapter circuit breaker open — ",
                self.provider.as_str(),
                " provider outage detected. Manual reset required.",
            ),
        }
    }
}

impl Default for AdapterCircuitBreaker {
    fn default() -> (b: AdapterCircuitBreaker)
        ensures
            b@ == BreakerView::fresh(3, (300 * NANOS_PER_SEC) as nat),
            b.spec_provider() == "unknown"@,
    {
        AdapterCircuitBreaker::new(3, Duration::from_secs(300), "unknown")
    }
}

/// Point-in-time snapshot of a circuit breaker's state.
///
/// Used by the REST API to report status without holding locks.
#[derive(Debug, Clone)]
pub struct CircuitBreakerSnapshot {
    /// Current state: `"open"` or `"closed"`.
    pub state: String,
    /// Number of recent failures within the time window.
    pub failure_count: usize,
}

impl CircuitBreakerSnapshot {
    /// Whether a snapshot shows a breaker as it is at a time.
    pub open spec fn shows_at(self, breaker: BreakerView, now: u128) -> bool {
        &&& self.state@ == (if breaker.open {
            "open"@
        } else {
            "closed"@
        })
        &&& self.failure_count == breaker.count_at(now)
    }

    /// Whether a snapshot shows a breaker as it is at some time.
    pub open spec fn shows(self, breaker: BreakerView) -> bool {
        exists|now: u128| self.shows_at(breaker, now)
    }

    /// Create a snapshot of a state and a number of failures.
    pub fn of(open: bool, failure_count: usize) -> (s: CircuitBreakerSnapshot)
        ensures
            s.state@ == (if open {
                "open"@
            } else {
                "closed"@
            }),
            s.failure_count == failure_count,
    {
        let state = if open {
            "open".to_owned()
        } else {
            "closed".to_owned()
        };
        CircuitBreakerSnapshot { state, failure_count }
    }

    /// Create a snapshot from an `AdapterCircuitBreaker`.
    pub fn from_adapter(breaker: &AdapterCircuitBreaker) -> (s: CircuitBreakerSnapshot)
        ensures
            s.shows(breaker@),
    {
        let count: usize = breaker.failure_count();
        let s = CircuitBreakerSnapshot::of(breaker.is_open(), count);
        proof {
            let now = choose|now: u128| count == #[trigger] breaker@.count_at(now);
            assert(s.shows_at(breaker@, now));
        }
        s
    }

    /// Create a default "closed" snapshot (for adapters without a circuit breaker).
    pub fn closed() -> (s: CircuitBreakerSnapshot)
        ensures
            s.state@ == "closed"@,
            s.failure_count == 0,
    {
        CircuitBreakerSnapshot::of(false, 0)
    }
}

/// Check if an error represents a provider outage that should count toward the circuit breaker.
pub fn is_outage_error(error: &GatewayError) -> (outage: bool)
    ensures
        outage == (error@ is ProviderUnavailable || error@ is ProviderError),
{
    match error {
        GatewayError::ProviderUnavailable { .. } | GatewayError::ProviderError { .. } => true,
        _ => false,
    }
}

/// An outage is answered with 502 or 503, and every outage may be retried.
pub proof fn law_outages_are_retryable(e: GatewayErrorView)
    ensures
        e is ProviderUnavailable || e is ProviderError ==> e.is_retryable() && (
        crate::error::status_of(e.code()) == 502 || crate::error::status_of(e.code()) == 503),
{
}

/// A snapshot says whether the circuit is open, in one of two words, and how many failures count.
pub proof fn law_snapshot_tells_the_state(s: CircuitBreakerSnapshot, b: BreakerView, now: u128)
    requires
        s.shows_at(b, now),
    ensures
        b.open ==> s.state@ == "open"@,
        !b.open ==> s.state@ == "closed"@,
        s.failure_count == b.count_at(now),
        s.shows(b),
{
}

} // verus!
