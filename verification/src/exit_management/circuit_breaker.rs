//! Circuit breaker for exit order placement failures.
//!
//! Halts new exit order placements after repeated failures, to prevent accumulation of
//! unprotected positions.

use vstd::prelude::*;
use std::time::Instant;
use crate::failure_window::{BreakerView, COOLDOWN_MESSAGE, FailureWindow};
use crate::time::{Duration, NANOS_PER_SEC, instant_now, nanos_between};

verus! {

/// State of the exit order circuit breaker.
///
/// When closed, normal operation continues. When open, new exit order placements
/// are blocked to prevent further unprotected positions from being created.
#[derive(Debug, Clone, Copy, PartialEq, Eq, Structural)]
pub enum CircuitState {
    /// Normal operation - exit order placements allowed.
    Closed,
    /// Circuit tripped - new exit order placements blocked.
    /// Requires manual intervention to reset.
    Open,
}

/// Circuit breaker for exit order placement failures.
///
/// Trips after N failures within a time window to prevent accumulation of
/// unprotected positions when there's a systematic placement problem
/// (e.g., exchange connectivity issues, rate limiting, account issues).
///
/// # Risk Rationale
///
/// If exit order placement repeatedly fails, the system is creating unprotected
/// positions - a serious risk management failure. The circuit breaker halts
/// new placements to:
///
/// 1. Prevent further unprotected position accumulation
/// 2. Alert operators to investigate the systematic failure
/// 3. Require manual verification before resuming
///
/// # Manual Reset Required
///
/// The circuit breaker does NOT auto-reset. This is intentional:
/// - Systematic failures require investigation
/// - Auto-reset could mask underlying problems
/// - Risk officers need to verify exchange status before resuming
#[derive(Debug)]
pub struct ExitOrderCircuitBreaker {
    failures: FailureWindow,
    epoch: Instant,
}

impl View for ExitOrderCircuitBreaker {
    type V = BreakerView;

    /// What the breaker remembers; times count from its creation.
    closed spec fn view(&self) -> BreakerView {
        self.failures@
    }
}

impl ExitOrderCircuitBreaker {
    /// Create a new circuit breaker with the given threshold and window.
    pub fn new(failure_threshold: usize, failure_window: Duration) -> (b: ExitOrderCircuitBreaker)
        ensures
            b@ == BreakerView::fresh(failure_threshold as nat, failure_window.nanos as nat),
    {
        ExitOrderCircuitBreaker {
            failures: FailureWindow::new(failure_threshold, failure_window),
            epoch: instant_now(),
        }
    }

    /// Record a placement failure at a time, counted from the breaker's creation.
    pub fn record_failure_at(&mut self, now: u128)
        ensures
            final(self)@ == old(self)@.after_failure(now),
    {
        self.failures.record_failure_at(now);
    }

    /// Record a placement failure, at the time that the clock shows.
    ///
    /// Prunes old failures outside the window and checks if the threshold
    /// is reached. If so, trips the circuit breaker.
    pub fn record_failure(&mut self)
        ensures
            final(self)@ == old(self)@.after_failure(final(self)@.failures.last()),
    {
        let now: u128 = nanos_between(&instant_now(), &self.epoch);
        self.record_failure_at(now);
    }

    /// Check if the circuit breaker is open (blocking new placements).
    pub fn is_open(&self) -> (open: bool)
        ensures
            open == self@.open,
    {
        self.failures.is_open()
    }

    /// Reset the circuit breaker at a time, counted from its creation.
    pub fn reset_at(&mut self, now: u128) -> (result: Result<(), &'static str>)
        ensures
            match result {
                Ok(()) => !old(self)@.cooling_down(now) && final(self)@ == old(self)@.after_reset(
                    now,
                ),
                Err(message) => old(self)@.cooling_down(now) && message@ == COOLDOWN_MESSAGE@
                    && final(self)@ == old(self)@,
            },
    {
        self.failures.reset_at(now)
    }

    /// Reset the circuit breaker to closed state, at the time that the clock shows.
    ///
    /// Returns `Err` if the breaker re-tripped within the cooldown window,
    /// preventing strategies from defeating the breaker in a tight loop.
    ///
    /// Should only be called after manual investigation of the failure cause.
    pub fn reset(&mut self) -> (result: Result<(), &'static str>)
        ensures
            match result {
                Ok(()) => final(self)@.last_reset matches Some(now) && !old(self)@.cooling_down(now)
                    && final(self)@ == old(self)@.after_reset(now),
                Err(message) => old(self)@.last_reset is Some && message@ == COOLDOWN_MESSAGE@
                    && final(self)@ == old(self)@,
            },
    {
        let now: u128 = nanos_between(&instant_now(), &self.epoch);
        self.reset_at(now)
    }

    /// Get the number of recent failures within the window at a time, counted from the breaker's
    /// creation.
    pub fn failure_count_at(&self, now: u128) -> (n: usize)
        ensures
            n == self@.count_at(now),
    {
        self.failures.failure_count_at(now)
    }

    /// Get the current number of recent failures within the window, at the time that the clock
    /// shows.
    pub fn failure_count(&self) -> (n: usize)
        ensures
            exists|now: u128| n == #[trigger] self@.count_at(now),
    {
        let now: u128 = nanos_between(&instant_now(), &self.epoch);
        self.failure_count_at(now)
    }

    /// Get the current circuit state.
    pub fn state(&self) -> (state: CircuitState)
        ensures
            state == (if self@.open {
                CircuitState::Open
            } else {
                CircuitState::Closed
            }),
    {
        if self.failures.is_open() {
            CircuitState::Open
        } else {
            CircuitState::Closed
        }
    }
}

impl Default for ExitOrderCircuitBreaker {
    fn default() -> (b: ExitOrderCircuitBreaker)
        ensures
            b@ == BreakerView::fresh(3, (300 * NANOS_PER_SEC) as nat),
    {
        ExitOrderCircuitBreaker::new(3, Duration::from_secs(300))
    }
}

} // verus!
