use tektii_gateway_core::exit_management::{CircuitState, ExitOrderCircuitBreaker};
use tektii_gateway_core::time::Duration;

#[test]
fn circuit_breaker_breaker_starts_closed() {
    let breaker = ExitOrderCircuitBreaker::new(3, Duration::from_secs(300));
    assert!(!breaker.is_open());
    assert_eq!(breaker.state(), CircuitState::Closed);
    assert_eq!(breaker.failure_count(), 0);
}

#[test]
fn circuit_breaker_breaker_trips_after_threshold() {
    let mut breaker = ExitOrderCircuitBreaker::new(3, Duration::from_secs(300));

    breaker.record_failure();
    assert!(!breaker.is_open());

    breaker.record_failure();
    assert!(!breaker.is_open());

    breaker.record_failure();
    assert!(breaker.is_open());
    assert_eq!(breaker.state(), CircuitState::Open);
}

#[test]
fn breaker_stays_open_after_more_failures() {
    let mut breaker = ExitOrderCircuitBreaker::new(2, Duration::from_secs(300));

    breaker.record_failure();
    breaker.record_failure();
    assert!(breaker.is_open());

    // Additional failures should not panic or change state
    breaker.record_failure();
    breaker.record_failure();
    assert!(breaker.is_open());
    assert_eq!(breaker.state(), CircuitState::Open);
}

#[test]
fn circuit_breaker_breaker_reset() {
    let mut breaker = ExitOrderCircuitBreaker::new(3, Duration::from_secs(300));

    for _ in 0..3 {
        breaker.record_failure();
    }
    assert!(breaker.is_open());

    breaker.reset().expect("reset should succeed");
    assert!(!breaker.is_open());
    assert_eq!(breaker.state(), CircuitState::Closed);
    assert_eq!(breaker.failure_count(), 0);
}

#[test]
fn breaker_can_retrip_after_reset() {
    let mut breaker = ExitOrderCircuitBreaker::new(2, Duration::from_secs(300));

    // Trip
    breaker.record_failure();
    breaker.record_failure();
    assert!(breaker.is_open());

    // Reset
    breaker.reset().expect("reset should succeed");
    assert!(!breaker.is_open());

    // Trip again
    breaker.record_failure();
    assert!(!breaker.is_open());
    breaker.record_failure();
    assert!(breaker.is_open());
}

#[test]
fn window_pruning_expires_old_failures() {
    let mut breaker = ExitOrderCircuitBreaker::new(3, Duration::from_millis(50));
    let milli: u128 = 1_000_000;

    // Record 2 failures
    breaker.record_failure_at(0);
    breaker.record_failure_at(0);
    assert_eq!(breaker.failure_count_at(0), 2);

    // This failure, past the window, should prune the old ones first
    breaker.record_failure_at(60 * milli);
    assert!(!breaker.is_open(), "old failures should have been pruned");
    assert_eq!(breaker.failure_count_at(60 * milli), 1);
}

#[test]
fn default_trips_after_three_failures() {
    let mut breaker = ExitOrderCircuitBreaker::default();

    breaker.record_failure();
    breaker.record_failure();
    assert!(!breaker.is_open());

    breaker.record_failure();
    assert!(breaker.is_open());
}

#[test]
fn failures_that_left_the_window_do_not_close_an_open_circuit() {
    let mut breaker = ExitOrderCircuitBreaker::new(1, Duration::from_millis(50));
    breaker.record_failure_at(0);
    breaker.record_failure_at(1_000_000_000);
    assert_eq!(breaker.failure_count_at(1_000_000_000), 1);
    assert!(breaker.is_open());
}

#[test]
fn failures_that_left_the_window_are_not_counted() {
    let mut breaker = ExitOrderCircuitBreaker::new(3, Duration::from_millis(50));
    let milli: u128 = 1_000_000;
    breaker.record_failure_at(0);
    breaker.record_failure_at(30 * milli);
    assert_eq!(breaker.failure_count_at(50 * milli), 2);
    assert_eq!(breaker.failure_count_at(50 * milli + 1), 1);
    assert_eq!(breaker.failure_count_at(81 * milli), 0);
    let mut recent = ExitOrderCircuitBreaker::new(3, Duration::from_secs(300));
    recent.record_failure();
    assert_eq!(recent.failure_count(), 1);
}

#[test]
fn fewer_failures_than_the_threshold_after_a_reset_keep_the_circuit_closed() {
    let mut breaker = ExitOrderCircuitBreaker::new(3, Duration::from_secs(300));
    breaker.record_failure_at(0);
    breaker.record_failure_at(1);
    breaker.record_failure_at(2);
    assert!(breaker.reset_at(3).is_ok());
    breaker.record_failure_at(4);
    breaker.record_failure_at(5);
    assert!(!breaker.is_open());
    assert!(breaker.reset_at(6).is_err());
}
