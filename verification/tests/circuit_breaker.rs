use tektii_gateway_core::circuit_breaker::{
    AdapterCircuitBreaker, CircuitBreakerSnapshot, CircuitState, is_outage_error,
};
use tektii_gateway_core::error::GatewayError;
use tektii_gateway_core::time::Duration;

#[test]
fn breaker_starts_closed() {
    let breaker = AdapterCircuitBreaker::new(3, Duration::from_secs(300), "test");
    assert!(!breaker.is_open());
    assert_eq!(breaker.state(), CircuitState::Closed);
}

#[test]
fn breaker_trips_after_threshold() {
    let mut breaker = AdapterCircuitBreaker::new(3, Duration::from_secs(300), "test");

    breaker.record_failure();
    assert!(!breaker.is_open());

    breaker.record_failure();
    assert!(!breaker.is_open());

    breaker.record_failure();
    assert!(breaker.is_open());
    assert_eq!(breaker.state(), CircuitState::Open);
}

#[test]
fn breaker_reset() {
    let mut breaker = AdapterCircuitBreaker::new(3, Duration::from_secs(300), "test");

    for _ in 0..3 {
        breaker.record_failure();
    }
    assert!(breaker.is_open());

    breaker.reset().expect("reset should succeed");
    assert!(!breaker.is_open());
    assert_eq!(breaker.failure_count(), 0);
}

#[test]
fn outage_error_classification() {
    assert!(is_outage_error(&GatewayError::ProviderUnavailable { message: "test".to_string() }));

    assert!(is_outage_error(&GatewayError::ProviderError {
        message: "test".to_string(),
        provider: Some("test".to_string()),
        source: None,
    }));

    assert!(!is_outage_error(&GatewayError::RateLimited {
        retry_after_seconds: Some(30),
        reset_at: None
    }));

    assert!(!is_outage_error(&GatewayError::OrderRejected {
        reason: "test".to_string(),
        reject_code: None,
        details: None
    }));

    assert!(!is_outage_error(&GatewayError::OrderNotFound { id: "test".to_string() }));
}

#[test]
fn open_error_message() {
    let breaker = AdapterCircuitBreaker::new(3, Duration::from_secs(300), "alpaca");
    let error = breaker.open_error();

    match error {
        GatewayError::ProviderUnavailable { message } => {
            assert!(message.contains("circuit breaker"));
            assert!(message.contains("alpaca"));
        }
        _ => panic!("Expected ProviderUnavailable error"),
    }
}

#[test]
fn reset_cooldown_rejects_rapid_reset() {
    let mut breaker = AdapterCircuitBreaker::new(2, Duration::from_secs(300), "test");

    // Trip and reset
    breaker.record_failure();
    breaker.record_failure();
    assert!(breaker.is_open());
    breaker.reset().expect("first reset should succeed");

    // Trip again immediately
    breaker.record_failure();
    breaker.record_failure();
    assert!(breaker.is_open());

    // Second reset within cooldown should fail
    let result = breaker.reset();
    assert!(result.is_err());
    assert!(breaker.is_open(), "breaker should still be open");
}

#[test]
fn reset_succeeds_once_the_cooldown_is_over() {
    let mut breaker = AdapterCircuitBreaker::new(1, Duration::from_secs(300), "test");
    let second: u128 = 1_000_000_000;
    breaker.record_failure_at(0);
    assert!(breaker.reset_at(second).is_ok());
    breaker.record_failure_at(2 * second);
    assert_eq!(
        breaker.reset_at(61 * second - 1),
        Err("Circuit breaker re-tripped within cooldown period. Investigate the underlying failure before resetting again.")
    );
    assert!(breaker.is_open());
    assert!(breaker.reset_at(61 * second).is_ok());
    assert!(!breaker.is_open());
}

#[test]
fn failures_leave_the_window() {
    let mut breaker = AdapterCircuitBreaker::new(3, Duration::from_secs(10), "test");
    let second: u128 = 1_000_000_000;
    breaker.record_failure_at(0);
    breaker.record_failure_at(second);
    // The first failure is 10 s old, which still counts.
    let mut same = AdapterCircuitBreaker::new(3, Duration::from_secs(10), "test");
    same.record_failure_at(0);
    same.record_failure_at(second);
    same.record_failure_at(10 * second);
    assert!(same.is_open());
    // A moment later it does not.
    breaker.record_failure_at(10 * second + 1);
    assert!(!breaker.is_open());
    assert_eq!(breaker.failure_count_at(10 * second + 1), 2);
    assert_eq!(breaker.failure_count_at(11 * second + 1), 1);
    assert_eq!(breaker.failure_count_at(30 * second), 0);
}

#[test]
fn snapshot_tells_state_and_count() {
    let mut breaker = AdapterCircuitBreaker::new(2, Duration::from_secs(300), "test");
    breaker.record_failure();
    let closed = CircuitBreakerSnapshot::from_adapter(&breaker);
    assert_eq!(closed.state, "closed");
    assert_eq!(closed.failure_count, 1);
    breaker.record_failure();
    let open = CircuitBreakerSnapshot::from_adapter(&breaker);
    assert_eq!(open.state, "open");
    assert_eq!(open.failure_count, 2);
    let fresh = CircuitBreakerSnapshot::closed();
    assert_eq!(fresh.state, "closed");
    assert_eq!(fresh.failure_count, 0);
}
