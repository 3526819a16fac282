use tektii_gateway_core::api::extractors::{has_no_body, invalid_json, tells_empty_body};
use tektii_gateway_core::api::routes::{
    admit_order, circuit_breaker_status, closed_handles, exit_order_snapshot, readiness,
    reset_exit_breaker,
};
use tektii_gateway_core::api::state::GatewayState;
use tektii_gateway_core::circuit_breaker::CircuitBreakerSnapshot;
use tektii_gateway_core::correlation::CorrelationStore;
use tektii_gateway_core::decimal::Decimal;
use tektii_gateway_core::error::GatewayError;
use tektii_gateway_core::exit_management::{ExitHandler, ExitHandlerRegistry};
use tektii_gateway_core::models::{OrderRequest, Side, TradingPlatform};

fn state() -> GatewayState {
    GatewayState::new(
        TradingPlatform::AlpacaPaper,
        ExitHandlerRegistry::new(),
        CorrelationStore::new(),
        None,
    )
}

#[test]
fn orders_are_refused_during_shutdown() {
    let mut state = state();
    let order = OrderRequest::market("AAPL", Side::Buy, Decimal::new(1, 0));
    let id = admit_order(&state, &order).unwrap();
    assert!(uuid::Uuid::parse_str(&id).is_ok());
    state.set_shutting_down();
    assert!(matches!(admit_order(&state, &order), Err(GatewayError::ShuttingDown)));
}

#[test]
fn orders_that_make_no_sense_are_refused() {
    let order = OrderRequest::limit("AAPL", Side::Buy, Decimal::new(1, 0), Decimal::new(0, 0));
    assert!(matches!(admit_order(&state(), &order), Err(GatewayError::InvalidValue { .. })));
}

#[test]
fn readiness_follows_the_shutdown_flag() {
    let mut state = state();
    let (status, ready) = readiness(&state);
    assert_eq!(status, 200);
    assert!(ready.ready);
    state.set_shutting_down();
    let (status, ready) = readiness(&state);
    assert_eq!(status, 503);
    assert!(!ready.ready);
}

#[test]
fn breaker_status_shows_both_breakers() {
    let handler = ExitHandler::with_defaults(TradingPlatform::AlpacaPaper);
    let snapshot = exit_order_snapshot(Some(&handler));
    assert_eq!(snapshot.state, "closed");
    assert_eq!(exit_order_snapshot(None).failure_count, 0);
    let status = circuit_breaker_status(Some(CircuitBreakerSnapshot::of(true, 3)), Some(&handler));
    assert_eq!(status.adapter.state, "open");
    assert_eq!(status.adapter.failure_count, 3);
    assert_eq!(status.exit_order.state, "closed");
}

#[test]
fn resetting_the_breaker_twice_is_refused() {
    let mut handler = ExitHandler::with_defaults(TradingPlatform::AlpacaPaper);
    assert!(reset_exit_breaker(&mut handler).is_ok());
    assert!(matches!(reset_exit_breaker(&mut handler), Err(GatewayError::ResetCooldown { .. })));
}

#[test]
fn bodies_that_are_absent_or_empty() {
    assert!(has_no_body(false, None));
    assert!(has_no_body(true, Some("0")));
    assert!(!has_no_body(true, Some("12")));
    assert!(!has_no_body(true, None));
    assert!(tells_empty_body(&invalid_json("EOF while parsing a value")));
    assert!(!tells_empty_body(&invalid_json("expected value")));
    assert!(!tells_empty_body(&GatewayError::ShuttingDown));
}

#[test]
fn no_position_to_close_is_no_error() {
    assert!(closed_handles(Ok(vec![])).unwrap().is_empty());
    let missing = GatewayError::PositionNotFound { id: "p".to_string() };
    assert!(closed_handles(Err(missing)).unwrap().is_empty());
    assert!(matches!(closed_handles(Err(GatewayError::ShuttingDown)), Err(GatewayError::ShuttingDown)));
}
