use tektii_gateway_core::api::state::GatewayState;
use tektii_gateway_core::correlation::CorrelationStore;
use tektii_gateway_core::exit_management::{ExitHandler, ExitHandlerRegistry};
use tektii_gateway_core::models::TradingPlatform;

fn test_gateway_state() -> GatewayState {
    GatewayState::new(
        TradingPlatform::AlpacaPaper,
        ExitHandlerRegistry::new(),
        CorrelationStore::new(),
        None,
    )
}

#[test]
fn shutdown_flag_defaults_to_false() {
    let state = test_gateway_state();
    assert!(!state.is_shutting_down());
}

#[test]
fn set_shutting_down_sets_flag() {
    let mut state = test_gateway_state();
    state.set_shutting_down();
    assert!(state.is_shutting_down());
}

#[test]
fn state_gives_back_what_it_was_made_of() {
    let mut registry = ExitHandlerRegistry::new();
    registry.register(
        TradingPlatform::OandaLive,
        ExitHandler::with_defaults(TradingPlatform::OandaLive),
    );
    let state = GatewayState::new(
        TradingPlatform::OandaLive,
        registry,
        CorrelationStore::new(),
        Some("key".to_string()),
    );
    assert_eq!(state.platform(), TradingPlatform::OandaLive);
    assert_eq!(state.api_key(), Some("key"));
    assert_eq!(state.exit_handler_registry().len(), 1);
    assert!(state.exit_handler().is_some());
    assert_eq!(state.correlation_store().get("x"), None);
}
