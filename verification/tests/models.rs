use tektii_gateway_core::json::Json;
use tektii_gateway_core::models::{
    AssetClass, Capabilities, ClosePositionRequest, DetailedHealthStatus, HealthStatus, OrderStatus,
    OrderType, OverallStatus, PositionMode, ProviderHealth, ReadyStatus, Side, TimeInForce,
};

#[test]
fn side_accepts_uppercase_and_lowercase() {
    assert_eq!(Side::of_wire("BUY").unwrap(), Side::Buy);
    assert_eq!(Side::of_wire("buy").unwrap(), Side::Buy);
    // Serialization stays uppercase
    assert_eq!(Side::Buy.wire(), "BUY");
}

#[test]
fn order_type_accepts_uppercase_and_lowercase() {
    assert_eq!(OrderType::of_wire("LIMIT").unwrap(), OrderType::Limit);
    assert_eq!(OrderType::of_wire("limit").unwrap(), OrderType::Limit);
    assert_eq!(OrderType::of_wire("stop_limit").unwrap(), OrderType::StopLimit);
}

#[test]
fn time_in_force_accepts_uppercase_and_lowercase() {
    assert_eq!(TimeInForce::of_wire("GTC").unwrap(), TimeInForce::Gtc);
    assert_eq!(TimeInForce::of_wire("gtc").unwrap(), TimeInForce::Gtc);
}

#[test]
fn unknown_wire_names_are_refused() {
    assert_eq!(Side::of_wire("Buy"), None);
    assert_eq!(OrderType::of_wire("stop-limit"), None);
    assert_eq!(TimeInForce::of_wire(""), None);
    assert_eq!(OrderStatus::of_wire("done"), None);
    assert_eq!(OrderStatus::of_wire("FILLED"), Some(OrderStatus::Filled));
}

fn at<'a>(value: &'a Json, key: &str) -> &'a Json {
    value.get(key).unwrap()
}

fn item(value: &Json, i: usize) -> &Json {
    match value {
        Json::Array(items) => &items[i],
        _ => panic!("expected an array"),
    }
}

#[test]
fn detailed_health_serializes_connected() {
    let health = DetailedHealthStatus {
        status: OverallStatus::Connected,
        providers: vec![ProviderHealth {
            platform: "alpaca-paper".to_string(),
            connected: true,
            stale_instruments: vec![],
        }],
    };

    let json = health.to_json();
    assert_eq!(at(&json, "status").as_text(), Some("connected"));
    let provider = item(at(&json, "providers"), 0);
    assert_eq!(at(provider, "platform").as_text(), Some("alpaca-paper"));
    assert!(matches!(at(provider, "connected"), Json::Bool(true)));
    // stale_instruments should be skipped when empty
    assert!(provider.get("stale_instruments").is_none());
}

#[test]
fn detailed_health_serializes_degraded() {
    let health = DetailedHealthStatus {
        status: OverallStatus::Degraded,
        providers: vec![ProviderHealth {
            platform: "alpaca-paper".to_string(),
            connected: false,
            stale_instruments: vec!["AAPL".to_string(), "MSFT".to_string()],
        }],
    };

    let json = health.to_json();
    assert_eq!(at(&json, "status").as_text(), Some("degraded"));
    let provider = item(at(&json, "providers"), 0);
    assert!(matches!(at(provider, "connected"), Json::Bool(false)));
    assert_eq!(item(at(provider, "stale_instruments"), 0).as_text(), Some("AAPL"));
    assert_eq!(item(at(provider, "stale_instruments"), 1).as_text(), Some("MSFT"));
}

#[test]
fn stale_data_degrades_the_health() {
    let well = DetailedHealthStatus::for_provider("mock", vec![]);
    assert_eq!(well.status, OverallStatus::Connected);
    assert!(well.providers[0].connected);
    let ill = DetailedHealthStatus::for_provider("mock", vec!["AAPL".to_string()]);
    assert_eq!(ill.status, OverallStatus::Degraded);
    assert!(!ill.providers[0].connected);
}

#[test]
fn status_constructors() {
    assert_eq!(HealthStatus::ok().status, "ok");
    let ready = ReadyStatus::ready(vec!["mock".to_string()]);
    assert!(ready.ready);
    let not_ready = ReadyStatus::not_ready("shutting down");
    assert!(!not_ready.ready);
}

#[test]
fn capabilities_are_looked_up() {
    let capabilities = Capabilities {
        supported_asset_classes: vec![AssetClass::Crypto],
        supported_order_types: vec![OrderType::Market],
        position_mode: PositionMode::Netting,
        features: vec!["short_selling".to_string()],
        max_leverage: None,
        rate_limits: None,
    };
    assert!(capabilities.supports_feature("short_selling"));
    assert!(!capabilities.supports_feature("fractional"));
    assert!(capabilities.supports_order_type(OrderType::Market));
    assert!(!capabilities.supports_order_type(OrderType::Limit));
    assert!(capabilities.supports_asset_class(AssetClass::Crypto));
    assert!(!capabilities.supports_asset_class(AssetClass::Forex));
}

#[test]
fn closing_a_position_cancels_its_orders_by_default() {
    let request = ClosePositionRequest::default();
    assert!(request.cancel_associated_orders);
}
