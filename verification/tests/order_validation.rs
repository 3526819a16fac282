use tektii_gateway_core::decimal::Decimal;
use tektii_gateway_core::error::GatewayError;
use tektii_gateway_core::models::order::{FieldRule, parse_status_filter};
use tektii_gateway_core::models::{
    MarginMode, OrderRequest, OrderStatus, OrderType, Side, TimeInForce, TrailingType,
};

fn invalid_value_field(err: &GatewayError) -> &str {
    match err {
        GatewayError::InvalidValue { field, .. } => field,
        _ => panic!("expected InvalidValue"),
    }
}

fn invalid_request_field(err: &GatewayError) -> Option<&str> {
    match err {
        GatewayError::InvalidRequest { field, .. } => field.as_deref(),
        _ => panic!("expected InvalidRequest"),
    }
}

fn base_market() -> OrderRequest {
    OrderRequest::market("AAPL", Side::Buy, Decimal::new(10, 0))
}

// --- Market order ---

#[test]
fn validate_semantics_market_valid() {
    assert!(base_market().validate_semantics().is_ok());
}

#[test]
fn validate_semantics_market_rejects_limit_price() {
    let mut o = base_market();
    o.limit_price = Some(Decimal::new(100, 0));
    let err = o.validate_semantics().unwrap_err();
    assert_eq!(invalid_value_field(&err), "limit_price");
}

#[test]
fn validate_semantics_market_rejects_stop_price() {
    let mut o = base_market();
    o.stop_price = Some(Decimal::new(100, 0));
    let err = o.validate_semantics().unwrap_err();
    assert_eq!(invalid_value_field(&err), "stop_price");
}

#[test]
fn validate_semantics_market_rejects_trailing_distance() {
    let mut o = base_market();
    o.trailing_distance = Some(Decimal::new(5, 0));
    let err = o.validate_semantics().unwrap_err();
    assert_eq!(invalid_value_field(&err), "trailing_distance");
}

// --- Limit order ---

#[test]
fn validate_semantics_limit_valid() {
    assert!(
        OrderRequest::limit("AAPL", Side::Buy, Decimal::new(10, 0), Decimal::new(150, 0))
            .validate_semantics()
            .is_ok()
    );
}

#[test]
fn validate_semantics_limit_missing_price() {
    let mut o = base_market();
    o.order_type = OrderType::Limit;
    let err = o.validate_semantics().unwrap_err();
    assert_eq!(invalid_request_field(&err), Some("limit_price"));
}

#[test]
fn validate_semantics_limit_zero_price() {
    let o = OrderRequest::limit("AAPL", Side::Buy, Decimal::new(10, 0), Decimal::new(0, 0));
    let err = o.validate_semantics().unwrap_err();
    assert_eq!(invalid_value_field(&err), "limit_price");
}

#[test]
fn validate_semantics_limit_rejects_stop_price() {
    let mut o = OrderRequest::limit("AAPL", Side::Buy, Decimal::new(10, 0), Decimal::new(150, 0));
    o.stop_price = Some(Decimal::new(140, 0));
    let err = o.validate_semantics().unwrap_err();
    assert_eq!(invalid_value_field(&err), "stop_price");
}

// --- Stop order ---

#[test]
fn validate_semantics_stop_valid() {
    assert!(
        OrderRequest::stop("AAPL", Side::Sell, Decimal::new(10, 0), Decimal::new(140, 0))
            .validate_semantics()
            .is_ok()
    );
}

#[test]
fn validate_semantics_stop_missing_price() {
    let mut o = base_market();
    o.order_type = OrderType::Stop;
    let err = o.validate_semantics().unwrap_err();
    assert_eq!(invalid_request_field(&err), Some("stop_price"));
}

#[test]
fn validate_semantics_stop_rejects_limit_price() {
    let mut o = OrderRequest::stop("AAPL", Side::Sell, Decimal::new(10, 0), Decimal::new(140, 0));
    o.limit_price = Some(Decimal::new(135, 0));
    let err = o.validate_semantics().unwrap_err();
    assert_eq!(invalid_value_field(&err), "limit_price");
}

// --- StopLimit order ---

#[test]
fn validate_semantics_stop_limit_valid() {
    assert!(
        OrderRequest::stop_limit("AAPL", Side::Buy, Decimal::new(10, 0), Decimal::new(140, 0), Decimal::new(145, 0))
            .validate_semantics()
            .is_ok()
    );
}

#[test]
fn validate_semantics_stop_limit_missing_stop_price() {
    let mut o = OrderRequest::stop_limit("AAPL", Side::Buy, Decimal::new(10, 0), Decimal::new(140, 0), Decimal::new(145, 0));
    o.stop_price = None;
    let err = o.validate_semantics().unwrap_err();
    assert_eq!(invalid_request_field(&err), Some("stop_price"));
}

#[test]
fn validate_semantics_stop_limit_missing_limit_price() {
    let mut o = OrderRequest::stop_limit("AAPL", Side::Buy, Decimal::new(10, 0), Decimal::new(140, 0), Decimal::new(145, 0));
    o.limit_price = None;
    let err = o.validate_semantics().unwrap_err();
    assert_eq!(invalid_request_field(&err), Some("limit_price"));
}

// --- TrailingStop order ---

fn trailing_stop_order() -> OrderRequest {
    let mut o = base_market();
    o.order_type = OrderType::TrailingStop;
    o.trailing_distance = Some(Decimal::new(5, 0));
    o.trailing_type = Some(TrailingType::Absolute);
    o
}

#[test]
fn validate_semantics_trailing_stop_valid() {
    assert!(trailing_stop_order().validate_semantics().is_ok());
}

#[test]
fn validate_semantics_trailing_stop_missing_distance() {
    let mut o = trailing_stop_order();
    o.trailing_distance = None;
    let err = o.validate_semantics().unwrap_err();
    assert_eq!(invalid_request_field(&err), Some("trailing_distance"));
}

#[test]
fn validate_semantics_trailing_stop_missing_type() {
    let mut o = trailing_stop_order();
    o.trailing_type = None;
    let err = o.validate_semantics().unwrap_err();
    assert_eq!(invalid_request_field(&err), Some("trailing_type"));
}

#[test]
fn validate_semantics_trailing_stop_percent_at_100() {
    let mut o = trailing_stop_order();
    o.trailing_distance = Some(Decimal::new(100, 0));
    o.trailing_type = Some(TrailingType::Percent);
    let err = o.validate_semantics().unwrap_err();
    assert_eq!(invalid_value_field(&err), "trailing_distance");
}

#[test]
fn validate_semantics_trailing_stop_percent_99_valid() {
    let mut o = trailing_stop_order();
    o.trailing_distance = Some(Decimal::new(999, 1));
    o.trailing_type = Some(TrailingType::Percent);
    assert!(o.validate_semantics().is_ok());
}

#[test]
fn validate_semantics_trailing_stop_rejects_limit_price() {
    let mut o = trailing_stop_order();
    o.limit_price = Some(Decimal::new(100, 0));
    let err = o.validate_semantics().unwrap_err();
    assert_eq!(invalid_value_field(&err), "limit_price");
}

#[test]
fn validate_semantics_trailing_stop_rejects_stop_price() {
    let mut o = trailing_stop_order();
    o.stop_price = Some(Decimal::new(100, 0));
    let err = o.validate_semantics().unwrap_err();
    assert_eq!(invalid_value_field(&err), "stop_price");
}

// --- Cross-cutting ---

#[test]
fn validate_semantics_stop_loss_must_be_positive() {
    let mut o = base_market();
    o.stop_loss = Some(Decimal::new(-1, 0));
    let err = o.validate_semantics().unwrap_err();
    assert_eq!(invalid_value_field(&err), "stop_loss");
}

#[test]
fn validate_semantics_take_profit_must_be_positive() {
    let mut o = base_market();
    o.take_profit = Some(Decimal::new(0, 0));
    let err = o.validate_semantics().unwrap_err();
    assert_eq!(invalid_value_field(&err), "take_profit");
}

#[test]
fn validate_semantics_bracket_legs_valid() {
    let o = base_market()
        .with_stop_loss(Decimal::new(140, 0))
        .with_take_profit(Decimal::new(160, 0));
    assert!(o.validate_semantics().is_ok());
}

#[test]
fn validate_semantics_display_quantity_must_be_positive() {
    let o = base_market().with_display_quantity(Decimal::new(0, 0));
    let err = o.validate_semantics().unwrap_err();
    assert_eq!(invalid_value_field(&err), "display_quantity");
}

#[test]
fn validate_semantics_display_quantity_must_be_less_than_quantity() {
    let o = base_market().with_display_quantity(Decimal::new(15, 0));
    let err = o.validate_semantics().unwrap_err();
    assert_eq!(invalid_value_field(&err), "display_quantity");
    match err {
        GatewayError::InvalidValue { message, .. } => assert!(message.contains("less than")),
        _ => panic!("expected InvalidValue"),
    }
}

#[test]
fn validate_semantics_display_quantity_valid() {
    let o = base_market().with_display_quantity(Decimal::new(5, 0));
    assert!(o.validate_semantics().is_ok());
}

#[test]
fn validate_semantics_leverage_must_be_positive() {
    let o = base_market().with_leverage(Decimal::new(0, 0));
    let err = o.validate_semantics().unwrap_err();
    assert_eq!(invalid_value_field(&err), "leverage");
}

#[test]
fn validate_semantics_trailing_distance_must_be_positive() {
    let mut o = trailing_stop_order();
    o.trailing_distance = Some(Decimal::new(0, 0));
    let err = o.validate_semantics().unwrap_err();
    assert_eq!(invalid_value_field(&err), "trailing_distance");
}

#[test]
fn builders_set_their_fields() {
    let o = base_market()
        .reduce_only()
        .post_only()
        .hidden()
        .with_client_id("c-1")
        .with_oco_group("g-1")
        .for_position("p-1")
        .with_margin_mode(MarginMode::Isolated)
        .with_leverage(Decimal::new(3, 0))
        .with_time_in_force(TimeInForce::Day);
    assert!(o.reduce_only);
    assert!(o.post_only);
    assert!(o.hidden);
    assert_eq!(o.client_order_id, Some("c-1".to_string()));
    assert_eq!(o.oco_group_id, Some("g-1".to_string()));
    assert_eq!(o.position_id, Some("p-1".to_string()));
    assert_eq!(o.margin_mode, Some(MarginMode::Isolated));
    assert_eq!(o.leverage, Some(Decimal::new(3, 0)));
    assert_eq!(o.time_in_force, TimeInForce::Day);
    assert_eq!(o.symbol, "AAPL");
}

#[test]
fn field_rules_are_checked() {
    assert!(base_market().validate().is_empty());
    let long = "x".repeat(65);
    let o = OrderRequest::market("", Side::Buy, Decimal::new(0, 0))
        .with_client_id(&long)
        .with_oco_group(&long);
    assert_eq!(
        o.validate(),
        vec![
            FieldRule::SymbolLength,
            FieldRule::QuantityPositive,
            FieldRule::ClientOrderIdLength,
            FieldRule::OcoGroupIdLength
        ]
    );
    let edge = OrderRequest::market(&"s".repeat(20), Side::Buy, Decimal::new(1, 28))
        .with_client_id(&"x".repeat(64));
    assert!(edge.validate().is_empty());
    assert_eq!(
        OrderRequest::market(&"s".repeat(21), Side::Buy, Decimal::new(1, 0)).validate(),
        vec![FieldRule::SymbolLength]
    );
}

#[test]
fn status_filter_is_read_from_lists_and_commas() {
    assert_eq!(
        parse_status_filter(&vec!["OPEN, FILLED".to_string(), "CANCELLED".to_string()]),
        Ok(Some(vec![OrderStatus::Open, OrderStatus::Filled, OrderStatus::Cancelled]))
    );
    assert_eq!(parse_status_filter(&vec![" , ".to_string()]), Ok(None));
    assert_eq!(parse_status_filter(&vec![]), Ok(None));
    assert_eq!(
        parse_status_filter(&vec!["OPEN,NOPE".to_string()]),
        Err("NOPE".to_string())
    );
}
