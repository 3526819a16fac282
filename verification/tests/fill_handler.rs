use tektii_gateway_core::decimal::Decimal;
use tektii_gateway_core::error::GatewayError;
use tektii_gateway_core::exit_management::fill_handler::{
    classify_error, parse_available_quantity,
};
use tektii_gateway_core::exit_management::{
    ActualOrder, ActualOrderStatus, ErrorCategory, ExitEntry, ExitEntryParams, ExitEntryStatus,
    ExitHandler, ExitLegType, OrderList,
};
use tektii_gateway_core::models::{Side, TradingPlatform};
use tektii_gateway_core::time::Timestamp;

#[test]
fn test_classify_network_error_default() {
    let error = GatewayError::ProviderError {
        message: "Connection refused".to_string(),
        provider: Some("alpaca".to_string()),
        source: None,
    };
    assert_eq!(classify_error(&error), ErrorCategory::InfrastructureFailure);
}

#[test]
fn test_error_category_should_count_infrastructure() {
    assert!(ErrorCategory::InfrastructureFailure.should_count_toward_breaker());
}

#[test]
fn test_error_category_should_not_count_rate_limited() {
    assert!(!ErrorCategory::RateLimited.should_count_toward_breaker());
}

#[test]
fn test_error_category_should_not_count_exchange_unavailable() {
    assert!(!ErrorCategory::ExchangeUnavailable.should_count_toward_breaker());
}

#[test]
fn test_build_exit_order_sets_client_order_id_for_stop_loss() {
    let entry = ExitEntry::new(ExitEntryParams {
        primary_order_id: "primary-order-123".to_string(),
        order_type: ExitLegType::StopLoss,
        symbol: "BTC/USDT".to_string(),
        side: Side::Sell,
        trigger_price: Decimal::new(50000, 0),
        limit_price: None,
        quantity: Decimal::new(1, 0),
        platform: TradingPlatform::BinanceSpotLive,
    });

    let order = ExitHandler::build_exit_order_request(&entry, Decimal::new(1, 0), 0);

    assert_eq!(
        order.client_order_id,
        Some("primary-order-123-sl".to_string()),
        "Stop-loss exit order should have deterministic client_order_id"
    );
}

#[test]
fn test_build_exit_order_sets_client_order_id_for_take_profit() {
    let entry = ExitEntry::new(ExitEntryParams {
        primary_order_id: "primary-order-456".to_string(),
        order_type: ExitLegType::TakeProfit,
        symbol: "BTC/USDT".to_string(),
        side: Side::Sell,
        trigger_price: Decimal::new(60000, 0),
        limit_price: None,
        quantity: Decimal::new(1, 0),
        platform: TradingPlatform::BinanceSpotLive,
    });

    let order = ExitHandler::build_exit_order_request(&entry, Decimal::new(1, 0), 0);

    assert_eq!(
        order.client_order_id,
        Some("primary-order-456-tp".to_string()),
        "Take-profit exit order should have deterministic client_order_id"
    );
}

#[test]
fn test_build_exit_order_client_order_id_is_deterministic() {
    let entry = ExitEntry::new(ExitEntryParams {
        primary_order_id: "order-789".to_string(),
        order_type: ExitLegType::StopLoss,
        symbol: "ETH/USDT".to_string(),
        side: Side::Sell,
        trigger_price: Decimal::new(3000, 0),
        limit_price: None,
        quantity: Decimal::new(2, 0),
        platform: TradingPlatform::AlpacaLive,
    });

    let order1 = ExitHandler::build_exit_order_request(&entry, Decimal::new(2, 0), 0);
    let order2 = ExitHandler::build_exit_order_request(&entry, Decimal::new(2, 0), 0);

    assert_eq!(
        order1.client_order_id, order2.client_order_id,
        "Same inputs must produce same client_order_id for idempotency"
    );
}

#[test]
fn test_build_exit_order_partial_fills_get_unique_client_order_ids() {
    let entry = ExitEntry::new(ExitEntryParams {
        primary_order_id: "order-999".to_string(),
        order_type: ExitLegType::StopLoss,
        symbol: "BTC/USDT".to_string(),
        side: Side::Sell,
        trigger_price: Decimal::new(50000, 0),
        limit_price: None,
        quantity: Decimal::new(1, 0),
        platform: TradingPlatform::BinanceSpotLive,
    });

    let first = ExitHandler::build_exit_order_request(&entry, Decimal::new(5, 1), 0);
    let second = ExitHandler::build_exit_order_request(&entry, Decimal::new(3, 1), 1);
    let third = ExitHandler::build_exit_order_request(&entry, Decimal::new(2, 1), 2);

    assert_eq!(
        first.client_order_id,
        Some("order-999-sl".to_string()),
        "First exit order uses base format"
    );
    assert_eq!(
        second.client_order_id,
        Some("order-999-sl-1".to_string()),
        "Second partial fill appends sequence number"
    );
    assert_eq!(
        third.client_order_id,
        Some("order-999-sl-2".to_string()),
        "Third partial fill appends sequence number"
    );

    // All three must be unique to avoid provider duplicate rejection
    assert_ne!(first.client_order_id, second.client_order_id);
    assert_ne!(second.client_order_id, third.client_order_id);
    assert_ne!(first.client_order_id, third.client_order_id);
}

// =========================================================================
// update_entry_to_failed: actual_orders preservation
// =========================================================================

fn create_test_handler() -> ExitHandler {
    ExitHandler::with_defaults(TradingPlatform::BinanceSpotLive)
}

fn create_test_entry_with_status(
    primary_order_id: &str,
    order_type: ExitLegType,
    symbol: &str,
    status: ExitEntryStatus,
) -> ExitEntry {
    let mut entry = ExitEntry::new(ExitEntryParams {
        primary_order_id: primary_order_id.to_string(),
        order_type,
        symbol: symbol.to_string(),
        side: Side::Sell,
        trigger_price: Decimal::new(50000, 0),
        limit_price: None,
        quantity: Decimal::new(1, 0),
        platform: TradingPlatform::BinanceSpotLive,
    });
    entry.set_status(status);
    entry
}

fn open_order(order_id: &str, quantity: Decimal, leg_type: ExitLegType) -> ActualOrder {
    ActualOrder {
        order_id: order_id.to_string(),
        quantity,
        placed_at: Timestamp::now(),
        status: ActualOrderStatus::Open,
        leg_type,
    }
}

#[test]
fn test_update_entry_to_failed_preserves_actual_orders_from_partially_triggered() {
    let mut handler = create_test_handler();

    let existing_order = open_order("exit-order-123", Decimal::new(5, 1), ExitLegType::StopLoss);

    let entry = create_test_entry_with_status(
        "primary-1",
        ExitLegType::StopLoss,
        "BTCUSDT",
        ExitEntryStatus::PartiallyTriggered {
            filled_qty: Decimal::new(5, 1),
            total_qty: Decimal::new(10, 1),
            actual_orders: OrderList::of(existing_order),
        },
    );

    let placeholder_id = entry.placeholder_id.clone();
    handler.insert_entry(entry);

    // Transition to Failed
    handler.update_entry_to_failed(&placeholder_id, "Connection timeout", 3);

    // Verify the Failed state preserves actual_orders
    let status = handler.get_status(&placeholder_id).expect("entry should exist");
    match status {
        ExitEntryStatus::Failed { actual_orders, error, retry_count, .. } => {
            assert_eq!(actual_orders.len(), 1, "Should preserve the 1 existing order");
            assert_eq!(actual_orders.get(0).order_id, "exit-order-123");
            assert_eq!(actual_orders.get(0).quantity, Decimal::new(5, 1));
            assert_eq!(error, "Connection timeout");
            assert_eq!(retry_count, 3);
        }
        _ => panic!("Expected Failed status"),
    }
}

#[test]
fn test_update_entry_to_failed_from_pending_has_empty_actual_orders() {
    let mut handler = create_test_handler();

    let entry = create_test_entry_with_status(
        "primary-2",
        ExitLegType::TakeProfit,
        "ETHUSDT",
        ExitEntryStatus::Pending,
    );

    let placeholder_id = entry.placeholder_id.clone();
    handler.insert_entry(entry);

    handler.update_entry_to_failed(&placeholder_id, "Network error", 2);

    let status = handler.get_status(&placeholder_id).expect("entry should exist");
    match status {
        ExitEntryStatus::Failed { actual_orders, error, .. } => {
            assert!(actual_orders.len() == 0, "Pending entry has no orders to preserve");
            assert_eq!(error, "Network error");
        }
        _ => panic!("Expected Failed status"),
    }
}

#[test]
fn test_get_actual_orders_from_entry_returns_orders_from_failed() {
    let existing_order = open_order("exit-order-456", Decimal::new(3, 1), ExitLegType::StopLoss);

    let entry = create_test_entry_with_status(
        "primary-3",
        ExitLegType::StopLoss,
        "BTCUSDT",
        ExitEntryStatus::Failed {
            error: "Some error".to_string(),
            retry_count: 1,
            failed_at: Timestamp::now(),
            actual_orders: OrderList::of(existing_order),
        },
    );

    let orders = ExitHandler::get_actual_orders_from_entry(&entry);
    assert_eq!(orders.len(), 1, "Should return orders from Failed state");
    assert_eq!(orders[0].order_id, "exit-order-456");
    assert_eq!(orders[0].quantity, Decimal::new(3, 1), "Quantity should be preserved");
    assert_eq!(orders[0].leg_type, ExitLegType::StopLoss, "Leg type should be preserved");
}

#[test]
fn test_update_entry_to_failed_preserves_actual_orders_from_placed() {
    let mut handler = create_test_handler();

    let existing_order = open_order("exit-order-789", Decimal::new(10, 1), ExitLegType::TakeProfit);

    let entry = create_test_entry_with_status(
        "primary-4",
        ExitLegType::TakeProfit,
        "ETHUSDT",
        ExitEntryStatus::Placed { actual_orders: OrderList::of(existing_order) },
    );

    let placeholder_id = entry.placeholder_id.clone();
    handler.insert_entry(entry);

    handler.update_entry_to_failed(&placeholder_id, "Late confirmation failure", 2);

    let status = handler.get_status(&placeholder_id).expect("entry should exist");
    match status {
        ExitEntryStatus::Failed { actual_orders, error, .. } => {
            assert_eq!(actual_orders.len(), 1, "Should preserve the order from Placed state");
            assert_eq!(actual_orders.get(0).order_id, "exit-order-789");
            assert_eq!(error, "Late confirmation failure");
        }
        _ => panic!("Expected Failed status"),
    }
}

#[test]
fn test_update_entry_to_failed_preserves_multiple_actual_orders() {
    let mut handler = create_test_handler();

    let mut orders = OrderList::new();
    orders.push(open_order("exit-order-a", Decimal::new(3, 1), ExitLegType::StopLoss));
    orders.push(open_order("exit-order-b", Decimal::new(4, 1), ExitLegType::StopLoss));
    orders.push(open_order("exit-order-c", Decimal::new(3, 1), ExitLegType::StopLoss));

    let entry = create_test_entry_with_status(
        "primary-5",
        ExitLegType::StopLoss,
        "BTCUSDT",
        ExitEntryStatus::PartiallyTriggered {
            filled_qty: Decimal::new(10, 1),
            total_qty: Decimal::new(10, 1),
            actual_orders: orders,
        },
    );

    let placeholder_id = entry.placeholder_id.clone();
    handler.insert_entry(entry);

    handler.update_entry_to_failed(&placeholder_id, "Network timeout on 4th fill", 5);

    let status = handler.get_status(&placeholder_id).expect("entry should exist");
    match status {
        ExitEntryStatus::Failed { actual_orders, .. } => {
            assert_eq!(
                actual_orders.len(),
                3,
                "Should preserve all 3 orders from PartiallyTriggered"
            );
            assert_eq!(actual_orders.get(0).order_id, "exit-order-a");
            assert_eq!(actual_orders.get(1).order_id, "exit-order-b");
            assert_eq!(actual_orders.get(2).order_id, "exit-order-c");
        }
        _ => panic!("Expected Failed status"),
    }
}

// =========================================================================
// Reading and classifying errors
// =========================================================================

#[test]
fn available_quantity_is_read_from_the_message() {
    assert_eq!(
        parse_available_quantity("insufficient qty (requested: 1, available: 0.75)"),
        Some(Decimal::new(75, 2))
    );
    assert_eq!(parse_available_quantity("insufficient qty"), None);
    assert_eq!(parse_available_quantity("available: none)"), None);
    assert_eq!(parse_available_quantity("available: 0)"), None);
}

#[test]
fn rate_limits_and_outages_are_not_counted() {
    let limited = GatewayError::RateLimited { retry_after_seconds: None, reset_at: None };
    assert_eq!(classify_error(&limited), ErrorCategory::RateLimited);
    assert!(!classify_error(&limited).should_count_toward_breaker());
}
