use tektii_gateway_core::decimal::Decimal;
use tektii_gateway_core::exit_management::{
    ActualOrder, ActualOrderStatus, CancellationReason, ErrorCategory, ExitEntry, ExitEntryParams,
    ExitEntryStatus, ExitHandlerConfig, ExitLegType, ExitOrderType, OrderList, PlaceOrderError,
    PlacementResult, generate_placeholder_id, opposite_side, parse_placeholder_id, parse_side,
    side_to_str,
};
use tektii_gateway_core::models::{Side, TradingPlatform};
use tektii_gateway_core::time::{Duration, Timestamp};

#[test]
fn test_parse_placeholder_id_take_profit() {
    let result = parse_placeholder_id("exit:tp:order-456");
    assert_eq!(result, Some((ExitLegType::TakeProfit, "order-456".to_string())));
}

#[test]
fn test_parse_placeholder_id_invalid() {
    assert_eq!(parse_placeholder_id("not-a-placeholder"), None);
    assert_eq!(parse_placeholder_id("exit:xx:order-123"), None);
    assert_eq!(parse_placeholder_id("pending:sl:order-123"), None);
}

#[test]
fn test_opposite_side() {
    assert_eq!(opposite_side(Side::Buy), Side::Sell);
    assert_eq!(opposite_side(Side::Sell), Side::Buy);
}

#[test]
fn test_client_order_suffix_stop_loss() {
    assert_eq!(ExitLegType::StopLoss.client_order_suffix(), "sl");
}

#[test]
fn test_client_order_suffix_take_profit() {
    assert_eq!(ExitLegType::TakeProfit.client_order_suffix(), "tp");
}

#[test]
fn placeholder_id_round_trip() {
    for leg in [ExitLegType::StopLoss, ExitLegType::TakeProfit] {
        for primary in ["order-1", "", "exit:sl:x"] {
            let id = generate_placeholder_id(leg, primary);
            assert_eq!(parse_placeholder_id(&id), Some((leg, primary.to_string())));
        }
    }
}

#[test]
fn sides_are_read_in_any_case() {
    assert_eq!(parse_side("BuY"), Some(Side::Buy));
    assert_eq!(parse_side("SELL"), Some(Side::Sell));
    assert_eq!(parse_side("hold"), None);
    assert_eq!(parse_side(" buy"), None);
    assert_eq!(parse_side("\u{17f}ell"), None);
    assert_eq!(parse_side(side_to_str(Side::Buy)), Some(Side::Buy));
    assert_eq!(parse_side(side_to_str(Side::Sell)), Some(Side::Sell));
    assert_eq!(side_to_str(Side::Buy), "buy");
    assert_eq!(side_to_str(Side::Sell), "sell");
}

#[test]
fn leg_types_become_order_types() {
    assert_eq!(ExitOrderType::from(ExitLegType::StopLoss), ExitOrderType::StopLoss);
    assert_eq!(ExitOrderType::from(ExitLegType::TakeProfit), ExitOrderType::TakeProfit);
}

#[test]
fn remaining_quantity_never_falls_below_zero() {
    let mut order = ActualOrder {
        order_id: "o".to_string(),
        quantity: Decimal::new(10, 1),
        placed_at: Timestamp::now(),
        status: ActualOrderStatus::Open,
        leg_type: ExitLegType::StopLoss,
    };
    assert_eq!(order.remaining_qty(), Decimal::new(10, 1));
    assert!(order.is_active());
    order.status = ActualOrderStatus::PartiallyFilled {
        filled_qty: Decimal::new(15, 1),
        updated_at: Timestamp::now(),
    };
    assert!(order.remaining_qty().is_zero());
    order.status = ActualOrderStatus::Filled { filled_at: Timestamp::now() };
    assert!(order.remaining_qty().is_zero());
    assert!(order.is_terminal());
    assert!(!order.is_active());
}

fn entry() -> ExitEntry {
    ExitEntry::new(ExitEntryParams {
        primary_order_id: "order-1".to_string(),
        order_type: ExitLegType::StopLoss,
        symbol: "BTCUSD".to_string(),
        side: Side::Sell,
        trigger_price: Decimal::new(90, 0),
        limit_price: None,
        quantity: Decimal::new(1, 0),
        platform: TradingPlatform::Mock,
    })
}

fn later(entry: &ExitEntry, secs: i64) -> Timestamp {
    Timestamp { secs: entry.created_at_utc.secs + secs, nanos: entry.created_at_utc.nanos }
}

#[test]
fn the_life_of_an_entry_is_timed() {
    let mut entry = entry();
    assert!(entry.is_pending());
    assert!(!entry.is_triggered());
    assert_eq!(entry.placement_latency(), None);
    assert_eq!(entry.lifecycle_duration(), None);

    let placed_at = later(&entry, 3);
    entry.set_status(ExitEntryStatus::Placed {
        actual_orders: OrderList::of(ActualOrder {
            order_id: "live".to_string(),
            quantity: Decimal::new(1, 0),
            placed_at,
            status: ActualOrderStatus::Open,
            leg_type: ExitLegType::StopLoss,
        }),
    });
    assert!(entry.is_triggered());
    assert!(!entry.is_pending());
    assert_eq!(entry.placement_latency(), Some(Duration::from_secs(3)));
    assert_eq!(entry.lifecycle_duration(), None);

    let cancelled_at = later(&entry, 10);
    entry.set_status(ExitEntryStatus::Cancelled {
        cancelled_at,
        reason: CancellationReason::UserRequested,
    });
    assert_eq!(entry.placement_latency(), None);
    assert_eq!(entry.lifecycle_duration(), Some(Duration::from_secs(10)));

    // A clock that was set back gives no duration.
    let cancelled_at = later(&entry, -1);
    entry.set_status(ExitEntryStatus::Cancelled {
        cancelled_at,
        reason: CancellationReason::UserRequested,
    });
    assert_eq!(entry.lifecycle_duration(), None);
}

#[test]
fn every_change_raises_the_version() {
    let mut entry = entry();
    assert_eq!(entry.version(), 0);
    entry.set_status(ExitEntryStatus::Pending);
    entry.increment_version();
    assert_eq!(entry.version(), 2);
    assert!(entry.updated_at.is_some());
}

#[test]
fn platforms_share_the_default_configuration() {
    let config = ExitHandlerConfig::for_platform(TradingPlatform::BinanceSpotLive);
    assert_eq!(config.max_pending_entries, 10_000);
    assert_eq!(config.entry_ttl, Duration::from_secs(24 * 60 * 60));
    assert_eq!(config.circuit_breaker_threshold, 3);
    assert_eq!(config.circuit_breaker_window, Duration::from_secs(5 * 60));
    assert_eq!(config.min_exit_order_qty, Decimal::new(1, 3));
    assert_eq!(config.retry_delays.len(), 3);
}

#[test]
fn outcomes_are_told_apart() {
    let deferred = PlacementResult::deferred(
        "exit:sl:order-1".to_string(),
        ExitLegType::StopLoss,
        "later".to_string(),
    );
    assert!(deferred.is_deferred());
    assert!(!deferred.is_success());
    assert!(!deferred.is_failed());
    assert_eq!(deferred.actual_order_id(), None);

    let short = PlaceOrderError::InsufficientBalance {
        message: "too little".to_string(),
        requested_quantity: Decimal::new(2, 0),
        available_quantity: Decimal::new(1, 0),
    };
    assert!(short.is_insufficient_balance());
    assert!(!short.is_wash_trade());
    assert_eq!(short.message(), "too little");
    let failed = PlaceOrderError::Failed {
        message: "down".to_string(),
        retry_count: 1,
        category: ErrorCategory::InfrastructureFailure,
    };
    assert!(!failed.is_insufficient_balance());
}
