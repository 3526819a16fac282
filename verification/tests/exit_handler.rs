use tektii_gateway_core::decimal::Decimal;
use tektii_gateway_core::error::GatewayError;
use tektii_gateway_core::exit_management::cancellation::{CancelAnswer, SiblingStep};
use tektii_gateway_core::exit_management::fill_handler::{
    FillStep, PlacementAttempt, PlacementEvent, PlacementFollowUp, PlacementStep,
};
use tektii_gateway_core::exit_management::{
    ActualOrder, ActualOrderStatus, CancelExitResultInternal, CancellationReason, CircuitState,
    ExitEntry, ExitEntryParams, ExitEntryStatus, ExitHandler, ExitHandlerConfig, ExitLegType,
    OrderList, PlacementOutcome,
};
use tektii_gateway_core::models::{
    Order, OrderHandle, OrderRequest, OrderStatus, OrderType, Side, TimeInForce, TradingPlatform,
};
use tektii_gateway_core::time::{Duration, Timestamp};

fn create_test_handler() -> ExitHandler {
    ExitHandler::with_defaults(TradingPlatform::AlpacaLive)
}

fn create_test_order_request(
    symbol: &str,
    quantity: Decimal,
    side: Side,
    sl: Option<Decimal>,
    tp: Option<Decimal>,
) -> OrderRequest {
    OrderRequest {
        symbol: symbol.to_string(),
        quantity,
        side,
        order_type: OrderType::Market,
        time_in_force: TimeInForce::Gtc,
        limit_price: None,
        stop_price: None,
        stop_loss: sl,
        take_profit: tp,
        trailing_distance: None,
        trailing_type: None,
        client_order_id: None,
        position_id: None,
        display_quantity: None,
        margin_mode: None,
        leverage: None,
        oco_group_id: None,
        hidden: false,
        post_only: false,
        reduce_only: false,
    }
}

fn at(secs: i64) -> Timestamp {
    Timestamp { secs, nanos: 0 }
}

fn placed_order(id: &str, quantity: Decimal) -> Order {
    Order {
        id: id.to_string(),
        client_order_id: None,
        symbol: "BTCUSD".to_string(),
        side: Side::Sell,
        order_type: OrderType::Stop,
        quantity,
        filled_quantity: Decimal::new(0, 0),
        remaining_quantity: quantity,
        limit_price: None,
        stop_price: None,
        stop_loss: None,
        take_profit: None,
        trailing_distance: None,
        trailing_type: None,
        average_fill_price: None,
        status: OrderStatus::Open,
        reject_reason: None,
        position_id: None,
        reduce_only: None,
        post_only: None,
        hidden: None,
        display_quantity: None,
        oco_group_id: None,
        correlation_id: None,
        time_in_force: TimeInForce::Gtc,
        created_at: at(0),
        updated_at: at(0),
    }
}

#[test]
fn test_register_stop_loss_only() {
    let mut handler = create_test_handler();
    let order = create_test_order_request(
        "BTCUSD",
        Decimal::new(1, 0),
        Side::Buy,
        Some(Decimal::new(95, 0)),
        None,
    );

    let result = handler.register("order-1", &order).unwrap();

    assert!(result.has_any());
    assert!(result.stop_loss_id.is_some());
    assert!(result.take_profit_id.is_none());
    assert_eq!(handler.pending_count(), 1);

    let sl_id = result.stop_loss_id.unwrap();
    assert!(sl_id.starts_with("exit:sl:"));

    let entry = handler.get_entry(&sl_id).unwrap();
    assert_eq!(entry.primary_order_id, "order-1");
    assert_eq!(entry.trigger_price, Decimal::new(95, 0));
    assert_eq!(entry.side, Side::Sell);
}

#[test]
fn test_register_both_sl_and_tp_links_siblings() {
    let mut handler = create_test_handler();
    let order = create_test_order_request(
        "BTCUSD",
        Decimal::new(1, 0),
        Side::Buy,
        Some(Decimal::new(95, 0)),
        Some(Decimal::new(110, 0)),
    );

    let result = handler.register("order-1", &order).unwrap();

    assert!(result.has_any());
    assert_eq!(handler.pending_count(), 2);

    let sl_id = result.stop_loss_id.unwrap();
    let tp_id = result.take_profit_id.unwrap();

    let sl_entry = handler.get_entry(&sl_id).unwrap();
    let tp_entry = handler.get_entry(&tp_id).unwrap();

    assert_eq!(sl_entry.sibling_id, Some(tp_id));
    assert_eq!(tp_entry.sibling_id, Some(sl_id));
}

#[test]
fn test_cancel_pending_entry() {
    let mut handler = create_test_handler();
    let order = create_test_order_request(
        "BTCUSD",
        Decimal::new(1, 0),
        Side::Buy,
        Some(Decimal::new(95, 0)),
        None,
    );

    let result = handler.register("order-1", &order).unwrap();
    let sl_id = result.stop_loss_id.unwrap();

    let cancel_result = handler.cancel_entry(&sl_id).unwrap();
    assert!(matches!(cancel_result, CancelExitResultInternal::CancelledPending(_)));

    let status = handler.get_status(&sl_id).unwrap();
    assert!(matches!(status, ExitEntryStatus::Cancelled { .. }));
}

fn create_test_entry(
    primary_order_id: &str,
    order_type: ExitLegType,
    symbol: &str,
    status: ExitEntryStatus,
) -> ExitEntry {
    let mut entry = ExitEntry::new(ExitEntryParams {
        primary_order_id: primary_order_id.to_string(),
        order_type,
        symbol: symbol.to_string(),
        side: Side::Sell,
        trigger_price: Decimal::new(45000, 0),
        limit_price: None,
        quantity: Decimal::new(10, 0),
        platform: TradingPlatform::AlpacaLive,
    });
    entry.set_status(status);
    entry
}

#[test]
fn test_get_failed_entries_empty_when_no_entries() {
    let handler = create_test_handler();
    assert!(handler.get_failed_entries_internal().is_empty());
}

#[test]
fn test_get_failed_entries_returns_only_failed_entries() {
    let mut handler = create_test_handler();

    handler.insert_entry(create_test_entry(
        "order-1",
        ExitLegType::StopLoss,
        "BTCUSD",
        ExitEntryStatus::Pending,
    ));
    handler.insert_entry(create_test_entry(
        "order-2",
        ExitLegType::StopLoss,
        "ETHUSD",
        ExitEntryStatus::Failed {
            error: "Connection refused".to_string(),
            retry_count: 3,
            failed_at: Timestamp::now(),
            actual_orders: OrderList::new(),
        },
    ));
    handler.insert_entry(create_test_entry(
        "order-3",
        ExitLegType::TakeProfit,
        "SOLUSD",
        ExitEntryStatus::Placed { actual_orders: OrderList::new() },
    ));

    let failed_entries = handler.get_failed_entries_internal();
    assert_eq!(failed_entries.len(), 1);
    assert_eq!(failed_entries[0].primary_order_id, "order-2");
}

fn create_test_actual_order(order_id: &str, quantity: Decimal) -> ActualOrder {
    ActualOrder {
        order_id: order_id.to_string(),
        quantity,
        placed_at: Timestamp::now(),
        status: ActualOrderStatus::Open,
        leg_type: ExitLegType::StopLoss,
    }
}

fn two_orders(first: ActualOrder, second: ActualOrder) -> OrderList {
    let mut list = OrderList::of(first);
    list.push(second);
    list
}

#[test]
fn test_get_failed_entries_includes_actual_order_ids() {
    let mut handler = create_test_handler();

    handler.insert_entry(create_test_entry(
        "order-99",
        ExitLegType::StopLoss,
        "BTCUSD",
        ExitEntryStatus::Failed {
            error: "Placement timeout".to_string(),
            retry_count: 1,
            failed_at: Timestamp::now(),
            actual_orders: two_orders(
                create_test_actual_order("live-order-1", Decimal::new(5, 1)),
                create_test_actual_order("live-order-2", Decimal::new(3, 1)),
            ),
        },
    ));

    let entries = handler.get_failed_entries_internal();
    assert_eq!(entries.len(), 1);
    assert_eq!(entries[0].actual_order_ids, vec!["live-order-1", "live-order-2"]);
}

#[test]
fn test_clear_failed_entries_removes_only_failed() {
    let mut handler = create_test_handler();

    handler.insert_entry(create_test_entry(
        "order-1",
        ExitLegType::StopLoss,
        "BTCUSD",
        ExitEntryStatus::Pending,
    ));
    handler.insert_entry(create_test_entry(
        "order-2",
        ExitLegType::StopLoss,
        "ETHUSD",
        ExitEntryStatus::Failed {
            error: "Connection refused".to_string(),
            retry_count: 3,
            failed_at: Timestamp::now(),
            actual_orders: OrderList::new(),
        },
    ));

    let cleared = handler.clear_failed_entries_internal();
    assert_eq!(cleared, 1);
    assert_eq!(handler.pending_count(), 1);
}

#[test]
fn test_clear_failed_entries_cleans_secondary_index() {
    let mut handler = create_test_handler();

    handler.insert_entry(create_test_entry(
        "order-1",
        ExitLegType::StopLoss,
        "BTCUSD",
        ExitEntryStatus::Failed {
            error: "Timeout".to_string(),
            retry_count: 2,
            failed_at: Timestamp::now(),
            actual_orders: OrderList::new(),
        },
    ));

    assert!(handler.has_pending_for_primary("order-1"));
    handler.clear_failed_entries_internal();
    assert!(!handler.has_pending_for_primary("order-1"));
    assert_eq!(handler.primary_orders_count(), 0);
}

#[test]
fn test_cancel_entry_failed_with_actual_orders_returns_needs_cancel() {
    let mut handler = create_test_handler();

    let failed = create_test_entry(
        "order-1",
        ExitLegType::StopLoss,
        "BTCUSD",
        ExitEntryStatus::Failed {
            error: "Connection refused".to_string(),
            retry_count: 3,
            failed_at: Timestamp::now(),
            actual_orders: two_orders(
                create_test_actual_order("actual-1", Decimal::new(5, 1)),
                create_test_actual_order("actual-2", Decimal::new(3, 1)),
            ),
        },
    );
    let placeholder_id = failed.placeholder_id.clone();
    handler.insert_entry(failed);

    let result = handler.cancel_entry(&placeholder_id).unwrap();

    match result {
        CancelExitResultInternal::NeedsCancelFailed { actual_orders, info } => {
            assert_eq!(actual_orders.len(), 2);
            assert_eq!(actual_orders.get(0).order_id, "actual-1");
            assert_eq!(info.primary_order_id, "order-1");
        }
        _ => panic!("Expected NeedsCancelFailed"),
    }
}

#[test]
fn test_cancel_entry_failed_without_actual_orders_returns_already_terminal() {
    let mut handler = create_test_handler();

    let failed = create_test_entry(
        "order-2",
        ExitLegType::TakeProfit,
        "ETHUSD",
        ExitEntryStatus::Failed {
            error: "Insufficient margin".to_string(),
            retry_count: 1,
            failed_at: Timestamp::now(),
            actual_orders: OrderList::new(),
        },
    );
    let placeholder_id = failed.placeholder_id.clone();
    handler.insert_entry(failed);

    let result = handler.cancel_entry(&placeholder_id).unwrap();
    assert!(matches!(result, CancelExitResultInternal::AlreadyTerminal { .. }));
}

#[test]
fn test_cancel_for_position_close_includes_failed_entries_with_actual_orders() {
    let mut handler = create_test_handler();

    handler.insert_entry(create_test_entry(
        "order-1",
        ExitLegType::StopLoss,
        "BTCUSD",
        ExitEntryStatus::Failed {
            error: "Connection timeout".to_string(),
            retry_count: 3,
            failed_at: Timestamp::now(),
            actual_orders: OrderList::of(create_test_actual_order("actual-1", Decimal::new(5, 1))),
        },
    ));
    handler.insert_entry(create_test_entry(
        "order-2",
        ExitLegType::TakeProfit,
        "BTCUSD",
        ExitEntryStatus::Pending,
    ));

    let plan = handler.plan_position_close("BTCUSD");
    let mut cancelled = 0;
    for step in &plan {
        if handler.close_entry(&step.placeholder_id).is_some() {
            cancelled += 1;
        }
    }
    assert_eq!(cancelled, 2);
    assert!(handler.plan_position_close("BTCUSD").is_empty());
}

#[test]
fn test_cancel_for_position_close_skips_failed_entries_without_actual_orders() {
    let mut handler = create_test_handler();

    handler.insert_entry(create_test_entry(
        "order-1",
        ExitLegType::StopLoss,
        "BTCUSD",
        ExitEntryStatus::Failed {
            error: "Rejected by exchange".to_string(),
            retry_count: 1,
            failed_at: Timestamp::now(),
            actual_orders: OrderList::new(),
        },
    ));

    let plan = handler.plan_position_close("BTCUSD");
    assert!(plan.is_empty());
}

// =========================================================================
// Registration
// =========================================================================

#[test]
fn registering_a_price_that_is_not_positive_is_refused() {
    let mut handler = create_test_handler();
    let order = create_test_order_request(
        "BTCUSD",
        Decimal::new(1, 0),
        Side::Buy,
        Some(Decimal::new(-95, 0)),
        None,
    );
    match handler.register("order-1", &order) {
        Err(GatewayError::InvalidRequest { message, field }) => {
            assert_eq!(message, "stop_loss must be a positive number, got -95");
            assert_eq!(field, None);
        }
        _ => panic!("expected InvalidRequest"),
    }
    assert_eq!(handler.pending_count(), 0);
}

#[test]
fn registering_beyond_the_limit_is_refused() {
    let mut config = ExitHandlerConfig::default();
    config.max_pending_entries = 1;
    let mut handler = ExitHandler::new(TradingPlatform::AlpacaLive, config);
    let order = create_test_order_request(
        "BTCUSD",
        Decimal::new(1, 0),
        Side::Buy,
        Some(Decimal::new(95, 0)),
        None,
    );
    assert!(handler.register("order-1", &order).is_ok());
    assert!(handler.register("order-2", &order).is_err());
    assert_eq!(handler.pending_count(), 1);
}

#[test]
fn registering_without_legs_keeps_nothing() {
    let mut handler = create_test_handler();
    let order =
        create_test_order_request("BTCUSD", Decimal::new(1, 0), Side::Buy, None, None);
    let legs = handler.register("order-1", &order).unwrap();
    assert!(!legs.has_any());
    assert_eq!(handler.pending_count(), 0);
    assert!(!handler.has_pending_for_primary("order-1"));
}

#[test]
fn backup_is_activated_under_the_real_order() {
    let mut handler = create_test_handler();
    let order = create_test_order_request(
        "BTCUSD",
        Decimal::new(1, 0),
        Side::Buy,
        Some(Decimal::new(95, 0)),
        Some(Decimal::new(110, 0)),
    );
    let backup = handler.register_preemptive(&order).unwrap();
    assert_eq!(backup.placeholder_ids.len(), 2);
    assert!(handler.has_pending_for_primary(&backup.id));

    handler.activate_backup(&backup.id, "real-1").unwrap();
    assert!(!handler.has_pending_for_primary(&backup.id));
    assert!(handler.has_pending_for_primary("real-1"));
    for id in handler.get_placeholders_for_primary("real-1") {
        assert_eq!(handler.get_entry(&id).unwrap().primary_order_id, "real-1");
    }
    assert!(handler.activate_backup("unknown", "real-2").is_err());
}

#[test]
fn cancelled_backup_is_forgotten() {
    let mut handler = create_test_handler();
    let order = create_test_order_request(
        "BTCUSD",
        Decimal::new(1, 0),
        Side::Buy,
        Some(Decimal::new(95, 0)),
        None,
    );
    let backup = handler.register_preemptive(&order).unwrap();
    handler.cancel_backup(&backup.id).unwrap();
    assert_eq!(handler.pending_count(), 0);
    match handler.cancel_backup(&backup.id) {
        Err(GatewayError::OrderNotFound { id }) => assert_eq!(id, backup.id),
        _ => panic!("expected OrderNotFound"),
    }
}

// =========================================================================
// Fills
// =========================================================================

#[test]
fn fill_places_what_no_order_covers_yet() {
    let mut handler = create_test_handler();
    let order = create_test_order_request(
        "BTCUSD",
        Decimal::new(10, 0),
        Side::Buy,
        Some(Decimal::new(95, 0)),
        None,
    );
    handler.register("order-1", &order).unwrap();
    let ids = handler.fill_targets("order-1", Decimal::new(4, 0), Decimal::new(10, 0));
    assert_eq!(ids, vec!["exit:sl:order-1"]);

    // Four of ten are filled.
    let (entry, request) = match handler.begin_entry_fill(
        &ids[0],
        Decimal::new(4, 0),
        Decimal::new(10, 0),
        None,
        true,
        at(1),
    ) {
        FillStep::Place { entry, request } => (entry, request),
        _ => panic!("expected Place"),
    };
    assert_eq!(request.quantity, Decimal::new(4, 0));
    assert_eq!(request.client_order_id, Some("order-1-sl".to_string()));
    assert_eq!(request.order_type, OrderType::Stop);
    assert_eq!(request.stop_price, Some(Decimal::new(95, 0)));
    assert_eq!(request.side, Side::Sell);
    assert!(!request.reduce_only);

    let placed = placed_order("exit-1", Decimal::new(4, 0));
    match handler.handle_successful_placement(
        &ids[0],
        &entry,
        &placed,
        Some((Decimal::new(4, 0), Decimal::new(10, 0))),
        at(2),
    ) {
        PlacementFollowUp::Finished(result) => match result.outcome {
            PlacementOutcome::Success { actual_order_id, .. } => {
                assert_eq!(actual_order_id, "exit-1")
            }
            _ => panic!("expected Success"),
        },
        _ => panic!("expected Finished"),
    }
    assert!(matches!(
        handler.get_status(&ids[0]).unwrap(),
        ExitEntryStatus::PartiallyTriggered { .. }
    ));

    // The same fill is not handled twice.
    match handler.begin_entry_fill(
        &ids[0],
        Decimal::new(4, 0),
        Decimal::new(10, 0),
        None,
        true,
        at(3),
    ) {
        FillStep::Finished(result) => {
            assert!(matches!(result.outcome, PlacementOutcome::AlreadyProcessed))
        }
        _ => panic!("expected Finished"),
    }

    // The rest is filled: six more are to be covered, by an order of its own.
    match handler.begin_entry_fill(
        &ids[0],
        Decimal::new(10, 0),
        Decimal::new(10, 0),
        None,
        false,
        at(4),
    ) {
        FillStep::Place { request, .. } => {
            assert_eq!(request.quantity, Decimal::new(6, 0));
            assert_eq!(request.client_order_id, Some("order-1-sl-1".to_string()));
        }
        _ => panic!("expected Place"),
    }
}

#[test]
fn fill_of_nothing_has_no_targets() {
    let mut handler = create_test_handler();
    let order = create_test_order_request(
        "BTCUSD",
        Decimal::new(1, 0),
        Side::Buy,
        Some(Decimal::new(95, 0)),
        None,
    );
    handler.register("order-1", &order).unwrap();
    assert!(handler.fill_targets("order-1", Decimal::new(0, 0), Decimal::new(1, 0)).is_empty());
    assert!(handler.fill_targets("order-1", Decimal::new(1, 0), Decimal::new(0, 0)).is_empty());
    assert!(handler.fill_targets("other", Decimal::new(1, 0), Decimal::new(1, 0)).is_empty());
}

#[test]
fn dust_is_deferred() {
    let mut handler = create_test_handler();
    let order = create_test_order_request(
        "BTCUSD",
        Decimal::new(1, 0),
        Side::Buy,
        Some(Decimal::new(95, 0)),
        None,
    );
    handler.register("order-1", &order).unwrap();
    match handler.begin_entry_fill(
        "exit:sl:order-1",
        Decimal::new(1, 4),
        Decimal::new(1, 0),
        None,
        true,
        at(1),
    ) {
        FillStep::Finished(result) => {
            assert!(matches!(result.outcome, PlacementOutcome::Deferred { .. }))
        }
        _ => panic!("expected Finished"),
    }
}

#[test]
fn placing_one_leg_reduces_the_other() {
    let mut handler = create_test_handler();
    let order = create_test_order_request(
        "BTCUSD",
        Decimal::new(10, 0),
        Side::Buy,
        Some(Decimal::new(95, 0)),
        Some(Decimal::new(110, 0)),
    );
    handler.register("order-1", &order).unwrap();
    let entry = handler.get_entry("exit:sl:order-1").unwrap();
    let placed = placed_order("exit-1", Decimal::new(4, 0));
    match handler.handle_successful_placement(
        "exit:sl:order-1",
        &entry,
        &placed,
        Some((Decimal::new(4, 0), Decimal::new(10, 0))),
        at(2),
    ) {
        PlacementFollowUp::Finished(result) => {
            let cancellation = result.sibling_cancellation.unwrap();
            assert_eq!(cancellation.sibling_placeholder_id, "exit:tp:order-1");
            assert_eq!(cancellation.qty_cancelled, Decimal::new(4, 0));
            assert!(!cancellation.was_placed);
            assert!(cancellation.cancel_success);
        }
        _ => panic!("expected Finished"),
    }
    assert_eq!(handler.get_entry("exit:tp:order-1").unwrap().quantity, Decimal::new(6, 0));

    // Placing the rest leaves nothing for the other leg.
    let entry = handler.get_entry("exit:sl:order-1").unwrap();
    let rest = placed_order("exit-2", Decimal::new(6, 0));
    let _ = handler.handle_successful_placement("exit:sl:order-1", &entry, &rest, None, at(3));
    match handler.get_status("exit:tp:order-1").unwrap() {
        ExitEntryStatus::Cancelled { reason, .. } => {
            assert_eq!(reason, CancellationReason::SiblingFilled)
        }
        _ => panic!("expected Cancelled"),
    }
}

#[test]
fn sibling_that_is_placed_is_cancelled_at_the_provider() {
    let mut handler = create_test_handler();
    let order = create_test_order_request(
        "BTCUSD",
        Decimal::new(10, 0),
        Side::Buy,
        Some(Decimal::new(95, 0)),
        Some(Decimal::new(110, 0)),
    );
    handler.register("order-1", &order).unwrap();
    handler.update_entry_to_placed(
        "exit:tp:order-1",
        create_test_actual_order("tp-live", Decimal::new(10, 0)),
        at(1),
    );
    let order_ids = match handler.cancel_sibling_at("exit:tp:order-1", Decimal::new(10, 0), at(2)) {
        SiblingStep::CancelAtProvider { order_ids } => order_ids,
        _ => panic!("expected CancelAtProvider"),
    };
    assert_eq!(order_ids, vec!["tp-live"]);
    let answers = vec![CancelAnswer { order_id: "tp-live".to_string(), error: None }];
    let done = handler.finish_sibling_cancellation_at(
        "exit:tp:order-1",
        Decimal::new(10, 0),
        &answers,
        at(3),
    );
    assert!(done.was_placed);
    assert!(done.cancel_success);
    assert_eq!(done.actual_order_ids, vec!["tp-live"]);
    assert!(done.errors.is_empty());
    assert!(matches!(
        handler.get_status("exit:tp:order-1").unwrap(),
        ExitEntryStatus::Cancelled { .. }
    ));
}

#[test]
fn placement_is_retried_after_the_configured_delays() {
    let handler = create_test_handler();
    let order = create_test_order_request("BTCUSD", Decimal::new(1, 0), Side::Sell, None, None);
    let refused = || {
        PlacementEvent::Refused(GatewayError::ProviderError {
            message: "connection reset".to_string(),
            provider: None,
            source: None,
        })
    };
    let delays = [100u64, 300, 1000];
    let mut attempt = PlacementAttempt::first();
    for delay in delays {
        match handler.placement_step(&order, attempt, refused(), at(1)) {
            PlacementStep::Retry { delay: told, next } => {
                assert_eq!(told, Duration::from_millis(delay));
                attempt = next;
            }
            _ => panic!("expected Retry"),
        }
    }
    match handler.placement_step(&order, attempt, refused(), at(1)) {
        PlacementStep::Failed { retry_count, .. } => assert_eq!(retry_count, 4),
        _ => panic!("expected Failed"),
    }
}

#[test]
fn insufficient_balance_and_wash_trades_are_not_retried() {
    let mut handler = create_test_handler();
    let order = create_test_order_request("BTCUSD", Decimal::new(1, 0), Side::Sell, None, None);
    let balance = PlacementEvent::Refused(GatewayError::OrderRejected {
        reason: "insufficient balance for BTC (requested: 1, available: 0.5)".to_string(),
        reject_code: None,
        details: None,
    });
    match handler.placement_step(&order, PlacementAttempt::first(), balance, at(1)) {
        PlacementStep::Failed { error, retry_count } => {
            assert_eq!(retry_count, 0);
            let result = handler.handle_placement_error(
                "exit:sl:order-1",
                ExitLegType::StopLoss,
                error,
                retry_count,
                at(2),
            );
            match result.outcome {
                PlacementOutcome::Deferred { reason } => assert_eq!(
                    reason,
                    "Insufficient balance: Order rejected: insufficient balance for BTC (requested: 1, available: 0.5)"
                ),
                _ => panic!("expected Deferred"),
            }
        }
        _ => panic!("expected Failed"),
    }
    let wash = PlacementEvent::Refused(GatewayError::OrderRejected {
        reason: "potential wash trade".to_string(),
        reject_code: None,
        details: None,
    });
    assert!(matches!(
        handler.placement_step(&order, PlacementAttempt::first(), wash, at(1)),
        PlacementStep::Failed { .. }
    ));
}

#[test]
fn accepted_order_counts_even_where_it_cannot_be_fetched() {
    let handler = create_test_handler();
    let order = create_test_order_request("BTCUSD", Decimal::new(2, 0), Side::Sell, None, None);
    let handle = || OrderHandle {
        id: "h-1".to_string(),
        client_order_id: None,
        correlation_id: None,
        status: OrderStatus::Open,
    };
    match handler.placement_step(
        &order,
        PlacementAttempt::first(),
        PlacementEvent::Submitted(handle()),
        at(1),
    ) {
        PlacementStep::Fetch(h) => assert_eq!(h.id, "h-1"),
        _ => panic!("expected Fetch"),
    }
    match handler.placement_step(
        &order,
        PlacementAttempt::first(),
        PlacementEvent::NotFetched(handle()),
        at(1),
    ) {
        PlacementStep::Placed { order, retry_count } => {
            assert_eq!(order.id, "h-1");
            assert_eq!(order.quantity, Decimal::new(2, 0));
            assert_eq!(retry_count, 0);
        }
        _ => panic!("expected Placed"),
    }
}

#[test]
fn failures_open_the_breaker_and_an_open_breaker_places_nothing() {
    let mut handler = create_test_handler();
    let order = create_test_order_request(
        "BTCUSD",
        Decimal::new(1, 0),
        Side::Buy,
        Some(Decimal::new(95, 0)),
        None,
    );
    for i in 0..4 {
        handler.register(&format!("order-{i}"), &order).unwrap();
    }
    for i in 0..3 {
        assert!(!handler.is_circuit_breaker_open_internal());
        let request =
            create_test_order_request("BTCUSD", Decimal::new(1, 0), Side::Sell, None, None);
        let last = PlacementAttempt { attempt: 3, retry_count: 3 };
        let refused = PlacementEvent::Refused(GatewayError::ProviderError {
            message: "timeout".to_string(),
            provider: None,
            source: None,
        });
        match handler.placement_step(&request, last, refused, at(1)) {
            PlacementStep::Failed { error, retry_count } => {
                let id = format!("exit:sl:order-{i}");
                let result = handler.handle_placement_error(
                    &id,
                    ExitLegType::StopLoss,
                    error,
                    retry_count,
                    at(2),
                );
                assert!(matches!(result.outcome, PlacementOutcome::Failed { .. }));
            }
            _ => panic!("expected Failed"),
        }
    }
    assert!(handler.is_circuit_breaker_open_internal());
    assert_eq!(handler.circuit_breaker_state(), CircuitState::Open);
    assert_eq!(handler.circuit_breaker_failure_count(), 3);
    match handler.begin_entry_fill(
        "exit:sl:order-3",
        Decimal::new(1, 0),
        Decimal::new(1, 0),
        None,
        false,
        at(3),
    ) {
        FillStep::Finished(result) => {
            assert!(matches!(result.outcome, PlacementOutcome::Deferred { .. }))
        }
        _ => panic!("expected Finished"),
    }
    handler.reset_circuit_breaker().expect("reset should succeed");
    assert!(!handler.is_circuit_breaker_open_internal());
}

// =========================================================================
// Cancellation and cleanup
// =========================================================================

#[test]
fn cancelling_the_primary_order_cancels_its_pending_exits() {
    let mut handler = create_test_handler();
    let order = create_test_order_request(
        "BTCUSD",
        Decimal::new(1, 0),
        Side::Buy,
        Some(Decimal::new(95, 0)),
        Some(Decimal::new(110, 0)),
    );
    handler.register("order-1", &order).unwrap();
    let result = handler.handle_cancellation("order-1").unwrap();
    assert_eq!(result.cancelled, vec!["exit:sl:order-1", "exit:tp:order-1"]);
    assert!(result.failed.is_empty());
    assert!(!handler.has_pending_for_primary("order-1"));
    // A second time there is nothing left to cancel.
    assert!(handler.handle_cancellation("order-1").unwrap().cancelled.is_empty());
}

#[test]
fn unknown_entry_cannot_be_cancelled() {
    let mut handler = create_test_handler();
    assert!(handler.cancel_entry("exit:sl:none").is_err());
    assert!(handler.close_entry("exit:sl:none").is_none());
}

#[test]
fn entries_older_than_their_time_to_live_are_cleaned_up() {
    let mut handler = create_test_handler();
    let order = create_test_order_request(
        "BTCUSD",
        Decimal::new(1, 0),
        Side::Buy,
        Some(Decimal::new(95, 0)),
        None,
    );
    handler.register("order-1", &order).unwrap();
    assert_eq!(handler.cleanup_expired_entries(), 0);
    assert_eq!(handler.pending_count(), 1);
    let day: u128 = 86_400 * 1_000_000_000;
    assert_eq!(handler.cleanup_expired_entries_at(10 * day), 1);
    assert_eq!(handler.pending_count(), 0);
    assert!(!handler.has_pending_for_primary("order-1"));
}

#[test]
fn each_entry_expires_by_its_own_age() {
    let mut handler = create_test_handler();
    let day: u128 = 86_400 * 1_000_000_000;
    let pending = |id: &str| {
        create_test_entry(id, ExitLegType::StopLoss, "BTCUSD", ExitEntryStatus::Pending)
    };
    handler.insert_entry_at(pending("old"), 0);
    handler.insert_entry_at(pending("young"), day as i128);
    handler.insert_entry_at(pending("middle"), 10);
    // An entry that is exactly as old as the time to live stays.
    assert_eq!(handler.cleanup_expired_entries_at(day), 0);
    assert_eq!(handler.cleanup_expired_entries_at(day + 1), 1);
    assert!(!handler.has_pending_for_primary("old"));
    assert!(handler.has_pending_for_primary("middle"));
    assert_eq!(handler.cleanup_expired_entries_at(day + 11), 1);
    assert!(!handler.has_pending_for_primary("middle"));
    assert!(handler.has_pending_for_primary("young"));
    assert_eq!(handler.cleanup_expired_entries_at(2 * day + 1), 1);
    assert_eq!(handler.pending_count(), 0);
    // An entry may be older than its handler.
    handler.insert_entry_at(pending("before"), -10);
    assert_eq!(handler.cleanup_expired_entries_at(day - 10), 0);
    assert_eq!(handler.cleanup_expired_entries_at(day - 9), 1);
}

#[test]
fn inserted_entry_keeps_the_time_at_which_it_was_made() {
    let mut handler = create_test_handler();
    let entry =
        create_test_entry("order-1", ExitLegType::StopLoss, "BTCUSD", ExitEntryStatus::Pending);
    let made = entry.created_at;
    handler.insert_entry(entry);
    let kept = handler.get_entry("exit:sl:order-1").unwrap();
    assert_eq!(kept.created_at, made);
    assert!(kept.made_at >= 0);

    // Made before its handler, an entry counts as the older of the two.
    let early =
        create_test_entry("order-2", ExitLegType::StopLoss, "BTCUSD", ExitEntryStatus::Pending);
    let mut later = create_test_handler();
    while later.get_entry("exit:sl:order-2").map_or(true, |e| e.made_at == 0) {
        later = create_test_handler();
        later.insert_entry(early.clone());
    }
    assert!(later.get_entry("exit:sl:order-2").unwrap().made_at < 0);
}

#[test]
fn fill_whose_order_was_not_placed_is_asked_for_again_under_the_same_id() {
    let mut handler = create_test_handler();
    let order = create_test_order_request(
        "BTCUSD",
        Decimal::new(10, 0),
        Side::Buy,
        Some(Decimal::new(95, 0)),
        None,
    );
    handler.register("order-1", &order).unwrap();
    let id_of = |handler: &mut ExitHandler, filled: i64| {
        let step = handler.begin_entry_fill(
            "exit:sl:order-1",
            Decimal::new(filled, 0),
            Decimal::new(10, 0),
            None,
            true,
            at(filled),
        );
        match step {
            FillStep::Place { request, .. } => request.client_order_id.unwrap(),
            other => panic!("expected Place, got {:?}", other),
        }
    };
    assert_eq!(id_of(&mut handler, 1), "order-1-sl");
    assert_eq!(id_of(&mut handler, 2), "order-1-sl");
    let live = ActualOrder {
        order_id: "live-1".to_string(),
        quantity: Decimal::new(2, 0),
        placed_at: at(2),
        status: ActualOrderStatus::Open,
        leg_type: ExitLegType::StopLoss,
    };
    handler.update_entry_partial_fill(
        "exit:sl:order-1",
        live,
        Decimal::new(2, 0),
        Decimal::new(10, 0),
        at(2),
    );
    assert_eq!(id_of(&mut handler, 3), "order-1-sl-1");
    assert_eq!(id_of(&mut handler, 4), "order-1-sl-1");
}

#[test]
fn entry_that_fails_again_keeps_its_orders() {
    let mut handler = create_test_handler();
    handler.insert_entry(create_test_entry(
        "order-1",
        ExitLegType::StopLoss,
        "BTCUSD",
        ExitEntryStatus::Pending,
    ));
    let live = ActualOrder {
        order_id: "live-1".to_string(),
        quantity: Decimal::new(10, 0),
        placed_at: at(0),
        status: ActualOrderStatus::Open,
        leg_type: ExitLegType::StopLoss,
    };
    handler.update_entry_to_placed("exit:sl:order-1", live, at(0));
    for (error, retries) in [("first", 1), ("second", 2)] {
        handler.update_entry_to_failed("exit:sl:order-1", error, retries);
        match handler.get_status("exit:sl:order-1").unwrap() {
            ExitEntryStatus::Failed { error: told, retry_count, actual_orders, .. } => {
                assert_eq!(told, error);
                assert_eq!(retry_count, retries);
                assert_eq!(actual_orders.len(), 1);
                assert_eq!(actual_orders.get(0).order_id, "live-1");
            }
            other => panic!("expected Failed, got {:?}", other),
        }
    }
}

#[test]
fn placeholder_ids_are_recognised() {
    assert!(ExitHandler::is_placeholder_id("exit:sl:1"));
    assert!(ExitHandler::is_placeholder_id("exit:tp:1"));
    assert!(!ExitHandler::is_placeholder_id("order-1"));
}
