use tektii_gateway_core::decimal::Decimal;
use tektii_gateway_core::error::GatewayError;
use tektii_gateway_core::events::router::{
    OcoStep, OrderEventAction, OrderSnapshot, QueryAnswer, ReconcileStart, ReconcileTally,
    TrailingAction, already_terminal,
};
use tektii_gateway_core::events::{
    ConnectionEventType, EventRouter, EventRouterConfig, OrderEventType, PositionEventType,
    WsErrorCode, WsMessage,
};
use tektii_gateway_core::exit_management::{
    ExitHandler, ExitLegType, FailedExitInfo, PlacementOutcome, PlacementResult,
};
use tektii_gateway_core::json::Json;
use tektii_gateway_core::models::{
    Order, OrderRequest, OrderStatus, OrderType, Position, PositionSide, Side, TimeInForce,
    TradingPlatform,
};
use tektii_gateway_core::state::StateManager;
use tektii_gateway_core::time::Timestamp;

fn create_test_router() -> EventRouter {
    EventRouter::new(
        StateManager::new(),
        ExitHandler::with_defaults(TradingPlatform::AlpacaLive),
        TradingPlatform::AlpacaLive,
    )
}

fn at(secs: i64) -> Timestamp {
    Timestamp { secs, nanos: 0 }
}

fn create_test_order(id: &str, status: OrderStatus, filled_qty: Decimal) -> Order {
    Order {
        id: id.to_string(),
        client_order_id: None,
        symbol: "BTCUSD".to_string(),
        side: Side::Buy,
        order_type: OrderType::Market,
        quantity: Decimal::new(100, 0),
        filled_quantity: filled_qty,
        remaining_quantity: Decimal::new(100, 0).minus(&filled_qty),
        limit_price: None,
        stop_price: None,
        stop_loss: None,
        take_profit: None,
        trailing_distance: None,
        trailing_type: None,
        average_fill_price: None,
        status,
        reject_reason: None,
        position_id: None,
        reduce_only: None,
        post_only: None,
        hidden: None,
        display_quantity: None,
        oco_group_id: None,
        correlation_id: None,
        time_in_force: TimeInForce::Gtc,
        created_at: at(0),
        updated_at: at(0),
    }
}

fn create_test_position(id: &str, symbol: &str, quantity: Decimal) -> Position {
    Position {
        id: id.to_string(),
        symbol: symbol.to_string(),
        side: PositionSide::Long,
        quantity,
        average_entry_price: Decimal::new(100, 0),
        current_price: Decimal::new(105, 0),
        unrealized_pnl: Decimal::new(500, 0),
        realized_pnl: Decimal::zero(),
        margin_mode: None,
        leverage: None,
        liquidation_price: None,
        opened_at: at(0),
        updated_at: at(0),
    }
}

fn create_filled_order(id: &str, symbol: &str, side: Side, avg_price: Decimal) -> Order {
    let mut order = create_test_order(id, OrderStatus::Filled, Decimal::new(10, 0));
    order.symbol = symbol.to_string();
    order.side = side;
    order.quantity = Decimal::new(10, 0);
    order.remaining_quantity = Decimal::zero();
    order.average_fill_price = Some(avg_price);
    order
}

/// Synthesizes the position after a fill, and records and broadcasts it.
fn settle(router: &mut EventRouter, order: &Order, position_qty: Decimal) -> Option<WsMessage> {
    match router.synthesize_position_from_fill(order, position_qty, at(1)) {
        Some((event, position)) => {
            let _ = router.handle_position_event(event, &position, false);
            router.broadcast_position_event(event, &position, at(1))
        }
        None => None,
    }
}

fn position_of(message: Option<WsMessage>) -> (PositionEventType, Position) {
    match message {
        Some(WsMessage::Position { event, position, .. }) => (event, position),
        other => panic!("Expected Position message, got {:?}", other),
    }
}

fn alert_of(message: WsMessage) -> (WsErrorCode, String, Json) {
    match message {
        WsMessage::Error { code, message, details, .. } => {
            (code, message, details.expect("details should be present"))
        }
        other => panic!("Expected Error message, got {:?}", other),
    }
}

fn at_key<'a>(value: &'a Json, key: &str) -> &'a Json {
    value.get(key).unwrap()
}

fn text<'a>(value: &'a Json, key: &str) -> &'a str {
    at_key(value, key).as_text().unwrap()
}

fn items(value: &Json) -> &Vec<Json> {
    match value {
        Json::Array(items) => items,
        _ => panic!("expected an array"),
    }
}

// =========================================================================
// Position synthesis
// =========================================================================

#[test]
fn test_position_opened_on_first_fill() {
    let mut router = create_test_router();
    let order = create_filled_order("order-1", "BTCUSD", Side::Buy, Decimal::new(50000, 0));

    assert!(router.state_manager().get_position_by_symbol("BTCUSD").is_none());

    let message = settle(&mut router, &order, Decimal::new(10, 0));
    let (event, position) = position_of(message);
    assert_eq!(event, PositionEventType::PositionOpened);
    assert_eq!(position.symbol, "BTCUSD");
    assert_eq!(position.quantity, Decimal::new(10, 0));
    assert_eq!(position.side, PositionSide::Long);
    assert_eq!(position.average_entry_price, Decimal::new(50000, 0));

    let cached = router.state_manager().get_position_by_symbol("BTCUSD");
    assert!(cached.is_some());
    assert_eq!(cached.unwrap().quantity, Decimal::new(10, 0));
}

#[test]
fn test_position_modified_on_scale_in() {
    let mut router = create_test_router();

    let existing = create_test_position("BTCUSD_position", "BTCUSD", Decimal::new(10, 0));
    router.state_manager.upsert_position(&existing);

    let order = create_filled_order("order-2", "BTCUSD", Side::Buy, Decimal::new(51000, 0));

    let (event, position) = position_of(settle(&mut router, &order, Decimal::new(15, 0)));
    assert_eq!(event, PositionEventType::PositionModified);
    assert_eq!(position.symbol, "BTCUSD");
    assert_eq!(position.quantity, Decimal::new(15, 0));

    let cached = router.state_manager().get_position_by_symbol("BTCUSD").unwrap();
    assert_eq!(cached.quantity, Decimal::new(15, 0));
}

#[test]
fn test_position_closed_on_full_exit() {
    let mut router = create_test_router();

    let existing = create_test_position("BTCUSD_position", "BTCUSD", Decimal::new(10, 0));
    router.state_manager.upsert_position(&existing);

    let order = create_filled_order("order-3", "BTCUSD", Side::Sell, Decimal::new(52000, 0));

    let (event, position) = position_of(settle(&mut router, &order, Decimal::zero()));
    assert_eq!(event, PositionEventType::PositionClosed);
    assert_eq!(position.symbol, "BTCUSD");
    assert_eq!(position.quantity, Decimal::zero());

    assert!(router.state_manager().get_position_by_symbol("BTCUSD").is_none());
}

#[test]
fn test_position_flip_long_to_short() {
    let mut router = create_test_router();

    let existing = create_test_position("BTCUSD_position", "BTCUSD", Decimal::new(10, 0));
    router.state_manager.upsert_position(&existing);

    let order = create_filled_order("order-4", "BTCUSD", Side::Sell, Decimal::new(50000, 0));

    let (event, position) = position_of(settle(&mut router, &order, Decimal::new(-5, 0)));
    assert_eq!(event, PositionEventType::PositionModified);
    assert_eq!(position.symbol, "BTCUSD");
    assert_eq!(position.quantity, Decimal::new(5, 0));
    assert_eq!(position.side, PositionSide::Short);
}

#[test]
fn test_no_position_event_when_qty_unchanged() {
    let mut router = create_test_router();

    let existing = create_test_position("BTCUSD_position", "BTCUSD", Decimal::new(10, 0));
    router.state_manager.upsert_position(&existing);

    let order = create_filled_order("order-5", "BTCUSD", Side::Buy, Decimal::new(50000, 0));

    let message = settle(&mut router, &order, Decimal::new(10, 0));
    assert!(message.is_none(), "Expected no broadcast");

    assert_eq!(router.position_events_processed(), 0);
}

#[test]
fn test_short_position_opened() {
    let mut router = create_test_router();
    let order = create_filled_order("order-6", "BTCUSD", Side::Sell, Decimal::new(50000, 0));

    assert!(router.state_manager().get_position_by_symbol("BTCUSD").is_none());

    let (event, position) = position_of(settle(&mut router, &order, Decimal::new(-10, 0)));
    assert_eq!(event, PositionEventType::PositionOpened);
    assert_eq!(position.side, PositionSide::Short);
    assert_eq!(position.quantity, Decimal::new(10, 0));
}

// =========================================================================
// Order events
// =========================================================================

#[test]
fn order_events_are_handled_in_order_and_broadcast_last() {
    let mut router = create_test_router();
    let order = create_test_order("order-1", OrderStatus::Filled, Decimal::new(100, 0));
    router.exit_handler.register("order-1", &OrderRequest::market(
        "BTCUSD",
        Side::Buy,
        Decimal::new(100, 0),
    ).with_stop_loss(Decimal::new(90, 0))).unwrap();

    let actions = router.handle_order_event(OrderEventType::OrderFilled, &order, true, false);
    assert!(matches!(actions.first(), Some(OrderEventAction::RouteFill)));
    assert!(matches!(actions.last(), Some(OrderEventAction::Broadcast)));
    assert!(actions.iter().any(|a| matches!(a, OrderEventAction::CancelSiblings)));

    let without = router.handle_order_event(OrderEventType::OrderFilled, &order, false, false);
    assert!(without.iter().any(|a| matches!(a, OrderEventAction::ReportUnprotected)));
    assert!(!without.iter().any(|a| matches!(a, OrderEventAction::RouteFill)));
}

#[test]
fn trailing_stops_are_told_of_the_end_of_their_order() {
    let mut router = create_test_router();
    let order = create_test_order("order-1", OrderStatus::Cancelled, Decimal::zero());
    let actions = router.handle_order_event(OrderEventType::OrderCancelled, &order, true, true);
    assert!(
        actions
            .iter()
            .any(|a| matches!(a, OrderEventAction::Trailing(TrailingAction::Cancelled)))
    );
    let silent = router.handle_order_event(OrderEventType::OrderCancelled, &order, true, false);
    assert!(!silent.iter().any(|a| matches!(a, OrderEventAction::Trailing(_))));
}

#[test]
fn fill_events_are_those_with_a_fill() {
    assert!(EventRouter::is_fill_event(OrderEventType::OrderFilled));
    assert!(EventRouter::is_fill_event(OrderEventType::OrderPartiallyFilled));
    assert!(!EventRouter::is_fill_event(OrderEventType::OrderCancelled));
}

#[test]
fn cancelled_primary_order_cancels_its_exits() {
    let mut router = create_test_router();
    router.exit_handler.register("order-1", &OrderRequest::market(
        "BTCUSD",
        Side::Buy,
        Decimal::new(1, 0),
    ).with_stop_loss(Decimal::new(90, 0))).unwrap();
    let order = create_test_order("order-1", OrderStatus::Cancelled, Decimal::zero());
    router.state_manager.upsert_order(&order);
    let cancelled = router.handle_order_cancelled(&order);
    assert_eq!(cancelled, vec!["exit:sl:order-1"]);
    assert!(router.state_manager().get_order("order-1").is_none());
    assert_eq!(router.order_events_processed(), 1);
}

#[test]
fn nothing_is_broadcast_where_broadcasts_are_off() {
    let router = EventRouter::with_config(
        StateManager::new(),
        ExitHandler::with_defaults(TradingPlatform::Mock),
        TradingPlatform::Mock,
        EventRouterConfig { broadcast_enabled: false },
    );
    let order = create_test_order("order-1", OrderStatus::Open, Decimal::zero());
    assert!(router.broadcast_order_event(OrderEventType::OrderCreated, &order, None, at(1)).is_none());
    assert!(router.handle_connection_event(ConnectionEventType::Connected, None, at(1)).is_none());
    assert_eq!(router.platform(), TradingPlatform::Mock);
}

// =========================================================================
// Unprotected positions
// =========================================================================

#[test]
fn test_broadcast_unprotected_includes_actual_order_ids_empty_for_failed() {
    let router = create_test_router();
    let order = create_test_order("order-1", OrderStatus::Filled, Decimal::new(100, 0));

    let results = vec![PlacementResult::failed(
        "sl-placeholder-1".to_string(),
        ExitLegType::StopLoss,
        "Connection refused".to_string(),
        3,
    )];

    let message = router
        .broadcast_unprotected_position_if_needed(&order, &results, at(1))
        .expect("Expected a broadcast message");
    let (code, message, details) = alert_of(message);
    assert_eq!(code, WsErrorCode::PositionUnprotected);
    assert!(message.contains("unprotected"));
    assert_eq!(text(&details, "order_id"), "order-1");
    assert_eq!(text(&details, "symbol"), "BTCUSD");
    let failed_exits = items(at_key(&details, "failed_exits"));
    assert_eq!(failed_exits.len(), 1);
    let order_ids = items(at_key(&failed_exits[0], "actual_order_ids"));
    assert!(order_ids.is_empty(), "Initial broadcast should have empty actual_order_ids");
}

#[test]
fn test_broadcast_unprotected_includes_actual_order_ids_empty_for_deferred() {
    let router = create_test_router();
    let order = create_test_order("order-2", OrderStatus::Filled, Decimal::new(100, 0));

    let results = vec![PlacementResult {
        placeholder_id: "tp-placeholder-1".to_string(),
        order_type: ExitLegType::TakeProfit,
        outcome: PlacementOutcome::Deferred {
            reason: "Circuit breaker open — exit placement suspended".to_string(),
        },
        sibling_cancellation: None,
    }];

    let message = router
        .broadcast_unprotected_position_if_needed(&order, &results, at(1))
        .expect("Expected a broadcast message");
    let (code, _, details) = alert_of(message);
    assert_eq!(code, WsErrorCode::PositionUnprotected);
    let failed_exits = items(at_key(&details, "failed_exits"));
    assert_eq!(failed_exits.len(), 1);
    let order_ids = items(at_key(&failed_exits[0], "actual_order_ids"));
    assert!(
        order_ids.is_empty(),
        "Initial broadcast should have empty actual_order_ids for deferred exit"
    );
}

#[test]
fn test_successful_exit_no_unprotected_notification() {
    let router = create_test_router();
    let order = create_test_order("order-no-sl", OrderStatus::Filled, Decimal::new(10, 0));
    assert!(
        router.broadcast_unprotected_position_if_needed(&order, &vec![], at(1)).is_none(),
        "Should not broadcast PositionUnprotected when no exit entries exist"
    );
    let deferred = vec![PlacementResult {
        placeholder_id: "x".to_string(),
        order_type: ExitLegType::StopLoss,
        outcome: PlacementOutcome::Deferred { reason: "Below minimum".to_string() },
        sibling_cancellation: None,
    }];
    assert!(router.broadcast_unprotected_position_if_needed(&order, &deferred, at(1)).is_none());
    assert!(
        router.broadcast_order_event(OrderEventType::OrderFilled, &order, None, at(1)).is_some(),
        "Order event should still be broadcast"
    );
}

#[test]
fn test_rebroadcast_unprotected_positions_broadcasts_for_failed_entries() {
    let router = create_test_router();

    let failed_entries = vec![FailedExitInfo {
        primary_order_id: "order-1".to_string(),
        symbol: "BTCUSD".to_string(),
        order_type: ExitLegType::StopLoss,
        error: "Connection refused".to_string(),
        failed_at: at(0),
        actual_order_ids: vec![],
    }];

    let mut messages = router.rebroadcast_unprotected_positions(&failed_entries, at(1));
    assert_eq!(messages.len(), 1);
    let (code, message, details) = alert_of(messages.remove(0));
    assert_eq!(code, WsErrorCode::PositionUnprotected);
    assert!(message.contains("unprotected"), "Message should mention 'unprotected': {message}");
    assert_eq!(text(&details, "order_id"), "order-1");
    assert_eq!(text(&details, "symbol"), "BTCUSD");
}

#[test]
fn test_rebroadcast_unprotected_positions_no_broadcast_when_empty() {
    let router = create_test_router();
    assert!(
        router.rebroadcast_unprotected_positions(&vec![], at(1)).is_empty(),
        "Should not broadcast when no failed entries"
    );
}

#[test]
fn test_rebroadcast_unprotected_positions_groups_by_primary_order() {
    let router = create_test_router();

    let failed_entries = vec![
        FailedExitInfo {
            primary_order_id: "order-1".to_string(),
            symbol: "BTCUSD".to_string(),
            order_type: ExitLegType::StopLoss,
            error: "Connection refused".to_string(),
            failed_at: at(0),
            actual_order_ids: vec![],
        },
        FailedExitInfo {
            primary_order_id: "order-1".to_string(),
            symbol: "BTCUSD".to_string(),
            order_type: ExitLegType::TakeProfit,
            error: "Connection refused".to_string(),
            failed_at: at(0),
            actual_order_ids: vec![],
        },
    ];

    let mut messages = router.rebroadcast_unprotected_positions(&failed_entries, at(1));
    assert_eq!(messages.len(), 1, "Should have only one broadcast for same primary order");
    let (_, _, details) = alert_of(messages.remove(0));
    assert_eq!(
        items(at_key(&details, "failed_exits")).len(),
        2,
        "Should include both SL and TP failures"
    );
}

#[test]
fn test_rebroadcast_unprotected_positions_includes_actual_order_ids() {
    let router = create_test_router();

    let failed_entries = vec![FailedExitInfo {
        primary_order_id: "order-1".to_string(),
        symbol: "BTCUSD".to_string(),
        order_type: ExitLegType::StopLoss,
        error: "Placement timeout".to_string(),
        failed_at: at(0),
        actual_order_ids: vec!["live-order-abc".to_string(), "live-order-def".to_string()],
    }];

    let mut messages = router.rebroadcast_unprotected_positions(&failed_entries, at(1));
    let (_, _, details) = alert_of(messages.remove(0));
    let failed_exits = items(at_key(&details, "failed_exits"));
    assert_eq!(failed_exits.len(), 1);
    let order_ids = items(at_key(&failed_exits[0], "actual_order_ids"));
    assert_eq!(order_ids.len(), 2);
    assert_eq!(order_ids[0].as_text(), Some("live-order-abc"));
    assert_eq!(order_ids[1].as_text(), Some("live-order-def"));
}

#[test]
fn dropped_notifications_are_counted() {
    let mut router = create_test_router();
    assert_eq!(router.critical_notifications_dropped(), 0);
    router.note_notification_dropped();
    assert_eq!(router.critical_notifications_dropped(), 1);
    router.note_fill_routed();
    assert_eq!(router.fills_routed(), 1);
}

// =========================================================================
// OCO groups
// =========================================================================

fn oco_order(id: &str, status: OrderStatus, filled: Decimal) -> Order {
    let mut order = create_test_order(id, status, filled);
    order.oco_group_id = Some("oco-group-1".to_string());
    order.side = Side::Sell;
    order
}

#[test]
fn test_oco_double_exit_detected_and_broadcast() {
    let mut router = create_test_router();

    // Set up OCO group: SL and TP linked together
    router.state_manager.upsert_order(&oco_order("sl-1", OrderStatus::Open, Decimal::zero()));
    router.state_manager.add_to_oco_group("sl-1", "oco-group-1");
    router.state_manager.upsert_order(&oco_order("tp-1", OrderStatus::Open, Decimal::zero()));
    router.state_manager.add_to_oco_group("tp-1", "oco-group-1");

    // First fill: SL fills — should cancel TP
    let sl_filled = oco_order("sl-1", OrderStatus::Filled, Decimal::new(100, 0));
    let group = router.oco_group_of(&sl_filled);
    let _ = router.handle_order_event(OrderEventType::OrderFilled, &sl_filled, true, false);
    match router.cancel_oco_siblings(&sl_filled, group, at(1)) {
        OcoStep::CancelSiblings { order_ids } => assert_eq!(order_ids, vec!["tp-1"]),
        other => panic!("expected CancelSiblings, got {:?}", other),
    }

    // Second fill: TP also fills — should trigger double-exit detection
    let tp_filled = oco_order("tp-1", OrderStatus::Filled, Decimal::new(100, 0));
    let group = router.oco_group_of(&tp_filled);
    let _ = router.handle_order_event(OrderEventType::OrderFilled, &tp_filled, true, false);
    let message = match router.cancel_oco_siblings(&tp_filled, group, at(2)) {
        OcoStep::DoubleExit(message) => message,
        other => panic!("Expected OcoDoubleExit error broadcast, got {:?}", other),
    };
    let (code, message, details) = alert_of(message);
    assert_eq!(code, WsErrorCode::OcoDoubleExit);
    assert!(message.contains("double-exit"), "Message should mention 'double-exit': {message}");
    assert_eq!(text(&details, "oco_group_id"), "oco-group-1");
    assert_eq!(text(&details, "symbol"), "BTCUSD");
    assert_eq!(text(at_key(&details, "first_fill"), "order_id"), "sl-1");
    assert_eq!(text(at_key(&details, "second_fill"), "order_id"), "tp-1");
}

#[test]
fn test_oco_single_fill_no_double_exit_alert() {
    let mut router = create_test_router();
    router.state_manager.upsert_order(&oco_order("sl-1", OrderStatus::Open, Decimal::zero()));
    router.state_manager.upsert_order(&oco_order("tp-1", OrderStatus::Open, Decimal::zero()));

    let sl_filled = oco_order("sl-1", OrderStatus::Filled, Decimal::new(100, 0));
    let group = router.oco_group_of(&sl_filled);
    assert!(
        !matches!(router.cancel_oco_siblings(&sl_filled, group, at(1)), OcoStep::DoubleExit(_)),
        "Should NOT broadcast OcoDoubleExit for a single fill"
    );
}

#[test]
fn test_non_oco_fill_no_tracking() {
    let mut router = create_test_router();
    let order = create_test_order("order-1", OrderStatus::Filled, Decimal::new(100, 0));
    let group = router.oco_group_of(&order);
    assert_eq!(group, None);
    assert!(
        matches!(router.cancel_oco_siblings(&order, group, at(1)), OcoStep::Nothing),
        "Should NOT broadcast OcoDoubleExit for non-OCO orders"
    );
}

#[test]
fn refused_cancellations_that_tell_of_the_end_are_harmless() {
    assert!(already_terminal(&GatewayError::OrderNotFound { id: "x".to_string() }));
    assert!(already_terminal(&GatewayError::OrderNotModifiable {
        order_id: "x".to_string(),
        reason: "already filled".to_string()
    }));
    assert!(already_terminal(&GatewayError::Internal {
        message: "order not found".to_string(),
        source: None
    }));
    assert!(!already_terminal(&GatewayError::ShuttingDown));
}

// =========================================================================
// Reconciliation
// =========================================================================

#[test]
fn reconciliation_detects_what_changed() {
    let mut router = create_test_router();
    for id in ["filled", "cancelled", "same", "gone", "slow"] {
        router.state_manager.upsert_order(&create_test_order(
            id,
            OrderStatus::Open,
            Decimal::zero(),
        ));
    }
    let snapshots = match router.begin_reconciliation(true) {
        ReconcileStart::Check(list) => list,
        other => panic!("expected Check, got {:?}", other),
    };
    assert_eq!(snapshots.len(), 5);
    assert!(matches!(router.begin_reconciliation(true), ReconcileStart::AlreadyRunning));

    let mut tally = ReconcileTally { changes_detected: 0, errors: 0 };
    let mut events = Vec::new();
    for snapshot in &snapshots {
        let answer = match snapshot.order_id.as_str() {
            "filled" => QueryAnswer::Found(create_test_order(
                "filled",
                OrderStatus::Filled,
                Decimal::new(100, 0),
            )),
            "cancelled" => QueryAnswer::Found(create_test_order(
                "cancelled",
                OrderStatus::Cancelled,
                Decimal::zero(),
            )),
            "same" => {
                QueryAnswer::Found(create_test_order("same", OrderStatus::Open, Decimal::zero()))
            }
            "gone" => QueryAnswer::NotFound,
            _ => QueryAnswer::TimedOut,
        };
        let (event, next) = router.reconcile_order(snapshot, &answer, tally);
        tally = next;
        if let Some(event) = event {
            events.push((snapshot.order_id.clone(), event));
        }
    }
    assert_eq!(tally, ReconcileTally { changes_detected: 3, errors: 1 });
    events.sort_by(|a, b| a.0.cmp(&b.0));
    assert_eq!(
        events,
        vec![
            ("cancelled".to_string(), OrderEventType::OrderCancelled),
            ("filled".to_string(), OrderEventType::OrderFilled)
        ]
    );
    assert!(router.state_manager().get_order("gone").is_none());

    let messages = router.finish_reconciliation(
        vec![create_test_order("same", OrderStatus::Open, Decimal::zero())],
        vec![create_test_position("pos", "BTCUSD", Decimal::new(1, 0))],
        at(9),
    );
    assert_eq!(messages.len(), 1);
    assert!(matches!(
        messages[0],
        WsMessage::Connection { event: ConnectionEventType::Connected, .. }
    ));
    assert_eq!(router.state_manager().order_count(), 1);
    assert_eq!(router.state_manager().position_count(), 1);
    assert!(matches!(router.begin_reconciliation(false), ReconcileStart::NoAdapter));
}

#[test]
fn abandoned_reconciliation_can_be_started_again() {
    let mut router = create_test_router();
    assert!(matches!(router.begin_reconciliation(true), ReconcileStart::Check(_)));
    router.abandon_reconciliation();
    assert!(matches!(router.begin_reconciliation(true), ReconcileStart::Check(_)));
}

#[test]
fn partial_fill_progress_is_a_change() {
    let order = create_test_order("o", OrderStatus::PartiallyFilled, Decimal::new(60, 0));
    assert_eq!(
        EventRouter::detect_status_change(
            Some(OrderStatus::PartiallyFilled),
            Decimal::new(30, 0),
            &order
        ),
        Some(OrderEventType::OrderPartiallyFilled)
    );
    assert_eq!(
        EventRouter::detect_status_change(
            Some(OrderStatus::PartiallyFilled),
            Decimal::new(60, 0),
            &order
        ),
        None
    );
}

#[test]
fn failed_exits_are_told_again_and_cleared_on_reconnect() {
    let mut router = create_test_router();
    router.exit_handler.register("order-1", &OrderRequest::market(
        "BTCUSD",
        Side::Buy,
        Decimal::new(1, 0),
    ).with_stop_loss(Decimal::new(90, 0))).unwrap();
    router.exit_handler.update_entry_to_failed("exit:sl:order-1", "timeout", 3);
    let messages = router.finish_reconciliation(vec![], vec![], at(1));
    assert_eq!(messages.len(), 2);
    assert!(matches!(
        messages[0],
        WsMessage::Error { code: WsErrorCode::PositionUnprotected, .. }
    ));
    assert!(matches!(messages[1], WsMessage::Connection { .. }));
    assert_eq!(router.exit_handler.pending_count(), 0);
}

#[test]
fn snapshots_name_what_is_cached() {
    let snapshot = OrderSnapshot {
        order_id: "o".to_string(),
        status: None,
        filled_quantity: Decimal::zero(),
    };
    let mut router = create_test_router();
    let tally = ReconcileTally { changes_detected: 0, errors: 0 };
    let (event, tally) = router.reconcile_order(&snapshot, &QueryAnswer::Failed, tally);
    assert_eq!(event, None);
    assert_eq!(tally.errors, 1);
    let params = EventRouter::open_orders_query();
    assert_eq!(
        params.status,
        Some(vec![OrderStatus::Open, OrderStatus::PartiallyFilled, OrderStatus::Pending])
    );
}

#[test]
fn position_that_changes_sides_is_modified() {
    let mut router = create_test_router();
    let order = create_filled_order("order-1", "BTCUSD", Side::Buy, Decimal::new(100, 0));
    let (event, position) = position_of(settle(&mut router, &order, Decimal::new(10, 0)));
    assert_eq!(event, PositionEventType::PositionOpened);
    assert_eq!(position.side, PositionSide::Long);

    let (event, position) = position_of(settle(&mut router, &order, Decimal::new(-10, 0)));
    assert_eq!(event, PositionEventType::PositionModified);
    assert_eq!(position.side, PositionSide::Short);
    assert_eq!(position.quantity, Decimal::new(10, 0));
    let cached = router.state_manager().get_position_by_symbol("BTCUSD").unwrap();
    assert_eq!(cached.side, PositionSide::Short);

    // The same net quantity is no change, and zero closes the short position.
    assert!(settle(&mut router, &order, Decimal::new(-10, 0)).is_none());
    let (event, position) = position_of(settle(&mut router, &order, Decimal::zero()));
    assert_eq!(event, PositionEventType::PositionClosed);
    assert_eq!(position.side, PositionSide::Short);
}

#[test]
fn reconciliation_is_abandoned_where_the_provider_cannot_be_asked() {
    let refused = || GatewayError::ProviderUnavailable { message: "down".to_string() };
    let mut router = create_test_router();
    let _ = router.begin_reconciliation(true);
    assert!(router.conclude_reconciliation(Err(refused()), Ok(vec![]), at(1)).is_empty());
    assert!(!router.reconciling);
    let _ = router.begin_reconciliation(true);
    assert!(router.conclude_reconciliation(Ok(vec![]), Err(refused()), at(1)).is_empty());
    assert!(!router.reconciling);
    let _ = router.begin_reconciliation(true);
    let messages = router.conclude_reconciliation(Ok(vec![]), Ok(vec![]), at(1));
    assert_eq!(messages.len(), 1);
    assert!(matches!(messages[0], WsMessage::Connection { .. }));
}

#[test]
fn siblings_are_cancelled_though_the_event_names_no_group() {
    let mut router = create_test_router();
    for id in ["a", "b", "c"] {
        let mut order = create_test_order(id, OrderStatus::Open, Decimal::zero());
        order.oco_group_id = Some("group-1".to_string());
        let _ = router.handle_order_event(OrderEventType::OrderCreated, &order, true, false);
    }
    let filled = create_test_order("a", OrderStatus::Filled, Decimal::new(10, 0));
    assert_eq!(filled.oco_group_id, None);
    let group = router.oco_group_of(&filled);
    assert_eq!(group.as_deref(), Some("group-1"));
    let _ = router.handle_order_event(OrderEventType::OrderFilled, &filled, true, false);
    match router.cancel_oco_siblings(&filled, group, at(1)) {
        OcoStep::CancelSiblings { mut order_ids } => {
            order_ids.sort();
            assert_eq!(order_ids, vec!["b", "c"]);
        }
        other => panic!("expected CancelSiblings, got {:?}", other),
    }
}
