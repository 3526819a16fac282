use tektii_gateway_core::decimal::Decimal;
use tektii_gateway_core::error::GatewayError;
use tektii_gateway_core::events::router::{
    OrderEventAction, QueryAnswer, ReconcileStart, ReconcileTally,
};
use tektii_gateway_core::events::{
    ConnectionEventType, EventRouter, OrderEventType, WsErrorCode, WsMessage,
};
use tektii_gateway_core::exit_management::fill_handler::{
    FillStep, PlacementAttempt, PlacementEvent, PlacementFollowUp, PlacementStep,
};
use tektii_gateway_core::exit_management::{ExitHandler, ExitHandlerConfig, PlacementResult};
use tektii_gateway_core::json::Json;
use tektii_gateway_core::models::{
    Order, OrderRequest, OrderStatus, OrderType, Position, Side, TimeInForce, TradingPlatform,
};
use tektii_gateway_core::state::StateManager;
use tektii_gateway_core::time::Timestamp;

fn at(secs: i64) -> Timestamp {
    Timestamp { secs, nanos: 0 }
}

fn dec(n: i64) -> Decimal {
    Decimal::new(n, 0)
}

fn create_test_router() -> EventRouter {
    router_with(ExitHandlerConfig::default())
}

fn router_with(config: ExitHandlerConfig) -> EventRouter {
    EventRouter::new(
        StateManager::new(),
        ExitHandler::new(TradingPlatform::AlpacaLive, config),
        TradingPlatform::AlpacaLive,
    )
}

fn create_test_router_with_exit_handler(threshold: usize) -> EventRouter {
    router_with(ExitHandlerConfig {
        circuit_breaker_threshold: threshold,
        retry_delays: vec![],
        ..ExitHandlerConfig::default()
    })
}

fn create_test_order(id: &str, status: OrderStatus, filled_qty: Decimal) -> Order {
    Order {
        id: id.to_string(),
        client_order_id: None,
        symbol: "BTCUSD".to_string(),
        side: Side::Buy,
        order_type: OrderType::Market,
        quantity: dec(100),
        filled_quantity: filled_qty,
        remaining_quantity: dec(100).minus(&filled_qty),
        limit_price: None,
        stop_price: None,
        stop_loss: None,
        take_profit: None,
        trailing_distance: None,
        trailing_type: None,
        average_fill_price: None,
        status,
        reject_reason: None,
        position_id: None,
        reduce_only: None,
        post_only: None,
        hidden: None,
        display_quantity: None,
        oco_group_id: None,
        correlation_id: None,
        time_in_force: TimeInForce::Gtc,
        created_at: at(0),
        updated_at: at(0),
    }
}

fn create_order_request_with_sl(symbol: &str, sl_price: Decimal) -> OrderRequest {
    OrderRequest::market(symbol, Side::Buy, dec(10)).with_stop_loss(sl_price)
}

/// A provider that knows some orders, and takes none.
struct Provider {
    orders: Vec<Order>,
    positions: Vec<Position>,
    broken_orders: Vec<String>,
    fail_get_orders: bool,
    fail_get_positions: bool,
}

impl Provider {
    fn with(orders: Vec<Order>) -> Provider {
        Provider {
            orders,
            positions: vec![],
            broken_orders: vec![],
            fail_get_orders: false,
            fail_get_positions: false,
        }
    }

    fn submit_order(&self) -> Result<(), GatewayError> {
        Err(GatewayError::ProviderError {
            message: "Connection refused".to_string(),
            provider: Some("mock".to_string()),
            source: None,
        })
    }

    fn get_order(&self, id: &str) -> QueryAnswer {
        if self.broken_orders.iter().any(|broken| broken == id) {
            return QueryAnswer::Failed;
        }
        match self.orders.iter().find(|order| order.id == id) {
            Some(order) => QueryAnswer::Found(order.clone()),
            None => QueryAnswer::NotFound,
        }
    }

    fn get_orders(&self) -> Option<Vec<Order>> {
        if self.fail_get_orders {
            return None;
        }
        let wanted = EventRouter::open_orders_query().status.unwrap();
        Some(self.orders.iter().filter(|o| wanted.contains(&o.status)).cloned().collect())
    }

    fn get_positions(self) -> Option<Vec<Position>> {
        if self.fail_get_positions { None } else { Some(self.positions) }
    }
}

/// Places the exit orders of a fill at the provider.
fn handle_fill(router: &mut EventRouter, order: &Order, provider: &Provider) -> Vec<PlacementResult> {
    let exits = &mut router.exit_handler;
    let partial = order.filled_quantity.less_than(&order.quantity);
    let mut results = Vec::new();
    for id in exits.fill_targets(&order.id, order.filled_quantity, order.quantity) {
        let step = exits.begin_entry_fill(
            &id,
            order.filled_quantity,
            order.quantity,
            None,
            partial,
            at(1),
        );
        let (entry, request) = match step {
            FillStep::Finished(result) => {
                results.push(result);
                continue;
            }
            FillStep::Place { entry, request } => (entry, request),
            FillStep::OutOfRange => panic!("quantities are small"),
        };
        let refused = provider.submit_order().expect_err("the provider takes no order");
        let step = exits.placement_step(
            &request,
            PlacementAttempt::first(),
            PlacementEvent::Refused(refused),
            at(1),
        );
        results.push(match step {
            PlacementStep::Failed { error, retry_count } => {
                exits.handle_placement_error(&id, entry.order_type, error, retry_count, at(1))
            }
            other => panic!("expected Failed, got {:?}", other),
        });
    }
    results
}

fn route_fill(router: &mut EventRouter, order: &Order, provider: &Provider, out: &mut Vec<WsMessage>) {
    let results = handle_fill(router, order, provider);
    router.note_fill_routed();
    out.extend(router.broadcast_unprotected_position_if_needed(order, &results, at(1)));
}

fn handle_order_event(
    router: &mut EventRouter,
    event: OrderEventType,
    order: &Order,
    provider: Option<&Provider>,
) -> Vec<WsMessage> {
    let mut out = Vec::new();
    for action in router.handle_order_event(event, order, provider.is_some(), false) {
        match action {
            OrderEventAction::RouteFill => route_fill(router, order, provider.unwrap(), &mut out),
            OrderEventAction::Broadcast => {
                out.extend(router.broadcast_order_event(event, order, None, at(1)));
            }
            OrderEventAction::CancelSiblings
            | OrderEventAction::ReportUnprotected
            | OrderEventAction::Trailing(_) => {}
        }
    }
    out
}

fn reconcile(router: &mut EventRouter, provider: Provider) -> Vec<WsMessage> {
    let snapshots = match router.begin_reconciliation(true) {
        ReconcileStart::Check(snapshots) => snapshots,
        other => panic!("expected Check, got {:?}", other),
    };
    let mut out = Vec::new();
    let mut tally = ReconcileTally { changes_detected: 0, errors: 0 };
    for snapshot in snapshots {
        let answer = provider.get_order(&snapshot.order_id);
        let (event, next) = router.reconcile_order(&snapshot, &answer, tally);
        tally = next;
        if let (Some(event), QueryAnswer::Found(order)) = (event, answer) {
            if EventRouter::is_fill_event(event) {
                route_fill(router, &order, &provider, &mut out);
            }
            out.extend(router.broadcast_order_event(event, &order, None, at(2)));
        }
    }
    match (provider.get_orders(), provider.get_positions()) {
        (Some(orders), Some(positions)) => {
            out.extend(router.finish_reconciliation(orders, positions, at(3)));
        }
        _ => router.abandon_reconciliation(),
    }
    out
}

fn order_event_at(messages: &[WsMessage], wanted: OrderEventType) -> Option<usize> {
    messages.iter().position(|m| matches!(m, WsMessage::Order { event, .. } if *event == wanted))
}

fn connected_at(messages: &[WsMessage]) -> Option<usize> {
    messages.iter().position(|m| {
        matches!(m, WsMessage::Connection { event: ConnectionEventType::Connected, .. })
    })
}

fn unprotected_at(messages: &[WsMessage]) -> Option<usize> {
    messages.iter().position(|m| {
        matches!(m, WsMessage::Error { code: WsErrorCode::PositionUnprotected, .. })
    })
}

fn order_in(message: &WsMessage) -> &Order {
    match message {
        WsMessage::Order { order, .. } => order,
        other => panic!("expected an order event, got {:?}", other),
    }
}

fn alert_in(message: &WsMessage) -> (&str, &Json) {
    match message {
        WsMessage::Error { message, details, .. } => {
            (message, details.as_ref().expect("details should be present"))
        }
        other => panic!("expected an alert, got {:?}", other),
    }
}

fn text<'a>(value: &'a Json, key: &str) -> &'a str {
    value.get(key).unwrap().as_text().unwrap()
}

fn cache_open(router: &mut EventRouter, id: &str) {
    let order = create_test_order(id, OrderStatus::Open, Decimal::zero());
    router.state_manager.upsert_order(&order);
}

#[test]
fn test_failed_exit_placement_broadcasts_position_unprotected() {
    let mut router = create_test_router_with_exit_handler(1);
    let request = create_order_request_with_sl("BTCUSD", dec(45000));
    router.exit_handler.register("order-1", &request).unwrap();

    let filled = create_test_order("order-1", OrderStatus::Filled, dec(10));
    let provider = Provider::with(vec![]);
    let messages =
        handle_order_event(&mut router, OrderEventType::OrderFilled, &filled, Some(&provider));

    let alert = unprotected_at(&messages).expect("PositionUnprotected should be broadcast");
    let (message, details) = alert_in(&messages[alert]);
    assert!(message.contains("unprotected"), "Message should mention 'unprotected': {message}");
    assert_eq!(text(details, "order_id"), "order-1");
    assert_eq!(text(details, "symbol"), "BTCUSD");
}

#[test]
fn test_circuit_breaker_open_broadcasts_position_unprotected() {
    let mut router = create_test_router_with_exit_handler(1);
    let provider = Provider::with(vec![]);

    let request = create_order_request_with_sl("BTCUSD", dec(45000));
    router.exit_handler.register("trip-order", &request).unwrap();
    let trip = create_test_order("trip-order", OrderStatus::Filled, dec(10));
    handle_order_event(&mut router, OrderEventType::OrderFilled, &trip, Some(&provider));
    assert!(router.exit_handler.is_circuit_breaker_open_internal());

    let request = create_order_request_with_sl("ETHUSD", dec(3000));
    router.exit_handler.register("order-2", &request).unwrap();
    let filled = create_test_order("order-2", OrderStatus::Filled, dec(5));
    let messages =
        handle_order_event(&mut router, OrderEventType::OrderFilled, &filled, Some(&provider));

    let alert = unprotected_at(&messages).expect("PositionUnprotected should be broadcast");
    let (_, details) = alert_in(&messages[alert]);
    assert!(matches!(details.get("circuit_breaker_open"), Some(Json::Bool(true))));
}

#[test]
fn test_reconcile_no_changes_during_disconnect() {
    let mut router = create_test_router();
    cache_open(&mut router, "order-1");
    let provider =
        Provider::with(vec![create_test_order("order-1", OrderStatus::Open, Decimal::zero())]);
    let messages = reconcile(&mut router, provider);
    assert!(!messages.iter().any(|m| matches!(m, WsMessage::Order { .. })));
    assert!(connected_at(&messages).is_some(), "Expected Connected event after reconciliation");
}

#[test]
fn test_reconcile_detects_fill_during_disconnect() {
    let mut router = create_test_router();
    cache_open(&mut router, "order-1");
    let provider = Provider::with(vec![create_test_order("order-1", OrderStatus::Filled, dec(100))]);
    let messages = reconcile(&mut router, provider);
    let fill = order_event_at(&messages, OrderEventType::OrderFilled).expect("Expected OrderFilled");
    let order = order_in(&messages[fill]);
    assert_eq!(order.id, "order-1");
    assert_eq!(order.status, OrderStatus::Filled);
    assert_eq!(order.filled_quantity, dec(100));
    assert!(Some(fill) < connected_at(&messages), "Fill event should precede Connected event");
}

#[test]
fn test_reconcile_detects_cancellation_during_disconnect() {
    let mut router = create_test_router();
    cache_open(&mut router, "order-1");
    let cancelled = create_test_order("order-1", OrderStatus::Cancelled, Decimal::zero());
    let messages = reconcile(&mut router, Provider::with(vec![cancelled]));
    let cancel =
        order_event_at(&messages, OrderEventType::OrderCancelled).expect("Expected OrderCancelled");
    let order = order_in(&messages[cancel]);
    assert_eq!(order.id, "order-1");
    assert_eq!(order.status, OrderStatus::Cancelled);
}

#[test]
fn test_reconcile_detects_partial_fill_progress() {
    let mut router = create_test_router();
    cache_open(&mut router, "order-1");
    let partial = create_test_order("order-1", OrderStatus::PartiallyFilled, dec(50));
    let messages = reconcile(&mut router, Provider::with(vec![partial]));
    let fill = order_event_at(&messages, OrderEventType::OrderPartiallyFilled)
        .expect("Expected OrderPartiallyFilled");
    let order = order_in(&messages[fill]);
    assert_eq!(order.id, "order-1");
    assert_eq!(order.status, OrderStatus::PartiallyFilled);
    assert_eq!(order.filled_quantity, dec(50));
}

#[test]
fn test_reconcile_syncs_state_with_provider() {
    let mut router = create_test_router();
    cache_open(&mut router, "old-order");
    let new_order = create_test_order("new-order", OrderStatus::Open, Decimal::zero());
    reconcile(&mut router, Provider::with(vec![new_order]));
    assert!(
        router.state_manager().get_order("new-order").is_some(),
        "New open order from provider should be in StateManager"
    );
    assert!(
        router.state_manager().get_order("old-order").is_none(),
        "Old order should be removed after state sync"
    );
}

#[test]
fn test_reconcile_handles_missing_order_at_provider() {
    let mut router = create_test_router();
    cache_open(&mut router, "order-1");
    let messages = reconcile(&mut router, Provider::with(vec![]));
    assert!(
        connected_at(&messages).is_some(),
        "Connected event should still be broadcast after errors"
    );
}

#[test]
fn test_reconcile_multiple_orders_changed() {
    let mut router = create_test_router();
    for id in ["order-1", "order-2", "order-3"] {
        cache_open(&mut router, id);
    }
    let messages = reconcile(
        &mut router,
        Provider::with(vec![
            create_test_order("order-1", OrderStatus::Filled, dec(100)),
            create_test_order("order-2", OrderStatus::Cancelled, Decimal::zero()),
            create_test_order("order-3", OrderStatus::Open, Decimal::zero()),
        ]),
    );
    let fill = order_event_at(&messages, OrderEventType::OrderFilled).unwrap();
    assert_eq!(order_in(&messages[fill]).id, "order-1", "Expected fill for order-1");
    let cancel = order_event_at(&messages, OrderEventType::OrderCancelled).unwrap();
    assert_eq!(order_in(&messages[cancel]).id, "order-2", "Expected cancel for order-2");
    assert!(
        !messages.iter().any(|m| matches!(m, WsMessage::Order { order, .. } if order.id == "order-3")),
        "Should not have events for unchanged order-3"
    );
    assert_eq!(
        router.order_events_processed(),
        2,
        "Should have processed 2 order events (fill + cancel)"
    );
}

#[test]
fn test_fill_without_adapter_set_does_not_panic() {
    let mut router = create_test_router();
    let filled = create_test_order("order-1", OrderStatus::Filled, dec(100));
    handle_order_event(&mut router, OrderEventType::OrderFilled, &filled, None);
    assert!(
        router.state_manager().get_order("order-1").is_none(),
        "Filled orders are removed from state"
    );
    assert_eq!(router.order_events_processed(), 1);
}

#[test]
fn test_reconcile_without_adapter_set_returns_early() {
    let mut router = create_test_router();
    let order = create_test_order("order-1", OrderStatus::Pending, dec(0));
    handle_order_event(&mut router, OrderEventType::OrderCreated, &order, None);
    assert_eq!(router.order_events_processed(), 1);
    assert!(matches!(router.begin_reconciliation(false), ReconcileStart::NoAdapter));
    assert_eq!(
        router.order_events_processed(),
        1,
        "No additional events should be processed without adapter"
    );
}

#[test]
fn test_reconcile_provider_error_skips_order_and_continues() {
    let mut router = create_test_router();
    cache_open(&mut router, "error-order");
    cache_open(&mut router, "fill-order");
    let filled = create_test_order("fill-order", OrderStatus::Filled, dec(100));
    let provider = Provider {
        broken_orders: vec!["error-order".to_string()],
        ..Provider::with(vec![filled])
    };
    let messages = reconcile(&mut router, provider);
    let fill = order_event_at(&messages, OrderEventType::OrderFilled).expect("Expected OrderFilled");
    assert_eq!(order_in(&messages[fill]).id, "fill-order");
    assert!(
        connected_at(&messages).is_some(),
        "Connected event should still be broadcast after provider errors"
    );
    assert_eq!(
        router.order_events_processed(),
        1,
        "Only the successful order query should generate an event"
    );
}

#[test]
fn test_reconcile_fill_routes_to_exit_handler_and_broadcasts_unprotected() {
    let mut router = create_test_router_with_exit_handler(1);
    let request = create_order_request_with_sl("BTCUSD", dec(45000));
    router.exit_handler.register("order-1", &request).unwrap();
    cache_open(&mut router, "order-1");

    let filled = create_test_order("order-1", OrderStatus::Filled, dec(10));
    let messages = reconcile(&mut router, Provider::with(vec![filled]));

    let fill = order_event_at(&messages, OrderEventType::OrderFilled);
    let alert = unprotected_at(&messages);
    assert!(fill.is_some(), "Expected OrderFilled event during reconciliation");
    assert!(alert.is_some(), "Expected PositionUnprotected when exit placement fails");
    let (_, details) = alert_in(&messages[alert.unwrap()]);
    assert_eq!(text(details, "order_id"), "order-1");
    assert_eq!(text(details, "symbol"), "BTCUSD");
    match details.get("failed_exits") {
        Some(Json::Array(exits)) => {
            assert!(!exits.is_empty(), "failed_exits should contain at least one failed exit order");
        }
        other => panic!("failed_exits should be an array, got {:?}", other),
    }
    assert!(alert < fill, "PositionUnprotected should precede OrderFilled");
    assert!(fill < connected_at(&messages), "OrderFilled should precede Connected");
    assert_eq!(
        router.fills_routed(),
        1,
        "Fill should have been routed to exit handler during reconciliation"
    );
}

#[test]
fn test_reconcile_get_orders_failure_skips_connected_broadcast() {
    let mut router = create_test_router();
    let provider = Provider { fail_get_orders: true, ..Provider::with(vec![]) };
    let messages = reconcile(&mut router, provider);
    assert!(messages.is_empty(), "No events should be broadcast when get_orders() fails");
}

#[test]
fn test_reconcile_get_positions_failure_skips_connected_broadcast() {
    let mut router = create_test_router();
    let provider = Provider { fail_get_positions: true, ..Provider::with(vec![]) };
    let messages = reconcile(&mut router, provider);
    assert!(messages.is_empty(), "No events should be broadcast when get_positions() fails");
}

#[test]
fn test_reconcile_step1_broadcasts_fill_but_step2_get_orders_failure_skips_connected() {
    let mut router = create_test_router();
    cache_open(&mut router, "order-1");
    let filled = create_test_order("order-1", OrderStatus::Filled, dec(100));
    let provider = Provider { fail_get_orders: true, ..Provider::with(vec![filled]) };
    let messages = reconcile(&mut router, provider);
    assert_eq!(messages.len(), 1, "Expected exactly 1 broadcast (OrderFilled)");
    assert_eq!(order_event_at(&messages, OrderEventType::OrderFilled), Some(0));
    let order = order_in(&messages[0]);
    assert_eq!(order.id, "order-1");
    assert_eq!(order.status, OrderStatus::Filled);
    assert_eq!(order.filled_quantity, dec(100));
}

#[test]
fn test_reconcile_step1_broadcasts_fill_but_step2_get_positions_failure_skips_connected() {
    let mut router = create_test_router();
    cache_open(&mut router, "order-1");
    let filled = create_test_order("order-1", OrderStatus::Filled, dec(100));
    let provider = Provider { fail_get_positions: true, ..Provider::with(vec![filled]) };
    let messages = reconcile(&mut router, provider);
    assert_eq!(messages.len(), 1, "Expected exactly 1 broadcast (OrderFilled)");
    assert_eq!(order_event_at(&messages, OrderEventType::OrderFilled), Some(0));
    let order = order_in(&messages[0]);
    assert_eq!(order.id, "order-1");
    assert_eq!(order.status, OrderStatus::Filled);
    assert_eq!(order.filled_quantity, dec(100));
}

#[test]
fn test_reconcile_rebroadcasts_failed_exits_on_reconnect() {
    let mut router = create_test_router_with_exit_handler(100);
    let request = create_order_request_with_sl("BTCUSD", dec(45000));
    router.exit_handler.register("order-1", &request).unwrap();
    let filled = create_test_order("order-1", OrderStatus::Filled, dec(10));
    let provider = Provider::with(vec![]);
    handle_order_event(&mut router, OrderEventType::OrderFilled, &filled, Some(&provider));

    let messages = reconcile(&mut router, provider);
    let alert = unprotected_at(&messages).expect("Expected PositionUnprotected re-broadcast");
    let (message, details) = alert_in(&messages[alert]);
    assert!(message.contains("unprotected"), "Message should mention 'unprotected': {message}");
    assert_eq!(text(details, "order_id"), "order-1");
    assert_eq!(text(details, "symbol"), "BTCUSD");
    assert!(
        Some(alert) < connected_at(&messages),
        "PositionUnprotected should precede Connected during reconciliation"
    );
}

#[test]
fn test_reconcile_clears_failed_entries_after_rebroadcast() {
    let mut router = create_test_router_with_exit_handler(100);
    let request = create_order_request_with_sl("BTCUSD", dec(45000));
    router.exit_handler.register("order-1", &request).unwrap();
    let filled = create_test_order("order-1", OrderStatus::Filled, dec(10));
    let provider = Provider::with(vec![]);
    handle_order_event(&mut router, OrderEventType::OrderFilled, &filled, Some(&provider));
    assert!(
        !router.exit_handler.get_failed_entries_internal().is_empty(),
        "Failed entry should exist before reconciliation"
    );
    reconcile(&mut router, provider);
    assert!(
        router.exit_handler.get_failed_entries_internal().is_empty(),
        "Failed entries should be cleared after reconciliation rebroadcast"
    );
}

#[test]
fn test_position_unprotected_with_no_receivers_increments_dropped_counter() {
    let mut router = create_test_router_with_exit_handler(1);
    let request = create_order_request_with_sl("BTCUSD", dec(45000));
    router.exit_handler.register("order-1", &request).unwrap();
    assert_eq!(router.critical_notifications_dropped(), 0);
    let filled = create_test_order("order-1", OrderStatus::Filled, dec(10));
    let provider = Provider::with(vec![]);
    let messages =
        handle_order_event(&mut router, OrderEventType::OrderFilled, &filled, Some(&provider));
    // Nobody listens: every alert is dropped.
    for message in &messages {
        if matches!(message, WsMessage::Error { .. }) {
            router.note_notification_dropped();
        }
    }
    assert_eq!(
        router.critical_notifications_dropped(),
        1,
        "Should increment dropped counter when no receivers for PositionUnprotected"
    );
}

#[test]
fn test_position_unprotected_with_receivers_does_not_increment_dropped_counter() {
    let mut router = create_test_router_with_exit_handler(1);
    let request = create_order_request_with_sl("BTCUSD", dec(45000));
    router.exit_handler.register("order-1", &request).unwrap();
    let filled = create_test_order("order-1", OrderStatus::Filled, dec(10));
    let provider = Provider::with(vec![]);
    handle_order_event(&mut router, OrderEventType::OrderFilled, &filled, Some(&provider));
    assert_eq!(
        router.critical_notifications_dropped(),
        0,
        "Should NOT increment dropped counter when receivers exist"
    );
}

#[test]
fn an_order_that_was_reconciled_shows_no_change_again() {
    let mut router = create_test_router();
    cache_open(&mut router, "order-1");
    let partial = create_test_order("order-1", OrderStatus::PartiallyFilled, dec(50));
    let provider = Provider { fail_get_orders: true, ..Provider::with(vec![partial.clone()]) };
    assert_eq!(reconcile(&mut router, provider).len(), 1);
    let provider = Provider { fail_get_orders: true, ..Provider::with(vec![partial]) };
    assert!(reconcile(&mut router, provider).is_empty());
}

#[test]
fn placed_exit_orders_cover_the_fill() {
    let mut router = create_test_router();
    let request = create_order_request_with_sl("BTCUSD", dec(45000));
    router.exit_handler.register("order-1", &request).unwrap();
    let step = router.exit_handler.begin_entry_fill(
        "exit:sl:order-1",
        dec(4),
        dec(10),
        None,
        true,
        at(1),
    );
    let (entry, request) = match step {
        FillStep::Place { entry, request } => (entry, request),
        other => panic!("expected Place, got {:?}", other),
    };
    assert_eq!(request.quantity, dec(4));
    let mut placed = create_test_order("exit-1", OrderStatus::Open, Decimal::zero());
    placed.quantity = request.quantity;
    let follow_up = router.exit_handler.handle_successful_placement(
        "exit:sl:order-1",
        &entry,
        &placed,
        Some((dec(4), dec(10))),
        at(2),
    );
    assert!(matches!(follow_up, PlacementFollowUp::Finished(_)));
    match router.exit_handler.begin_entry_fill(
        "exit:sl:order-1",
        dec(10),
        dec(10),
        None,
        false,
        at(3),
    ) {
        FillStep::Place { request, .. } => {
            assert_eq!(request.quantity, dec(6));
            assert_eq!(request.client_order_id.as_deref(), Some("order-1-sl-1"));
        }
        other => panic!("expected Place, got {:?}", other),
    }
}
