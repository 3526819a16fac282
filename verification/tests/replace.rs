use tektii_gateway_core::decimal::Decimal;
use tektii_gateway_core::error::GatewayError;
use tektii_gateway_core::exit_management::replace::{
    MoveAnswer, MovePhase, MoveStep, ReplaceExitLegError, modify_request,
};
use tektii_gateway_core::exit_management::{
    ActualOrder, ActualOrderStatus, ExitEntryStatus, ExitHandler, ExitLegType,
};
use tektii_gateway_core::models::{OrderRequest, Side, TradingPlatform};
use tektii_gateway_core::time::Timestamp;

fn at(secs: i64) -> Timestamp {
    Timestamp { secs, nanos: 0 }
}

fn refusal(text: &str) -> GatewayError {
    GatewayError::OrderRejected { reason: text.to_string(), reject_code: None, details: None }
}

/// A handler whose stop-loss for `order-1` rests at the provider as `live-1`.
fn handler_with_live_stop() -> ExitHandler {
    let mut handler = ExitHandler::with_defaults(TradingPlatform::AlpacaLive);
    let request = OrderRequest::market("BTCUSD", Side::Buy, Decimal::new(2, 0))
        .with_stop_loss(Decimal::new(95, 0));
    handler.register("order-1", &request).unwrap();
    handler.update_entry_to_placed(
        "exit:sl:order-1",
        ActualOrder {
            order_id: "live-1".to_string(),
            quantity: Decimal::new(2, 0),
            placed_at: at(0),
            status: ActualOrderStatus::Open,
            leg_type: ExitLegType::StopLoss,
        },
        at(0),
    );
    handler
}

fn resting_ids(handler: &ExitHandler) -> Vec<String> {
    match handler.get_status("exit:sl:order-1").unwrap() {
        ExitEntryStatus::Placed { actual_orders } => {
            actual_orders.to_vec().iter().map(|o| o.order_id.clone()).collect()
        }
        _ => panic!("expected Placed"),
    }
}

#[test]
fn leg_is_modified_in_place_where_the_provider_can() {
    let mut handler = handler_with_live_stop();
    let (entry, resting) = handler.plan_leg_move("exit:sl:order-1").ok().unwrap();
    assert_eq!(resting.len(), 1);
    let request = modify_request(ExitLegType::StopLoss, Decimal::new(97, 0));
    assert_eq!(request.stop_price, Some(Decimal::new(97, 0)));
    assert_eq!(request.limit_price, None);

    let step = handler.move_step(
        "exit:sl:order-1",
        &entry,
        &resting[0],
        Decimal::new(97, 0),
        MovePhase::Modifying,
        MoveAnswer::Accepted { order_id: "live-2".to_string() },
        at(1),
    );
    match step {
        MoveStep::Moved { order_id } => assert_eq!(order_id, "live-2"),
        other => panic!("expected Moved, got {:?}", other),
    }
    assert_eq!(resting_ids(&handler), vec!["live-2"]);
}

#[test]
fn leg_is_cancelled_and_replaced_otherwise() {
    let mut handler = handler_with_live_stop();
    let (entry, resting) = handler.plan_leg_move("exit:sl:order-1").ok().unwrap();
    let unsupported = GatewayError::unsupported("modify_order", "mock");
    let step = handler.move_step(
        "exit:sl:order-1",
        &entry,
        &resting[0],
        Decimal::new(97, 0),
        MovePhase::Modifying,
        MoveAnswer::Refused(unsupported),
        at(1),
    );
    assert!(matches!(step, MoveStep::Cancel));
    let step = handler.move_step(
        "exit:sl:order-1",
        &entry,
        &resting[0],
        Decimal::new(97, 0),
        MovePhase::Cancelling,
        MoveAnswer::Accepted { order_id: "live-1".to_string() },
        at(2),
    );
    match step {
        MoveStep::Replace(request) => {
            assert_eq!(request.stop_price, Some(Decimal::new(97, 0)));
            assert_eq!(request.quantity, Decimal::new(2, 0));
        }
        other => panic!("expected Replace, got {:?}", other),
    }
    let step = handler.move_step(
        "exit:sl:order-1",
        &entry,
        &resting[0],
        Decimal::new(97, 0),
        MovePhase::Replacing,
        MoveAnswer::Accepted { order_id: "live-3".to_string() },
        at(3),
    );
    assert!(matches!(step, MoveStep::Moved { .. }));
    assert_eq!(resting_ids(&handler), vec!["live-3"]);
}

#[test]
fn refused_replacement_is_followed_by_the_original() {
    let mut handler = handler_with_live_stop();
    let (entry, resting) = handler.plan_leg_move("exit:sl:order-1").ok().unwrap();
    let step = handler.move_step(
        "exit:sl:order-1",
        &entry,
        &resting[0],
        Decimal::new(97, 0),
        MovePhase::Replacing,
        MoveAnswer::Refused(refusal("price too close")),
        at(1),
    );
    let replace_error = match step {
        MoveStep::Restore { request, replace_error } => {
            assert_eq!(request.stop_price, Some(Decimal::new(95, 0)));
            replace_error
        }
        other => panic!("expected Restore, got {:?}", other),
    };
    let step = handler.move_step(
        "exit:sl:order-1",
        &entry,
        &resting[0],
        Decimal::new(97, 0),
        MovePhase::Restoring { replace_error },
        MoveAnswer::Accepted { order_id: "live-4".to_string() },
        at(2),
    );
    assert!(matches!(step, MoveStep::Failed(ReplaceExitLegError::StillProtected(_))));
    assert_eq!(resting_ids(&handler), vec!["live-4"]);
}

#[test]
fn position_without_cover_is_told() {
    let mut handler = handler_with_live_stop();
    let (entry, resting) = handler.plan_leg_move("exit:sl:order-1").ok().unwrap();
    let step = handler.move_step(
        "exit:sl:order-1",
        &entry,
        &resting[0],
        Decimal::new(97, 0),
        MovePhase::Restoring { replace_error: refusal("first") },
        MoveAnswer::Refused(refusal("second")),
        at(1),
    );
    match step {
        MoveStep::Failed(ReplaceExitLegError::Unprotected {
            cancelled_order_id,
            source,
            restore_error,
        }) => {
            assert_eq!(cancelled_order_id, "live-1");
            assert_eq!(source.to_text(), "Order rejected: first");
            assert_eq!(restore_error.to_text(), "Order rejected: second");
        }
        other => panic!("expected Unprotected, got {:?}", other),
    }
}

#[test]
fn leg_that_is_not_placed_cannot_be_moved() {
    let mut handler = ExitHandler::with_defaults(TradingPlatform::AlpacaLive);
    let request = OrderRequest::market("BTCUSD", Side::Buy, Decimal::new(2, 0))
        .with_stop_loss(Decimal::new(95, 0));
    handler.register("order-1", &request).unwrap();
    assert!(matches!(
        handler.plan_leg_move("exit:sl:order-1"),
        Err(ReplaceExitLegError::StillProtected(_))
    ));
    assert!(matches!(
        handler.plan_leg_move("exit:sl:none"),
        Err(ReplaceExitLegError::StillProtected(_))
    ));
}

#[test]
fn live_leg_is_found_by_its_position() {
    let mut handler = handler_with_live_stop();
    assert!(handler.live_exit_leg("pos-1", ExitLegType::StopLoss).is_none());
    let mut entry = handler.get_entry("exit:sl:order-1").unwrap();
    entry.placeholder_id = "exit:sl:order-2".to_string();
    entry.primary_order_id = "order-2".to_string();
    entry.position_id = Some("pos-1".to_string());
    handler.insert_entry(entry);
    let leg = handler.live_exit_leg("pos-1", ExitLegType::StopLoss).unwrap();
    assert_eq!(leg.placeholder_id, "exit:sl:order-2");
    assert!(handler.live_exit_leg("pos-1", ExitLegType::TakeProfit).is_none());
    assert!(handler.live_exit_leg("pos-2", ExitLegType::StopLoss).is_none());
}

#[test]
fn the_status_of_an_entry_is_told_with_its_times() {
    let handler = handler_with_live_stop();
    let info = handler.get_status_info("exit:sl:order-1").unwrap();
    assert!(matches!(info.status, ExitEntryStatus::Placed { .. }));
    assert_eq!(info.updated_at, Some(at(0)));
    assert!(handler.get_status_info("exit:tp:order-1").is_none());
}

/// The request that replaces the resting order once it is cancelled.
fn replacement(handler: &mut ExitHandler, resting: &ActualOrder, trigger: i64) -> OrderRequest {
    let entry = handler.get_entry("exit:sl:order-1").unwrap();
    let step = handler.move_step(
        "exit:sl:order-1",
        &entry,
        resting,
        Decimal::new(trigger, 0),
        MovePhase::Cancelling,
        MoveAnswer::Accepted { order_id: resting.order_id.clone() },
        at(1),
    );
    match step {
        MoveStep::Replace(request) => request,
        other => panic!("expected Replace, got {:?}", other),
    }
}

#[test]
fn successive_moves_ask_for_orders_with_different_ids() {
    let mut handler = handler_with_live_stop();
    let mut ids: Vec<String> = vec![];
    for trigger in [97, 98, 99] {
        let (entry, resting) = handler.plan_leg_move("exit:sl:order-1").ok().unwrap();
        let request = replacement(&mut handler, &resting[0], trigger);
        ids.push(request.client_order_id.unwrap());
        let step = handler.move_step(
            "exit:sl:order-1",
            &entry,
            &resting[0],
            Decimal::new(trigger, 0),
            MovePhase::Replacing,
            MoveAnswer::Accepted { order_id: format!("live-{}", trigger) },
            at(2),
        );
        assert!(matches!(step, MoveStep::Moved { .. }));
    }
    assert_eq!(ids, vec!["order-1-sl-1", "order-1-sl-2", "order-1-sl-3"]);
    assert_eq!(resting_ids(&handler), vec!["live-99"]);
}

#[test]
fn restored_order_has_another_id_than_its_replacement() {
    let mut handler = handler_with_live_stop();
    let (entry, resting) = handler.plan_leg_move("exit:sl:order-1").ok().unwrap();
    let refused = replacement(&mut handler, &resting[0], 97);
    let step = handler.move_step(
        "exit:sl:order-1",
        &entry,
        &resting[0],
        Decimal::new(97, 0),
        MovePhase::Replacing,
        MoveAnswer::Refused(refusal("price too close")),
        at(2),
    );
    let restoring = match step {
        MoveStep::Restore { request, .. } => request,
        other => panic!("expected Restore, got {:?}", other),
    };
    assert_eq!(refused.client_order_id.as_deref(), Some("order-1-sl-1"));
    assert_eq!(restoring.client_order_id.as_deref(), Some("order-1-sl-2"));
}
