use tektii_gateway_core::decimal::Decimal;
use tektii_gateway_core::models::{
    Order, OrderStatus, OrderType, Position, PositionSide, Side, TimeInForce,
};
use tektii_gateway_core::state::StateManager;
use tektii_gateway_core::time::Timestamp;

fn create_test_order(id: &str, symbol: &str, side: Side, quantity: Decimal) -> Order {
    Order {
        id: id.to_string(),
        client_order_id: None,
        symbol: symbol.to_string(),
        side,
        order_type: OrderType::Market,
        quantity,
        filled_quantity: Decimal::zero(),
        remaining_quantity: quantity,
        limit_price: None,
        stop_price: None,
        stop_loss: None,
        take_profit: None,
        trailing_distance: None,
        trailing_type: None,
        average_fill_price: None,
        status: OrderStatus::Open,
        reject_reason: None,
        position_id: None,
        reduce_only: None,
        post_only: None,
        hidden: None,
        display_quantity: None,
        oco_group_id: None,
        correlation_id: None,
        time_in_force: TimeInForce::Gtc,
        created_at: Timestamp::now(),
        updated_at: Timestamp::now(),
    }
}

fn create_test_position(id: &str, symbol: &str, side: PositionSide, quantity: Decimal) -> Position {
    Position {
        id: id.to_string(),
        symbol: symbol.to_string(),
        side,
        quantity,
        average_entry_price: Decimal::new(100, 0),
        current_price: Decimal::new(105, 0),
        unrealized_pnl: Decimal::new(500, 0),
        realized_pnl: Decimal::zero(),
        margin_mode: None,
        leverage: None,
        liquidation_price: None,
        opened_at: Timestamp::now(),
        updated_at: Timestamp::now(),
    }
}

#[test]
fn test_remove_order_cleans_up_indexes() {
    let mut state = StateManager::new();
    let mut order = create_test_order("order-1", "AAPL", Side::Buy, Decimal::new(100, 0));
    order.oco_group_id = Some("group-1".to_string());
    state.upsert_order(&order);

    // Verify the index was created
    assert_eq!(state.get_oco_group_id("order-1"), Some("group-1".to_string()));

    let _ = state.remove_order("order-1");

    // Verify the index was cleaned. Once the order is gone from the orders
    // map, `get_oco_group_id` falls back to scanning the group index, so a
    // stale entry left behind would still be found here.
    assert!(state.get_oco_group_id("order-1").is_none());
}

#[test]
fn test_remove_position_only_removes_own_symbol_index() {
    let mut state = StateManager::new();

    // Add position pos-1 for AAPL
    let position1 =
        create_test_position("pos-1", "AAPL", PositionSide::Long, Decimal::new(100, 0));
    state.upsert_position(&position1);

    // Replace with position pos-2 for AAPL (simulating position update)
    let position2 = create_test_position("pos-2", "AAPL", PositionSide::Long, Decimal::new(50, 0));
    state.upsert_position(&position2);

    // Now remove pos-1 - should NOT remove AAPL from symbol index
    let removed = state.remove_position("pos-1");
    assert!(removed);

    // AAPL should still resolve to pos-2
    let cached = state.get_position_by_symbol("AAPL").expect("should still exist");
    assert_eq!(cached.position_id, "pos-2");
}

#[test]
fn test_record_oco_fill_first_fill_returns_none() {
    let mut state = StateManager::new();
    let result = state.record_oco_fill(
        "group-1",
        "sl-order-1",
        Decimal::new(100, 0),
        "BTCUSD",
        Side::Sell,
    );
    assert!(result.is_none(), "First fill should return None");
}

#[test]
fn test_record_oco_fill_second_fill_returns_previous() {
    let mut state = StateManager::new();
    state.record_oco_fill("group-1", "sl-order-1", Decimal::new(100, 0), "BTCUSD", Side::Sell);

    let result = state.record_oco_fill(
        "group-1",
        "tp-order-1",
        Decimal::new(100, 0),
        "BTCUSD",
        Side::Sell,
    );
    let previous = result.expect("Second fill should return Some");
    assert_eq!(previous.first_filled_order_id, "sl-order-1");
    assert_eq!(previous.first_filled_qty, Decimal::new(100, 0));
    assert_eq!(previous.symbol, "BTCUSD");
}

#[test]
fn test_clear_oco_fill_allows_reuse() {
    let mut state = StateManager::new();
    state.record_oco_fill("group-1", "sl-order-1", Decimal::new(100, 0), "BTCUSD", Side::Sell);

    state.clear_oco_fill("group-1");

    let result =
        state.record_oco_fill("group-1", "new-order", Decimal::new(50, 0), "BTCUSD", Side::Sell);
    assert!(result.is_none(), "After clear, first fill should return None");
}

#[test]
fn test_record_oco_fill_different_groups_independent() {
    let mut state = StateManager::new();
    let r1 =
        state.record_oco_fill("group-1", "order-a", Decimal::new(100, 0), "BTCUSD", Side::Sell);
    let r2 = state.record_oco_fill("group-2", "order-b", Decimal::new(50, 0), "ETHUSD", Side::Sell);

    assert!(r1.is_none(), "First fill in group-1 should return None");
    assert!(r2.is_none(), "First fill in group-2 should return None");
}

#[test]
fn test_sync_from_provider_clears_oco_fills() {
    let mut state = StateManager::new();
    state.record_oco_fill("group-1", "order-1", Decimal::new(100, 0), "BTCUSD", Side::Sell);

    state.sync_from_provider(vec![], vec![]);

    let result =
        state.record_oco_fill("group-1", "order-2", Decimal::new(100, 0), "BTCUSD", Side::Sell);
    assert!(result.is_none(), "After sync, oco_fills should be cleared");
}

#[test]
fn test_upsert_order_cleans_old_oco_group_index() {
    let mut state = StateManager::new();

    // Insert order in group-1
    let mut order = create_test_order("order-1", "AAPL", Side::Buy, Decimal::new(100, 0));
    order.oco_group_id = Some("group-1".to_string());
    state.upsert_order(&order);

    // Verify it's in the group-1 index
    assert_eq!(
        state.get_oco_siblings("group-1", "no-such-order"),
        vec!["order-1".to_string()]
    );

    // Move the order to group-2
    let mut updated = create_test_order("order-1", "AAPL", Side::Buy, Decimal::new(100, 0));
    updated.oco_group_id = Some("group-2".to_string());
    state.upsert_order(&updated);

    // Verify it's removed from the group-1 index
    assert!(state.get_oco_siblings("group-1", "no-such-order").is_empty());
    // Verify it's in the group-2 index
    assert_eq!(
        state.get_oco_siblings("group-2", "no-such-order"),
        vec!["order-1".to_string()]
    );
}

#[test]
fn fills_of_cached_orders_are_updated() {
    let mut state = StateManager::new();
    state.upsert_order(&create_test_order("order-1", "AAPL", Side::Buy, Decimal::new(100, 0)));
    assert!(state.update_order_fill("order-1", Decimal::new(40, 0), OrderStatus::PartiallyFilled));
    let order = state.get_order("order-1").unwrap();
    assert_eq!(order.filled_quantity, Decimal::new(40, 0));
    assert_eq!(order.status, OrderStatus::PartiallyFilled);
    assert!(!state.update_order_fill("other", Decimal::new(1, 0), OrderStatus::Filled));
    assert!(state.get_order("other").is_none());
}

#[test]
fn counts_and_lookups() {
    let mut state = StateManager::new();
    for i in 0..10 {
        state.upsert_order(&create_test_order(
            &format!("order-{i}"),
            "AAPL",
            Side::Buy,
            Decimal::new(i + 1, 0),
        ));
    }
    assert_eq!(state.order_count(), 10);
    let mut ids = state.get_all_order_ids();
    ids.sort();
    assert_eq!(ids.len(), 10);
    assert_eq!(ids[0], "order-0");
    assert!(state.remove_order("order-0"));
    assert!(!state.remove_order("order-0"));
    assert_eq!(state.order_count(), 9);

    state.upsert_position(&create_test_position(
        "pos-1",
        "AAPL",
        PositionSide::Short,
        Decimal::new(5, 0),
    ));
    assert_eq!(state.position_count(), 1);
    assert!(state.has_position_by_symbol("AAPL"));
    assert!(!state.has_position_by_symbol("MSFT"));
    assert_eq!(state.get_position("pos-1").unwrap().side, PositionSide::Short);
    assert!(state.remove_position("pos-1"));
    assert!(!state.has_position_by_symbol("AAPL"));
}

#[test]
fn oco_groups_link_orders() {
    let mut state = StateManager::new();
    state.add_to_oco_group("a", "group");
    state.add_to_oco_group("b", "group");
    assert_eq!(state.get_oco_siblings("group", "a"), vec!["b".to_string()]);
    assert_eq!(state.get_oco_group_id("b"), Some("group".to_string()));
    assert_eq!(state.get_oco_group_id("c"), None);
    // Only orders that are cached with a group count as being in one.
    assert!(!state.is_in_oco_group("a"));
    let mut order = create_test_order("a", "AAPL", Side::Buy, Decimal::new(1, 0));
    order.oco_group_id = Some("group".to_string());
    state.upsert_order(&order);
    assert!(state.is_in_oco_group("a"));
}

#[test]
fn sync_replaces_everything() {
    let mut state = StateManager::new();
    let mut old = create_test_order("old", "AAPL", Side::Buy, Decimal::new(1, 0));
    old.oco_group_id = Some("group".to_string());
    state.upsert_order(&old);
    let mut new = create_test_order("new", "MSFT", Side::Sell, Decimal::new(2, 0));
    new.oco_group_id = Some("group-2".to_string());
    state.sync_from_provider(
        vec![new],
        vec![create_test_position("pos", "MSFT", PositionSide::Long, Decimal::new(2, 0))],
    );
    assert!(state.get_order("old").is_none());
    assert!(!state.is_in_oco_group("old"));
    assert!(state.is_in_oco_group("new"));
    assert_eq!(state.get_position_by_symbol("MSFT").unwrap().position_id, "pos");
}
