use tektii_gateway_core::decimal::Decimal;
use tektii_gateway_core::exit_management::{
    ActualOrder, ActualOrderStatus, CancellationReason, ExitEntry, ExitEntryParams,
    ExitEntryStatus, ExitHandler, ExitHandlerRegistry, ExitLegType, OrderList,
};
use tektii_gateway_core::models::{Side, TradingPlatform};
use tektii_gateway_core::shutdown::{ExitStateEntry, exit_state_snapshot, log_pending_exits};
use tektii_gateway_core::time::Timestamp;

fn test_entry(i: usize) -> ExitEntry {
    ExitEntry::new(ExitEntryParams {
        primary_order_id: format!("order-{i}"),
        order_type: ExitLegType::StopLoss,
        symbol: format!("SYM{i}"),
        side: Side::Sell,
        trigger_price: Decimal::new(1000, 1),
        limit_price: None,
        quantity: Decimal::new(100, 1),
        platform: TradingPlatform::AlpacaPaper,
    })
}

fn test_registry_with_pending(n: usize) -> ExitHandlerRegistry {
    let mut handler = ExitHandler::with_defaults(TradingPlatform::AlpacaPaper);

    for i in 0..n {
        handler.insert_entry(test_entry(i));
    }

    let mut registry = ExitHandlerRegistry::new();
    registry.register(TradingPlatform::AlpacaPaper, handler);
    registry
}

#[test]
fn log_pending_exits_with_entries_runs_without_panic() {
    let registry = test_registry_with_pending(3);
    assert_eq!(registry.total_pending_count(), 3);
    let report = log_pending_exits(&registry).unwrap();
    assert_eq!(report.pending_count, 3);
    assert_eq!(report.failed_count, 0);
    assert_eq!(report.total(), 3);
}

#[test]
fn log_pending_exits_with_no_entries_is_noop() {
    let registry = ExitHandlerRegistry::new();
    assert!(log_pending_exits(&registry).is_none());
}

#[test]
fn report_lists_pending_and_failed_exits() {
    let mut handler = ExitHandler::with_defaults(TradingPlatform::AlpacaPaper);
    let mut pending = test_entry(1);
    pending.created_at_utc = Timestamp { secs: 1_700_000_000, nanos: 0 };
    handler.insert_entry(pending);
    let mut failed = test_entry(2);
    failed.set_status(ExitEntryStatus::Failed {
        error: "timeout".to_string(),
        retry_count: 1,
        failed_at: Timestamp { secs: 0, nanos: 0 },
        actual_orders: OrderList::new(),
    });
    handler.insert_entry(failed);
    let mut registry = ExitHandlerRegistry::new();
    registry.register(TradingPlatform::AlpacaPaper, handler);

    let report = log_pending_exits(&registry).unwrap();
    assert_eq!(report.pending_count, 1);
    assert_eq!(report.failed_count, 1);
    assert_eq!(
        report.message(),
        "Pending exits will NOT be placed — manual intervention required\n  PENDING: platform=alpaca-paper, primary_order=order-1, type=StopLoss, created=2023-11-14 22:13:20 UTC\n  FAILED: platform=alpaca-paper, primary_order=order-2, symbol=SYM2, type=StopLoss, error=timeout"
    );
}

#[test]
fn write_snapshot_with_entries_creates_file() {
    let registry = test_registry_with_pending(2);
    let snapshot = exit_state_snapshot(&registry, Timestamp::now()).unwrap();
    assert_eq!(snapshot.entries.len(), 2);

    // Verify fields
    for entry in &snapshot.entries {
        assert_eq!(entry.side, Side::Sell);
        assert_eq!(entry.order_type, ExitLegType::StopLoss);
        assert_eq!(entry.status, "pending");
        assert_eq!(entry.platform, TradingPlatform::AlpacaPaper);
    }
}

#[test]
fn write_snapshot_with_no_entries_skips_file() {
    let registry = ExitHandlerRegistry::new();
    assert!(exit_state_snapshot(&registry, Timestamp::now()).is_none());
}

#[test]
fn settled_entries_are_left_out() {
    let mut handler = ExitHandler::with_defaults(TradingPlatform::AlpacaPaper);
    let mut cancelled = test_entry(1);
    cancelled.set_status(ExitEntryStatus::Cancelled {
        cancelled_at: Timestamp::now(),
        reason: CancellationReason::UserRequested,
    });
    handler.insert_entry(cancelled);
    let mut expired = test_entry(2);
    expired.set_status(ExitEntryStatus::Expired { expired_at: Timestamp::now() });
    handler.insert_entry(expired);
    let mut registry = ExitHandlerRegistry::new();
    registry.register(TradingPlatform::AlpacaPaper, handler);
    assert!(exit_state_snapshot(&registry, Timestamp::now()).is_none());
}

#[test]
fn statuses_are_written_for_the_snapshot() {
    let mut entry = test_entry(1);
    entry.set_status(ExitEntryStatus::Placed {
        actual_orders: OrderList::of(ActualOrder {
            order_id: "live-1".to_string(),
            quantity: Decimal::new(1, 0),
            placed_at: Timestamp::now(),
            status: ActualOrderStatus::Open,
            leg_type: ExitLegType::StopLoss,
        }),
    });
    let saved = ExitStateEntry::from_exit_entry(&entry);
    assert_eq!(saved.status, "placed");
    assert_eq!(saved.actual_order_ids, vec!["live-1"]);

    entry.set_status(ExitEntryStatus::Failed {
        error: "no route".to_string(),
        retry_count: 0,
        failed_at: Timestamp::now(),
        actual_orders: OrderList::new(),
    });
    assert_eq!(ExitStateEntry::from_exit_entry(&entry).status, "failed: no route");

    entry.set_status(ExitEntryStatus::Cancelled {
        cancelled_at: Timestamp::now(),
        reason: CancellationReason::PositionClosed,
    });
    assert_eq!(ExitStateEntry::from_exit_entry(&entry).status, "cancelled: PositionClosed");

    entry.set_status(ExitEntryStatus::Expired { expired_at: Timestamp::now() });
    assert_eq!(ExitStateEntry::from_exit_entry(&entry).status, "expired");
}
