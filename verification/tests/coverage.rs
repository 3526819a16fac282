use tektii_gateway_core::decimal::Decimal;
use tektii_gateway_core::exit_management::coverage::{checked_active_coverage, checked_coverage};
use tektii_gateway_core::exit_management::{
    ActualOrder, ActualOrderStatus, ExitCoverage, ExitLegType, build_coverage,
    calculate_active_coverage,
};
use tektii_gateway_core::time::Timestamp;

fn make_order(qty: Decimal, status: ActualOrderStatus, leg_type: ExitLegType) -> ActualOrder {
    ActualOrder {
        order_id: "test-order".to_string(),
        quantity: qty,
        placed_at: Timestamp::now(),
        status,
        leg_type,
    }
}

#[test]
fn test_coverage_qty_needing() {
    let coverage = ExitCoverage {
        filled_qty: Decimal::new(10, 1),
        sl_covered: Decimal::new(5, 1),
        tp_covered: Decimal::new(8, 1),
    };

    assert_eq!(coverage.qty_needing_sl(), Decimal::new(5, 1));
    assert_eq!(coverage.qty_needing_tp(), Decimal::new(2, 1));
}

#[test]
fn test_coverage_fully_covered() {
    let coverage = ExitCoverage {
        filled_qty: Decimal::new(10, 1),
        sl_covered: Decimal::new(10, 1),
        tp_covered: Decimal::new(10, 1),
    };

    assert!(coverage.is_fully_covered());
    assert!(!coverage.has_gap());
}

#[test]
fn test_coverage_not_fully_covered_when_sl_missing() {
    let coverage = ExitCoverage {
        filled_qty: Decimal::new(10, 1),
        sl_covered: Decimal::new(5, 1),
        tp_covered: Decimal::new(10, 1),
    };

    assert!(!coverage.is_fully_covered());
    assert!(coverage.has_gap());
}

#[test]
fn test_coverage_over_covered_returns_zero_needed() {
    let coverage = ExitCoverage {
        filled_qty: Decimal::new(5, 1),
        sl_covered: Decimal::new(10, 1),
        tp_covered: Decimal::new(10, 1),
    };

    assert!(coverage.qty_needing_sl().is_zero());
    assert!(coverage.qty_needing_tp().is_zero());
    assert!(coverage.is_fully_covered());
}

#[test]
fn test_calculate_active_coverage_filters_terminal_orders() {
    let orders = vec![
        make_order(Decimal::new(5, 1), ActualOrderStatus::Open, ExitLegType::StopLoss),
        make_order(
            Decimal::new(3, 1),
            ActualOrderStatus::Filled { filled_at: Timestamp::now() },
            ExitLegType::StopLoss,
        ),
        make_order(
            Decimal::new(2, 1),
            ActualOrderStatus::Cancelled { cancelled_at: Timestamp::now() },
            ExitLegType::StopLoss,
        ),
    ];

    let coverage = calculate_active_coverage(&orders, ExitLegType::StopLoss);
    assert_eq!(coverage, Decimal::new(5, 1));
}

#[test]
fn test_calculate_active_coverage_uses_remaining_qty() {
    let orders = vec![make_order(
        Decimal::new(10, 1),
        ActualOrderStatus::PartiallyFilled {
            filled_qty: Decimal::new(6, 1),
            updated_at: Timestamp::now(),
        },
        ExitLegType::StopLoss,
    )];

    let coverage = calculate_active_coverage(&orders, ExitLegType::StopLoss);
    assert_eq!(coverage, Decimal::new(4, 1));
}

#[test]
fn test_calculate_active_coverage_filters_by_leg_type() {
    let orders = vec![
        make_order(Decimal::new(5, 1), ActualOrderStatus::Open, ExitLegType::StopLoss),
        make_order(Decimal::new(7, 1), ActualOrderStatus::Open, ExitLegType::TakeProfit),
    ];

    let sl_coverage = calculate_active_coverage(&orders, ExitLegType::StopLoss);
    let tp_coverage = calculate_active_coverage(&orders, ExitLegType::TakeProfit);

    assert_eq!(sl_coverage, Decimal::new(5, 1));
    assert_eq!(tp_coverage, Decimal::new(7, 1));
}

#[test]
fn test_build_coverage_complete() {
    let orders = vec![
        make_order(Decimal::new(5, 1), ActualOrderStatus::Open, ExitLegType::StopLoss),
        make_order(Decimal::new(3, 1), ActualOrderStatus::Open, ExitLegType::TakeProfit),
    ];

    let coverage = build_coverage(Decimal::new(10, 1), &orders);

    assert_eq!(coverage.filled_qty, Decimal::new(10, 1));
    assert_eq!(coverage.sl_covered, Decimal::new(5, 1));
    assert_eq!(coverage.tp_covered, Decimal::new(3, 1));
    assert_eq!(coverage.qty_needing_sl(), Decimal::new(5, 1));
    assert_eq!(coverage.qty_needing_tp(), Decimal::new(7, 1));
}

#[test]
fn fresh_coverage_needs_the_whole_fill() {
    let coverage = ExitCoverage::new(Decimal::new(25, 1));
    assert_eq!(coverage.qty_needing(ExitLegType::StopLoss), Decimal::new(25, 1));
    assert_eq!(coverage.qty_needing(ExitLegType::TakeProfit), Decimal::new(25, 1));
}

#[test]
fn coverage_beyond_the_range_of_decimals_is_told() {
    let max = Decimal::from_parts(79_228_162_514_264_337_593_543_950_335, 0).unwrap();
    let orders = vec![
        make_order(max, ActualOrderStatus::Open, ExitLegType::StopLoss),
        make_order(max, ActualOrderStatus::Open, ExitLegType::StopLoss),
    ];
    assert_eq!(checked_active_coverage(&orders, ExitLegType::StopLoss), None);
    assert_eq!(
        checked_active_coverage(&orders, ExitLegType::TakeProfit),
        Some(Decimal::new(0, 0))
    );
    assert!(checked_coverage(Decimal::new(1, 0), &orders).is_none());
}

#[test]
fn coverage_of_two_lists_together_is_the_sum_of_both() {
    let order = |quantity: Decimal, status: ActualOrderStatus, leg_type: ExitLegType| ActualOrder {
        order_id: "live".to_string(),
        quantity,
        placed_at: Timestamp { secs: 0, nanos: 0 },
        status,
        leg_type,
    };
    let first = vec![
        order(Decimal::new(15, 1), ActualOrderStatus::Open, ExitLegType::StopLoss),
        order(Decimal::new(7, 0), ActualOrderStatus::Open, ExitLegType::TakeProfit),
    ];
    let second = vec![order(Decimal::new(250, 2), ActualOrderStatus::Open, ExitLegType::StopLoss)];
    let mut both = first.clone();
    both.extend(second.clone());
    let covered = |orders: &Vec<ActualOrder>| {
        calculate_active_coverage(orders, ExitLegType::StopLoss)
    };
    assert_eq!(covered(&first), Decimal::new(15, 1));
    assert_eq!(covered(&second), Decimal::new(25, 1));
    assert_eq!(covered(&both), Decimal::new(4, 0));
    assert_eq!(covered(&vec![]), Decimal::zero());
}
