use tektii_gateway_core::adapter::{BracketStrategy, CancelAllTally};

#[test]
fn native_strategies_need_no_client_management() {
    assert!(BracketStrategy::NativeBracket.is_native());
    assert!(BracketStrategy::NativeOco.is_native());
    assert!(!BracketStrategy::PendingSlTp.is_native());
    assert!(!BracketStrategy::Unsupported.is_native());

    assert!(!BracketStrategy::NativeBracket.requires_client_management());
    assert!(!BracketStrategy::NativeOco.requires_client_management());
    assert!(BracketStrategy::PendingSlTp.requires_client_management());
    assert!(BracketStrategy::Unsupported.requires_client_management());
}

#[test]
fn tally_lists_the_orders_that_failed() {
    let mut tally = CancelAllTally::new();
    tally.count("a".to_string(), true);
    tally.count("b".to_string(), false);
    tally.count("c".to_string(), true);
    let result = tally.finish();

    assert_eq!(result.cancelled_count, 2);
    assert_eq!(result.failed_count, 1);
    assert_eq!(result.failed_order_ids, Some(vec!["b".to_string()]));
}

#[test]
fn tally_without_failures_lists_nothing() {
    let mut tally = CancelAllTally::new();
    tally.count("a".to_string(), true);
    let result = tally.finish();

    assert_eq!(result.cancelled_count, 1);
    assert_eq!(result.failed_count, 0);
    assert_eq!(result.failed_order_ids, None);
}
