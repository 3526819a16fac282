use tektii_gateway_core::correlation::CorrelationStore;
use tektii_gateway_core::models::{OrderHandle, OrderStatus};

#[test]
fn store_and_get_round_trip() {
    let mut store = CorrelationStore::new();
    store.store("order-1", "corr-abc");
    assert_eq!(store.get("order-1"), Some("corr-abc".to_string()));
}

#[test]
fn get_returns_none_for_unknown_id() {
    let store = CorrelationStore::new();
    assert_eq!(store.get("nonexistent"), None);
}

#[test]
fn remove_clears_entry() {
    let mut store = CorrelationStore::new();
    store.store("order-1", "corr-abc");
    let removed = store.remove("order-1");
    assert_eq!(removed, Some("corr-abc".to_string()));
    assert_eq!(store.get("order-1"), None);
}

#[test]
fn remove_returns_none_for_unknown_id() {
    let mut store = CorrelationStore::new();
    assert_eq!(store.remove("nonexistent"), None);
}

#[test]
fn assign_stores_the_id_and_puts_it_on_the_handle() {
    let mut store = CorrelationStore::new();
    let handle = OrderHandle {
        id: "order-9".to_string(),
        client_order_id: None,
        correlation_id: None,
        status: OrderStatus::Open,
    };
    let assigned = store.assign(handle, "corr-9".to_string());
    assert_eq!(assigned.id, "order-9");
    assert_eq!(assigned.correlation_id, Some("corr-9".to_string()));
    assert_eq!(store.get("order-9"), Some("corr-9".to_string()));
}
