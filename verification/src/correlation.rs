//! Correlation store for mapping provider order IDs to gateway-assigned correlation IDs.
//!
//! The gateway assigns a UUID correlation ID to every order at submission time.
//! This store maps provider order IDs to correlation IDs so they can be included
//! in API responses, WebSocket events, and structured logs.

use vstd::prelude::*;
use crate::models::{Order, OrderHandle};
use crate::table::Table;
use crate::text::opt_text;

verus! {

/// Maps provider order IDs to gateway-assigned correlation IDs.
pub struct CorrelationStore {
    mappings: Table<String>,
}

impl View for CorrelationStore {
    type V = Map<Seq<char>, Seq<char>>;

    /// The correlation ID of each order.
    closed spec fn view(&self) -> Map<Seq<char>, Seq<char>> {
        self.mappings@.map_values(|id: String| id@)
    }
}

/// The value under a key of a map.
pub open spec fn look_up(map: Map<Seq<char>, Seq<char>>, key: Seq<char>) -> Option<Seq<char>> {
    if map.contains_key(key) {
        Some(map[key])
    } else {
        None
    }
}

impl CorrelationStore {
    /// The table is intact.
    pub closed spec fn wf(self) -> bool {
        self.mappings.wf()
    }

    /// Create a new empty correlation store.
    pub fn new() -> (s: CorrelationStore)
        ensures
            s.wf(),
            s@ == Map::<Seq<char>, Seq<char>>::empty(),
    {
        let s = CorrelationStore { mappings: Table::new() };
        assert(s@ =~= Map::<Seq<char>, Seq<char>>::empty());
        s
    }

    /// Store a correlation mapping for an order.
    pub fn store(&mut self, order_id: &str, correlation_id: &str)
        requires
            old(self).wf(),
        ensures
            final(self).wf(),
            final(self)@ == old(self)@.insert(order_id@, correlation_id@),
    {
        let ghost before = self@;
        let _ = self.mappings.insert(order_id.to_owned(), correlation_id.to_owned());
        assert(self@ =~= before.insert(order_id@, correlation_id@));
    }

    /// Look up the correlation ID for an order.
    pub fn get(&self, order_id: &str) -> (id: Option<String>)
        requires
            self.wf(),
        ensures
            opt_text(id) == look_up(self@, order_id@),
    {
        match self.mappings.get(order_id) {
            Some(id) => Some(id.clone()),
            None => None,
        }
    }

    /// Remove the correlation mapping for an order (e.g., on terminal state).
    pub fn remove(&mut self, order_id: &str) -> (removed: Option<String>)
        requires
            old(self).wf(),
        ensures
            final(self).wf(),
            final(self)@ == old(self)@.remove(order_id@),
            opt_text(removed) == look_up(old(self)@, order_id@),
    {
        let ghost before = self@;
        let removed = self.mappings.remove(order_id);
        assert(self@ =~= before.remove(order_id@));
        removed
    }

    /// Stores the correlation ID of an order that was submitted, and puts it on the handle.
    pub fn assign(&mut self, handle: OrderHandle, correlation_id: String) -> (assigned: OrderHandle)
        requires
            old(self).wf(),
        ensures
            final(self).wf(),
            final(self)@ == old(self)@.insert(handle.id@, correlation_id@),
            assigned == (OrderHandle { correlation_id: Some(correlation_id), ..handle }),
    {
        self.store(handle.id.as_str(), correlation_id.as_str());
        let mut handle = handle;
        handle.correlation_id = Some(correlation_id);
        handle
    }

    /// Puts the correlation ID of an order on it.
    pub fn annotate(&self, order: Order) -> (annotated: Order)
        requires
            self.wf(),
        ensures
            opt_text(annotated.correlation_id) == look_up(self@, order.id@),
            annotated == (Order { correlation_id: annotated.correlation_id, ..order }),
    {
        let mut order = order;
        order.correlation_id = self.get(order.id.as_str());
        order
    }

    /// Puts the correlation IDs of orders on them.
    pub fn annotate_all(&self, orders: Vec<Order>) -> (annotated: Vec<Order>)
        requires
            self.wf(),
        ensures
            annotated@.len() == orders@.len(),
            forall|i: int|
                0 <= i < orders@.len() ==> opt_text((#[trigger] annotated@[i]).correlation_id)
                    == look_up(self@, orders@[i].id@) && annotated@[i] == (Order {
                    correlation_id: annotated@[i].correlation_id,
                    ..orders@[i]
                }),
    {
        let mut annotated: Vec<Order> = Vec::new();
        let mut i: usize = 0;
        while i < orders.len()
            invariant
                i <= orders.len(),
                self.wf(),
                annotated@.len() == i,
                forall|j: int|
                    0 <= j < i ==> opt_text((#[trigger] annotated@[j]).correlation_id) == look_up(
                        self@,
                        orders@[j].id@,
                    ) && annotated@[j] == (Order {
                        correlation_id: annotated@[j].correlation_id,
                        ..orders@[j]
                    }),
            decreases orders.len() - i,
        {
            annotated.push(self.annotate(orders[i].clone()));
            i = i + 1;
        }
        annotated
    }
}

impl Default for CorrelationStore {
    fn default() -> (s: CorrelationStore)
        ensures
            s.wf(),
            s@ == Map::<Seq<char>, Seq<char>>::empty(),
    {
        CorrelationStore::new()
    }
}

/// The correlation ID that an order was given is the one that is read of it, until another is
/// given to it or it is removed.
pub proof fn law_correlation_is_read_back(
    store: Map<Seq<char>, Seq<char>>,
    order_id: Seq<char>,
    correlation_id: Seq<char>,
    other: Seq<char>,
)
    ensures
        look_up(store.insert(order_id, correlation_id), order_id) == Some(correlation_id),
        look_up(store.insert(order_id, correlation_id).remove(order_id), order_id) is None,
        other != order_id ==> look_up(store.insert(order_id, correlation_id), other) == look_up(
            store,
            other,
        ),
{
}

} // verus!
