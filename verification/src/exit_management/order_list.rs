//! The list of orders placed at the provider for one exit entry.
//!
//! The list is a `smallvec::SmallVec` that holds up to four orders in place: most entries
//! have one order, a few have one for each of several partial fills.

use vstd::prelude::*;
use smallvec::SmallVec;
use super::types::ActualOrder;

verus! {

/// Orders placed at the provider, in the order in which they were placed.
#[verifier::external_body]
#[derive(Debug)]
pub struct OrderList {
    orders: SmallVec<[ActualOrder; 4]>,
}

/// What an order list holds.
pub uninterp spec fn listed_orders(list: OrderList) -> Seq<ActualOrder>;

/// Calls `SmallVec::new`: a list that holds nothing.
#[verifier::external_body]
fn list_new() -> (list: OrderList)
    ensures
        listed_orders(list).len() == 0,
{
    OrderList { orders: SmallVec::new() }
}

/// Calls `SmallVec::push`: puts an order at the end.
#[verifier::external_body]
fn list_push(list: &mut OrderList, order: ActualOrder)
    ensures
        listed_orders(*final(list)) == listed_orders(*old(list)).push(order),
{
    list.orders.push(order)
}

/// Calls `SmallVec::len`: the number of orders.
#[verifier::external_body]
fn list_len(list: &OrderList) -> (n: usize)
    ensures
        n == listed_orders(*list).len(),
{
    list.orders.len()
}

/// Indexes a `SmallVec`: the order at a position.
#[verifier::external_body]
fn list_get(list: &OrderList, i: usize) -> (order: &ActualOrder)
    requires
        i < listed_orders(*list).len(),
    ensures
        *order == listed_orders(*list)[i as int],
{
    &list.orders[i]
}

impl View for OrderList {
    type V = Seq<ActualOrder>;

    /// The orders.
    open spec fn view(&self) -> Seq<ActualOrder> {
        listed_orders(*self)
    }
}

impl OrderList {
    /// An empty list.
    pub fn new() -> (list: OrderList)
        ensures
            list@ == Seq::<ActualOrder>::empty(),
    {
        let list = list_new();
        assert(list@ =~= Seq::<ActualOrder>::empty());
        list
    }

    /// A list of one order.
    pub fn of(order: ActualOrder) -> (list: OrderList)
        ensures
            list@ == seq![order],
    {
        let mut list = OrderList::new();
        list.push(order);
        assert(list@ =~= seq![order]);
        list
    }

    /// Puts an order at the end.
    pub fn push(&mut self, order: ActualOrder)
        ensures
            final(self)@ == old(self)@.push(order),
    {
        list_push(self, order);
    }

    /// The number of orders.
    pub fn len(&self) -> (n: usize)
        ensures
            n == self@.len(),
    {
        list_len(self)
    }

    /// The order at a position.
    pub fn get(&self, i: usize) -> (order: &ActualOrder)
        requires
            i < self@.len(),
        ensures
            *order == self@[i as int],
    {
        list_get(self, i)
    }

    /// The orders as a plain list.
    pub fn to_vec(&self) -> (orders: Vec<ActualOrder>)
        ensures
            orders@ == self@,
    {
        let mut orders: Vec<ActualOrder> = Vec::new();
        let n: usize = self.len();
        let mut i: usize = 0;
        while i < n
            invariant
                i <= n,
                n == self@.len(),
                orders@ == self@.take(i as int),
            decreases n - i,
        {
            orders.push(self.get(i).clone());
            assert(orders@ =~= self@.take(i + 1));
            i = i + 1;
        }
        assert(self@.take(n as int) =~= self@);
        orders
    }
}

impl Clone for OrderList {
    fn clone(&self) -> (copy: OrderList)
        ensures
            copy@ == self@,
    {
        let mut copy = OrderList::new();
        let n: usize = self.len();
        let mut i: usize = 0;
        while i < n
            invariant
                i <= n,
                n == self@.len(),
                copy@ == self@.take(i as int),
            decreases n - i,
        {
            copy.push(self.get(i).clone());
            assert(copy@ =~= self@.take(i + 1));
            i = i + 1;
        }
        assert(self@.take(n as int) =~= self@);
        copy
    }
}

} // verus!
