//! What holds of the events of a provider and what the gateway does about them.
//!
//! The statements speak of the event, of what is cached before and after it, and of the actions
//! and messages that follow.

use vstd::prelude::*;
use crate::decimal::{Decimal, lemma_abs, lemma_zero};
use crate::exit_management::PlacementResult;
use crate::exit_management::handler::failed_info;
use crate::exit_management::types::{ExitLegType, FailedExitView, OutcomeView};
use crate::json::{JsonView, says, text_items};
use crate::models::{Order, OrderStatus, Position, PositionSide, Side};
use crate::state::{
    OcoFillView, StateView, law_only_told_orders_are_synced, law_only_told_positions_are_synced,
    law_synced_orders_are_cached,
};
use crate::text::{has_part, opt_text};
use crate::time::Timestamp;
use super::messages::{
    ConnectionEventType, OrderEventType, PositionEventType, WsErrorCode, WsMessageView,
};
use super::router::{
    EventRouter, OrderEventAction, OrderSnapshot, TrailingAction, distinct_primaries,
    double_exit_message, entries_of, exit_json, exposed_exits, exposure, failed_exits_json,
    fill_json, order_actions, repeated_message, repeated_messages, shows_order, side_name,
    spec_is_fill, status_change, unprotected_message,
};

verus! {

// ---------------------------------------------------------------------------------------
// Actions
// ---------------------------------------------------------------------------------------

/// The place of an action among others: a fill is handled first, then the trailing stop is told,
/// then siblings are cancelled, and at last the event is broadcast.
pub open spec fn rank(action: OrderEventAction) -> int {
    match action {
        OrderEventAction::RouteFill => 0,
        OrderEventAction::ReportUnprotected => 0,
        OrderEventAction::Trailing(_) => 1,
        OrderEventAction::CancelSiblings => 2,
        OrderEventAction::Broadcast => 3,
    }
}

/// The trailing stop of an order is told of its end once, where there is a trailing handler: of
/// the fill with the average price of the order, or zero where there is none, of a cancellation,
/// and of a rejection. It is told of no other event.
pub proof fn law_trailing_stop_is_told_once(
    event: OrderEventType,
    order: Order,
    has_adapter: bool,
    has_trailing: bool,
)
    ensures
        ({
            let actions = order_actions(event, order, has_adapter, has_trailing);
            &&& has_trailing && event == OrderEventType::OrderFilled ==> exists|i: int, p: Decimal|
                0 <= i < actions.len() && #[trigger] actions[i] == OrderEventAction::Trailing(
                    #[trigger] filled_at(p),
                ) && (order.average_fill_price matches Some(price) ==> p == price) && (
                order.average_fill_price is None ==> p@ == 0)
            &&& has_trailing && event == OrderEventType::OrderCancelled ==> actions.contains(
                OrderEventAction::Trailing(TrailingAction::Cancelled),
            )
            &&& has_trailing && event == OrderEventType::OrderRejected ==> actions.contains(
                OrderEventAction::Trailing(TrailingAction::Rejected),
            )
            &&& forall|i: int|
                0 <= i < actions.len() && (#[trigger] actions[i]) is Trailing ==> has_trailing && (
                match actions[i]->Trailing_0 {
                    TrailingAction::Filled { price } => event == OrderEventType::OrderFilled && (
                    order.average_fill_price matches Some(p) ==> price == p),
                    TrailingAction::Cancelled => event == OrderEventType::OrderCancelled,
                    TrailingAction::Rejected => event == OrderEventType::OrderRejected,
                })
            &&& forall|i: int, j: int|
                0 <= i < actions.len() && 0 <= j < actions.len() && (#[trigger] actions[i]) is Trailing
                    && (#[trigger] actions[j]) is Trailing ==> i == j
        }),
{
    lemma_zero();
    let actions = order_actions(event, order, has_adapter, has_trailing);
    let price = match order.average_fill_price {
        Some(p) => p,
        None => Decimal::spec_zero(),
    };
    if has_trailing && event == OrderEventType::OrderFilled {
        assert(actions[1] == OrderEventAction::Trailing(filled_at(price)));
    }
    if has_trailing && event == OrderEventType::OrderCancelled {
        assert(actions[0] == OrderEventAction::Trailing(TrailingAction::Cancelled));
    }
    if has_trailing && event == OrderEventType::OrderRejected {
        assert(actions[0] == OrderEventAction::Trailing(TrailingAction::Rejected));
    }
}

/// What a trailing stop is told of a fill at a price.
pub open spec fn filled_at(price: Decimal) -> TrailingAction {
    TrailingAction::Filled { price }
}

/// A fill, whole or partial, is handled by the exit handler, or reported where there is no adapter
/// to place exits with; the siblings are cancelled where an order is filled or rejected; every
/// event is broadcast. Each of these is done once, in this order, and nothing else is.
pub proof fn law_actions_follow_the_event(
    event: OrderEventType,
    order: Order,
    has_adapter: bool,
    has_trailing: bool,
)
    ensures
        ({
            let actions = order_actions(event, order, has_adapter, has_trailing);
            let fill = event == OrderEventType::OrderFilled || event
                == OrderEventType::OrderPartiallyFilled;
            let ends = event == OrderEventType::OrderFilled || event
                == OrderEventType::OrderRejected;
            &&& actions.contains(OrderEventAction::RouteFill) <==> fill && has_adapter
            &&& actions.contains(OrderEventAction::ReportUnprotected) <==> fill && !has_adapter
            &&& actions.contains(OrderEventAction::CancelSiblings) <==> ends && has_adapter
            &&& actions.contains(OrderEventAction::Broadcast)
            &&& forall|i: int, j: int|
                0 <= i < j < actions.len() ==> rank(#[trigger] actions[i]) < rank(
                    #[trigger] actions[j],
                )
        }),
{
    let actions = order_actions(event, order, has_adapter, has_trailing);
    assert(actions[actions.len() - 1] == OrderEventAction::Broadcast);
    if spec_is_fill(event) {
        assert(has_adapter ==> actions[0] == OrderEventAction::RouteFill);
        assert(!has_adapter ==> actions[0] == OrderEventAction::ReportUnprotected);
    }
    if has_adapter && (event == OrderEventType::OrderFilled || event
        == OrderEventType::OrderRejected) {
        assert(actions[actions.len() - 2] == OrderEventAction::CancelSiblings);
    }
}

// ---------------------------------------------------------------------------------------
// Cached orders and positions
// ---------------------------------------------------------------------------------------

/// Whether what is cached of an order is what the provider told of it.
pub open spec fn caches(s: StateView, order: Order) -> bool {
    &&& s.orders.contains_key(order.id@)
    &&& s.orders[order.id@].order_id == order.id@
    &&& s.orders[order.id@].symbol == order.symbol@
    &&& s.orders[order.id@].side == order.side
    &&& s.orders[order.id@].quantity == order.quantity
    &&& s.orders[order.id@].filled_quantity == order.filled_quantity
    &&& s.orders[order.id@].status == order.status
    &&& s.orders[order.id@].position_id == opt_text(order.position_id)
    &&& s.orders[order.id@].oco_group_id == opt_text(order.oco_group_id)
}

/// Whether an event tells that an order is open, as it was or as it is now.
pub open spec fn tells_open(event: OrderEventType) -> bool {
    ||| event == OrderEventType::OrderCreated
    ||| event == OrderEventType::OrderModified
    ||| event == OrderEventType::BracketOrderCreated
    ||| event == OrderEventType::BracketOrderModified
}

/// Whether an event tells that an order has come to its end.
pub open spec fn tells_end(event: OrderEventType) -> bool {
    ||| event == OrderEventType::OrderFilled
    ||| event == OrderEventType::OrderCancelled
    ||| event == OrderEventType::OrderRejected
    ||| event == OrderEventType::OrderExpired
}

/// An order that is open is cached as the provider told of it, an order that has come to its end
/// is not cached, and a partial fill changes how far a known order is filled and its status, and
/// nothing else. No event of an order touches another order or a position.
pub proof fn law_cache_follows_order_events(
    s: StateView,
    event: OrderEventType,
    order: Order,
    other: Seq<char>,
)
    ensures
        ({
            let after = s.after_order_event(event, order);
            let id = order.id@;
            &&& tells_open(event) ==> caches(after, order)
            &&& tells_end(event) ==> !after.orders.contains_key(id)
            &&& event == OrderEventType::OrderPartiallyFilled ==> {
                &&& after.orders.contains_key(id) == s.orders.contains_key(id)
                &&& s.orders.contains_key(id) ==> {
                    &&& after.orders[id].filled_quantity == order.filled_quantity
                    &&& after.orders[id].status == order.status
                    &&& after.orders[id].quantity == s.orders[id].quantity
                    &&& after.orders[id].symbol == s.orders[id].symbol
                    &&& after.orders[id].side == s.orders[id].side
                    &&& after.orders[id].position_id == s.orders[id].position_id
                    &&& after.orders[id].oco_group_id == s.orders[id].oco_group_id
                }
                &&& after.oco_groups == s.oco_groups
            }
            &&& other != id ==> after.orders.contains_key(other) == s.orders.contains_key(other)
            &&& other != id && s.orders.contains_key(other) ==> after.orders[other]
                == s.orders[other]
            &&& after.positions == s.positions
            &&& after.position_by_symbol == s.position_by_symbol
            &&& after.oco_fills == s.oco_fills
        }),
{
}

/// An order that names a group is in it once it is cached, and in no group that it was known in
/// before; an order that has come to its end is in none that it was known in.
pub proof fn law_groups_follow_order_events(
    s: StateView,
    event: OrderEventType,
    order: Order,
    group: Seq<char>,
)
    ensures
        ({
            let after = s.after_order_event(event, order);
            let id = order.id@;
            &&& tells_open(event) && opt_text(order.oco_group_id) == Some(group)
                ==> after.oco_groups.contains_key(group) && after.oco_groups[group].contains(id)
            &&& (tells_end(event) || (tells_open(event) && opt_text(order.oco_group_id) != Some(
                group,
            ))) && s.orders.contains_key(id) && s.orders[id].oco_group_id == Some(group)
                ==> !(after.oco_groups.contains_key(group) && after.oco_groups[group].contains(id))
        }),
{
}

/// A position that is opened or modified is cached as it was told and found by its symbol, and a
/// position that is closed is not cached any more. No other position changes, and no order.
pub proof fn law_cache_follows_position_events(
    s: StateView,
    event: PositionEventType,
    position: Position,
    other: Seq<char>,
)
    requires
        s.consistent(),
    ensures
        ({
            let after = s.after_position_event(event, position);
            let id = position.id@;
            let kept = event == PositionEventType::PositionOpened || event
                == PositionEventType::PositionModified;
            &&& kept ==> {
                &&& after.positions.contains_key(id)
                &&& after.positions[id].position_id == id
                &&& after.positions[id].symbol == position.symbol@
                &&& after.positions[id].side == position.side
                &&& after.positions[id].quantity == position.quantity
                &&& after.position_of_symbol(position.symbol@) == Some(after.positions[id])
            }
            &&& event == PositionEventType::PositionClosed ==> !after.positions.contains_key(id)
                && forall|symbol: Seq<char>| #[trigger]
                after.position_by_symbol.contains_key(symbol) ==> after.position_by_symbol[symbol]
                    != id
            &&& other != id ==> after.positions.contains_key(other) == s.positions.contains_key(
                other,
            )
            &&& other != id && s.positions.contains_key(other) ==> after.positions[other]
                == s.positions[other]
            &&& after.orders == s.orders
            &&& after.oco_groups == s.oco_groups
            &&& after.oco_fills == s.oco_fills
        }),
{
}

/// The position that a fill leaves is that of the order's symbol: as large as the net quantity is
/// far from zero, long above zero and short below, at the price of the fill.
pub proof fn law_position_after_a_fill(
    s: StateView,
    position: Position,
    order: Order,
    position_qty: Decimal,
    now: Timestamp,
)
    requires
        position_qty.in_range(),
        s.is_position_after(position, order, position_qty, now),
    ensures
        position.symbol == order.symbol,
        position.id@ == order.symbol@ + "_position"@,
        position.quantity@ >= 0,
        position.quantity@ == position_qty@ || position.quantity@ == -position_qty@,
        position_qty@ > 0 ==> position.side == PositionSide::Long,
        position_qty@ < 0 ==> position.side == PositionSide::Short,
        position_qty@ == 0 ==> position.side == (match s.position_of_symbol(order.symbol@) {
            Some(p) => p.side,
            None => PositionSide::Long,
        }),
        order.average_fill_price matches Some(price) ==> position.average_entry_price == price,
        order.average_fill_price is None ==> position.average_entry_price@ == 0,
        position.unrealized_pnl@ == 0 && position.realized_pnl@ == 0 && position.current_price@ == 0,
        position.updated_at == now && position.opened_at == now,
{
    lemma_abs(position_qty);
    lemma_zero();
}

// ---------------------------------------------------------------------------------------
// Reconciliation
// ---------------------------------------------------------------------------------------

/// What the provider answers about an order is told as the event of the status that it is in: an
/// end that was not known is told, one that was known is not, more of a partial fill is told, and
/// an order that is open or pending is not.
pub proof fn law_missed_changes_are_told(
    cached: Option<OrderStatus>,
    cached_filled_qty: Decimal,
    order: Order,
)
    ensures
        ({
            let event = status_change(cached, cached_filled_qty, order);
            &&& event == Some(OrderEventType::OrderFilled) <==> order.status == OrderStatus::Filled
                && cached != Some(OrderStatus::Filled)
            &&& event == Some(OrderEventType::OrderCancelled) <==> order.status
                == OrderStatus::Cancelled && cached != Some(OrderStatus::Cancelled)
            &&& event == Some(OrderEventType::OrderRejected) <==> order.status
                == OrderStatus::Rejected && cached != Some(OrderStatus::Rejected)
            &&& event == Some(OrderEventType::OrderExpired) <==> order.status
                == OrderStatus::Expired && cached != Some(OrderStatus::Expired)
            &&& event == Some(OrderEventType::OrderPartiallyFilled) <==> order.status
                == OrderStatus::PartiallyFilled && order.filled_quantity@ > cached_filled_qty@
            &&& event matches Some(e) ==> e == OrderEventType::OrderPartiallyFilled || tells_end(e)
        }),
{
}

/// A fill event is a whole or a partial fill, and nothing else is.
pub proof fn law_fills_are_fill_events(event: OrderEventType)
    ensures
        spec_is_fill(event) <==> event == OrderEventType::OrderFilled || event
            == OrderEventType::OrderPartiallyFilled,
{
}

// ---------------------------------------------------------------------------------------
// Alerts
// ---------------------------------------------------------------------------------------

/// A position is told to be unprotected for each exit that was not placed because it failed or
/// because the circuit breaker held it back, and for no exit that was placed or processed before.
pub proof fn law_failed_exits_are_told(results: Seq<PlacementResult>, i: int)
    requires
        0 <= i < results.len(),
    ensures
        results[i]@.outcome matches OutcomeView::Failed { error, .. } ==> exposure(results[i]@)
            == Some(error),
        results[i]@.outcome matches OutcomeView::Deferred { reason } ==> (exposure(results[i]@)
            is Some <==> has_part(reason, "Circuit breaker"@)),
        results[i]@.outcome is Success || results[i]@.outcome is AlreadyProcessed ==> exposure(
            results[i]@,
        ) is None,
        exposure(results[i]@) is Some ==> exposed_exits(results).len() > 0,
        (forall|j: int|
            0 <= j < results.len() ==> exposure(#[trigger] results[j]@) is None) ==> exposed_exits(
            results,
        ).len() == 0,
        results[i]@.outcome is Failed ==> exposed_exits(results).len() > 0,
{
    lemma_exposed(results);
}

proof fn lemma_exposed(results: Seq<PlacementResult>)
    ensures
        exposed_exits(results).len() == 0 <==> forall|j: int|
            0 <= j < results.len() ==> exposure(#[trigger] results[j]@) is None,
    decreases results.len(),
{
    if results.len() > 0 {
        let rest = results.drop_last();
        lemma_exposed(rest);
        if exposed_exits(results).len() == 0 {
            assert forall|j: int| 0 <= j < results.len() implies exposure(
                #[trigger] results[j]@,
            ) is None by {
                if j < rest.len() {
                    assert(rest[j] == results[j]);
                }
            }
        }
        if forall|j: int| 0 <= j < results.len() ==> exposure(#[trigger] results[j]@) is None {
            assert forall|j: int| 0 <= j < rest.len() implies exposure(#[trigger] rest[j]@) is None by {
                assert(rest[j] == results[j]);
            }
            assert(exposure(results[results.len() - 1]@) is None);
        }
    }
}

/// The details of an alert, where a message is one with a code.
pub open spec fn alert(message: WsMessageView, code: WsErrorCode) -> Option<JsonView> {
    match message {
        WsMessageView::Error { code: c, details, .. } => if c == code {
            details
        } else {
            None
        },
        _ => None,
    }
}

/// What is told of an exit that failed: its leg, why it failed, and which orders it has.
pub proof fn law_failed_exit_is_described(leg: ExitLegType, error: Seq<char>, ids: Seq<Seq<char>>)
    ensures
        leg == ExitLegType::StopLoss ==> says(
            exit_json(leg, error, ids),
            "type"@,
            JsonView::Text("StopLoss"@),
        ),
        leg == ExitLegType::TakeProfit ==> says(
            exit_json(leg, error, ids),
            "type"@,
            JsonView::Text("TakeProfit"@),
        ),
        says(exit_json(leg, error, ids), "error"@, JsonView::Text(error)),
        exists|items: Seq<JsonView>|
            {
                &&& #[trigger] says(
                    exit_json(leg, error, ids),
                    "actual_order_ids"@,
                    JsonView::Array(items),
                )
                &&& items.len() == ids.len()
                &&& forall|i: int| 0 <= i < ids.len() ==> #[trigger] items[i] == JsonView::Text(ids[i])
            },
{
    let members = exit_json(leg, error, ids)->Object_0;
    assert(members[0] == ("type"@, JsonView::Text(leg.spec_name())));
    assert(members[1] == ("error"@, JsonView::Text(error)));
    assert(members[2] == ("actual_order_ids"@, JsonView::Array(text_items(ids))));
    assert(says(
        exit_json(leg, error, ids),
        "actual_order_ids"@,
        JsonView::Array(text_items(ids)),
    ));
}

/// The alert on an unprotected position names the order that was filled and its symbol, lists the
/// exits that failed, and says whether the circuit breaker is open.
pub proof fn law_unprotected_alert_names_its_position(
    order: Order,
    exits: Seq<JsonView>,
    breaker_open: bool,
    now: Timestamp,
)
    ensures
        alert(
            unprotected_message(order, exits, breaker_open, now),
            WsErrorCode::PositionUnprotected,
        ) matches Some(details) && {
            &&& says(details, "order_id"@, JsonView::Text(order.id@))
            &&& says(details, "symbol"@, JsonView::Text(order.symbol@))
            &&& says(details, "failed_exits"@, JsonView::Array(exits))
            &&& says(details, "circuit_breaker_open"@, JsonView::Bool(breaker_open))
        },
{
    let details = alert(
        unprotected_message(order, exits, breaker_open, now),
        WsErrorCode::PositionUnprotected,
    )->Some_0;
    let members = details->Object_0;
    assert(members[0] == ("order_id"@, JsonView::Text(order.id@)));
    assert(members[1] == ("symbol"@, JsonView::Text(order.symbol@)));
    assert(members[2] == ("failed_exits"@, JsonView::Array(exits)));
    assert(members[3] == ("circuit_breaker_open"@, JsonView::Bool(breaker_open)));
}

/// The exits that an alert lists are those that left the position unprotected, each with its leg
/// and the reason, and no others.
pub proof fn law_alert_lists_what_failed(results: Seq<PlacementResult>, i: int)
    requires
        0 <= i < results.len(),
    ensures
        exposure(results[i]@) matches Some(error) ==> exposed_exits(results).contains(
            exit_json(results[i].order_type, error, Seq::empty()),
        ),
        forall|k: int|
            0 <= k < exposed_exits(results).len() ==> exists|j: int|
                {
                    &&& 0 <= j < results.len()
                    &&& (exposure(#[trigger] results[j]@) matches Some(error) && #[trigger]
                    exposed_exits(results)[k] == exit_json(
                        results[j].order_type,
                        error,
                        Seq::empty(),
                    ))
                },
    decreases results.len(),
{
    let rest = results.drop_last();
    let last = results.len() - 1;
    let listed = exposed_exits(results);
    let before = exposed_exits(rest);
    assert(results.last() == results[last]);
    if i < last {
        law_alert_lists_what_failed(rest, i);
        assert(rest[i] == results[i]);
        if exposure(results[i]@) is Some {
            let told = exit_json(results[i].order_type, exposure(results[i]@)->Some_0, Seq::empty());
            let k = choose|k: int| 0 <= k < before.len() && before[k] == told;
            assert(listed[k] == told);
        }
    } else if exposure(results[i]@) is Some {
        assert(listed[listed.len() - 1] == exit_json(
            results[i].order_type,
            exposure(results[i]@)->Some_0,
            Seq::empty(),
        ));
    }
    assert forall|k: int| 0 <= k < listed.len() implies exists|j: int|
        {
            &&& 0 <= j < results.len()
            &&& (exposure(#[trigger] results[j]@) matches Some(error) && #[trigger] listed[k]
                == exit_json(results[j].order_type, error, Seq::empty()))
        } by {
        if k < before.len() {
            assert(rest.len() > 0);
            law_alert_lists_what_failed(rest, 0);
            assert(before[k] == listed[k]);
            let j = choose|j: int|
                {
                    &&& 0 <= j < rest.len()
                    &&& (exposure(#[trigger] rest[j]@) matches Some(error) && before[k]
                        == exit_json(rest[j].order_type, error, Seq::empty()))
                };
            assert(results[j] == rest[j]);
            assert(exposure(results[j]@) is Some);
        } else {
            assert(exposure(results[last]@) is Some);
        }
    }
}

/// A failed exit is told again under its own primary order, together with the other failed exits
/// of that order and with none of another, and every position is told of once.
pub proof fn law_repeated_alerts_cover_what_failed(
    entries: Seq<FailedExitView>,
    breaker_open: bool,
    now: Timestamp,
    i: int,
)
    requires
        0 <= i < entries.len(),
    ensures
        ({
            let own = entries_of(entries, entries[i].primary_order_id);
            &&& own.contains(entries[i])
            &&& forall|k: int|
                0 <= k < own.len() ==> (#[trigger] own[k]).primary_order_id
                    == entries[i].primary_order_id && entries.contains(own[k])
            &&& repeated_messages(entries, breaker_open, now).contains(
                repeated_message(own, breaker_open, now),
            )
            &&& alert(
                repeated_message(own, breaker_open, now),
                WsErrorCode::PositionUnprotected,
            ) matches Some(details) && {
                &&& says(details, "order_id"@, JsonView::Text(entries[i].primary_order_id))
                &&& says(details, "symbol"@, JsonView::Text(own[0].symbol))
                &&& says(details, "failed_exits"@, JsonView::Array(failed_exits_json(own)))
                &&& says(details, "circuit_breaker_open"@, JsonView::Bool(breaker_open))
                &&& says(details, "rebroadcast"@, JsonView::Bool(true))
                &&& failed_exits_json(own).contains(
                    exit_json(
                        entries[i].order_type,
                        entries[i].error,
                        entries[i].actual_order_ids,
                    ),
                )
            }
        }),
{
    let primary = entries[i].primary_order_id;
    let own = entries_of(entries, primary);
    let of_primary = |e: FailedExitView| e.primary_order_id == primary;
    entries.lemma_filter_contains(of_primary, i);
    assert(own.contains(entries[i]));
    assert forall|k: int| 0 <= k < own.len() implies (#[trigger] own[k]).primary_order_id == primary
        && entries.contains(own[k]) by {
        entries.lemma_filter_pred(of_primary, k);
        entries.lemma_filter_contains_rev(of_primary, own[k]);
    }
    lemma_primary_is_listed(entries, i);
    let primaries = distinct_primaries(entries);
    let p = choose|p: int| 0 <= p < primaries.len() && primaries[p] == primary;
    assert(repeated_messages(entries, breaker_open, now)[p] == repeated_message(
        own,
        breaker_open,
        now,
    ));
    let details = alert(
        repeated_message(own, breaker_open, now),
        WsErrorCode::PositionUnprotected,
    )->Some_0;
    let members = details->Object_0;
    let k = choose|k: int| 0 <= k < own.len() && own[k] == entries[i];
    assert(own[0].primary_order_id == primary);
    assert(members[0] == ("order_id"@, JsonView::Text(primary)));
    assert(members[1] == ("symbol"@, JsonView::Text(own[0].symbol)));
    assert(members[2] == ("failed_exits"@, JsonView::Array(failed_exits_json(own))));
    assert(members[3] == ("circuit_breaker_open"@, JsonView::Bool(breaker_open)));
    assert(members[4] == ("rebroadcast"@, JsonView::Bool(true)));
    assert(failed_exits_json(own)[k] == exit_json(
        entries[i].order_type,
        entries[i].error,
        entries[i].actual_order_ids,
    ));
}

proof fn lemma_primary_is_listed(entries: Seq<FailedExitView>, i: int)
    requires
        0 <= i < entries.len(),
    ensures
        distinct_primaries(entries).contains(entries[i].primary_order_id),
    decreases entries.len(),
{
    let rest = entries.drop_last();
    let before = distinct_primaries(rest);
    let listed = distinct_primaries(entries);
    if i < rest.len() {
        lemma_primary_is_listed(rest, i);
        let k = choose|k: int| 0 <= k < before.len() && before[k] == entries[i].primary_order_id;
        assert(listed[k] == entries[i].primary_order_id);
    } else if !before.contains(entries[i].primary_order_id) {
        assert(listed[listed.len() - 1] == entries[i].primary_order_id);
    }
}

/// The alert on a double exit names the group and the symbol, tells both fills by order, quantity
/// and side, and the quantity that left the position in all.
pub proof fn law_double_exit_alert_tells_both_fills(
    group: Seq<char>,
    first: OcoFillView,
    second: Order,
    total: Decimal,
    now: Timestamp,
)
    ensures
        alert(
            double_exit_message(group, first, second, total, now),
            WsErrorCode::OcoDoubleExit,
        ) matches Some(details) && {
            &&& says(details, "oco_group_id"@, JsonView::Text(group))
            &&& says(details, "symbol"@, JsonView::Text(second.symbol@))
            &&& says(details, "total_exit_quantity"@, JsonView::Text(total.spec_text()))
            &&& exists|fill: JsonView|
                {
                    &&& #[trigger] says(details, "first_fill"@, fill)
                    &&& tells_fill(fill, first.first_filled_order_id, first.first_filled_qty, first.side)
                }
            &&& exists|fill: JsonView|
                {
                    &&& #[trigger] says(details, "second_fill"@, fill)
                    &&& tells_fill(fill, second.id@, second.filled_quantity, second.side)
                }
        },
{
    let details = alert(
        double_exit_message(group, first, second, total, now),
        WsErrorCode::OcoDoubleExit,
    )->Some_0;
    let members = details->Object_0;
    let one = fill_json(first.first_filled_order_id, first.first_filled_qty, first.side);
    let two = fill_json(second.id@, second.filled_quantity, second.side);
    assert(members[0] == ("oco_group_id"@, JsonView::Text(group)));
    assert(members[1] == ("symbol"@, JsonView::Text(second.symbol@)));
    assert(members[2] == ("first_fill"@, one));
    assert(members[3] == ("second_fill"@, two));
    assert(members[4] == ("total_exit_quantity"@, JsonView::Text(total.spec_text())));
    lemma_fill(first.first_filled_order_id, first.first_filled_qty, first.side);
    lemma_fill(second.id@, second.filled_quantity, second.side);
    assert(says(details, "first_fill"@, one));
    assert(says(details, "second_fill"@, two));
}

/// Whether a fill is told by its order, its quantity and its side.
pub open spec fn tells_fill(fill: JsonView, order_id: Seq<char>, quantity: Decimal, side: Side) -> bool {
    &&& says(fill, "order_id"@, JsonView::Text(order_id))
    &&& says(fill, "quantity"@, JsonView::Text(quantity.spec_text()))
    &&& side == Side::Buy ==> says(fill, "side"@, JsonView::Text("Buy"@))
    &&& side == Side::Sell ==> says(fill, "side"@, JsonView::Text("Sell"@))
}

proof fn lemma_fill(order_id: Seq<char>, quantity: Decimal, side: Side)
    ensures
        tells_fill(fill_json(order_id, quantity, side), order_id, quantity, side),
{
    let members = fill_json(order_id, quantity, side)->Object_0;
    assert(members[0] == ("order_id"@, JsonView::Text(order_id)));
    assert(members[1] == ("quantity"@, JsonView::Text(quantity.spec_text())));
    assert(members[2] == ("side"@, JsonView::Text(side_name(side))));
}

// ---------------------------------------------------------------------------------------
// OCO groups and position changes
// ---------------------------------------------------------------------------------------

/// The siblings of an order are all the other members of its group, and never the order itself.
pub proof fn law_siblings_are_the_others(
    s: StateView,
    group: Seq<char>,
    order_id: Seq<char>,
    other: Seq<char>,
)
    ensures
        s.siblings_in(group, order_id).contains(other) <==> other != order_id
            && s.oco_groups.contains_key(group) && s.oco_groups[group].contains(other),
{
}

/// The group that is told of an order is the one it names; an order that names none but is cached
/// with a group, or else is listed by one, belongs to such a group, and else to none.
pub proof fn law_group_of_an_order(s: StateView, order: Order, group: Option<Seq<char>>)
    requires
        s.tells_group(order, group),
    ensures
        order.oco_group_id matches Some(own) ==> group == Some(own@),
        order.oco_group_id is None && s.orders.contains_key(order.id@) ==> (
        s.orders[order.id@].oco_group_id matches Some(g) ==> group == Some(g)),
        order.oco_group_id is None ==> (group matches Some(g) ==> (s.orders.contains_key(order.id@)
            && s.orders[order.id@].oco_group_id == Some(g)) || (s.oco_groups.contains_key(g)
            && s.oco_groups[g].contains(order.id@))),
        order.oco_group_id is None && group is None ==> forall|g: Seq<char>| #[trigger]
            s.oco_groups.contains_key(g) ==> !s.oco_groups[g].contains(order.id@),
{
}

/// Every order is told of in a group or in none.
pub proof fn law_every_order_has_its_group(s: StateView, order: Order)
    ensures
        exists|group: Option<Seq<char>>| #[trigger] s.tells_group(order, group),
{
    match order.oco_group_id {
        Some(own) => {
            assert(s.tells_group(order, Some(own@)));
        },
        None => {
            if s.group_of(order.id@) is Some {
                assert(s.tells_group(order, s.group_of(order.id@)));
            } else if exists|g: Seq<char>| #[trigger]
                s.oco_groups.contains_key(g) && s.oco_groups[g].contains(order.id@) {
                let g = choose|g: Seq<char>| #[trigger]
                    s.oco_groups.contains_key(g) && s.oco_groups[g].contains(order.id@);
                assert(s.tells_group(order, Some(g)));
            } else {
                assert(s.tells_group(order, None));
            }
        },
    }
}

/// What is known of an order before the provider is asked is what is cached of it.
pub proof fn law_snapshot_shows_what_is_cached(snapshot: OrderSnapshot, s: StateView)
    ensures
        shows_order(snapshot, s) <==> s.orders.contains_key(snapshot.order_id@) && snapshot.status
            == Some(s.orders[snapshot.order_id@].status) && snapshot.filled_quantity
            == s.orders[snapshot.order_id@].filled_quantity,
{
}

/// A position that a fill opens was not there or was empty, one that it closes is empty after it,
/// and one that it modifies was there and is not empty but another quantity or side. Where the
/// provider tells what is cached, nothing is told.
pub proof fn law_what_a_fill_does_to_a_position(
    s: StateView,
    symbol: Seq<char>,
    position_qty: Decimal,
)
    ensures
        ({
            let change = s.position_change(symbol, position_qty);
            let held = s.position_of_symbol(symbol);
            let empty = held matches Some(p) ==> p.quantity@ == 0;
            let same = held matches Some(p) && if p.side == PositionSide::Short {
                position_qty@ + p.quantity@ == 0
            } else {
                position_qty@ == p.quantity@
            };
            &&& change == Some(PositionEventType::PositionOpened) <==> empty && position_qty@ != 0
            &&& change == Some(PositionEventType::PositionClosed) <==> !empty && position_qty@ == 0
            &&& change == Some(PositionEventType::PositionModified) <==> !empty && position_qty@
                != 0 && !same
            &&& change is None <==> (empty && position_qty@ == 0) || (!empty && same)
        }),
{
}

// ---------------------------------------------------------------------------------------
// The end of a reconciliation
// ---------------------------------------------------------------------------------------

/// Once a reconciliation has ended, what is cached is what the provider told and nothing else, no
/// failed entry is left while every other is, and nothing is running any more. Of each entry that
/// had failed strategies are told, and at last, where they are told of anything, of the connection.
pub proof fn law_reconciliation_ends(
    after: EventRouter,
    before: EventRouter,
    open_orders: Seq<Order>,
    positions: Seq<Position>,
    messages: Seq<WsMessageView>,
    now: Timestamp,
    id: Seq<char>,
)
    requires
        before.wf(),
        after.has_finished(before, open_orders, positions, messages, now),
    ensures
        !after.reconciling,
        after.platform == before.platform && after.config == before.config,
        after.order_events_processed == before.order_events_processed,
        (forall|i: int| 0 <= i < open_orders.len() ==> (#[trigger] open_orders[i]).id@ != id)
            ==> !after.state_manager@.orders.contains_key(id),
        (forall|i: int| 0 <= i < positions.len() ==> (#[trigger] positions[i]).id@ != id)
            ==> !after.state_manager@.positions.contains_key(id),
        forall|i: int|
            0 <= i < open_orders.len() && (forall|j: int|
                i < j < open_orders.len() ==> (#[trigger] open_orders[j]).id@ != open_orders[i].id@)
                ==> caches(after.state_manager@, #[trigger] open_orders[i]),
        ({
            let was = before.exit_handler@.entries;
            let is = after.exit_handler@.entries;
            &&& is.contains_key(id) <==> was.contains_key(id) && !(was[id].status is Failed)
            &&& is.contains_key(id) ==> is[id] == was[id]
            &&& was.contains_key(id) && was[id].status is Failed ==> exists|k: int|
                0 <= k < messages.len() && (alert(
                    #[trigger] messages[k],
                    WsErrorCode::PositionUnprotected,
                ) matches Some(details) && says(
                    details,
                    "order_id"@,
                    JsonView::Text(was[id].primary_order_id),
                ))
        }),
        before.config.broadcast_enabled ==> messages.len() > 0 && (messages.last() matches WsMessageView::Connection {
            event,
            ..
        } && event == ConnectionEventType::Connected),
        !before.config.broadcast_enabled ==> forall|k: int|
            0 <= k < messages.len() ==> alert(
                #[trigger] messages[k],
                WsErrorCode::PositionUnprotected,
            ) is Some,
{
    let exits = before.exit_handler;
    let open = exits@.breaker.open;
    let has_failed = |x: Seq<char>| exits@.entries[x].status is Failed;
    let told = |x: Seq<char>| failed_info(exits@.entries[x]);
    let rows = exits.rows();
    let kept = rows.filter(has_failed);
    let failed = kept.map_values(told);
    let repeated = repeated_messages(failed, open, now);
    let synced = StateView::empty().with_orders(open_orders);
    law_only_told_orders_are_synced(StateView::empty(), open_orders, id);
    law_only_told_positions_are_synced(synced, positions, id);
    assert forall|i: int|
        0 <= i < open_orders.len() && (forall|j: int|
            i < j < open_orders.len() ==> (#[trigger] open_orders[j]).id@ != open_orders[i].id@) implies
        caches(after.state_manager@, #[trigger] open_orders[i]) by {
        law_synced_orders_are_cached(StateView::empty(), open_orders, i);
    }
    exits.lemma_rows();
    if exits@.entries.contains_key(id) && exits@.entries[id].status is Failed {
        let r = choose|r: int| 0 <= r < rows.len() && rows[r] == id;
        assert(has_failed(rows[r]));
        rows.lemma_filter_contains(has_failed, r);
        let e = choose|e: int| 0 <= e < kept.len() && kept[e] == id;
        assert(failed[e] == failed_info(exits@.entries[id]));
        law_repeated_alerts_cover_what_failed(failed, open, now, e);
        let own = repeated_message(entries_of(failed, failed[e].primary_order_id), open, now);
        let k = choose|k: int| 0 <= k < repeated.len() && repeated[k] == own;
        assert(messages[k] == own);
    }
}

} // verus!
