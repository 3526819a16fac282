//! What holds of exit orders whatever way they are kept and handled.
//!
//! The statements speak of what goes into an operation and what comes out of it: the order that
//! a client sent, the request that a provider gets, the orders that rest there.

use vstd::prelude::*;
use std::time::Instant;
use crate::decimal::{Decimal, lemma_zero};
use crate::error::GatewayErrorView;
use crate::models::{Order, OrderHandle, OrderRequest, OrderType, TimeInForce};
use crate::text::{
    first_occurrence, first_piece, has_part, has_prefix, law_first_occurrence_is_first,
    law_pieces_make_up_the_text, lowercase, occurs_at, opt_text, second_piece, trimmed,
};
use crate::time::Timestamp;
use super::cancellation::{CancelAnswer, cancel_errors, cancelled_ids};
use super::coverage::{active_coverage, coverage_adds_up, uncovered};
use super::fill_handler::{
    FillDecision, PlacementAttempt, attempts_made, available_quantity, client_id, error_category, fallback_order,
    final_refusal, is_exit_request, tracked_order,
};
use super::handler::{HandlerView, failed_info, leg_ids, order_ids};
use super::replace::{modification, nothing_resting, place_of, restored_error, with_replacement};
use super::types::{
    ActualOrder, ActualOrderStatus, CancelOutcomeView, CancellationReason, Creation, ErrorCategory,
    ExitEntryParams, ExitEntryView, ExitHandlerConfig, ExitLegType, PlaceOrderErrorView, StatusView,
    fresh_entry, pending_sibling, placeholder_of, span_since, status_text,
};

verus! {

// ---------------------------------------------------------------------------------------
// Statuses and orders
// ---------------------------------------------------------------------------------------

/// Whether orders of an entry are known at the provider and these are they.
pub open spec fn holds_orders(status: StatusView, orders: Seq<ActualOrder>) -> bool {
    ||| status == (StatusView::Placed { actual_orders: orders })
    ||| status matches StatusView::PartiallyTriggered { actual_orders, .. } && actual_orders
        == orders
    ||| status matches StatusView::Failed { actual_orders, .. } && actual_orders == orders
}

/// No order at the provider is overlooked: the orders of a status are all those that it tracks,
/// and a status that tracks none has none. An entry takes fills exactly while it has neither
/// failed nor come to its end, and it is still waiting for one while it is not placed.
pub proof fn law_status_tells_its_orders(status: StatusView, orders: Seq<ActualOrder>)
    ensures
        holds_orders(status, orders) ==> status.orders() == orders,
        status is Pending || status is Cancelled || status is Expired ==> status.orders().len()
            == 0,
        status is Pending || status is PartiallyTriggered || status is Placed
            ==> !status.is_terminal(),
        status is Failed || status is Cancelled || status is Expired ==> status.is_terminal()
            && !status.is_pending(),
        status is Pending || status is PartiallyTriggered <==> status.is_pending(),
        !(status.is_pending() && status.is_terminal()),
{
}

/// An order covers a position exactly while it rests at the provider, whole or partly filled; one
/// that is filled, refused, ended or being cancelled covers nothing.
pub proof fn law_only_resting_orders_cover(order: ActualOrder)
    ensures
        order.status == ActualOrderStatus::Open ==> order.spec_active() && order.spec_remaining()
            == order.quantity,
        order.status is PartiallyFilled ==> order.spec_active() && order.spec_remaining()@ >= 0,
        order.status matches ActualOrderStatus::PartiallyFilled { filled_qty, .. } ==> (
        order.quantity.spec_minus(filled_qty)@ >= 0 ==> order.spec_remaining()
            == order.quantity.spec_minus(filled_qty)) && (order.quantity.spec_minus(filled_qty)@ < 0
            ==> order.spec_remaining()@ == 0),
        order.status is Filled || order.status is PendingCancel || order.status is Cancelled
            || order.status is Rejected || order.status is Expired || order.status is Unknown
            ==> !order.spec_active() && order.spec_remaining()@ == 0,
{
    lemma_zero();
}

/// Another order adds what rests of it to the coverage of its own leg, and nothing to that of the
/// other leg; an order that does not rest at the provider adds nothing to either.
pub proof fn law_order_adds_to_its_leg(orders: Seq<ActualOrder>, order: ActualOrder, leg: ExitLegType)
    ensures
        ({
            let before = active_coverage(orders, leg);
            let after = active_coverage(orders.push(order), leg);
            let rests = order.status is Open || order.status is PartiallyFilled;
            &&& order.leg_type == leg && rests ==> after == before.spec_plus(order.spec_remaining())
            &&& order.leg_type != leg || !rests ==> after == before
            &&& active_coverage(Seq::empty(), leg)@ == 0
        }),
{
    lemma_zero();
    assert(orders.push(order).drop_last() =~= orders);
}

/// What is left uncovered is never below zero, and nothing is left where enough is covered: a
/// leg that covers nothing leaves all of it, and a leg that covers what was filled leaves none.
pub proof fn law_uncovered_is_what_is_missing(filled: Decimal, covered: Decimal)
    ensures
        uncovered(filled, covered)@ >= 0,
        filled.spec_minus(covered)@ >= 0 ==> uncovered(filled, covered)@ == filled.spec_minus(
            covered,
        )@,
        filled.spec_minus(covered)@ < 0 ==> uncovered(filled, covered)@ == 0,
{
    lemma_zero();
}

// ---------------------------------------------------------------------------------------
// Registration
// ---------------------------------------------------------------------------------------

/// Whether an entry is the exit leg of an order: it waits to close what the order opens, at the
/// price that the order gives for the leg.
pub open spec fn exits(
    entry: ExitEntryView,
    primary: Seq<char>,
    order: OrderRequest,
    leg: ExitLegType,
    price: Decimal,
) -> bool {
    &&& entry.primary_order_id == primary
    &&& entry.order_type == leg
    &&& entry.symbol == order.symbol@
    &&& entry.side != order.side
    &&& entry.quantity == order.quantity
    &&& entry.original_quantity == order.quantity
    &&& entry.trigger_price == price
    &&& entry.limit_price is None
    &&& entry.status == StatusView::Pending
    &&& entry.last_attempted_fill_qty is None
    &&& entry.position_id is None
    &&& entry.counted_orders == 0
}

/// Each leg that an order has is registered to exit it, under an ID that tells the leg and the
/// order and is listed with the order, for the platform of the handler; a leg that it has not is
/// not registered. Nothing else that the handler holds is touched.
pub proof fn law_registered_legs_exit_their_order(
    h: HandlerView,
    primary: Seq<char>,
    order: OrderRequest,
    sl_born: Creation,
    tp_born: Creation,
    other: Seq<char>,
)
    ensures
        ({
            let full = h.registered(primary, order, sl_born, tp_born);
            let sl_id = "exit:sl:"@ + primary;
            let tp_id = "exit:tp:"@ + primary;
            &&& sl_id != tp_id
            &&& order.stop_loss matches Some(price) ==> {
                &&& full.entries.contains_key(sl_id)
                &&& exits(full.entries[sl_id], primary, order, ExitLegType::StopLoss, price)
                &&& full.entries[sl_id].placeholder_id == sl_id
                &&& full.entries[sl_id].platform == h.platform
                &&& full.placeholders(primary).contains(sl_id)
                &&& full.entries[sl_id].sibling_id == (if order.take_profit is Some {
                    Some(tp_id)
                } else {
                    None
                })
            }
            &&& order.take_profit matches Some(price) ==> {
                &&& full.entries.contains_key(tp_id)
                &&& exits(full.entries[tp_id], primary, order, ExitLegType::TakeProfit, price)
                &&& full.entries[tp_id].placeholder_id == tp_id
                &&& full.entries[tp_id].platform == h.platform
                &&& full.placeholders(primary).contains(tp_id)
                &&& full.entries[tp_id].sibling_id == (if order.stop_loss is Some {
                    Some(sl_id)
                } else {
                    None
                })
            }
            &&& (other != sl_id || order.stop_loss is None) && (other != tp_id
                || order.take_profit is None) ==> full.entries.contains_key(other)
                == h.entries.contains_key(other) && full.entries[other] == h.entries[other]
            &&& other != primary ==> full.by_primary.contains_key(other)
                == h.by_primary.contains_key(other) && full.by_primary[other]
                == h.by_primary[other]
            &&& full.config == h.config
            &&& full.platform == h.platform
            &&& full.breaker == h.breaker
        }),
{
    reveal_strlit("exit:sl:");
    reveal_strlit("exit:tp:");
    let sl_id = placeholder_of(ExitLegType::StopLoss, primary);
    let tp_id = placeholder_of(ExitLegType::TakeProfit, primary);
    assert(sl_id[5] != tp_id[5]);
    let full = h.registered(primary, order, sl_born, tp_born);
    let listed = full.placeholders(primary);
    let before = h.placeholders(primary);
    if order.stop_loss is Some {
        assert(listed[before.len() as int] == sl_id);
    }
    if order.take_profit is Some {
        assert(listed[listed.len() - 1] == tp_id);
    }
}

/// Every entry that a registration makes exits the order that was registered, whichever its leg:
/// it has a side other than the order's, the order's symbol and quantity, and the price that the
/// order gives for the leg. It waits for fills, and two legs are each other's siblings.
pub proof fn law_registered_entries_exit_their_order(
    before: HandlerView,
    after: HandlerView,
    primary: Seq<char>,
    order: OrderRequest,
    id: Seq<char>,
)
    requires
        after.has_registered(before, primary, order),
    ensures
        order.stop_loss matches Some(price) ==> after.entries.contains_key("exit:sl:"@ + primary)
            && exits(
            after.entries["exit:sl:"@ + primary],
            primary,
            order,
            ExitLegType::StopLoss,
            price,
        ),
        order.take_profit matches Some(price) ==> after.entries.contains_key("exit:tp:"@ + primary)
            && exits(
            after.entries["exit:tp:"@ + primary],
            primary,
            order,
            ExitLegType::TakeProfit,
            price,
        ),
        after.entries.contains_key(id) && !before.entries.contains_key(id) ==> {
            let entry = after.entries[id];
            &&& entry.side != order.side
            &&& entry.symbol == order.symbol@
            &&& entry.quantity == order.quantity
            &&& entry.order_type == ExitLegType::StopLoss ==> order.stop_loss == Some(
                entry.trigger_price,
            )
            &&& entry.order_type == ExitLegType::TakeProfit ==> order.take_profit == Some(
                entry.trigger_price,
            )
        },
{
    let sl = after.entries[placeholder_of(ExitLegType::StopLoss, primary)];
    let tp = after.entries[placeholder_of(ExitLegType::TakeProfit, primary)];
    law_registered_legs_exit_their_order(before, primary, order, sl.born(), tp.born(), id);
}

/// An entry that is inserted is kept under its placeholder ID and listed last under its primary
/// order; no other entry changes.
pub proof fn law_inserted_entry_is_listed(h: HandlerView, entry: ExitEntryView, other: Seq<char>)
    ensures
        ({
            let after = h.inserted(entry);
            &&& after.entries.contains_key(entry.placeholder_id)
            &&& after.entries[entry.placeholder_id] == entry
            &&& after.placeholders(entry.primary_order_id) == h.placeholders(
                entry.primary_order_id,
            ).push(entry.placeholder_id)
            &&& other != entry.placeholder_id ==> after.entries.contains_key(other)
                == h.entries.contains_key(other)
            &&& other != entry.placeholder_id && h.entries.contains_key(other)
                ==> after.entries[other] == h.entries[other]
            &&& other != entry.primary_order_id ==> after.placeholders(other) == h.placeholders(other)
            &&& after.breaker == h.breaker && after.config == h.config
        }),
{
}

/// An order is registered exactly where there is room and each exit price that it gives is above
/// zero; a stop-loss price is looked at first, and a refusal for a price names what was wrong.
pub proof fn law_registration_asks_for_room_and_prices(h: HandlerView, order: OrderRequest)
    ensures
        h.registration_error(order) is None <==> h.entries.len() < h.config.max_pending_entries && (
        order.stop_loss matches Some(p) ==> p@ > 0) && (order.take_profit matches Some(p) ==> p@
            > 0),
        h.entries.len() >= h.config.max_pending_entries ==> (h.registration_error(
            order,
        ) matches Some(e) && e is Internal),
        h.entries.len() < h.config.max_pending_entries ==> (h.registration_error(order) matches Some(
            e,
        ) ==> e is InvalidRequest),
        h.entries.len() < h.config.max_pending_entries && (order.stop_loss matches Some(p) && p@
            <= 0) ==> (h.registration_error(order) matches Some(
            GatewayErrorView::InvalidRequest { message, .. },
        ) && message == "stop_loss must be a positive number, got "@
            + order.stop_loss->0.spec_text()),
        h.entries.len() < h.config.max_pending_entries && (order.stop_loss matches Some(p) ==> p@
            > 0) && (order.take_profit matches Some(p) && p@ <= 0) ==> (h.registration_error(
            order,
        ) matches Some(GatewayErrorView::InvalidRequest { message, .. }) && message
            == "take_profit must be a positive number, got "@ + order.take_profit->0.spec_text()),
{
    reveal_strlit("take_profit");
    reveal_strlit("take_profit must be a positive number, got ");
    reveal_strlit("stop_loss");
    reveal_strlit(" must be a positive number, got ");
    reveal_strlit("stop_loss must be a positive number, got ");
    assert("stop_loss"@ + " must be a positive number, got "@
        =~= "stop_loss must be a positive number, got "@);
    assert("take_profit"@ + " must be a positive number, got "@
        =~= "take_profit must be a positive number, got "@);
}

/// A backup that is activated is handed over whole: its entries are those of the primary order
/// from then on, as they were but for the order that they name, and nothing is left under the
/// backup.
pub proof fn law_activation_hands_over(
    h: HandlerView,
    backup: Seq<char>,
    primary: Seq<char>,
    id: Seq<char>,
)
    requires
        backup != primary,
    ensures
        ({
            let after = h.activated(backup, primary);
            &&& !after.by_primary.contains_key(backup)
            &&& after.placeholders(primary) == h.placeholders(primary) + h.placeholders(backup)
            &&& after.entries.contains_key(id) == h.entries.contains_key(id)
            &&& h.entries.contains_key(id) && !h.placeholders(backup).contains(id)
                ==> after.entries[id] == h.entries[id]
            &&& h.entries.contains_key(id) && h.placeholders(backup).contains(id) ==> {
                let was = h.entries[id];
                let is = after.entries[id];
                &&& is.primary_order_id == primary
                &&& is.status == was.status
                &&& is.side == was.side
                &&& is.symbol == was.symbol
                &&& is.quantity == was.quantity
                &&& is.trigger_price == was.trigger_price
                &&& is.order_type == was.order_type
                &&& is.sibling_id == was.sibling_id
                &&& is.made_at == was.made_at
            }
        }),
{
}

// ---------------------------------------------------------------------------------------
// Fills
// ---------------------------------------------------------------------------------------

/// A fill is processed for an entry exactly where the entry is known, has neither failed nor come
/// to its end, and no fill as large was tried before. What is told otherwise names the entry.
pub proof fn law_which_fills_are_processed(h: HandlerView, id: Seq<char>, filled_qty: Decimal)
    ensures
        h.fill_refusal(id, filled_qty) is None <==> h.entries.contains_key(id) && (
        h.entries[id].status is Pending || h.entries[id].status is PartiallyTriggered
            || h.entries[id].status is Placed) && (h.entries[id].last_attempted_fill_qty matches Some(
            last,
        ) ==> last@ < filled_qty@),
        h.fill_refusal(id, filled_qty) matches Some(r) ==> r.placeholder_id == id
            && r.sibling_cancellation is None && !(r.outcome is Success),
        !h.entries.contains_key(id) ==> h.fill_refusal(id, filled_qty)->0.outcome is Failed,
        h.entries.contains_key(id) && (h.entries[id].status is Cancelled
            || h.entries[id].status is Failed || h.entries[id].status is Expired)
            ==> h.fill_refusal(id, filled_qty)->0.outcome is Deferred,
{
}

/// An exit order is placed for what of the target no active order of the leg covers, and only
/// where that is not too little and the circuit breaker is closed. A partial fill asks for what
/// was filled; a full fill for the position, or else for the order.
pub proof fn law_fill_places_what_is_missing(
    h: HandlerView,
    id: Seq<char>,
    filled_qty: Decimal,
    total_qty: Decimal,
    position_qty: Option<Decimal>,
    target: Decimal,
)
    ensures
        h.fill_decision(id, target) matches FillDecision::Place { quantity } ==> {
            &&& quantity == target.spec_minus(
                active_coverage(h.entries[id].status.orders(), h.entries[id].order_type),
            )
            &&& quantity@ >= h.config.min_exit_order_qty@
            &&& !h.breaker.open
        },
        h.fill_decision(id, target) matches FillDecision::Finish(r) ==> r.placeholder_id == id
            && r.outcome is Deferred && r.order_type == h.entries[id].order_type && (h.breaker.open
            || target.spec_minus(
            active_coverage(h.entries[id].status.orders(), h.entries[id].order_type),
        )@ < h.config.min_exit_order_qty@),
        h.fill_decision(id, target) is OutOfRange <==> !coverage_adds_up(
            h.entries[id].status.orders(),
            h.entries[id].order_type,
        ) || !target.subtracts(
            active_coverage(h.entries[id].status.orders(), h.entries[id].order_type),
        ),
        HandlerView::target_qty(filled_qty, total_qty, position_qty, true) == filled_qty,
        HandlerView::target_qty(filled_qty, total_qty, None, false) == total_qty,
        forall|held: Decimal| #[trigger]
            HandlerView::target_qty(filled_qty, total_qty, Some(held), false) == held,
{
}

/// Whether a request exits a position at a price: a take-profit rests as a limit order at its
/// trigger, a stop-loss as a stop order there, with a limit where the entry has one.
pub open spec fn rests_at(r: OrderRequest, leg: ExitLegType, trigger: Decimal, limit: Option<
    Decimal,
>) -> bool {
    match leg {
        ExitLegType::TakeProfit => {
            &&& r.order_type == OrderType::Limit
            &&& r.limit_price == Some(trigger)
            &&& r.stop_price is None
        },
        ExitLegType::StopLoss => {
            &&& r.stop_price == Some(trigger)
            &&& r.limit_price == limit
            &&& limit is Some ==> r.order_type == OrderType::StopLimit
            &&& limit is None ==> r.order_type == OrderType::Stop
        },
    }
}

/// The request of an exit order, whether a fill, a move or a restore asks for it, rests at the
/// trigger of its entry in the way of its leg, on the entry's side and in its symbol, for the
/// quantity asked for, until it is cancelled. It asks for nothing else: no legs, no group, no
/// trailing. Its price stands in the field that a modification of the same leg sets.
pub proof fn law_exit_request_fits_its_leg(
    r: OrderRequest,
    entry: ExitEntryView,
    quantity: Decimal,
    existing: nat,
    position_id: Option<Seq<char>>,
)
    requires
        is_exit_request(r, entry, quantity, existing, position_id),
    ensures
        rests_at(r, entry.order_type, entry.trigger_price, entry.limit_price),
        entry.order_type == ExitLegType::TakeProfit ==> r.order_type == OrderType::Limit
            && r.limit_price == Some(entry.trigger_price) && r.stop_price is None,
        entry.order_type == ExitLegType::StopLoss ==> r.stop_price == Some(entry.trigger_price) && (
        r.order_type == OrderType::Stop || r.order_type == OrderType::StopLimit),
        entry.limit_price is None ==> r.limit_price == modification(
            entry.order_type,
            entry.trigger_price,
        ).limit_price,
        r.stop_price == modification(entry.order_type, entry.trigger_price).stop_price,
        r.symbol@ == entry.symbol,
        r.side == entry.side,
        r.quantity == quantity,
        opt_text(r.position_id) == position_id,
        r.time_in_force == TimeInForce::Gtc,
        r.stop_loss is None && r.take_profit is None && r.oco_group_id is None,
        r.trailing_distance is None && r.trailing_type is None && r.display_quantity is None,
        !r.post_only && !r.hidden && !r.reduce_only && r.margin_mode is None && r.leverage is None,
        opt_text(r.client_order_id) matches Some(own) && own.len() > entry.primary_order_id.len()
            && own.take(entry.primary_order_id.len() as int) == entry.primary_order_id,
{
    reveal_strlit("-");
    let own = client_id(entry.primary_order_id, entry.order_type, existing);
    assert(own.take(entry.primary_order_id.len() as int) =~= entry.primary_order_id);
}

/// A modification moves an order in the field that its leg rests at, and changes nothing else of
/// it: the limit price of a take-profit, the stop price of a stop-loss.
pub proof fn law_modification_moves_the_trigger(leg: ExitLegType, trigger_price: Decimal)
    ensures
        ({
            let m = modification(leg, trigger_price);
            &&& leg == ExitLegType::TakeProfit ==> m.limit_price == Some(trigger_price)
                && m.stop_price is None
            &&& leg == ExitLegType::StopLoss ==> m.stop_price == Some(trigger_price)
                && m.limit_price is None
            &&& m.quantity is None && m.stop_loss is None && m.take_profit is None
            &&& m.trailing_distance is None
        }),
{
}

/// An exit order of one leg never has the client order ID of the other leg.
pub proof fn law_legs_have_different_ids(primary: Seq<char>, a: nat, b: nat)
    ensures
        client_id(primary, ExitLegType::StopLoss, a) != client_id(
            primary,
            ExitLegType::TakeProfit,
            b,
        ),
        client_id(primary, ExitLegType::StopLoss, 0) == primary + "-sl"@,
        client_id(primary, ExitLegType::TakeProfit, 0) == primary + "-tp"@,
{
    reveal_strlit("-");
    reveal_strlit("sl");
    reveal_strlit("tp");
    reveal_strlit("-sl");
    reveal_strlit("-tp");
    let n = primary.len() as int;
    let x = client_id(primary, ExitLegType::StopLoss, a);
    let y = client_id(primary, ExitLegType::TakeProfit, b);
    assert(x[n + 1] == 's');
    assert(y[n + 1] == 't');
    assert(client_id(primary, ExitLegType::StopLoss, 0) =~= primary + "-sl"@);
    assert(client_id(primary, ExitLegType::TakeProfit, 0) =~= primary + "-tp"@);
}

/// A placement that is recorded adds the order to those that the entry tracks, and changes no
/// other entry; a full fill makes the entry placed, a partial fill leaves it waiting for more and
/// tells how far it has come.
pub proof fn law_placement_is_tracked(
    h: HandlerView,
    id: Seq<char>,
    order: ActualOrder,
    partial_fill: Option<(Decimal, Decimal)>,
    now: Timestamp,
    other: Seq<char>,
)
    requires
        h.entries.contains_key(id),
        h.entries[id].status is Pending || h.entries[id].status is PartiallyTriggered,
    ensures
        ({
            let after = h.with_placement(id, order, partial_fill, now);
            let was = h.entries[id];
            let is = after.entries[id];
            &&& is.status.orders() == was.status.orders().push(order)
            &&& partial_fill is None <==> is.status is Placed
            &&& partial_fill matches Some((filled, total)) ==> is.status is PartiallyTriggered
                && is.status->filled_qty == filled && (was.status is Pending
                ==> is.status->total_qty == total) && (was.status is PartiallyTriggered
                ==> is.status->total_qty == was.status->total_qty)
            &&& is.trigger_price == was.trigger_price
            &&& is.side == was.side
            &&& is.quantity == was.quantity
            &&& is.sibling_id == was.sibling_id
            &&& is.primary_order_id == was.primary_order_id
            &&& is.last_attempted_fill_qty == was.last_attempted_fill_qty
            &&& is.updated_at == Some(now)
            &&& other != id ==> after.entries.contains_key(other) == h.entries.contains_key(other)
                && after.entries[other] == h.entries[other]
            &&& after.by_primary == h.by_primary
            &&& after.breaker == h.breaker
        }),
{
    assert(h.entries[id].status is Pending ==> h.entries[id].status.orders().push(order)
        =~= seq![order]);
}

/// The order that is tracked for a placement is the one at the provider: its ID and quantity are
/// kept, it is open, and it counts for the leg that it was placed for.
pub proof fn law_tracked_order_is_the_placed_one(placed: Order, leg: ExitLegType, now: Timestamp)
    ensures
        tracked_order(placed, leg, now).order_id == placed.id,
        tracked_order(placed, leg, now).quantity == placed.quantity,
        tracked_order(placed, leg, now).leg_type == leg,
        tracked_order(placed, leg, now).status == ActualOrderStatus::Open,
        tracked_order(placed, leg, now).placed_at == now,
{
}

/// The order that stands in for one whose details cannot be had is the one that was asked for,
/// under the ID and in the status that the provider gave, with nothing filled.
pub proof fn law_fallback_is_what_was_asked_for(
    request: OrderRequest,
    handle: OrderHandle,
    now: Timestamp,
)
    ensures
        ({
            let order = fallback_order(request, handle, now);
            &&& order.id == handle.id
            &&& order.status == handle.status
            &&& order.symbol == request.symbol
            &&& order.side == request.side
            &&& order.order_type == request.order_type
            &&& order.quantity == request.quantity
            &&& order.remaining_quantity == request.quantity
            &&& order.filled_quantity@ == 0
            &&& order.average_fill_price is None
            &&& order.limit_price == request.limit_price
            &&& order.stop_price == request.stop_price
            &&& order.stop_loss == request.stop_loss
            &&& order.take_profit == request.take_profit
            &&& order.client_order_id == request.client_order_id
            &&& order.position_id == request.position_id
            &&& order.oco_group_id == request.oco_group_id
            &&& order.time_in_force == request.time_in_force
        }),
{
    lemma_zero();
}

/// A placement that failed is told with the entry: it holds the error and the number of retries,
/// and no other entry is touched.
pub proof fn law_failure_is_told(
    h: HandlerView,
    id: Seq<char>,
    error: Seq<char>,
    retry_count: u32,
    now: Timestamp,
    other: Seq<char>,
)
    requires
        h.entries.contains_key(id),
    ensures
        ({
            let after = h.with_failed(id, error, retry_count, now);
            let is = after.entries[id];
            &&& is.status is Failed
            &&& is.status->Failed_error == error
            &&& is.status->retry_count == retry_count
            &&& is.status->failed_at == now
            &&& failed_info(is).primary_order_id == h.entries[id].primary_order_id
            &&& failed_info(is).symbol == h.entries[id].symbol
            &&& failed_info(is).order_type == h.entries[id].order_type
            &&& failed_info(is).error == error
            &&& failed_info(is).failed_at == now
            &&& failed_info(is).actual_order_ids == order_ids(h.entries[id].status.orders())
            &&& other != id ==> after.entries.contains_key(other) == h.entries.contains_key(other)
                && after.entries[other] == h.entries[other]
            &&& after.by_primary == h.by_primary
            &&& after.breaker == h.breaker
        }),
{
}

/// The IDs of orders are theirs, in their order.
pub proof fn law_order_ids_are_theirs(orders: Seq<ActualOrder>, i: int)
    requires
        0 <= i < orders.len(),
    ensures
        order_ids(orders).len() == orders.len(),
        order_ids(orders)[i] == orders[i].order_id@,
{
}

/// A refused order is submitted again exactly where the refusal tells neither of the balance nor
/// of a trade with oneself, and attempts are left. What is told of a refusal that stands is its
/// own text, and it is the balance that is told first.
pub proof fn law_which_refusals_stand(
    error: GatewayErrorView,
    quantity: Decimal,
    delays: nat,
    at: PlacementAttempt,
)
    ensures
        ({
            let told = lowercase(error.text());
            let balance = has_part(told, "insufficient"@) || has_part(told, "balance"@) || has_part(
                told,
                "not enough"@,
            );
            let wash = has_part(told, "wash"@) || has_part(told, "self-trade"@);
            let refusal = final_refusal(error, quantity, delays, at);
            &&& refusal is None <==> !balance && !wash && at.attempt < delays
            &&& balance ==> (refusal matches Some((
                PlaceOrderErrorView::InsufficientBalance {
                    message,
                    requested_quantity,
                    available_quantity: left,
                },
                n,
            )) && message == error.text() && requested_quantity == quantity && n == at.retry_count && (
            available_quantity(error.text()) matches Some(q) ==> left == q) && (available_quantity(
                error.text(),
            ) is None ==> left@ == 0))
            &&& !balance && wash ==> (refusal matches Some((
                PlaceOrderErrorView::WashTrade { message },
                n,
            )) && message == error.text() && n == at.retry_count)
            &&& !balance && !wash && at.attempt >= delays ==> (refusal matches Some((
                PlaceOrderErrorView::Failed { message, retry_count, category },
                n,
            )) && message == error.text() && category == error_category(error) && n == retry_count
                && (at.attempt < u32::MAX ==> n == at.attempt + 1))
        }),
{
    lemma_zero();
}

/// The quantity that a message names as available is what stands behind `available:` up to the
/// bracket, where that is a number above zero; a message without it names none.
pub proof fn law_available_quantity_is_read(message: Seq<char>, head: Seq<char>, told: Seq<char>)
    ensures
        !has_part(message, "available:"@) ==> available_quantity(message) is None,
        available_quantity(message) matches Some(q) ==> q@ > 0,
        message == head + "available:"@ + told + ")"@ && first_occurrence(message, "available:"@, 0)
            == Some(head.len() as int) && !told.contains(')') && !has_part(
            told + ")"@,
            "available:"@,
        ) ==> available_quantity(message) == (match Decimal::spec_parse(trimmed(told)) {
            Some(q) => if q@ > 0 {
                Some(q)
            } else {
                None
            },
            None => None,
        }),
{
    let sign = "available:"@;
    reveal_strlit("available:");
    reveal_strlit(")");
    law_pieces_make_up_the_text(message, sign);
    if message == head + sign + told + ")"@ && first_occurrence(message, sign, 0) == Some(
        head.len() as int,
    ) && !told.contains(')') && !has_part(told + ")"@, sign) {
        let rest = message.skip((head.len() + sign.len()) as int);
        assert(rest =~= told + ")"@);
        law_pieces_make_up_the_text(rest, sign);
        assert(second_piece(message, sign) == Some(rest));
        let at = told.len() as int;
        assert(rest.subrange(at, at + 1) =~= ")"@);
        assert(occurs_at(rest, ")"@, at));
        law_first_occurrence_is_first(rest, ")"@, 0, at);
        let found = first_occurrence(rest, ")"@, 0)->0;
        assert(rest.subrange(found, found + 1)[0] == ')');
        if found < at {
            assert(told[found] == ')');
        }
        assert(first_piece(rest, ")"@) =~= told);
    }
}

/// The number of attempts made goes up by one with each, as far as it can be counted.
pub proof fn law_attempts_are_counted(attempt: usize)
    ensures
        attempt < u32::MAX ==> attempts_made(attempt) == attempt + 1,
        attempt >= u32::MAX ==> attempts_made(attempt) == u32::MAX,
{
}

/// Neither a rate limit nor an exchange that does not trade is a failure of the infrastructure,
/// and everything else is: what the variant says goes before what the message says.
pub proof fn law_what_counts_as_infrastructure(error: GatewayErrorView)
    ensures
        ({
            let told = lowercase(error.text());
            let limited = has_part(told, "rate limit"@) || has_part(told, "too many requests"@);
            let closed = has_part(told, "market is closed"@) || has_part(told, "is not tradable"@)
                || has_part(told, "symbol is halted"@) || has_part(told, "not accepting orders"@)
                || has_part(told, "-1013"@) || has_part(told, "-4014"@) || has_part(
                told,
                "maintenance"@,
            );
            &&& error is RateLimited ==> error_category(error) == ErrorCategory::RateLimited
            &&& error is ProviderUnavailable ==> error_category(error)
                == ErrorCategory::ExchangeUnavailable
            &&& error_category(error) == ErrorCategory::InfrastructureFailure
                <==> !(error is RateLimited) && !(error is ProviderUnavailable) && !limited && !closed
            &&& !(error is RateLimited) && !(error is ProviderUnavailable) && limited
                ==> error_category(error) == ErrorCategory::RateLimited
        }),
{
}

// ---------------------------------------------------------------------------------------
// Siblings
// ---------------------------------------------------------------------------------------

/// A sibling that is not placed shrinks by what its other leg was placed for: both together ask
/// for what the sibling asked for before, unless too little would be left, and then the sibling
/// is cancelled. Nothing else of it changes.
pub proof fn law_sibling_shrinks_by_what_was_placed(
    sibling: ExitEntryView,
    qty: Decimal,
    min_qty: Decimal,
    now: Timestamp,
)
    ensures
        ({
            let rest = sibling.quantity.spec_minus(qty);
            let after = sibling.reduced(qty, min_qty, now);
            &&& rest@ >= 0 && rest@ >= min_qty@ ==> after.quantity == rest && after.status
                == sibling.status
            &&& rest@ >= 0 && rest@ < min_qty@ ==> after.status == (StatusView::Cancelled {
                cancelled_at: now,
                reason: CancellationReason::SiblingFilled,
            })
            &&& rest@ < 0 && min_qty@ > 0 ==> after.status is Cancelled
            &&& after.version == sibling.version.wrapping_add(1)
            &&& after.updated_at == Some(now)
            &&& after.side == sibling.side
            &&& after.symbol == sibling.symbol
            &&& after.trigger_price == sibling.trigger_price
            &&& after.order_type == sibling.order_type
            &&& after.primary_order_id == sibling.primary_order_id
            &&& after.original_quantity == sibling.original_quantity
        }),
{
    lemma_zero();
}

// ---------------------------------------------------------------------------------------
// Cancellation
// ---------------------------------------------------------------------------------------

/// What the user is told of a cancellation leaves no order behind: where the entry has orders at
/// the provider, these are to be cancelled there, all of them; an entry counts as ended only
/// where it was cancelled, has expired, or has failed with no order left; and an entry that is
/// cancelled without further ado has none.
pub proof fn law_cancel_names_every_live_order(entry: ExitEntryView, id: Seq<char>)
    ensures
        ({
            let outcome = entry.cancel_outcome(id);
            &&& outcome is AlreadyTerminal <==> entry.status is Cancelled || entry.status is Expired
                || (entry.status matches StatusView::Failed { actual_orders, .. }
                && actual_orders.len() == 0)
            &&& outcome matches CancelOutcomeView::AlreadyTerminal { status } ==> status
                == entry.status
            &&& forall|orders: Seq<ActualOrder>|
                #![trigger holds_orders(entry.status, orders)]
                holds_orders(entry.status, orders) && orders.len() > 0 ==> match outcome {
                    CancelOutcomeView::NeedsCancelAtProvider { actual_orders, info } => {
                        actual_orders == orders && entry.status is Placed && info.placeholder_id
                            == id
                    },
                    CancelOutcomeView::NeedsCancelPartiallyTriggered { actual_orders, info } => {
                        actual_orders == orders && entry.status is PartiallyTriggered
                            && info.placeholder_id == id
                    },
                    CancelOutcomeView::NeedsCancelFailed { actual_orders, info } => {
                        actual_orders == orders && entry.status is Failed && info.placeholder_id
                            == id
                    },
                    _ => false,
                }
            &&& entry.status is Placed ==> outcome is NeedsCancelAtProvider
            &&& outcome is CancelledPending <==> entry.status is Pending || (
            entry.status matches StatusView::PartiallyTriggered { actual_orders, .. }
                && actual_orders.len() == 0)
            &&& outcome is CancelledPending <==> entry.cancels_at_once()
        }),
{
}

/// What is told of a cancelled entry is its own: the leg, the symbol, the side, the price and the
/// quantity.
pub proof fn law_cancelled_info_is_the_entrys(entry: ExitEntryView, id: Seq<char>)
    ensures
        entry.cancelled_info(id).placeholder_id == id,
        entry.cancelled_info(id).primary_order_id == entry.primary_order_id,
        entry.cancelled_info(id).leg_type == entry.order_type,
        entry.cancelled_info(id).symbol == entry.symbol,
        entry.cancelled_info(id).side == entry.side,
        entry.cancelled_info(id).trigger_price == entry.trigger_price,
        entry.cancelled_info(id).quantity == entry.quantity,
        entry.cancelled_info(id).platform == entry.platform.spec_header(),
        entry.cancel_outcome(id) matches CancelOutcomeView::CancelledPending(info) ==> info
            == entry.cancelled_info(id),
{
}

/// Cancelling an entry changes its status alone, and that of no other entry.
pub proof fn law_cancelling_touches_one_entry(
    h: HandlerView,
    id: Seq<char>,
    reason: CancellationReason,
    now: Timestamp,
    other: Seq<char>,
)
    ensures
        ({
            let after = h.with_cancelled(id, reason, now);
            &&& h.entries.contains_key(id) ==> after.entries[id].status == (StatusView::Cancelled {
                cancelled_at: now,
                reason,
            }) && after.entries[id].quantity == h.entries[id].quantity
                && after.entries[id].sibling_id == h.entries[id].sibling_id
                && after.entries[id].version == h.entries[id].version.wrapping_add(1)
            &&& after.entries.contains_key(other) == h.entries.contains_key(other)
            &&& other != id ==> after.entries[other] == h.entries[other]
            &&& after.by_primary == h.by_primary
            &&& after.breaker == h.breaker
        }),
{
}

/// Every entry of a symbol that has an order at the provider or still waits for fills has to be
/// cancelled before the position is closed, and no entry of another symbol, nor one that was
/// cancelled, has expired, or has failed with no order left.
pub proof fn law_close_covers_every_live_entry(entry: ExitEntryView, symbol: Seq<char>)
    ensures
        entry.reserves(symbol) <==> entry.symbol == symbol && !(entry.status is Cancelled)
            && !(entry.status is Expired) && !(entry.status matches StatusView::Failed {
            actual_orders,
            ..
        } && actual_orders.len() == 0),
        entry.symbol == symbol && (entry.status is Pending || entry.status is PartiallyTriggered
            || entry.status is Placed) ==> entry.reserves(symbol),
        forall|orders: Seq<ActualOrder>|
            #![trigger holds_orders(entry.status, orders)]
            entry.symbol == symbol && holds_orders(entry.status, orders) && orders.len() > 0
                ==> entry.reserves(symbol) && order_ids(entry.status.orders()) == order_ids(orders),
{
}

/// The plan for the close of a position lists every live entry of the symbol with all its orders:
/// an entry with orders at the provider, or one that still waits for fills, is in it.
pub proof fn law_close_plan_lists_every_live_entry(
    h: HandlerView,
    rows: Seq<Seq<char>>,
    symbol: Seq<char>,
    id: Seq<char>,
    orders: Seq<ActualOrder>,
)
    requires
        rows.contains(id),
        h.entries[id].symbol == symbol,
        holds_orders(h.entries[id].status, orders) && (orders.len() > 0
            || !(h.entries[id].status is Failed)) || (h.entries[id].status is Pending
            && orders.len() == 0),
    ensures
        rows.filter(|x: Seq<char>| h.entries[x].reserves(symbol)).map_values(
            |x: Seq<char>| (x, order_ids(h.entries[x].status.orders())),
        ).contains((id, order_ids(orders))),
{
    let live = |x: Seq<char>| h.entries[x].reserves(symbol);
    let told = |x: Seq<char>| (x, order_ids(h.entries[x].status.orders()));
    let kept = rows.filter(live);
    let i = choose|i: int| 0 <= i < rows.len() && rows[i] == id;
    assert(live(rows[i]));
    rows.lemma_filter_contains(live, i);
    assert(kept.contains(id));
    let j = choose|j: int| 0 <= j < kept.len() && kept[j] == id;
    assert(orders =~= h.entries[id].status.orders());
    assert(kept.map_values(told)[j] == (id, order_ids(orders)));
}

/// The cancellation of a primary order cancels exactly those of its entries that wait for fills,
/// and tells of each of them; every other entry stays as it is.
pub proof fn law_primary_cancellation_reaches_its_entries(
    h: HandlerView,
    primary: Seq<char>,
    now: Timestamp,
    id: Seq<char>,
)
    requires
        h.entries.contains_key(id),
    ensures
        ({
            let after = h.primary_cancelled(primary, now);
            let waiting = h.entries[id].status is Pending || h.entries[id].status is PartiallyTriggered;
            &&& after.entries.contains_key(id)
            &&& h.placeholders(primary).contains(id) && waiting ==> after.entries[id].status == (
            StatusView::Cancelled {
                cancelled_at: now,
                reason: CancellationReason::PrimaryCancelled,
            })
            &&& !h.placeholders(primary).contains(id) || !waiting ==> after.entries[id]
                == h.entries[id]
            &&& h.placeholders(primary).contains(id) && waiting ==> h.pending_infos(
                h.placeholders(primary),
            ).contains(h.entries[id].cancelled_info(id))
        }),
{
    if h.placeholders(primary).contains(id) && h.entries[id].status.is_pending() {
        lemma_pending_is_told(h, h.placeholders(primary), id);
    }
}

/// Only entries of the list that wait for fills are told of, each once.
pub proof fn law_only_waiting_entries_are_told(h: HandlerView, ids: Seq<Seq<char>>, i: int)
    requires
        0 <= i < h.pending_infos(ids).len(),
    ensures
        ({
            let info = h.pending_infos(ids)[i];
            let id = info.placeholder_id;
            &&& ids.contains(id)
            &&& h.entries.contains_key(id)
            &&& h.entries[id].status is Pending || h.entries[id].status is PartiallyTriggered
            &&& info == h.entries[id].cancelled_info(id)
            &&& forall|j: int|
                0 <= j < h.pending_infos(ids).len() && j != i ==> (#[trigger] h.pending_infos(
                    ids,
                )[j]).placeholder_id != id
        }),
    decreases ids.len(),
{
    let rest = ids.drop_last();
    let told = h.pending_infos(rest);
    let all = h.pending_infos(ids);
    assert forall|k: int| 0 <= k < told.len() implies rest.contains(
        (#[trigger] told[k]).placeholder_id,
    ) by {
        law_only_waiting_entries_are_told(h, rest, k);
    }
    if i < told.len() {
        law_only_waiting_entries_are_told(h, rest, i);
        assert(all[i] == told[i]);
        let k = choose|k: int| 0 <= k < rest.len() && rest[k] == told[i].placeholder_id;
        assert(ids[k] == told[i].placeholder_id);
        assert forall|j: int| 0 <= j < all.len() && j != i implies (#[trigger] all[j]).placeholder_id
            != all[i].placeholder_id by {
            if j < told.len() {
                assert(all[j] == told[j]);
            }
        }
    } else {
        assert(all[i].placeholder_id == ids.last());
        assert(ids[ids.len() - 1] == ids.last());
        assert forall|j: int| 0 <= j < all.len() && j != i implies (#[trigger] all[j]).placeholder_id
            != all[i].placeholder_id by {
            assert(all[j] == told[j]);
        }
    }
}

proof fn lemma_pending_is_told(h: HandlerView, ids: Seq<Seq<char>>, id: Seq<char>)
    requires
        h.entries.contains_key(id),
        h.entries[id].status is Pending || h.entries[id].status is PartiallyTriggered,
        ids.contains(id),
    ensures
        h.pending_infos(ids).contains(h.entries[id].cancelled_info(id)),
    decreases ids.len(),
{
    let rest = ids.drop_last();
    let told = h.pending_infos(rest);
    let info = h.entries[id].cancelled_info(id);
    if rest.contains(id) {
        lemma_pending_is_told(h, rest, id);
        let i = choose|i: int| 0 <= i < told.len() && told[i] == info;
        assert(h.pending_infos(ids)[i] == info);
    } else {
        let i = choose|i: int| 0 <= i < ids.len() && ids[i] == id;
        assert(i == ids.len() - 1) by {
            if i < ids.len() - 1 {
                assert(rest[i] == id);
            }
        }
        assert(h.pending_infos(ids)[told.len() as int] == info);
    }
}

/// Entries that are cleared go, no other entry does, and a primary order no longer lists those of
/// its own that went, but still all others.
pub proof fn law_purge_takes_just_those(
    h: HandlerView,
    gone: Set<Seq<char>>,
    id: Seq<char>,
    primary: Seq<char>,
)
    ensures
        h.purged(gone).entries.contains_key(id) <==> h.entries.contains_key(id) && !gone.contains(
            id,
        ),
        h.entries.contains_key(id) && !gone.contains(id) ==> h.purged(gone).entries[id]
            == h.entries[id],
        h.purged(gone).by_primary.contains_key(primary) ==> h.by_primary.contains_key(primary)
            && h.purged(gone).placeholders(primary).len() > 0,
        h.placeholders(primary).contains(id) && !gone.contains(id) ==> h.purged(gone).placeholders(
            primary,
        ).contains(id),
        gone.contains(id) && h.entries.contains_key(id) && h.entries[id].primary_order_id == primary
            ==> !h.purged(gone).placeholders(primary).contains(id),
        h.placeholders(primary).contains(id) && !(h.entries.contains_key(id)
            && h.entries[id].primary_order_id == primary) ==> h.purged(gone).placeholders(
            primary,
        ).contains(id),
        h.purged(gone).placeholders(primary).contains(id) ==> h.placeholders(primary).contains(id),
        h.purged(gone).config == h.config && h.purged(gone).breaker == h.breaker,
{
    let keeps = |x: Seq<char>|
        !(gone.contains(x) && h.entries.contains_key(x) && h.entries[x].primary_order_id == primary);
    let listed = h.placeholders(primary);
    let kept = listed.filter(keeps);
    assert(kept == h.remaining(primary, gone));
    if listed.contains(id) && keeps(id) {
        let i = choose|i: int| 0 <= i < listed.len() && listed[i] == id;
        listed.lemma_filter_contains(keeps, i);
        assert(kept.contains(id));
    }
    if kept.contains(id) {
        let i = choose|i: int| 0 <= i < kept.len() && kept[i] == id;
        listed.lemma_filter_pred(keeps, i);
        listed.lemma_filter_contains_rev(keeps, id);
    }
}

/// Placeholder IDs that are taken off the list of a primary order are no longer listed under it, and
/// all others still are; a primary order that is left without any goes, and no other list changes.
pub proof fn law_unlisted_ids_are_gone(
    h: HandlerView,
    primary: Seq<char>,
    gone: Set<Seq<char>>,
    id: Seq<char>,
    other: Seq<char>,
)
    ensures
        ({
            let after = h.unlisted(primary, gone);
            &&& after.placeholders(primary).contains(id) <==> h.placeholders(primary).contains(id)
                && !gone.contains(id)
            &&& h.by_primary.contains_key(primary) ==> (after.by_primary.contains_key(primary)
                <==> after.placeholders(primary).len() > 0)
            &&& other != primary ==> after.placeholders(other) == h.placeholders(other)
            &&& after.entries == h.entries
            &&& after.breaker == h.breaker
        }),
{
    let keeps = |x: Seq<char>| !gone.contains(x);
    let listed = h.placeholders(primary);
    let kept = listed.filter(keeps);
    if listed.contains(id) && keeps(id) {
        let i = choose|i: int| 0 <= i < listed.len() && listed[i] == id;
        listed.lemma_filter_contains(keeps, i);
        assert(kept.contains(id));
    }
    if kept.contains(id) {
        let i = choose|i: int| 0 <= i < kept.len() && kept[i] == id;
        listed.lemma_filter_pred(keeps, i);
        listed.lemma_filter_contains_rev(keeps, id);
    }
}

/// Each answer to a cancellation is told once: as cancelled where there was no error, and else
/// with its error.
pub proof fn law_every_answer_is_told(answers: Seq<CancelAnswer>)
    ensures
        cancelled_ids(answers).len() + cancel_errors(answers).len() == answers.len(),
        (forall|i: int| 0 <= i < answers.len() ==> (#[trigger] answers[i]).error is None)
            <==> cancel_errors(answers).len() == 0,
        forall|i: int|
            0 <= i < answers.len() && (#[trigger] answers[i]).error is None ==> cancelled_ids(
                answers,
            ).contains(answers[i].order_id@),
        forall|i: int|
            0 <= i < answers.len() ==> ((#[trigger] answers[i]).error matches Some(e)
                ==> cancel_errors(answers).contains(answers[i].order_id@ + ": "@ + e@.text())),
    decreases answers.len(),
{
    if answers.len() > 0 {
        let rest = answers.drop_last();
        law_every_answer_is_told(rest);
        let before = cancelled_ids(rest);
        assert forall|i: int| 0 <= i < answers.len() && (#[trigger] answers[i]).error is None implies
            cancelled_ids(answers).contains(answers[i].order_id@) by {
            if i < rest.len() {
                assert(rest[i] == answers[i]);
                let j = choose|j: int| 0 <= j < before.len() && before[j] == answers[i].order_id@;
                assert(cancelled_ids(answers)[j] == answers[i].order_id@);
            } else {
                assert(cancelled_ids(answers)[before.len() as int] == answers[i].order_id@);
            }
        }
        let told = cancel_errors(rest);
        assert forall|i: int| 0 <= i < answers.len() && (#[trigger] answers[i]).error is Some implies
            cancel_errors(answers).contains(
            answers[i].order_id@ + ": "@ + answers[i].error->0@.text(),
        ) by {
            let text = answers[i].order_id@ + ": "@ + answers[i].error->0@.text();
            if i < rest.len() {
                assert(rest[i] == answers[i]);
                let j = choose|j: int| 0 <= j < told.len() && told[j] == text;
                assert(cancel_errors(answers)[j] == text);
            } else {
                assert(cancel_errors(answers)[told.len() as int] == text);
            }
        }
        if cancel_errors(answers).len() == 0 {
            assert forall|i: int| 0 <= i < answers.len() implies (#[trigger] answers[i]).error is None by {
                if i < rest.len() {
                    assert(rest[i] == answers[i]);
                }
            }
        }
        if forall|i: int| 0 <= i < answers.len() ==> (#[trigger] answers[i]).error is None {
            assert forall|i: int| 0 <= i < rest.len() implies (#[trigger] rest[i]).error is None by {
                assert(rest[i] == answers[i]);
            }
            assert(answers[answers.len() - 1].error is None);
        }
    }
}

// ---------------------------------------------------------------------------------------
// Moves
// ---------------------------------------------------------------------------------------

/// A move puts the order that holds the leg from then on in the place of the one that held it, at
/// the new trigger: what was not filled stays asked for, in the same leg. The entry stays what it
/// was otherwise, and no other entry changes.
pub proof fn law_move_tracks_the_new_order(
    h: HandlerView,
    id: Seq<char>,
    previous: ActualOrder,
    order_id: String,
    trigger_price: Decimal,
    now: Timestamp,
    other: Seq<char>,
)
    requires
        h.entries.contains_key(id),
        h.entries[id].status is Placed || h.entries[id].status is PartiallyTriggered
            || h.entries[id].status is Failed,
        place_of(h.entries[id].status.orders(), previous.order_id@) is Some,
    ensures
        ({
            let after = h.with_moved(id, previous, order_id, trigger_price, now);
            let was = h.entries[id];
            let is = after.entries[id];
            let at = place_of(was.status.orders(), previous.order_id@)->0;
            &&& is.trigger_price == trigger_price
            &&& is.status.orders().len() == was.status.orders().len()
            &&& 0 <= at < was.status.orders().len()
            &&& was.status.orders()[at].order_id@ == previous.order_id@
            &&& is.status.orders()[at].order_id == order_id
            &&& is.status.orders()[at].quantity == previous.spec_remaining()
            &&& is.status.orders()[at].leg_type == previous.leg_type
            &&& is.status.orders()[at].status == ActualOrderStatus::Open
            &&& forall|i: int|
                0 <= i < was.status.orders().len() && i != at ==> is.status.orders()[i]
                    == #[trigger] was.status.orders()[i]
            &&& is.status is Placed == was.status is Placed
            &&& is.status is PartiallyTriggered == was.status is PartiallyTriggered
            &&& is.status is Failed == was.status is Failed
            &&& is.side == was.side
            &&& is.quantity == was.quantity
            &&& is.symbol == was.symbol
            &&& is.sibling_id == was.sibling_id
            &&& is.primary_order_id == was.primary_order_id
            &&& is.position_id == was.position_id
            &&& is.version == was.version.wrapping_add(1)
            &&& other != id ==> after.entries.contains_key(other) == h.entries.contains_key(other)
                && after.entries[other] == h.entries[other]
            &&& after.by_primary == h.by_primary
        }),
{
    lemma_place(h.entries[id].status.orders(), previous.order_id@);
}

proof fn lemma_place(orders: Seq<ActualOrder>, id: Seq<char>)
    ensures
        place_of(orders, id) matches Some(i) ==> 0 <= i < orders.len() && orders[i].order_id@ == id,
        place_of(orders, id) is None <==> forall|i: int|
            0 <= i < orders.len() ==> (#[trigger] orders[i]).order_id@ != id,
    decreases orders.len(),
{
    if orders.len() > 0 {
        let rest = orders.drop_last();
        lemma_place(rest, id);
        if place_of(orders, id) is None {
            assert forall|i: int| 0 <= i < orders.len() implies (#[trigger] orders[i]).order_id@ != id by {
                if i < rest.len() {
                    assert(rest[i] == orders[i]);
                }
            }
        }
        if forall|i: int| 0 <= i < orders.len() ==> (#[trigger] orders[i]).order_id@ != id {
            assert forall|i: int| 0 <= i < rest.len() implies (#[trigger] rest[i]).order_id@ != id by {
                assert(rest[i] == orders[i]);
            }
            assert(orders[orders.len() - 1].order_id@ != id);
        }
    }
}

/// An order is found among others by its ID exactly where one has it, and the one found has it.
pub proof fn law_order_is_found_by_its_id(orders: Seq<ActualOrder>, id: Seq<char>)
    ensures
        place_of(orders, id) matches Some(i) ==> 0 <= i < orders.len() && orders[i].order_id@ == id,
        place_of(orders, id) is None <==> forall|i: int|
            0 <= i < orders.len() ==> (#[trigger] orders[i]).order_id@ != id,
{
    lemma_place(orders, id);
}

/// An order takes the place of the one that it replaces, and stands last where that one is not
/// there; no other order is touched.
pub proof fn law_replacement_takes_the_place(
    orders: Seq<ActualOrder>,
    previous: Seq<char>,
    replacement: ActualOrder,
)
    ensures
        ({
            let after = with_replacement(orders, previous, replacement);
            &&& (forall|i: int| 0 <= i < orders.len() ==> (#[trigger] orders[i]).order_id@ != previous)
                ==> after == orders.push(replacement)
            &&& place_of(orders, previous) matches Some(at) ==> after.len() == orders.len()
                && after[at] == replacement && forall|i: int|
                0 <= i < orders.len() && i != at ==> after[i] == #[trigger] orders[i]
        }),
{
    lemma_place(orders, previous);
}

/// A leg that cannot be moved, and one whose original was restored, are told as orders that cannot
/// be modified, by their IDs; the refusal of a replacement is told.
pub proof fn law_moves_that_fail_are_told(
    id: Seq<char>,
    leg: ExitLegType,
    replace_error: GatewayErrorView,
)
    ensures
        nothing_resting(id, leg) matches GatewayErrorView::OrderNotModifiable { order_id, .. }
            && order_id == id,
        restored_error(id, replace_error) matches GatewayErrorView::OrderNotModifiable {
            order_id,
            reason,
        } && order_id == id && has_part(reason, replace_error.text()),
{
    let head = "replacement rejected ("@;
    let told = replace_error.text();
    let tail = "); the original exit was restored"@;
    let reason = head + told + tail;
    assert(reason.subrange(head.len() as int, (head.len() + told.len()) as int) =~= told);
    assert(occurs_at(reason, told, head.len() as int));
}

/// An entry is the live leg of a position exactly where it protects that position with that leg,
/// is placed or partly so, and an order of it rests at the provider.
pub proof fn law_live_leg_protects_its_position(
    entry: ExitEntryView,
    position_id: Seq<char>,
    leg: ExitLegType,
    i: int,
)
    ensures
        entry.is_live_leg(position_id, leg) ==> entry.position_id == Some(position_id)
            && entry.order_type == leg && !(entry.status is Failed) && !(entry.status is Cancelled)
            && !(entry.status is Expired) && !(entry.status is Pending) && exists|k: int|
            0 <= k < entry.status.orders().len() && ((
            #[trigger] entry.status.orders()[k]).status is Open
                || entry.status.orders()[k].status is PartiallyFilled),
        entry.position_id == Some(position_id) && entry.order_type == leg && (
        entry.status is Placed || entry.status is PartiallyTriggered) && 0 <= i
            < entry.status.orders().len() && (entry.status.orders()[i].status is Open
            || entry.status.orders()[i].status is PartiallyFilled) ==> entry.is_live_leg(
            position_id,
            leg,
        ),
{
}

// ---------------------------------------------------------------------------------------
// Entries
// ---------------------------------------------------------------------------------------

/// A fresh entry is what its parameters say, waits for fills, and has neither orders nor a sibling.
pub proof fn law_fresh_entry_waits(
    params: ExitEntryParams,
    created_at: Instant,
    created_at_utc: Timestamp,
)
    ensures
        ({
            let entry = fresh_entry(params, created_at, created_at_utc);
            &&& entry.order_type == ExitLegType::StopLoss ==> entry.placeholder_id == "exit:sl:"@
                + params.primary_order_id@
            &&& entry.order_type == ExitLegType::TakeProfit ==> entry.placeholder_id == "exit:tp:"@
                + params.primary_order_id@
            &&& entry.order_type == params.order_type
            &&& entry.primary_order_id == params.primary_order_id@
            &&& entry.symbol == params.symbol@
            &&& entry.side == params.side
            &&& entry.trigger_price == params.trigger_price
            &&& entry.limit_price == params.limit_price
            &&& entry.quantity == params.quantity
            &&& entry.original_quantity == params.quantity
            &&& entry.platform == params.platform
            &&& entry.status == StatusView::Pending
            &&& entry.status.orders().len() == 0
            &&& entry.placed_count() == 0
            &&& entry.sibling_id is None
            &&& entry.last_attempted_fill_qty is None
            &&& entry.updated_at is None
            &&& entry.created_at == created_at
            &&& entry.created_at_utc == created_at_utc
        }),
{
}

/// Another status is told with its time and counts as a change; everything else stays.
pub proof fn law_status_change_counts(entry: ExitEntryView, status: StatusView, now: Timestamp)
    ensures
        ({
            let after = entry.with_status(status, now);
            &&& after.status == status
            &&& after.updated_at == Some(now)
            &&& entry.version < u64::MAX ==> after.version == entry.version + 1
            &&& after == ExitEntryView {
                status: after.status,
                updated_at: after.updated_at,
                version: after.version,
                ..entry
            }
        }),
{
}

/// The number of orders placed for an entry is at least that of those it tracks, and goes up by
/// one with each that is counted; nothing else changes by counting.
pub proof fn law_orders_are_counted(entry: ExitEntryView)
    ensures
        entry.placed_count() >= entry.status.orders().len(),
        entry.placed_count() >= entry.counted_orders,
        entry.placed_count() == entry.counted_orders || entry.placed_count()
            == entry.status.orders().len(),
        entry.placed_count() < usize::MAX ==> entry.counted().placed_count() == entry.placed_count()
            + 1,
        entry.placed_count() >= usize::MAX ==> entry.counted().counted_orders == usize::MAX,
        entry.counted() == (ExitEntryView {
            counted_orders: entry.counted().counted_orders,
            ..entry
        }),
{
}

/// A fill that was tried is remembered by its quantity; the entry stays as it was otherwise.
pub proof fn law_attempt_is_remembered(entry: ExitEntryView, fill_qty: Decimal, now: Timestamp)
    ensures
        entry.attempted(fill_qty, now).last_attempted_fill_qty == Some(fill_qty),
        entry.attempted(fill_qty, now).updated_at == Some(now),
        entry.attempted(fill_qty, now).status == entry.status,
        entry.attempted(fill_qty, now).quantity == entry.quantity,
        entry.attempted(fill_qty, now).version == entry.version,
        entry.attempted(fill_qty, now).placed_count() == entry.placed_count(),
{
}

/// A primary order has something pending exactly where one of the entries listed under it is still
/// kept.
pub proof fn law_pending_where_an_entry_is_kept(h: HandlerView, primary: Seq<char>, id: Seq<char>)
    ensures
        h.placeholders(primary).contains(id) && h.entries.contains_key(id) ==> h.has_pending(primary),
        !h.by_primary.contains_key(primary) ==> !h.has_pending(primary),
        h.entries.dom().is_empty() ==> !h.has_pending(primary),
{
    if h.placeholders(primary).contains(id) && h.entries.contains_key(id) {
        let ids = h.placeholders(primary);
        let i = choose|i: int| 0 <= i < ids.len() && ids[i] == id;
        assert(h.entries.contains_key(h.placeholders(primary)[i]));
    }
}

/// A primary order that is taken out goes with all its entries, and no other entry goes.
pub proof fn law_primary_goes_with_its_entries(
    h: HandlerView,
    primary: Seq<char>,
    id: Seq<char>,
    other: Seq<char>,
)
    ensures
        ({
            let after = h.without_primary(primary);
            &&& !after.by_primary.contains_key(primary)
            &&& h.placeholders(primary).contains(id) ==> !after.entries.contains_key(id)
            &&& !h.placeholders(primary).contains(id) ==> after.entries.contains_key(id)
                == h.entries.contains_key(id)
            &&& !h.placeholders(primary).contains(id) && h.entries.contains_key(id)
                ==> after.entries[id] == h.entries[id]
            &&& other != primary ==> after.placeholders(other) == h.placeholders(other)
            &&& after.breaker == h.breaker && after.config == h.config
        }),
{
}

/// The IDs of the legs that an order has are told, a stop-loss first, and of no leg that it has not.
pub proof fn law_leg_ids_are_those_of_its_legs(primary: Seq<char>, order: OrderRequest)
    ensures
        ({
            let ids = leg_ids(primary, order);
            &&& order.stop_loss is Some && order.take_profit is Some ==> ids == seq![
                "exit:sl:"@ + primary,
                "exit:tp:"@ + primary,
            ]
            &&& order.stop_loss is Some && order.take_profit is None ==> ids == seq![
                "exit:sl:"@ + primary,
            ]
            &&& order.stop_loss is None && order.take_profit is Some ==> ids == seq![
                "exit:tp:"@ + primary,
            ]
            &&& order.stop_loss is None && order.take_profit is None ==> ids.len() == 0
        }),
{
}

/// A sibling that was still pending is told of as one that was not placed: it is cancelled for the
/// quantity, with no orders and no errors.
pub proof fn law_pending_sibling_had_no_orders(sibling_id: Seq<char>, qty: Decimal)
    ensures
        pending_sibling(sibling_id, qty).sibling_placeholder_id == sibling_id,
        pending_sibling(sibling_id, qty).qty_cancelled == qty,
        pending_sibling(sibling_id, qty).actual_order_ids.len() == 0,
        pending_sibling(sibling_id, qty).errors.len() == 0,
        !pending_sibling(sibling_id, qty).was_placed,
        pending_sibling(sibling_id, qty).cancel_success,
{
}

/// The time between two points is that which passed, and there is none where the first is later.
pub proof fn law_span_is_what_passed(later: Timestamp, earlier: Timestamp)
    ensures
        span_since(later, earlier) is Some <==> later@ >= earlier@,
        span_since(later, earlier) matches Some(d) ==> earlier@ + d.nanos == later@,
{
}

/// By default an exit order is tried four times in all, a little later each time; ten thousand
/// entries are kept for a day, and three failures in five minutes open the breaker.
pub proof fn law_default_limits(config: ExitHandlerConfig)
    requires
        config.is_default(),
    ensures
        config.max_pending_entries == 10_000,
        config.entry_ttl.nanos == 86_400_000_000_000,
        config.circuit_breaker_threshold == 3,
        config.circuit_breaker_window.nanos == 300_000_000_000,
        config.min_exit_order_qty == Decimal::of_parts(1, 3),
        config.retry_delays@.len() == 3,
        config.retry_delays@[0].nanos == 100_000_000,
        config.retry_delays@[1].nanos == 300_000_000,
        config.retry_delays@[2].nanos == 1_000_000_000,
{
}

/// The legs, and why an entry was cancelled, are each written in their own words.
pub proof fn law_how_legs_and_reasons_are_written(leg: ExitLegType, reason: CancellationReason)
    ensures
        leg == ExitLegType::StopLoss ==> leg.spec_prefix() == "exit:sl:"@ && leg.spec_suffix()
            == "sl"@ && leg.spec_text() == "stop_loss"@ && leg.spec_name() == "StopLoss"@,
        leg == ExitLegType::TakeProfit ==> leg.spec_prefix() == "exit:tp:"@ && leg.spec_suffix()
            == "tp"@ && leg.spec_text() == "take_profit"@ && leg.spec_name() == "TakeProfit"@,
        reason == CancellationReason::PrimaryCancelled ==> reason.spec_text()
            == "primary_cancelled"@ && reason.spec_name() == "PrimaryCancelled"@,
        reason == CancellationReason::PrimaryRejected ==> reason.spec_text() == "primary_rejected"@
            && reason.spec_name() == "PrimaryRejected"@,
        reason == CancellationReason::SiblingFilled ==> reason.spec_text() == "sibling_filled"@
            && reason.spec_name() == "SiblingFilled"@,
        reason == CancellationReason::UserRequested ==> reason.spec_text() == "user_requested"@
            && reason.spec_name() == "UserRequested"@,
        reason == CancellationReason::PositionClosed ==> reason.spec_text() == "position_closed"@
            && reason.spec_name() == "PositionClosed"@,
        reason == CancellationReason::SystemCleanup ==> reason.spec_text() == "system_cleanup"@
            && reason.spec_name() == "SystemCleanup"@,
        reason == CancellationReason::OcoSucceeded ==> reason.spec_text() == "oco_succeeded"@
            && reason.spec_name() == "OcoSucceeded"@,
{
}

/// What is told of a status begins with its name.
pub proof fn law_status_text_begins_with_its_name(status: StatusView)
    ensures
        status is Pending ==> has_prefix(status_text(status), "Pending"@),
        status is PartiallyTriggered ==> has_prefix(status_text(status), "PartiallyTriggered {"@),
        status is Placed ==> has_prefix(status_text(status), "Placed {"@),
        status is Failed ==> has_prefix(status_text(status), "Failed {"@),
        status is Cancelled ==> has_prefix(status_text(status), "Cancelled {"@),
        status is Expired ==> has_prefix(status_text(status), "Expired {"@),
{
    let text = status_text(status);
    reveal_strlit("Pending");
    reveal_strlit("PartiallyTriggered {");
    reveal_strlit("PartiallyTriggered { filled_qty: ");
    reveal_strlit("Placed {");
    reveal_strlit("Placed { actual_orders: [");
    reveal_strlit("Failed {");
    reveal_strlit("Failed { error: ");
    reveal_strlit("Cancelled {");
    reveal_strlit("Cancelled { cancelled_at: ");
    reveal_strlit("Expired {");
    reveal_strlit("Expired { expired_at: ");
    match status {
        StatusView::Pending => {
            assert(text.subrange(0, 7) =~= "Pending"@);
        },
        StatusView::PartiallyTriggered { .. } => {
            assert(text.subrange(0, 20) =~= "PartiallyTriggered {"@);
        },
        StatusView::Placed { .. } => {
            assert(text.subrange(0, 8) =~= "Placed {"@);
        },
        StatusView::Failed { .. } => {
            assert(text.subrange(0, 8) =~= "Failed {"@);
        },
        StatusView::Cancelled { .. } => {
            assert(text.subrange(0, 11) =~= "Cancelled {"@);
        },
        StatusView::Expired { .. } => {
            assert(text.subrange(0, 9) =~= "Expired {"@);
        },
    }
}

} // verus!
