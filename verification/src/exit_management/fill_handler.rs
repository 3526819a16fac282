//! Fill handling and order placement for exit orders.
//!
//! A fill of a primary order is handled entry by entry. For each entry the handler decides
//! whether an exit order is to be placed, and what follows from each answer of the provider:
//! a placement is recorded and the sibling reduced, a refusal is retried, deferred or
//! recorded as a failure.

use vstd::prelude::*;
use crate::decimal::{Decimal, subtracts_exactly};
use crate::error::{GatewayError, GatewayErrorView};
use crate::models::{Order, OrderHandle, OrderRequest, OrderType, TimeInForce};
use crate::text::{
    before, between, contains, digits, first_piece, has_part, join2, join3, join4, lowercase,
    number_text, opt_text, second_piece, texts, to_lowercase, trim, trimmed,
};
use crate::time::{Duration, Timestamp, utc_now};
use super::cancellation::SiblingStep;
use super::coverage::{active_coverage, checked_active_coverage, coverage_adds_up};
use super::handler::{ExitHandler, HandlerView, order_ids};
use super::order_list::OrderList;
use super::types::{
    ActualOrder, ActualOrderStatus, ErrorCategory, ExitEntry, ExitEntryStatus, ExitEntryView,
    ExitLegType, OutcomeView, PlaceOrderError, PlaceOrderErrorView, PlacementResult, PlacementView,
    StatusView, pending_sibling, placement, status_text,
};

verus! {

// ---------------------------------------------------------------------------------------
// Error messages
// ---------------------------------------------------------------------------------------

/// The quantity that a message names as available: what stands after `available:` up to the
/// next closing bracket, where it is a positive number.
pub open spec fn available_quantity(message: Seq<char>) -> Option<Decimal> {
    match second_piece(message, "available:"@) {
        Some(rest) => match Decimal::spec_parse(trimmed(first_piece(rest, ")"@))) {
            Some(qty) => if qty@ > 0 {
                Some(qty)
            } else {
                None
            },
            None => None,
        },
        None => None,
    }
}

/// Parse available quantity from an insufficient balance error message.
///
/// Alpaca format: "insufficient balance for X (requested: Y, available: Z)"
pub fn parse_available_quantity(error_msg: &str) -> (qty: Option<Decimal>)
    ensures
        qty == available_quantity(error_msg@),
{
    match between(error_msg, "available:") {
        Some(rest) => match Decimal::parse(trim(before(rest, ")"))) {
            Some(qty) => if qty.is_positive() {
                Some(qty)
            } else {
                None
            },
            None => None,
        },
        None => None,
    }
}

/// Whether a message tells of a rate limit.
pub open spec fn tells_rate_limit(message: Seq<char>) -> bool {
    has_part(message, "rate limit"@) || has_part(message, "too many requests"@)
}

/// Whether a message tells of an exchange that does not trade.
pub open spec fn tells_unavailable(message: Seq<char>) -> bool {
    ||| has_part(message, "market is closed"@)
    ||| has_part(message, "is not tradable"@)
    ||| has_part(message, "symbol is halted"@)
    ||| has_part(message, "not accepting orders"@)
    ||| has_part(message, "-1013"@)
    ||| has_part(message, "-4014"@)
    ||| has_part(message, "maintenance"@)
}

/// The category of an error: that of its variant, or else what its message tells of.
pub open spec fn error_category(error: GatewayErrorView) -> ErrorCategory {
    let message = lowercase(error.text());
    if error is RateLimited {
        ErrorCategory::RateLimited
    } else if error is ProviderUnavailable {
        ErrorCategory::ExchangeUnavailable
    } else if tells_rate_limit(message) {
        ErrorCategory::RateLimited
    } else if tells_unavailable(message) {
        ErrorCategory::ExchangeUnavailable
    } else {
        ErrorCategory::InfrastructureFailure
    }
}

/// Classify an error for circuit breaker behavior.
///
/// This determines whether a failed order placement should count toward
/// the circuit breaker threshold.
pub fn classify_error(error: &GatewayError) -> (category: ErrorCategory)
    ensures
        category == error_category(error@),
{
    match error {
        GatewayError::RateLimited { .. } => {
            return ErrorCategory::RateLimited;
        },
        GatewayError::ProviderUnavailable { .. } => {
            return ErrorCategory::ExchangeUnavailable;
        },
        _ => {},
    }
    let message = to_lowercase(error.to_text().as_str());
    let m = message.as_str();
    if contains(m, "rate limit") || contains(m, "too many requests") {
        return ErrorCategory::RateLimited;
    }
    if contains(m, "market is closed") || contains(m, "is not tradable") || contains(
        m,
        "symbol is halted",
    ) || contains(m, "not accepting orders") {
        return ErrorCategory::ExchangeUnavailable;
    }
    if contains(m, "-1013") || contains(m, "-4014") || contains(m, "maintenance") {
        return ErrorCategory::ExchangeUnavailable;
    }
    ErrorCategory::InfrastructureFailure
}

// ---------------------------------------------------------------------------------------
// Order requests
// ---------------------------------------------------------------------------------------

/// The client order ID of an exit order: the same for the same entry and number of orders
/// placed before, so that a retry is recognised.
pub open spec fn client_id(primary: Seq<char>, leg: ExitLegType, existing: nat) -> Seq<char> {
    if existing == 0 {
        primary + "-"@ + leg.spec_suffix()
    } else {
        primary + "-"@ + leg.spec_suffix() + "-"@ + digits(existing)
    }
}

/// The order type, stop price and limit price of an exit order.
pub open spec fn exit_prices(entry: ExitEntryView) -> (OrderType, Option<Decimal>, Option<Decimal>) {
    match entry.order_type {
        ExitLegType::StopLoss => match entry.limit_price {
            None => (OrderType::Stop, Some(entry.trigger_price), None),
            Some(limit) => (OrderType::StopLimit, Some(entry.trigger_price), Some(limit)),
        },
        ExitLegType::TakeProfit => (OrderType::Limit, None, Some(entry.trigger_price)),
    }
}

/// Whether a request asks for the exit order of an entry.
pub open spec fn is_exit_request(
    r: OrderRequest,
    entry: ExitEntryView,
    quantity: Decimal,
    existing: nat,
    position_id: Option<Seq<char>>,
) -> bool {
    let (order_type, stop_price, limit_price) = exit_prices(entry);
    &&& r.symbol@ == entry.symbol
    &&& opt_text(r.client_order_id) == Some(
        client_id(entry.primary_order_id, entry.order_type, existing),
    )
    &&& opt_text(r.position_id) == position_id
    &&& r == OrderRequest {
        symbol: r.symbol,
        side: entry.side,
        quantity,
        order_type,
        limit_price,
        stop_price,
        trailing_distance: None,
        trailing_type: None,
        stop_loss: None,
        take_profit: None,
        position_id: r.position_id,
        reduce_only: false,
        post_only: false,
        hidden: false,
        display_quantity: None,
        margin_mode: None,
        leverage: None,
        client_order_id: r.client_order_id,
        oco_group_id: None,
        time_in_force: TimeInForce::Gtc,
    }
}

/// The order that stands in for one whose details cannot be fetched.
pub open spec fn fallback_order(order: OrderRequest, handle: OrderHandle, now: Timestamp) -> Order {
    Order {
        id: handle.id,
        client_order_id: order.client_order_id,
        symbol: order.symbol,
        side: order.side,
        order_type: order.order_type,
        quantity: order.quantity,
        filled_quantity: Decimal::spec_zero(),
        remaining_quantity: order.quantity,
        limit_price: order.limit_price,
        stop_price: order.stop_price,
        stop_loss: order.stop_loss,
        take_profit: order.take_profit,
        trailing_distance: order.trailing_distance,
        trailing_type: order.trailing_type,
        average_fill_price: None,
        status: handle.status,
        reject_reason: None,
        position_id: order.position_id,
        reduce_only: Some(order.reduce_only),
        post_only: Some(order.post_only),
        hidden: Some(order.hidden),
        display_quantity: order.display_quantity,
        oco_group_id: order.oco_group_id,
        correlation_id: None,
        time_in_force: order.time_in_force,
        created_at: now,
        updated_at: now,
    }
}

fn make_fallback_order(order: &OrderRequest, handle: &OrderHandle, now: Timestamp) -> (o: Order)
    ensures
        o == fallback_order(*order, *handle, now),
{
    Order {
        id: handle.id.clone(),
        client_order_id: order.client_order_id.clone(),
        symbol: order.symbol.clone(),
        side: order.side,
        order_type: order.order_type,
        quantity: order.quantity,
        filled_quantity: Decimal::zero(),
        remaining_quantity: order.quantity,
        limit_price: order.limit_price,
        stop_price: order.stop_price,
        stop_loss: order.stop_loss,
        take_profit: order.take_profit,
        trailing_distance: order.trailing_distance,
        trailing_type: order.trailing_type,
        average_fill_price: None,
        status: handle.status,
        reject_reason: None,
        position_id: order.position_id.clone(),
        reduce_only: Some(order.reduce_only),
        post_only: Some(order.post_only),
        hidden: Some(order.hidden),
        display_quantity: order.display_quantity,
        oco_group_id: order.oco_group_id.clone(),
        correlation_id: None,
        time_in_force: order.time_in_force,
        created_at: now,
        updated_at: now,
    }
}

// ---------------------------------------------------------------------------------------
// Entries
// ---------------------------------------------------------------------------------------

impl ExitEntryView {
    /// The entry once a fill was tried.
    pub open spec fn attempted(self, fill_qty: Decimal, now: Timestamp) -> ExitEntryView {
        ExitEntryView {
            last_attempted_fill_qty: Some(fill_qty),
            updated_at: Some(now),
            ..self
        }
    }

    /// The entry once an order was placed for a partial fill.
    pub open spec fn partially_filled(
        self,
        order: ActualOrder,
        filled_qty: Decimal,
        total_qty: Decimal,
        now: Timestamp,
    ) -> ExitEntryView {
        ExitEntryView {
            status: match self.status {
                StatusView::Pending => StatusView::PartiallyTriggered {
                    filled_qty,
                    total_qty,
                    actual_orders: seq![order],
                },
                StatusView::PartiallyTriggered { total_qty, actual_orders, .. } => {
                    StatusView::PartiallyTriggered {
                        filled_qty,
                        total_qty,
                        actual_orders: actual_orders.push(order),
                    }
                },
                other => other,
            },
            updated_at: Some(now),
            ..self.counted()
        }
    }

    /// The entry once an order was placed for the full fill.
    pub open spec fn placed(self, order: ActualOrder, now: Timestamp) -> ExitEntryView {
        let earlier = if self.status is PartiallyTriggered {
            self.status.orders()
        } else {
            Seq::empty()
        };
        ExitEntryView {
            status: StatusView::Placed { actual_orders: earlier.push(order) },
            updated_at: Some(now),
            ..self.counted()
        }
    }

    /// The entry once a placement failed: its orders stay tracked.
    pub open spec fn failed(self, error: Seq<char>, retry_count: u32, now: Timestamp) -> ExitEntryView {
        self.with_status(
            StatusView::Failed {
                error,
                retry_count,
                failed_at: now,
                actual_orders: self.status.orders(),
            },
            now,
        )
    }
}

impl HandlerView {
    /// When an entry was last updated.
    pub open spec fn stamp(self, id: Seq<char>) -> Timestamp {
        self.entries[id].updated_at->0
    }

    /// The handler with an entry changed, where there is one.
    pub open spec fn changed(
        self,
        id: Seq<char>,
        change: spec_fn(ExitEntryView) -> ExitEntryView,
    ) -> HandlerView {
        if self.entries.contains_key(id) {
            self.with_entry(id, change(self.entries[id]))
        } else {
            self
        }
    }

    /// The number of orders placed for an entry so far.
    pub open spec fn placed_count(self, id: Seq<char>) -> nat {
        if self.entries.contains_key(id) {
            self.entries[id].placed_count()
        } else {
            0
        }
    }

    /// The handler once a move asked for another order of an entry.
    pub open spec fn with_request(self, id: Seq<char>) -> HandlerView {
        self.changed(id, |e: ExitEntryView| e.counted())
    }

    /// Why a fill is not processed for an entry: the entry is not there, no fill is processed
    /// for it any more, or this fill was processed before.
    pub open spec fn fill_refusal(self, id: Seq<char>, filled_qty: Decimal) -> Option<
        PlacementView,
    > {
        if !self.entries.contains_key(id) {
            Some(
                placement(
                    id,
                    ExitLegType::StopLoss,
                    OutcomeView::Failed { error: "Entry not found"@, retry_count: 0 },
                ),
            )
        } else {
            let entry = self.entries[id];
            if entry.status.is_terminal() {
                Some(
                    placement(
                        id,
                        entry.order_type,
                        OutcomeView::Deferred {
                            reason: "Entry in terminal state: "@ + status_text(entry.status),
                        },
                    ),
                )
            } else {
                match entry.last_attempted_fill_qty {
                    Some(last) => if filled_qty@ <= last@ {
                        Some(placement(id, entry.order_type, OutcomeView::AlreadyProcessed))
                    } else {
                        None
                    },
                    None => None,
                }
            }
        }
    }

    /// The quantity that the exit orders of an entry should cover after a fill.
    pub open spec fn target_qty(
        filled_qty: Decimal,
        total_qty: Decimal,
        position_qty: Option<Decimal>,
        is_partial_fill: bool,
    ) -> Decimal {
        if is_partial_fill {
            filled_qty
        } else {
            match position_qty {
                Some(qty) => qty,
                None => total_qty,
            }
        }
    }

    /// What is done about the fill of an entry that is processed, up to the placement.
    pub open spec fn fill_decision(
        self,
        id: Seq<char>,
        target: Decimal,
    ) -> FillDecision {
        let entry = self.entries[id];
        let orders = entry.status.orders();
        let covered = active_coverage(orders, entry.order_type);
        if !coverage_adds_up(orders, entry.order_type) || !target.subtracts(covered) {
            FillDecision::OutOfRange
        } else {
            let qty = target.spec_minus(covered);
            let min = self.config.min_exit_order_qty;
            if qty@ < min@ {
                FillDecision::Finish(
                    placement(
                        id,
                        entry.order_type,
                        OutcomeView::Deferred {
                            reason: "Quantity "@ + qty.spec_text() + " below minimum "@
                                + min.spec_text(),
                        },
                    ),
                )
            } else if self.breaker.open {
                FillDecision::Finish(
                    placement(
                        id,
                        entry.order_type,
                        OutcomeView::Deferred { reason: "Circuit breaker open"@ },
                    ),
                )
            } else {
                FillDecision::Place { quantity: qty }
            }
        }
    }
}

/// What is done about the fill of an entry.
pub enum FillDecision {
    /// Nothing is placed.
    Finish(PlacementView),
    /// An exit order is placed.
    Place { quantity: Decimal },
    /// The quantity is out of the range of decimals.
    OutOfRange,
}

/// The first step of the handling of a fill for an entry.
#[derive(Debug)]
pub enum FillStep {
    /// Nothing is placed.
    Finished(PlacementResult),
    /// The request is to be submitted to the provider.
    Place {
        /// The entry as it was before the fill.
        entry: ExitEntry,
        /// The exit order to be placed.
        request: OrderRequest,
    },
    /// The quantity is out of the range of decimals.
    OutOfRange,
}

/// How far the placement of an exit order has come.
#[derive(Debug, Clone, Copy)]
pub struct PlacementAttempt {
    /// The number of the attempt, from zero.
    pub attempt: usize,
    /// How many retries were made.
    pub retry_count: u32,
}

impl PlacementAttempt {
    /// The first attempt.
    pub fn first() -> (a: PlacementAttempt)
        ensures
            a == (PlacementAttempt { attempt: 0, retry_count: 0 }),
    {
        PlacementAttempt { attempt: 0, retry_count: 0 }
    }
}

/// What the provider answered during the placement of an exit order.
#[derive(Debug)]
pub enum PlacementEvent {
    /// The order was accepted.
    Submitted(OrderHandle),
    /// The order was refused.
    Refused(GatewayError),
    /// The details of the accepted order.
    Fetched(Order),
    /// The details of the accepted order could not be fetched.
    NotFetched(OrderHandle),
}

/// What is done next during the placement of an exit order.
#[derive(Debug)]
pub enum PlacementStep {
    /// The details of the accepted order are to be fetched.
    Fetch(OrderHandle),
    /// The order is placed.
    Placed { order: Order, retry_count: u32 },
    /// The order is not placed.
    Failed { error: PlaceOrderError, retry_count: u32 },
    /// The order is to be submitted again after a delay.
    Retry { delay: Duration, next: PlacementAttempt },
}

/// The number of attempts made, as far as it can be counted.
pub open spec fn attempts_made(attempt: usize) -> u32 {
    if attempt + 1 <= u32::MAX {
        (attempt + 1) as u32
    } else {
        u32::MAX
    }
}

/// Whether a message tells that the balance does not suffice.
pub open spec fn tells_insufficient(message: Seq<char>) -> bool {
    ||| has_part(message, "insufficient"@)
    ||| has_part(message, "balance"@)
    ||| has_part(message, "not enough"@)
}

/// Whether a message tells of a trade with oneself.
pub open spec fn tells_wash_trade(message: Seq<char>) -> bool {
    has_part(message, "wash"@) || has_part(message, "self-trade"@)
}

/// Why a refused order is not submitted again, and how often it was retried.
pub open spec fn final_refusal(
    error: GatewayErrorView,
    quantity: Decimal,
    delays: nat,
    at: PlacementAttempt,
) -> Option<(PlaceOrderErrorView, u32)> {
    let message = error.text();
    if tells_insufficient(lowercase(message)) {
        Some(
            (
                PlaceOrderErrorView::InsufficientBalance {
                    message,
                    requested_quantity: quantity,
                    available_quantity: match available_quantity(message) {
                        Some(qty) => qty,
                        None => Decimal::spec_zero(),
                    },
                },
                at.retry_count,
            ),
        )
    } else if tells_wash_trade(lowercase(message)) {
        Some((PlaceOrderErrorView::WashTrade { message }, at.retry_count))
    } else if at.attempt >= delays {
        Some(
            (
                PlaceOrderErrorView::Failed {
                    message,
                    retry_count: attempts_made(at.attempt),
                    category: error_category(error),
                },
                attempts_made(at.attempt),
            ),
        )
    } else {
        None
    }
}

/// What follows once a placement is recorded.
#[derive(Debug)]
pub enum PlacementFollowUp {
    /// Nothing more is to be done.
    Finished(PlacementResult),
    /// The orders of the sibling are to be cancelled at the provider.
    CancelSibling { sibling_id: String, order_ids: Vec<String> },
    /// The sibling's quantity would leave the range of decimals.
    OutOfRange,
}

/// The order that is tracked for a placed exit order.
pub open spec fn tracked_order(placed: Order, leg_type: ExitLegType, now: Timestamp) -> ActualOrder {
    ActualOrder {
        order_id: placed.id,
        quantity: placed.quantity,
        placed_at: now,
        status: ActualOrderStatus::Open,
        leg_type,
    }
}

impl HandlerView {
    /// The handler with a placement recorded.
    pub open spec fn with_placement(
        self,
        id: Seq<char>,
        order: ActualOrder,
        partial_fill: Option<(Decimal, Decimal)>,
        now: Timestamp,
    ) -> HandlerView {
        match partial_fill {
            Some((filled_qty, total_qty)) => self.changed(
                id,
                |e: ExitEntryView| e.partially_filled(order, filled_qty, total_qty, now),
            ),
            None => self.changed(id, |e: ExitEntryView| e.placed(order, now)),
        }
    }

    /// The handler with a placement that failed recorded.
    pub open spec fn with_failed(
        self,
        id: Seq<char>,
        error: Seq<char>,
        retry_count: u32,
        now: Timestamp,
    ) -> HandlerView {
        self.changed(id, |e: ExitEntryView| e.failed(error, retry_count, now))
    }
}

// ---------------------------------------------------------------------------------------
// Fill handling
// ---------------------------------------------------------------------------------------

impl ExitHandler {
    /// The entries that a fill of a primary order is handled for; a fill of no quantity is
    /// ignored.
    pub fn fill_targets(&self, primary_order_id: &str, filled_qty: Decimal, total_qty: Decimal) -> (
        ids: Vec<String>)
        requires
            self.wf(),
        ensures
            texts(ids@) == (if filled_qty@ > 0 && total_qty@ > 0 {
                self@.placeholders(primary_order_id@)
            } else {
                Seq::<Seq<char>>::empty()
            }),
    {
        if !filled_qty.is_positive() || !total_qty.is_positive() {
            let ids: Vec<String> = Vec::new();
            assert(texts(ids@) =~= Seq::<Seq<char>>::empty());
            return ids;
        }
        self.get_placeholders_for_primary(primary_order_id)
    }

    /// Validate an exit entry is eligible for fill processing.
    ///
    /// Checks that the entry exists, is not in a terminal state, and has not
    /// already been processed for this fill quantity. Returns the cloned entry
    /// on success, or the result of the placement on failure.
    pub fn validate_entry_for_fill(&self, placeholder_id: &str, filled_qty: Decimal) -> (result:
        Result<ExitEntry, PlacementResult>)
        requires
            self.wf(),
        ensures
            match result {
                Ok(entry) => self@.fill_refusal(placeholder_id@, filled_qty) is None && entry@
                    == self@.entries[placeholder_id@],
                Err(r) => self@.fill_refusal(placeholder_id@, filled_qty) == Some(r@),
            },
    {
        let entry = match self.get_entry(placeholder_id) {
            Some(entry) => entry,
            None => {
                return Err(
                    PlacementResult::failed(
                        placeholder_id.to_owned(),
                        ExitLegType::StopLoss,
                        "Entry not found".to_owned(),
                        0,
                    ),
                );
            },
        };
        match &entry.status {
            ExitEntryStatus::Cancelled { .. }
            | ExitEntryStatus::Failed { .. }
            | ExitEntryStatus::Expired { .. } => {
                return Err(
                    PlacementResult::deferred(
                        placeholder_id.to_owned(),
                        entry.order_type,
                        join2("Entry in terminal state: ", entry.status.to_text().as_str()),
                    ),
                );
            },
            _ => {},
        }
        match entry.last_attempted_fill_qty {
            Some(last) => {
                if !last.less_than(&filled_qty) {
                    return Err(
                        PlacementResult::already_processed(
                            placeholder_id.to_owned(),
                            entry.order_type,
                        ),
                    );
                }
            },
            None => {},
        }
        Ok(entry)
    }

    /// Whether a fill leaves a part of the order unfilled.
    pub fn is_partial_fill(filled_qty: Decimal, total_qty: Decimal) -> (partial: bool)
        ensures
            partial == (filled_qty@ < total_qty@),
    {
        filled_qty.less_than(&total_qty)
    }

    /// Decides whether an exit order is to be placed for the fill of an entry, and remembers
    /// that the fill was tried.
    ///
    /// The order covers what of the target no active order covers yet, so that all of them
    /// cover the target. It is deferred where that is too little, or where the circuit
    /// breaker is open.
    pub fn begin_entry_fill(
        &mut self,
        placeholder_id: &str,
        filled_qty: Decimal,
        total_qty: Decimal,
        position_qty: Option<Decimal>,
        is_partial_fill: bool,
        now: Timestamp,
    ) -> (step: FillStep)
        requires
            old(self).wf(),
        ensures
            final(self).wf(),
            match old(self)@.fill_refusal(placeholder_id@, filled_qty) {
                Some(refusal) => step is Finished && step->Finished_0@ == refusal && final(self)@
                    == old(self)@,
                None => {
                    let target = HandlerView::target_qty(
                        filled_qty,
                        total_qty,
                        position_qty,
                        is_partial_fill,
                    );
                    &&& final(self)@ == old(self)@.changed(
                        placeholder_id@,
                        |e: ExitEntryView| e.attempted(filled_qty, now),
                    )
                    &&& match old(self)@.fill_decision(placeholder_id@, target) {
                        FillDecision::Finish(r) => step is Finished && step->Finished_0@ == r,
                        FillDecision::Place { quantity } => step is Place
                            && step->entry@ == old(self)@.entries[placeholder_id@]
                            && is_exit_request(
                            step->request,
                            old(self)@.entries[placeholder_id@],
                            quantity,
                            old(self)@.placed_count(placeholder_id@),
                            None,
                        ) && ({
                            let entry = old(self)@.entries[placeholder_id@];
                            let covered = active_coverage(entry.status.orders(), entry.order_type);
                            subtracts_exactly(target, covered) ==> quantity@ + covered@ == target@
                        }),
                        FillDecision::OutOfRange => step is OutOfRange,
                    }
                },
            },
    {
        let entry = match self.validate_entry_for_fill(placeholder_id, filled_qty) {
            Ok(entry) => entry,
            Err(result) => {
                return FillStep::Finished(result);
            },
        };
        self.update_last_attempted_fill_qty(placeholder_id, &filled_qty, now);
        let existing_orders = ExitHandler::get_actual_orders_from_entry(&entry);
        let target = if is_partial_fill {
            filled_qty
        } else {
            match position_qty {
                Some(qty) => qty,
                None => total_qty,
            }
        };
        let qty_to_place = match checked_active_coverage(&existing_orders, entry.order_type) {
            Some(covered) => match target.checked_minus(&covered) {
                Some(qty) => qty,
                None => {
                    return FillStep::OutOfRange;
                },
            },
            None => {
                return FillStep::OutOfRange;
            },
        };
        let min_qty = self.config().min_exit_order_qty;
        if qty_to_place.less_than(&min_qty) {
            return FillStep::Finished(
                PlacementResult::deferred(
                    placeholder_id.to_owned(),
                    entry.order_type,
                    join4(
                        "Quantity ",
                        qty_to_place.to_text().as_str(),
                        " below minimum ",
                        min_qty.to_text().as_str(),
                    ),
                ),
            );
        }
        if self.is_circuit_breaker_open_internal() {
            return FillStep::Finished(
                PlacementResult::deferred(
                    placeholder_id.to_owned(),
                    entry.order_type,
                    "Circuit breaker open".to_owned(),
                ),
            );
        }
        let request = ExitHandler::build_exit_order_request(
            &entry,
            qty_to_place,
            entry.placed_count(),
        );
        FillStep::Place { entry, request }
    }

    // -----------------------------------------------------------------------------------
    // Placement
    // -----------------------------------------------------------------------------------

    /// Place an order with retry logic: what is done once the provider has answered.
    ///
    /// An order that is accepted is placed, whether or not its details can be fetched. One
    /// that is refused is submitted again after the next of the configured delays, as long as
    /// there is one, unless the balance does not suffice or the order would trade with
    /// oneself.
    pub fn placement_step(
        &self,
        order: &OrderRequest,
        at: PlacementAttempt,
        event: PlacementEvent,
        now: Timestamp,
    ) -> (step: PlacementStep)
        ensures
            match event {
                PlacementEvent::Submitted(handle) => step == PlacementStep::Fetch(handle),
                PlacementEvent::Fetched(fetched) => step == (PlacementStep::Placed {
                    order: fetched,
                    retry_count: at.retry_count,
                }),
                PlacementEvent::NotFetched(handle) => step == (PlacementStep::Placed {
                    order: fallback_order(*order, handle, now),
                    retry_count: at.retry_count,
                }),
                PlacementEvent::Refused(e) => match final_refusal(
                    e@,
                    order.quantity,
                    self@.config.retry_delays@.len(),
                    at,
                ) {
                    Some((error, retry_count)) => step is Failed && step->Failed_error@ == error
                        && step->Failed_retry_count == retry_count,
                    None => at.attempt < self@.config.retry_delays@.len() && step == (
                    PlacementStep::Retry {
                        delay: self@.config.retry_delays@[at.attempt as int],
                        next: PlacementAttempt {
                            attempt: (at.attempt + 1) as usize,
                            retry_count: attempts_made(at.attempt),
                        },
                    }),
                },
            },
    {
        match event {
            PlacementEvent::Submitted(handle) => PlacementStep::Fetch(handle),
            PlacementEvent::Fetched(fetched) => PlacementStep::Placed {
                order: fetched,
                retry_count: at.retry_count,
            },
            PlacementEvent::NotFetched(handle) => PlacementStep::Placed {
                order: make_fallback_order(order, &handle, now),
                retry_count: at.retry_count,
            },
            PlacementEvent::Refused(e) => {
                match self.classify_and_handle_placement_error(&e, order, at) {
                    Some((error, retry_count)) => PlacementStep::Failed { error, retry_count },
                    None => {
                        let retry_count: u32 = count_attempts(at.attempt);
                        let delays: usize = self.config().retry_delays.len();
                        assert(at.attempt < delays);
                        PlacementStep::Retry {
                            delay: self.config().retry_delays[at.attempt],
                            next: PlacementAttempt { attempt: at.attempt + 1, retry_count },
                        }
                    },
                }
            },
        }
    }

    /// Classify a placement error and return early if it is non-retryable.
    ///
    /// Returns `Some((error, retry_count))` if the order is given up,
    /// or `None` if the error is retryable.
    pub fn classify_and_handle_placement_error(
        &self,
        e: &GatewayError,
        order: &OrderRequest,
        at: PlacementAttempt,
    ) -> (refusal: Option<(PlaceOrderError, u32)>)
        ensures
            match refusal {
                Some((error, retry_count)) => final_refusal(
                    e@,
                    order.quantity,
                    self@.config.retry_delays@.len(),
                    at,
                ) == Some((error@, retry_count)),
                None => final_refusal(e@, order.quantity, self@.config.retry_delays@.len(), at) is None,
            },
    {
        let message = e.to_text();
        let lower = to_lowercase(message.as_str());
        let m = lower.as_str();
        if contains(m, "insufficient") || contains(m, "balance") || contains(m, "not enough") {
            let available_quantity = match parse_available_quantity(message.as_str()) {
                Some(qty) => qty,
                None => Decimal::zero(),
            };
            return Some(
                (
                    PlaceOrderError::InsufficientBalance {
                        message,
                        requested_quantity: order.quantity,
                        available_quantity,
                    },
                    at.retry_count,
                ),
            );
        }
        if contains(m, "wash") || contains(m, "self-trade") {
            return Some((PlaceOrderError::WashTrade { message }, at.retry_count));
        }
        if at.attempt >= self.config().retry_delays.len() {
            let retry_count: u32 = count_attempts(at.attempt);
            let category = classify_error(e);
            return Some((PlaceOrderError::Failed { message, retry_count, category }, retry_count));
        }
        None
    }

    /// Handle a successful order placement: update entry state and reduce the sibling.
    ///
    /// `partial_fill` is `Some((filled_qty, total_qty))` for partial fills, `None` for full
    /// fills. A sibling that is placed itself has to be cancelled at the provider.
    pub fn handle_successful_placement(
        &mut self,
        placeholder_id: &str,
        entry: &ExitEntry,
        placed_order: &Order,
        partial_fill: Option<(Decimal, Decimal)>,
        now: Timestamp,
    ) -> (follow_up: PlacementFollowUp)
        requires
            old(self).wf(),
        ensures
            final(self).wf(),
            ({
                let recorded = old(self)@.with_placement(
                    placeholder_id@,
                    tracked_order(*placed_order, entry.order_type, now),
                    partial_fill,
                    now,
                );
                let success = PlacementView {
                    placeholder_id: placeholder_id@,
                    order_type: entry.order_type,
                    outcome: OutcomeView::Success {
                        actual_order_id: placed_order.id@,
                        order: *placed_order,
                    },
                    sibling_cancellation: None,
                };
                match opt_text(entry.sibling_id) {
                    None => follow_up is Finished && follow_up->Finished_0@ == success
                        && final(self)@ == recorded,
                    Some(sibling) => if !recorded.entries.contains_key(sibling) {
                        follow_up is Finished && follow_up->Finished_0@ == success && final(self)@
                            == recorded
                    } else if recorded.entries[sibling].status.orders().len() > 0 {
                        follow_up is CancelSibling && follow_up->sibling_id@ == sibling && texts(
                            follow_up->order_ids@,
                        ) == order_ids(recorded.entries[sibling].status.orders()) && final(self)@
                            == recorded
                    } else if !recorded.entries[sibling].quantity.subtracts(placed_order.quantity) {
                        follow_up is OutOfRange && final(self)@ == recorded
                    } else {
                        follow_up is Finished && follow_up->Finished_0@ == (PlacementView {
                            sibling_cancellation: Some(
                                pending_sibling(sibling, placed_order.quantity),
                            ),
                            ..success
                        }) && final(self)@ == recorded.with_entry(
                            sibling,
                            recorded.entries[sibling].reduced(
                                placed_order.quantity,
                                old(self)@.config.min_exit_order_qty,
                                now,
                            ),
                        )
                    },
                }
            }),
    {
        let new_order = ActualOrder {
            order_id: placed_order.id.clone(),
            quantity: placed_order.quantity,
            placed_at: now,
            status: ActualOrderStatus::Open,
            leg_type: entry.order_type,
        };
        match partial_fill {
            Some((filled_qty, total_qty)) => {
                self.update_entry_partial_fill(placeholder_id, new_order, filled_qty, total_qty, now);
            },
            None => {
                self.update_entry_to_placed(placeholder_id, new_order, now);
            },
        }
        let sibling_id = match &entry.sibling_id {
            Some(id) => id,
            None => {
                return PlacementFollowUp::Finished(
                    PlacementResult::success(
                        placeholder_id.to_owned(),
                        entry.order_type,
                        placed_order.clone(),
                    ),
                );
            },
        };
        match self.cancel_sibling_at(sibling_id.as_str(), placed_order.quantity, now) {
            SiblingStep::Nothing => PlacementFollowUp::Finished(
                PlacementResult::success(
                    placeholder_id.to_owned(),
                    entry.order_type,
                    placed_order.clone(),
                ),
            ),
            SiblingStep::Done(cancellation) => PlacementFollowUp::Finished(
                PlacementResult::success_with_sibling(
                    placeholder_id.to_owned(),
                    entry.order_type,
                    placed_order.clone(),
                    Some(cancellation),
                ),
            ),
            SiblingStep::CancelAtProvider { order_ids } => PlacementFollowUp::CancelSibling {
                sibling_id: sibling_id.clone(),
                order_ids,
            },
            SiblingStep::OutOfRange => PlacementFollowUp::OutOfRange,
        }
    }

    /// Handle a placement error: an order for which the balance does not suffice, or that
    /// would trade with oneself, is deferred; any other is recorded as failed, and counted by
    /// the circuit breaker where it tells of a failing infrastructure.
    pub fn handle_placement_error(
        &mut self,
        placeholder_id: &str,
        order_type: ExitLegType,
        err: PlaceOrderError,
        retry_count: u32,
        now: Timestamp,
    ) -> (result: PlacementResult)
        requires
            old(self).wf(),
        ensures
            final(self).wf(),
            match err@ {
                PlaceOrderErrorView::InsufficientBalance { message, .. } => {
                    &&& result@ == placement(
                        placeholder_id@,
                        order_type,
                        OutcomeView::Deferred { reason: "Insufficient balance: "@ + message },
                    )
                    &&& final(self)@ == old(self)@
                },
                PlaceOrderErrorView::WashTrade { message } => {
                    &&& result@ == placement(
                        placeholder_id@,
                        order_type,
                        OutcomeView::Deferred { reason: "Wash trade prevention: "@ + message },
                    )
                    &&& final(self)@ == old(self)@
                },
                PlaceOrderErrorView::Failed { message, category, .. } => {
                    let counted = if category == ErrorCategory::InfrastructureFailure {
                        HandlerView {
                            breaker: old(self)@.breaker.after_failure(
                                final(self)@.breaker.failures.last(),
                            ),
                            ..old(self)@
                        }
                    } else {
                        old(self)@
                    };
                    &&& result@ == placement(
                        placeholder_id@,
                        order_type,
                        OutcomeView::Failed { error: message, retry_count },
                    )
                    &&& final(self)@ == counted.with_failed(
                        placeholder_id@,
                        message,
                        retry_count,
                        now,
                    )
                },
            },
    {
        match err {
            PlaceOrderError::InsufficientBalance { message, .. } => PlacementResult::deferred(
                placeholder_id.to_owned(),
                order_type,
                join2("Insufficient balance: ", message.as_str()),
            ),
            PlaceOrderError::WashTrade { message } => PlacementResult::deferred(
                placeholder_id.to_owned(),
                order_type,
                join2("Wash trade prevention: ", message.as_str()),
            ),
            PlaceOrderError::Failed { message, category, .. } => {
                if category.should_count_toward_breaker() {
                    self.count_failure();
                }
                self.update_entry_to_failed_at(placeholder_id, message.as_str(), retry_count, now);
                PlacementResult::failed(placeholder_id.to_owned(), order_type, message, retry_count)
            },
        }
    }

    /// Build an exit order request with the specified quantity.
    ///
    /// `existing_order_count` is the number of actual orders already placed for
    /// this exit entry. Used to generate unique-but-deterministic `client_order_id`
    /// values across partial fills while preserving idempotency within retries.
    pub fn build_exit_order_request(
        entry: &ExitEntry,
        quantity: Decimal,
        existing_order_count: usize,
    ) -> (r: OrderRequest)
        ensures
            is_exit_request(r, entry@, quantity, existing_order_count as nat, None),
    {
        ExitHandler::build_positioned_exit_request(entry, quantity, existing_order_count, None)
    }

    /// Build an exit order request that names the position it protects.
    pub fn build_positioned_exit_request(
        entry: &ExitEntry,
        quantity: Decimal,
        existing_order_count: usize,
        position_id: Option<String>,
    ) -> (r: OrderRequest)
        ensures
            is_exit_request(
                r,
                entry@,
                quantity,
                existing_order_count as nat,
                opt_text(position_id),
            ),
    {
        let (order_type, stop_price, limit_price) = match entry.order_type {
            ExitLegType::StopLoss => match entry.limit_price {
                None => (OrderType::Stop, Some(entry.trigger_price), None),
                Some(limit) => (OrderType::StopLimit, Some(entry.trigger_price), Some(limit)),
            },
            ExitLegType::TakeProfit => (OrderType::Limit, None, Some(entry.trigger_price)),
        };
        let suffix = entry.order_type.client_order_suffix();
        let mut client_order_id = join3(entry.primary_order_id.as_str(), "-", suffix);
        if existing_order_count != 0 {
            client_order_id = join3(
                client_order_id.as_str(),
                "-",
                number_text(existing_order_count as u64).as_str(),
            );
        }
        OrderRequest {
            symbol: entry.symbol.clone(),
            side: entry.side,
            quantity,
            order_type,
            limit_price,
            stop_price,
            trailing_distance: None,
            trailing_type: None,
            stop_loss: None,
            take_profit: None,
            position_id,
            reduce_only: false,
            post_only: false,
            hidden: false,
            display_quantity: None,
            margin_mode: None,
            leverage: None,
            client_order_id: Some(client_order_id),
            oco_group_id: None,
            time_in_force: TimeInForce::Gtc,
        }
    }

    // -----------------------------------------------------------------------------------
    // Updates of entries
    // -----------------------------------------------------------------------------------

    /// Counts an exit order that a move asks for.
    pub fn count_request(&mut self, placeholder_id: &str)
        requires
            old(self).wf(),
        ensures
            final(self).wf(),
            final(self)@ == old(self)@.with_request(placeholder_id@),
    {
        proof {
            self.lemma_rows();
        }
        match self.get_entry(placeholder_id) {
            Some(entry) => {
                let mut entry = entry;
                entry.count_order();
                self.put_entry(entry);
            },
            None => {},
        }
    }

    /// Update last attempted fill quantity for wash trade prevention.
    pub fn update_last_attempted_fill_qty(
        &mut self,
        placeholder_id: &str,
        fill_qty: &Decimal,
        now: Timestamp,
    )
        requires
            old(self).wf(),
        ensures
            final(self).wf(),
            final(self)@ == old(self)@.changed(
                placeholder_id@,
                |e: ExitEntryView| e.attempted(*fill_qty, now),
            ),
    {
        proof {
            self.lemma_rows();
        }
        match self.get_entry(placeholder_id) {
            Some(entry) => {
                let mut entry = entry;
                entry.last_attempted_fill_qty = Some(*fill_qty);
                entry.updated_at = Some(now);
                self.put_entry(entry);
            },
            None => {},
        }
    }

    /// Update entry state for partial fill.
    pub fn update_entry_partial_fill(
        &mut self,
        placeholder_id: &str,
        new_order: ActualOrder,
        filled_qty: Decimal,
        total_qty: Decimal,
        now: Timestamp,
    )
        requires
            old(self).wf(),
        ensures
            final(self).wf(),
            final(self)@ == old(self)@.changed(
                placeholder_id@,
                |e: ExitEntryView| e.partially_filled(new_order, filled_qty, total_qty, now),
            ),
    {
        proof {
            self.lemma_rows();
        }
        match self.get_entry(placeholder_id) {
            Some(entry) => {
                let ghost was = entry@;
                let mut entry = entry;
                let status = match &entry.status {
                    ExitEntryStatus::Pending => ExitEntryStatus::PartiallyTriggered {
                        filled_qty,
                        total_qty,
                        actual_orders: OrderList::of(new_order),
                    },
                    ExitEntryStatus::PartiallyTriggered { total_qty, actual_orders, .. } => {
                        let mut orders = actual_orders.clone();
                        orders.push(new_order);
                        ExitEntryStatus::PartiallyTriggered {
                            filled_qty,
                            total_qty: *total_qty,
                            actual_orders: orders,
                        }
                    },
                    other => other.clone(),
                };
                entry.count_order();
                entry.status = status;
                entry.updated_at = Some(now);
                assert(entry@ =~= was.partially_filled(new_order, filled_qty, total_qty, now));
                self.put_entry(entry);
            },
            None => {},
        }
    }

    /// Update entry state to Placed (full fill complete).
    pub fn update_entry_to_placed(
        &mut self,
        placeholder_id: &str,
        new_order: ActualOrder,
        now: Timestamp,
    )
        requires
            old(self).wf(),
        ensures
            final(self).wf(),
            final(self)@ == old(self)@.changed(
                placeholder_id@,
                |e: ExitEntryView| e.placed(new_order, now),
            ),
    {
        proof {
            self.lemma_rows();
        }
        match self.get_entry(placeholder_id) {
            Some(entry) => {
                let ghost was = entry@;
                let mut entry = entry;
                let mut all_orders = match &entry.status {
                    ExitEntryStatus::PartiallyTriggered { actual_orders, .. } => {
                        actual_orders.clone()
                    },
                    _ => OrderList::new(),
                };
                all_orders.push(new_order);
                entry.count_order();
                entry.status = ExitEntryStatus::Placed { actual_orders: all_orders };
                entry.updated_at = Some(now);
                assert(entry@ =~= was.placed(new_order, now));
                self.put_entry(entry);
            },
            None => {},
        }
    }

    /// Update entry state to Failed, preserving any existing actual orders, at a time.
    pub fn update_entry_to_failed_at(
        &mut self,
        placeholder_id: &str,
        error_message: &str,
        retry_count: u32,
        now: Timestamp,
    )
        requires
            old(self).wf(),
        ensures
            final(self).wf(),
            final(self)@ == old(self)@.with_failed(
                placeholder_id@,
                error_message@,
                retry_count,
                now,
            ),
    {
        proof {
            self.lemma_rows();
        }
        match self.get_entry(placeholder_id) {
            Some(entry) => {
                let ghost was = entry@;
                let mut entry = entry;
                let existing_orders = entry.status.actual_orders();
                entry.set_status_at(
                    ExitEntryStatus::Failed {
                        error: error_message.to_owned(),
                        retry_count,
                        failed_at: now,
                        actual_orders: existing_orders,
                    },
                    now,
                );
                assert(entry@ =~= was.failed(error_message@, retry_count, now));
                self.put_entry(entry);
            },
            None => {},
        }
    }

    /// Update entry state to Failed, preserving any existing actual orders, at the time that
    /// the clock shows.
    pub fn update_entry_to_failed(
        &mut self,
        placeholder_id: &str,
        error_message: &str,
        retry_count: u32,
    )
        requires
            old(self).wf(),
        ensures
            final(self).wf(),
            final(self)@ == old(self)@.with_failed(
                placeholder_id@,
                error_message@,
                retry_count,
                final(self)@.stamp(placeholder_id@),
            ),
    {
        self.update_entry_to_failed_at(placeholder_id, error_message, retry_count, utc_now());
    }
}

fn count_attempts(attempt: usize) -> (n: u32)
    ensures
        n == attempts_made(attempt),
{
    if attempt < u32::MAX as usize {
        attempt as u32 + 1
    } else {
        u32::MAX
    }
}

// ---------------------------------------------------------------------------------------
// Laws
// ---------------------------------------------------------------------------------------

/// The digits of different numbers differ.
proof fn lemma_digits_differ(a: nat, b: nat)
    ensures
        digits(a) == digits(b) ==> a == b,
        digits(a).len() > 0,
    decreases a,
{
    if digits(a) == digits(b) {
        let x = digits(a);
        if a < 10 && b < 10 {
            assert(x[0] == (48 + a) as char);
            assert(x[0] == (48 + b) as char);
        } else if a >= 10 && b >= 10 {
            lemma_digits_differ(a / 10, b / 10);
            assert(digits(a).drop_last() =~= digits(a / 10));
            assert(digits(b).drop_last() =~= digits(b / 10));
            assert(digits(a).last() == (48 + a % 10) as char);
            assert(digits(b).last() == (48 + b % 10) as char);
        } else if a >= 10 {
            lemma_digits_differ(a / 10, 0);
            assert(digits(a).len() > 1);
        } else {
            lemma_digits_some(b / 10);
            assert(digits(b).len() > 1);
        }
    }
    if a >= 10 {
        lemma_digits_some(a / 10);
    }
}

proof fn lemma_digits_some(n: nat)
    ensures
        digits(n).len() > 0,
{
}

/// An order that is placed for a fill makes the next one another: neither a later fill nor a
/// move asks for an order with its client order ID. An order that was not placed does not count,
/// so that the next fill asks for it again under the same ID.
pub proof fn law_placed_orders_count(
    h: HandlerView,
    id: Seq<char>,
    order: ActualOrder,
    partial_fill: Option<(Decimal, Decimal)>,
    fill_qty: Decimal,
    now: Timestamp,
)
    requires
        h.entries.contains_key(id),
        h.placed_count(id) < usize::MAX,
    ensures
        h.with_placement(id, order, partial_fill, now).placed_count(id) > h.placed_count(id),
        h.changed(id, |e: ExitEntryView| e.attempted(fill_qty, now)).placed_count(id)
            == h.placed_count(id),
        ({
            let entry = h.entries[id];
            let next = h.with_placement(id, order, partial_fill, now).placed_count(id);
            client_id(entry.primary_order_id, entry.order_type, h.placed_count(id)) != client_id(
                entry.primary_order_id,
                entry.order_type,
                next,
            )
        }),
{
    let entry = h.entries[id];
    law_client_ids_differ(
        entry.primary_order_id,
        entry.order_type,
        h.placed_count(id),
        h.with_placement(id, order, partial_fill, now).placed_count(id),
    );
}

/// The orders placed one after the other for an entry have different client order IDs.
pub proof fn law_client_ids_differ(primary: Seq<char>, leg: ExitLegType, a: nat, b: nat)
    requires
        a != b,
    ensures
        client_id(primary, leg, a) != client_id(primary, leg, b),
{
    let base = primary + "-"@ + leg.spec_suffix();
    reveal_strlit("-");
    lemma_digits_some(a);
    lemma_digits_some(b);
    if a != 0 && b != 0 && client_id(primary, leg, a) == client_id(primary, leg, b) {
        let n = base.len() + 1;
        assert(client_id(primary, leg, a).skip(n as int) =~= digits(a));
        assert(client_id(primary, leg, b).skip(n as int) =~= digits(b));
        lemma_digits_differ(a, b);
    }
}

/// A failure loses no order: whatever the status of an entry, its orders stay tracked when a
/// placement fails, and when one fails again.
pub proof fn law_failure_keeps_orders(
    entry: ExitEntryView,
    error: Seq<char>,
    retry_count: u32,
    now: Timestamp,
)
    ensures
        entry.failed(error, retry_count, now).status.orders() == entry.status.orders(),
{
}

/// A fill that was tried is not processed again, and neither is a smaller one.
pub proof fn law_fill_processed_once(
    h: HandlerView,
    id: Seq<char>,
    filled_qty: Decimal,
    again: Decimal,
    now: Timestamp,
)
    requires
        h.fill_refusal(id, filled_qty) is None,
        again@ <= filled_qty@,
    ensures
        h.changed(id, |e: ExitEntryView| e.attempted(filled_qty, now)).fill_refusal(id, again)
            == Some(placement(id, h.entries[id].order_type, OutcomeView::AlreadyProcessed)),
{
}

/// While the circuit breaker is open, no exit order is placed for any fill.
pub proof fn law_open_breaker_places_nothing(h: HandlerView, id: Seq<char>, target: Decimal)
    requires
        h.breaker.open,
    ensures
        !(h.fill_decision(id, target) is Place),
{
}

/// An order is submitted at most once more than there are retry delays: the last attempt is
/// not retried.
pub proof fn law_retries_are_bounded(
    error: GatewayErrorView,
    quantity: Decimal,
    delays: nat,
    at: PlacementAttempt,
)
    requires
        at.attempt >= delays,
    ensures
        final_refusal(error, quantity, delays, at) is Some,
{
}

/// An order that is placed for an entry adds its quantity to what the active orders of the leg
/// cover, whether the fill is partial or full; what the other leg of the order covers is not
/// touched.
pub proof fn law_placement_adds_coverage(
    h: HandlerView,
    id: Seq<char>,
    order: ActualOrder,
    partial_fill: Option<(Decimal, Decimal)>,
    now: Timestamp,
    leg_type: ExitLegType,
)
    requires
        h.entries.contains_key(id),
        h.entries[id].status.is_pending(),
        order.status == ActualOrderStatus::Open,
    ensures
        ({
            let before = active_coverage(h.entries[id].status.orders(), leg_type);
            let after = active_coverage(
                h.with_placement(id, order, partial_fill, now).entries[id].status.orders(),
                leg_type,
            );
            after == (if order.leg_type == leg_type {
                before.spec_plus(order.quantity)
            } else {
                before
            })
        }),
{
    let orders = h.entries[id].status.orders();
    let after = h.with_placement(id, order, partial_fill, now).entries[id].status.orders();
    assert(after =~= orders.push(order));
    assert(after.drop_last() =~= orders);
}

/// An entry whose placement failed takes no more fills.
pub proof fn law_failed_entry_takes_no_fill(
    h: HandlerView,
    id: Seq<char>,
    error: Seq<char>,
    retry_count: u32,
    now: Timestamp,
    filled_qty: Decimal,
)
    requires
        h.entries.contains_key(id),
    ensures
        h.with_failed(id, error, retry_count, now).fill_refusal(id, filled_qty) matches Some(r)
            && r.outcome is Deferred,
{
}

} // verus!
