//! Event Router for per-adapter event processing.
//!
//! The Event Router receives normalized events from the provider WebSocket,
//! updates the State Manager, routes fills to the Exit Handler, and decides what is broadcast
//! to connected strategies.
//!
//! # Event Ordering Guarantees
//!
//! 1. State Manager updated BEFORE Exit Handler processes
//! 2. Exit orders placed BEFORE primary fill broadcast
//!
//! This prevents race conditions where a strategy sees a fill and calls
//! `close_position` before Exit Handler has placed SL/TP.

use vstd::prelude::*;
use crate::decimal::{Decimal, lemma_abs};
use crate::error::GatewayError;
use crate::exit_management::cancellation::CloseCancellation;
use crate::exit_management::handler::{ExitHandler, failed_info, order_ids};
use crate::exit_management::types::{
    CancelledExitView, ExitLegType, FailedExitInfo, FailedExitView, OutcomeView, PlacementOutcome,
    PlacementResult, PlacementView,
};
use crate::json::{Json, JsonView, items_view, text_items};
use crate::models::{Order, OrderQueryParams, OrderStatus, Position, PositionSide, Side, TradingPlatform};
use crate::state::{OcoFillRecord, OcoFillView, StateManager, StateView};
use crate::text::{contains, has_part, join2, join3, list_contains, opt_text, same, texts};
use crate::time::Timestamp;
use super::messages::{
    ConnectionEventType, OrderEventType, PositionEventType, WsErrorCode, WsMessage, WsMessageView,
    message_views,
};

verus! {

// ---------------------------------------------------------------------------------------
// Rules
// ---------------------------------------------------------------------------------------

/// Whether an event is a fill.
pub open spec fn spec_is_fill(event: OrderEventType) -> bool {
    event == OrderEventType::OrderFilled || event == OrderEventType::OrderPartiallyFilled
}

impl StateView {
    /// The state after an order event: an order that is open is kept up to date, one that has
    /// come to its end is removed.
    pub open spec fn after_order_event(self, event: OrderEventType, order: Order) -> StateView {
        match event {
            OrderEventType::OrderCreated
            | OrderEventType::OrderModified
            | OrderEventType::BracketOrderCreated
            | OrderEventType::BracketOrderModified => self.with_order(order),
            OrderEventType::OrderPartiallyFilled => self.with_fill(
                order.id@,
                order.filled_quantity,
                order.status,
            ),
            OrderEventType::OrderFilled
            | OrderEventType::OrderCancelled
            | OrderEventType::OrderRejected
            | OrderEventType::OrderExpired => self.without_order(order.id@),
        }
    }

    /// The state after a position event.
    pub open spec fn after_position_event(self, event: PositionEventType, position: Position) -> StateView {
        match event {
            PositionEventType::PositionOpened | PositionEventType::PositionModified => {
                self.with_position(position)
            },
            PositionEventType::PositionClosed => self.without_position(position.id@),
        }
    }

    /// Whether a group is the one that is told of an order: the one it names, or else the one
    /// that the state keeps with the order, or else one that lists it.
    pub open spec fn tells_group(self, order: Order, group: Option<Seq<char>>) -> bool {
        match order.oco_group_id {
            Some(own) => group == Some(own@),
            None => match group {
                Some(g) => self.group_of(order.id@) == Some(g) || (self.group_of(order.id@) is None
                    && self.oco_groups.contains_key(g) && self.oco_groups[g].contains(order.id@)),
                None => self.group_of(order.id@) is None && forall|g: Seq<char>| #[trigger]
                    self.oco_groups.contains_key(g) ==> !self.oco_groups[g].contains(order.id@),
            },
        }
    }

    /// The members of a group other than an order.
    pub open spec fn siblings_in(self, group: Seq<char>, order_id: Seq<char>) -> Set<Seq<char>> {
        if self.oco_groups.contains_key(group) {
            self.oco_groups[group].remove(order_id)
        } else {
            Set::empty()
        }
    }

    /// The net quantity in a symbol: that of the position, below zero where it is short.
    pub open spec fn net_quantity_in(self, symbol: Seq<char>) -> int {
        match self.position_of_symbol(symbol) {
            Some(p) => if p.side == PositionSide::Short {
                -p.quantity@
            } else {
                p.quantity@
            },
            None => 0,
        }
    }

    /// What the net quantity after a fill tells of the position in a symbol: whether it was
    /// opened, modified or closed. A position that changes sides is modified.
    pub open spec fn position_change(self, symbol: Seq<char>, position_qty: Decimal) -> Option<
        PositionEventType,
    > {
        let before = self.net_quantity_in(symbol);
        let after = position_qty@;
        if before == 0 && after != 0 {
            Some(PositionEventType::PositionOpened)
        } else if before != 0 && after == 0 {
            Some(PositionEventType::PositionClosed)
        } else if before != after {
            Some(PositionEventType::PositionModified)
        } else {
            None
        }
    }

    /// The side of the position in a symbol after a fill; a position that is closed keeps the
    /// side it had.
    pub open spec fn side_after(self, symbol: Seq<char>, position_qty: Decimal) -> PositionSide {
        if position_qty@ > 0 {
            PositionSide::Long
        } else if position_qty@ < 0 {
            PositionSide::Short
        } else {
            match self.position_of_symbol(symbol) {
                Some(p) => p.side,
                None => PositionSide::Long,
            }
        }
    }

    /// Whether a position is the one that a fill leaves.
    pub open spec fn is_position_after(
        self,
        position: Position,
        order: Order,
        position_qty: Decimal,
        now: Timestamp,
    ) -> bool {
        &&& position.id@ == order.symbol@ + "_position"@
        &&& position == Position {
            id: position.id,
            symbol: order.symbol,
            side: self.side_after(order.symbol@, position_qty),
            quantity: position_qty.spec_abs(),
            average_entry_price: match order.average_fill_price {
                Some(price) => price,
                None => Decimal::spec_zero(),
            },
            current_price: Decimal::spec_zero(),
            unrealized_pnl: Decimal::spec_zero(),
            realized_pnl: Decimal::spec_zero(),
            margin_mode: None,
            leverage: None,
            liquidation_price: None,
            opened_at: now,
            updated_at: now,
        }
    }
}

/// What a trailing stop is told of an order event.
#[derive(Debug, Clone, Copy)]
pub enum TrailingAction {
    /// The primary order was filled at this price.
    Filled { price: Decimal },
    /// The primary order was cancelled.
    Cancelled,
    /// The primary order was rejected.
    Rejected,
}

/// What a trailing stop is told of an order event.
pub open spec fn spec_trailing_action(event: OrderEventType, order: Order) -> Option<
    TrailingAction,
> {
    match event {
        OrderEventType::OrderFilled => Some(
            TrailingAction::Filled {
                price: match order.average_fill_price {
                    Some(price) => price,
                    None => Decimal::spec_zero(),
                },
            },
        ),
        OrderEventType::OrderCancelled => Some(TrailingAction::Cancelled),
        OrderEventType::OrderRejected => Some(TrailingAction::Rejected),
        _ => None,
    }
}

/// One thing to be done about an order event.
#[derive(Debug, Clone, Copy)]
pub enum OrderEventAction {
    /// The fill is handled by the exit handler.
    RouteFill,
    /// The fill cannot be handled, for want of an adapter.
    ReportUnprotected,
    /// The trailing stop is told.
    Trailing(TrailingAction),
    /// The siblings in the order's OCO group are cancelled.
    CancelSiblings,
    /// The event is broadcast.
    Broadcast,
}

/// What is to be done about an order event once the state is updated, in this order.
pub open spec fn order_actions(
    event: OrderEventType,
    order: Order,
    has_adapter: bool,
    has_trailing: bool,
) -> Seq<OrderEventAction> {
    let fill = if spec_is_fill(event) {
        if has_adapter {
            seq![OrderEventAction::RouteFill]
        } else {
            seq![OrderEventAction::ReportUnprotected]
        }
    } else {
        Seq::empty()
    };
    let trailing = match spec_trailing_action(event, order) {
        Some(action) => if has_trailing {
            seq![OrderEventAction::Trailing(action)]
        } else {
            Seq::empty()
        },
        None => Seq::empty(),
    };
    let siblings = if has_adapter && (event == OrderEventType::OrderFilled || event
        == OrderEventType::OrderRejected) {
        seq![OrderEventAction::CancelSiblings]
    } else {
        Seq::empty()
    };
    fill + trailing + siblings + seq![OrderEventAction::Broadcast]
}

/// The change of an order that the provider's answer shows against what was cached.
pub open spec fn status_change(
    cached_status: Option<OrderStatus>,
    cached_filled_qty: Decimal,
    provider_order: Order,
) -> Option<OrderEventType> {
    let status = provider_order.status;
    if status == OrderStatus::PartiallyFilled {
        if provider_order.filled_quantity@ > cached_filled_qty@ {
            Some(OrderEventType::OrderPartiallyFilled)
        } else {
            None
        }
    } else if cached_status == Some(status) {
        None
    } else {
        match status {
            OrderStatus::Filled => Some(OrderEventType::OrderFilled),
            OrderStatus::Cancelled => Some(OrderEventType::OrderCancelled),
            OrderStatus::Rejected => Some(OrderEventType::OrderRejected),
            OrderStatus::Expired => Some(OrderEventType::OrderExpired),
            _ => None,
        }
    }
}

// ---------------------------------------------------------------------------------------
// Unprotected positions
// ---------------------------------------------------------------------------------------

/// What a message tells of one failed exit.
pub open spec fn exit_json(leg: ExitLegType, error: Seq<char>, ids: Seq<Seq<char>>) -> JsonView {
    JsonView::Object(
        seq![
            ("type"@, JsonView::Text(leg.spec_name())),
            ("error"@, JsonView::Text(error)),
            ("actual_order_ids"@, JsonView::Array(text_items(ids))),
        ],
    )
}

/// Why the placement of an exit leaves a position unprotected: it failed, or the circuit
/// breaker held it back.
pub open spec fn exposure(result: PlacementView) -> Option<Seq<char>> {
    match result.outcome {
        OutcomeView::Failed { error, .. } => Some(error),
        OutcomeView::Deferred { reason } => if has_part(reason, "Circuit breaker"@) {
            Some(reason)
        } else {
            None
        },
        _ => None,
    }
}

/// The exits that leave a position unprotected.
pub open spec fn exposed_exits(results: Seq<PlacementResult>) -> Seq<JsonView>
    decreases results.len(),
{
    if results.len() == 0 {
        Seq::empty()
    } else {
        let before = exposed_exits(results.drop_last());
        match exposure(results.last()@) {
            Some(error) => before.push(
                exit_json(results.last().order_type, error, Seq::empty()),
            ),
            None => before,
        }
    }
}

/// The message on a position that a fill left unprotected.
pub open spec fn unprotected_message(
    order: Order,
    exits: Seq<JsonView>,
    breaker_open: bool,
    now: Timestamp,
) -> WsMessageView {
    WsMessageView::Error {
        code: WsErrorCode::PositionUnprotected,
        message: "Exit order placement failed for "@ + order.symbol@
            + " — position may be unprotected"@,
        details: Some(
            JsonView::Object(
                seq![
                    ("order_id"@, JsonView::Text(order.id@)),
                    ("symbol"@, JsonView::Text(order.symbol@)),
                    ("failed_exits"@, JsonView::Array(exits)),
                    ("circuit_breaker_open"@, JsonView::Bool(breaker_open)),
                ],
            ),
        ),
        timestamp: now,
    }
}

/// What the failed exits of entries tell.
pub open spec fn failed_exits_json(entries: Seq<FailedExitView>) -> Seq<JsonView> {
    entries.map_values(
        |e: FailedExitView| exit_json(e.order_type, e.error, e.actual_order_ids),
    )
}

/// The message that repeats that a position is unprotected.
pub open spec fn repeated_message(
    entries: Seq<FailedExitView>,
    breaker_open: bool,
    now: Timestamp,
) -> WsMessageView {
    let symbol = entries[0].symbol;
    WsMessageView::Error {
        code: WsErrorCode::PositionUnprotected,
        message: "Exit order placement failed for "@ + symbol
            + " — position may be unprotected (re-broadcast on reconnect)"@,
        details: Some(
            JsonView::Object(
                seq![
                    ("order_id"@, JsonView::Text(entries[0].primary_order_id)),
                    ("symbol"@, JsonView::Text(symbol)),
                    ("failed_exits"@, JsonView::Array(failed_exits_json(entries))),
                    ("circuit_breaker_open"@, JsonView::Bool(breaker_open)),
                    ("rebroadcast"@, JsonView::Bool(true)),
                ],
            ),
        ),
        timestamp: now,
    }
}

/// The views of failed entries.
pub open spec fn failed_views(entries: Seq<FailedExitInfo>) -> Seq<FailedExitView> {
    entries.map_values(|e: FailedExitInfo| e@)
}

/// The primary orders of failed entries, each once, in the order of their first entries.
pub open spec fn distinct_primaries(entries: Seq<FailedExitView>) -> Seq<Seq<char>>
    decreases entries.len(),
{
    if entries.len() == 0 {
        Seq::empty()
    } else {
        let before = distinct_primaries(entries.drop_last());
        if before.contains(entries.last().primary_order_id) {
            before
        } else {
            before.push(entries.last().primary_order_id)
        }
    }
}

/// The failed entries of a primary order.
pub open spec fn entries_of(entries: Seq<FailedExitView>, primary: Seq<char>) -> Seq<FailedExitView> {
    entries.filter(|e: FailedExitView| e.primary_order_id == primary)
}

/// The messages that repeat which positions are unprotected: one for each primary order.
pub open spec fn repeated_messages(
    entries: Seq<FailedExitView>,
    breaker_open: bool,
    now: Timestamp,
) -> Seq<WsMessageView> {
    distinct_primaries(entries).map_values(
        |primary: Seq<char>| repeated_message(entries_of(entries, primary), breaker_open, now),
    )
}

// ---------------------------------------------------------------------------------------
// OCO groups
// ---------------------------------------------------------------------------------------

/// The name of a side.
pub open spec fn side_name(side: Side) -> Seq<char> {
    match side {
        Side::Buy => "Buy"@,
        Side::Sell => "Sell"@,
    }
}

fn name_of_side(side: Side) -> (name: &'static str)
    ensures
        name@ == side_name(side),
{
    match side {
        Side::Buy => "Buy",
        Side::Sell => "Sell",
    }
}

/// What a message tells of one fill of a double exit.
pub open spec fn fill_json(order_id: Seq<char>, quantity: Decimal, side: Side) -> JsonView {
    JsonView::Object(
        seq![
            ("order_id"@, JsonView::Text(order_id)),
            ("quantity"@, JsonView::Text(quantity.spec_text())),
            ("side"@, JsonView::Text(side_name(side))),
        ],
    )
}

/// The message on a position that both legs of a group have exited.
pub open spec fn double_exit_message(
    group: Seq<char>,
    first: OcoFillView,
    second: Order,
    total: Decimal,
    now: Timestamp,
) -> WsMessageView {
    WsMessageView::Error {
        code: WsErrorCode::OcoDoubleExit,
        message: "OCO double-exit on "@ + second.symbol@
            + ": both SL and TP filled (total exit qty: "@ + total.spec_text() + ")"@,
        details: Some(
            JsonView::Object(
                seq![
                    ("oco_group_id"@, JsonView::Text(group)),
                    ("symbol"@, JsonView::Text(second.symbol@)),
                    (
                        "first_fill"@,
                        fill_json(
                            first.first_filled_order_id,
                            first.first_filled_qty,
                            first.side,
                        ),
                    ),
                    ("second_fill"@, fill_json(second.id@, second.filled_quantity, second.side)),
                    ("total_exit_quantity"@, JsonView::Text(total.spec_text())),
                ],
            ),
        ),
        timestamp: now,
    }
}

/// What is to be done about the OCO group of an order that was filled or rejected.
#[derive(Debug)]
pub enum OcoStep {
    /// Nothing: the order is in no group.
    Nothing,
    /// The other orders of the group are to be cancelled.
    CancelSiblings { order_ids: Vec<String> },
    /// Another order of the group was filled before: strategies are alerted.
    DoubleExit(WsMessage),
    /// The total exit quantity is out of the range of decimals.
    OutOfRange,
}

/// Whether a refused cancellation tells that the order had come to its end before.
pub fn already_terminal(error: &GatewayError) -> (b: bool)
    ensures
        b == (has_part(error@.text(), "not found"@) || has_part(error@.text(), "already"@)
            || has_part(error@.text(), "terminal"@)),
{
    let text = error.to_text();
    contains(text.as_str(), "not found") || contains(text.as_str(), "already") || contains(
        text.as_str(),
        "terminal",
    )
}

// ---------------------------------------------------------------------------------------
// Reconciliation
// ---------------------------------------------------------------------------------------

/// What is known of an order before the provider is asked about it.
#[derive(Debug)]
pub struct OrderSnapshot {
    /// The order.
    pub order_id: String,
    /// Its cached status.
    pub status: Option<OrderStatus>,
    /// Its cached filled quantity.
    pub filled_quantity: Decimal,
}

/// How a reconciliation begins.
#[derive(Debug)]
pub enum ReconcileStart {
    /// Another one is running.
    AlreadyRunning,
    /// There is no adapter to ask.
    NoAdapter,
    /// The provider is to be asked about these orders.
    Check(Vec<OrderSnapshot>),
}

/// What the provider answered about an order.
#[derive(Debug)]
pub enum QueryAnswer {
    /// Nothing in time.
    TimedOut,
    /// The order as it is now.
    Found(Order),
    /// The order is not there.
    NotFound,
    /// Something else went wrong.
    Failed,
}

/// What the answers about the orders have come to.
#[derive(Debug, Clone, Copy, PartialEq, Eq, Structural)]
pub struct ReconcileTally {
    /// How many orders had changed.
    pub changes_detected: u32,
    /// How many orders could not be asked about.
    pub errors: u32,
}

/// Whether a snapshot shows what is cached of an order.
pub open spec fn shows_order(snapshot: OrderSnapshot, state: StateView) -> bool {
    &&& state.orders.contains_key(snapshot.order_id@)
    &&& snapshot.status == Some(state.orders[snapshot.order_id@].status)
    &&& snapshot.filled_quantity == state.orders[snapshot.order_id@].filled_quantity
}

/// The orders of snapshots.
pub open spec fn snapshot_ids(snapshots: Seq<OrderSnapshot>) -> Seq<Seq<char>> {
    snapshots.map_values(|s: OrderSnapshot| s.order_id@)
}

// ---------------------------------------------------------------------------------------
// Event router
// ---------------------------------------------------------------------------------------

/// Configuration for the Event Router.
#[derive(Debug, Clone, Copy, PartialEq, Eq, Structural)]
pub struct EventRouterConfig {
    /// Whether to broadcast events to strategies.
    /// Useful to disable in tests that only care about state updates.
    pub broadcast_enabled: bool,
}

impl Default for EventRouterConfig {
    fn default() -> (config: EventRouterConfig)
        ensures
            config.broadcast_enabled,
    {
        EventRouterConfig { broadcast_enabled: true }
    }
}

/// Event Router for processing provider events.
///
/// Each adapter (Alpaca, Binance) has its own `EventRouter` instance, ensuring
/// isolated event processing and state management per provider. The router decides; whoever
/// owns it talks to the provider and to the strategies.
pub struct EventRouter {
    /// The cached orders and positions.
    pub state_manager: StateManager,
    /// The exit orders.
    pub exit_handler: ExitHandler,
    /// Platform this router is for.
    pub platform: TradingPlatform,
    /// Configuration.
    pub config: EventRouterConfig,
    /// Count of order events processed.
    pub order_events_processed: u64,
    /// Count of position events processed.
    pub position_events_processed: u64,
    /// Count of fill events routed to exit handler.
    pub fills_routed: u64,
    /// Count of critical notifications (e.g., `PositionUnprotected`) that could not
    /// be delivered because no WebSocket receivers were connected.
    pub critical_notifications_dropped: u64,
    /// Guard to prevent concurrent reconciliation runs.
    pub reconciling: bool,
}

impl EventRouter {
    /// The state and the exit orders are intact.
    pub open spec fn wf(self) -> bool {
        self.state_manager.wf() && self.exit_handler.wf()
    }

    /// Create a new Event Router.
    pub fn new(state_manager: StateManager, exit_handler: ExitHandler, platform: TradingPlatform)
        -> (r: EventRouter)
        ensures
            r == (EventRouter {
                state_manager,
                exit_handler,
                platform,
                config: EventRouterConfig { broadcast_enabled: true },
                order_events_processed: 0,
                position_events_processed: 0,
                fills_routed: 0,
                critical_notifications_dropped: 0,
                reconciling: false,
            }),
    {
        EventRouter::with_config(
            state_manager,
            exit_handler,
            platform,
            EventRouterConfig { broadcast_enabled: true },
        )
    }

    /// Create a new Event Router with custom configuration.
    pub fn with_config(
        state_manager: StateManager,
        exit_handler: ExitHandler,
        platform: TradingPlatform,
        config: EventRouterConfig,
    ) -> (r: EventRouter)
        ensures
            r == (EventRouter {
                state_manager,
                exit_handler,
                platform,
                config,
                order_events_processed: 0,
                position_events_processed: 0,
                fills_routed: 0,
                critical_notifications_dropped: 0,
                reconciling: false,
            }),
    {
        EventRouter {
            state_manager,
            exit_handler,
            platform,
            config,
            order_events_processed: 0,
            position_events_processed: 0,
            fills_routed: 0,
            critical_notifications_dropped: 0,
            reconciling: false,
        }
    }

    /// Get the number of order events processed.
    pub fn order_events_processed(&self) -> (n: u64)
        ensures
            n == self.order_events_processed,
    {
        self.order_events_processed
    }

    /// Get the number of position events processed.
    pub fn position_events_processed(&self) -> (n: u64)
        ensures
            n == self.position_events_processed,
    {
        self.position_events_processed
    }

    /// Get reference to the `StateManager`.
    pub fn state_manager(&self) -> (s: &StateManager)
        ensures
            *s == self.state_manager,
    {
        &self.state_manager
    }

    /// Get the number of fills routed to exit handler.
    pub fn fills_routed(&self) -> (n: u64)
        ensures
            n == self.fills_routed,
    {
        self.fills_routed
    }

    /// Get the number of critical notifications dropped due to no WebSocket receivers.
    pub fn critical_notifications_dropped(&self) -> (n: u64)
        ensures
            n == self.critical_notifications_dropped,
    {
        self.critical_notifications_dropped
    }

    /// Get the platform this router is for.
    pub fn platform(&self) -> (p: TradingPlatform)
        ensures
            p == self.platform,
    {
        self.platform
    }

    /// Counts a critical notification that reached no strategy.
    pub fn note_notification_dropped(&mut self)
        ensures
            *final(self) == (EventRouter {
                critical_notifications_dropped: old(self).critical_notifications_dropped.wrapping_add(1),
                ..*old(self)
            }),
    {
        self.critical_notifications_dropped = self.critical_notifications_dropped.wrapping_add(1);
    }

    // -----------------------------------------------------------------------------------
    // Order events
    // -----------------------------------------------------------------------------------

    /// Check if an event type represents a fill.
    pub fn is_fill_event(event: OrderEventType) -> (b: bool)
        ensures
            b == spec_is_fill(event),
    {
        match event {
            OrderEventType::OrderFilled | OrderEventType::OrderPartiallyFilled => true,
            _ => false,
        }
    }

    /// Update State Manager based on order event type.
    pub fn update_state_for_order_event(&mut self, event: OrderEventType, order: &Order)
        requires
            old(self).wf(),
        ensures
            final(self).wf(),
            final(self).state_manager@ == old(self).state_manager@.after_order_event(event, *order),
            *final(self) == (EventRouter {
                state_manager: final(self).state_manager,
                ..*old(self)
            }),
    {
        match event {
            OrderEventType::OrderCreated
            | OrderEventType::OrderModified
            | OrderEventType::BracketOrderCreated
            | OrderEventType::BracketOrderModified => {
                self.state_manager.upsert_order(order);
            },
            OrderEventType::OrderPartiallyFilled => {
                let _ = self.state_manager.update_order_fill(
                    order.id.as_str(),
                    order.filled_quantity,
                    order.status,
                );
            },
            OrderEventType::OrderFilled
            | OrderEventType::OrderCancelled
            | OrderEventType::OrderRejected
            | OrderEventType::OrderExpired => {
                let _ = self.state_manager.remove_order(order.id.as_str());
            },
        }
    }

    /// What a trailing stop is told of an order event.
    fn trailing_action(event: OrderEventType, order: &Order) -> (action: Option<TrailingAction>)
        ensures
            action == spec_trailing_action(event, *order),
    {
        match event {
            OrderEventType::OrderFilled => Some(
                TrailingAction::Filled {
                    price: match order.average_fill_price {
                        Some(price) => price,
                        None => Decimal::zero(),
                    },
                },
            ),
            OrderEventType::OrderCancelled => Some(TrailingAction::Cancelled),
            OrderEventType::OrderRejected => Some(TrailingAction::Rejected),
            _ => None,
        }
    }

    /// Handle an order event from the provider: update the state, and say what is to be done
    /// next, in which order.
    ///
    /// Fills are handled by the exit handler before they are broadcast. Partial fills do not
    /// cancel the siblings of an OCO group, and neither do cancellations, as what the user
    /// wants is respected.
    pub fn handle_order_event(
        &mut self,
        event: OrderEventType,
        order: &Order,
        has_adapter: bool,
        has_trailing: bool,
    ) -> (actions: Vec<OrderEventAction>)
        requires
            old(self).wf(),
        ensures
            final(self).wf(),
            final(self).state_manager@ == old(self).state_manager@.after_order_event(event, *order),
            *final(self) == (EventRouter {
                state_manager: final(self).state_manager,
                order_events_processed: old(self).order_events_processed.wrapping_add(1),
                ..*old(self)
            }),
            actions@ == order_actions(event, *order, has_adapter, has_trailing),
    {
        self.update_state_for_order_event(event, order);
        let mut actions: Vec<OrderEventAction> = Vec::new();
        if EventRouter::is_fill_event(event) {
            if has_adapter {
                actions.push(OrderEventAction::RouteFill);
            } else {
                actions.push(OrderEventAction::ReportUnprotected);
            }
        }
        if has_trailing {
            match EventRouter::trailing_action(event, order) {
                Some(action) => {
                    actions.push(OrderEventAction::Trailing(action));
                },
                None => {},
            }
        }
        if has_adapter && (event == OrderEventType::OrderFilled || event
            == OrderEventType::OrderRejected) {
            actions.push(OrderEventAction::CancelSiblings);
        }
        actions.push(OrderEventAction::Broadcast);
        assert(actions@ =~= order_actions(event, *order, has_adapter, has_trailing));
        self.order_events_processed = self.order_events_processed.wrapping_add(1);
        actions
    }

    /// Counts a fill that the exit handler has handled.
    pub fn note_fill_routed(&mut self)
        ensures
            *final(self) == (EventRouter {
                fills_routed: old(self).fills_routed.wrapping_add(1),
                ..*old(self)
            }),
    {
        self.fills_routed = self.fills_routed.wrapping_add(1);
    }

    /// Handle an order cancellation event.
    ///
    /// When a primary order is cancelled, this also cancels any pending
    /// exit orders associated with it. Returns their placeholder IDs.
    pub fn handle_order_cancelled(&mut self, order: &Order) -> (cancelled: Vec<String>)
        requires
            old(self).wf(),
        ensures
            final(self).wf(),
            final(self).state_manager@ == old(self).state_manager@.without_order(order.id@),
            *final(self) == (EventRouter {
                state_manager: final(self).state_manager,
                exit_handler: final(self).exit_handler,
                order_events_processed: old(self).order_events_processed.wrapping_add(1),
                ..*old(self)
            }),
            if old(self).exit_handler@.has_pending(order.id@) {
                let before = old(self).exit_handler@;
                &&& exists|now: Timestamp|
                    final(self).exit_handler@ == #[trigger] before.primary_cancelled(order.id@, now)
                &&& texts(cancelled@) == before.pending_infos(
                    before.placeholders(order.id@),
                ).map_values(|v: CancelledExitView| v.placeholder_id)
            } else {
                final(self).exit_handler@ == old(self).exit_handler@ && cancelled@.len() == 0
            },
    {
        let _ = self.state_manager.remove_order(order.id.as_str());
        self.order_events_processed = self.order_events_processed.wrapping_add(1);
        if self.exit_handler.has_pending_for_primary(order.id.as_str()) {
            match self.exit_handler.handle_cancellation(order.id.as_str()) {
                Ok(result) => result.cancelled,
                Err(_) => Vec::new(),
            }
        } else {
            Vec::new()
        }
    }

    /// The message that broadcasts an order event, unless broadcasting is switched off.
    pub fn broadcast_order_event(
        &self,
        event: OrderEventType,
        order: &Order,
        parent_order_id: Option<String>,
        now: Timestamp,
    ) -> (message: Option<WsMessage>)
        ensures
            message == (if self.config.broadcast_enabled {
                Some(WsMessage::Order { event, order: *order, parent_order_id, timestamp: now })
            } else {
                None
            }),
    {
        if !self.config.broadcast_enabled {
            return None;
        }
        Some(WsMessage::Order { event, order: order.clone(), parent_order_id, timestamp: now })
    }

    /// The message that tells strategies that a position may not have SL/TP protection, so
    /// that they can take manual action (e.g., close the position).
    pub fn broadcast_unprotected_position_if_needed(
        &self,
        order: &Order,
        results: &Vec<PlacementResult>,
        now: Timestamp,
    ) -> (message: Option<WsMessage>)
        ensures
            match message {
                Some(m) => exposed_exits(results@).len() > 0 && m@ == unprotected_message(
                    *order,
                    exposed_exits(results@),
                    self.exit_handler@.breaker.open,
                    now,
                ),
                None => exposed_exits(results@).len() == 0,
            },
    {
        let mut failed_exits: Vec<Json> = Vec::new();
        let mut i: usize = 0;
        while i < results.len()
            invariant
                i <= results.len(),
                items_view(failed_exits@) == exposed_exits(results@.take(i as int)),
            decreases results.len() - i,
        {
            let ghost before = failed_exits@;
            proof {
                let longer = results@.take(i + 1);
                assert(longer.drop_last() =~= results@.take(i as int));
                assert(longer.last() == results@[i as int]);
            }
            let error = match &results[i].outcome {
                PlacementOutcome::Failed { error, .. } => Some(error),
                PlacementOutcome::Deferred { reason } => {
                    if contains(reason.as_str(), "Circuit breaker") {
                        Some(reason)
                    } else {
                        None
                    }
                },
                _ => None,
            };
            match error {
                Some(text) => {
                    let none: Vec<String> = Vec::new();
                    assert(texts(none@) =~= Seq::<Seq<char>>::empty());
                    failed_exits.push(exit_details(results[i].order_type, text.as_str(), &none));
                    assert(failed_exits@.drop_last() =~= before);
                },
                None => {},
            }
            i = i + 1;
        }
        assert(results@.take(i as int) =~= results@);
        proof {
            crate::json::lemma_items_view(failed_exits@);
        }
        if failed_exits.len() == 0 {
            return None;
        }
        let ghost exits = exposed_exits(results@);
        let breaker_open = self.exit_handler.is_circuit_breaker_open_internal();
        let details = Json::object().with("order_id", Json::text(order.id.as_str())).with(
            "symbol",
            Json::text(order.symbol.as_str()),
        ).with("failed_exits", Json::Array(failed_exits)).with(
            "circuit_breaker_open",
            Json::Bool(breaker_open),
        );
        proof {
            assert(details@->Object_0 =~= seq![
                ("order_id"@, JsonView::Text(order.id@)),
                ("symbol"@, JsonView::Text(order.symbol@)),
                ("failed_exits"@, JsonView::Array(exits)),
                ("circuit_breaker_open"@, JsonView::Bool(breaker_open)),
            ]);
        }
        Some(
            WsMessage::error_with_details(
                WsErrorCode::PositionUnprotected,
                join3(
                    "Exit order placement failed for ",
                    order.symbol.as_str(),
                    " — position may be unprotected",
                ),
                details,
                now,
            ),
        )
    }

    // -----------------------------------------------------------------------------------
    // OCO groups
    // -----------------------------------------------------------------------------------

    /// The OCO group of an order: the one it names, or else the one that the state knows of.
    ///
    /// Events from the provider may not name the group. The state forgets it together with
    /// the order, so that the group is looked up before the state is updated for the event.
    pub fn oco_group_of(&self, order: &Order) -> (group: Option<String>)
        requires
            self.wf(),
        ensures
            self.state_manager@.tells_group(*order, opt_text(group)),
    {
        match &order.oco_group_id {
            Some(own) => Some(own.clone()),
            None => self.state_manager.get_oco_group_id(order.id.as_str()),
        }
    }

    /// Cancel OCO sibling orders when one order fills or is rejected.
    ///
    /// This implements client-side OCO (One-Cancels-Other) behavior where orders
    /// sharing the same `oco_group_id` are linked. When one fills completely or
    /// is rejected, all siblings are to be cancelled.
    ///
    /// If two orders fill simultaneously (race condition at the provider), both
    /// fill events arrive and both attempt to cancel the other. The second fill
    /// is detected by what was recorded of the first and triggers an `OcoDoubleExit` alert
    /// to connected strategies so they can take corrective action.
    pub fn cancel_oco_siblings(
        &mut self,
        filled_order: &Order,
        group: Option<String>,
        now: Timestamp,
    ) -> (step: OcoStep)
        requires
            old(self).wf(),
        ensures
            final(self).wf(),
            *final(self) == (EventRouter {
                state_manager: final(self).state_manager,
                ..*old(self)
            }),
            match opt_text(group) {
                None => step is Nothing && final(self).state_manager@ == old(self).state_manager@,
                Some(g) => {
                    let before = old(self).state_manager@;
                    if before.oco_fills.contains_key(g) {
                        let first = before.oco_fills[g];
                        let qty = filled_order.filled_quantity;
                        &&& final(self).state_manager@ == before
                        &&& if first.first_filled_qty.adds(qty) {
                            step is DoubleExit && step->DoubleExit_0@ == double_exit_message(
                                g,
                                first,
                                *filled_order,
                                first.first_filled_qty.spec_plus(qty),
                                now,
                            )
                        } else {
                            step is OutOfRange
                        }
                    } else {
                        &&& final(self).state_manager@ == (StateView {
                            oco_fills: before.oco_fills.insert(
                                g,
                                OcoFillView {
                                    first_filled_order_id: filled_order.id@,
                                    first_filled_qty: filled_order.filled_quantity,
                                    symbol: filled_order.symbol@,
                                    side: filled_order.side,
                                },
                            ),
                            ..before
                        })
                        &&& step is CancelSiblings
                        &&& texts(step->order_ids@).no_duplicates()
                        &&& texts(step->order_ids@).to_set() == before.siblings_in(
                            g,
                            filled_order.id@,
                        )
                    }
                },
            },
    {
        let group_id = match group {
            Some(g) => g,
            None => {
                return OcoStep::Nothing;
            },
        };
        match self.state_manager.record_oco_fill(
            group_id.as_str(),
            filled_order.id.as_str(),
            filled_order.filled_quantity,
            filled_order.symbol.as_str(),
            filled_order.side,
        ) {
            Some(first) => match first.first_filled_qty.checked_plus(
                &filled_order.filled_quantity,
            ) {
                Some(total) => OcoStep::DoubleExit(
                    double_exit_alert(group_id.as_str(), &first, filled_order, total, now),
                ),
                None => OcoStep::OutOfRange,
            },
            None => OcoStep::CancelSiblings {
                order_ids: self.state_manager.get_oco_siblings(
                    group_id.as_str(),
                    filled_order.id.as_str(),
                ),
            },
        }
    }

    // -----------------------------------------------------------------------------------
    // Position events
    // -----------------------------------------------------------------------------------

    /// Synthesize a position event from a fill with `position_qty`.
    ///
    /// This is called when Alpaca (or other providers) sends a fill event with
    /// `position_qty` (net position after fill). We compare against `StateManager`
    /// to determine the event type and build a synthetic position. A short position counts as a
    /// net quantity below zero, so that a position that changes sides is modified.
    ///
    /// - `0 -> non-zero` = `PositionOpened`
    /// - `non-zero -> different non-zero` = `PositionModified`
    /// - `non-zero -> 0` = `PositionClosed`
    pub fn synthesize_position_from_fill(&self, order: &Order, position_qty: Decimal, now: Timestamp)
        -> (change: Option<(PositionEventType, Position)>)
        requires
            self.wf(),
        ensures
            match change {
                Some((event, position)) => self.state_manager@.position_change(
                    order.symbol@,
                    position_qty,
                ) == Some(event) && self.state_manager@.is_position_after(
                    position,
                    *order,
                    position_qty,
                    now,
                ),
                None => self.state_manager@.position_change(order.symbol@, position_qty) is None,
            },
    {
        let quantity = position_qty.abs();
        let previous = self.state_manager.get_position_by_symbol(order.symbol.as_str());
        let previous_qty = match &previous {
            Some(p) => match p.side {
                PositionSide::Short => p.quantity.negated(),
                PositionSide::Long => p.quantity,
            },
            None => Decimal::zero(),
        };
        let event = if previous_qty.is_zero() {
            if position_qty.is_zero() {
                return None;
            }
            PositionEventType::PositionOpened
        } else if position_qty.is_zero() {
            PositionEventType::PositionClosed
        } else if previous_qty == position_qty {
            return None;
        } else {
            PositionEventType::PositionModified
        };
        let side = if position_qty.is_positive() {
            PositionSide::Long
        } else if position_qty.is_zero() {
            match &previous {
                Some(p) => p.side,
                None => PositionSide::Long,
            }
        } else {
            PositionSide::Short
        };
        let position = Position {
            id: join2(order.symbol.as_str(), "_position"),
            symbol: order.symbol.clone(),
            side,
            quantity,
            average_entry_price: match order.average_fill_price {
                Some(price) => price,
                None => Decimal::zero(),
            },
            current_price: Decimal::zero(),
            unrealized_pnl: Decimal::zero(),
            realized_pnl: Decimal::zero(),
            margin_mode: None,
            leverage: None,
            liquidation_price: None,
            opened_at: now,
            updated_at: now,
        };
        Some((event, position))
    }

    /// Handle a position event from the provider: update the state, and say which exit
    /// entries are to be cancelled because the position is closed.
    pub fn handle_position_event(
        &mut self,
        event: PositionEventType,
        position: &Position,
        has_adapter: bool,
    ) -> (to_cancel: Vec<CloseCancellation>)
        requires
            old(self).wf(),
        ensures
            final(self).wf(),
            final(self).state_manager@ == old(self).state_manager@.after_position_event(
                event,
                *position,
            ),
            *final(self) == (EventRouter {
                state_manager: final(self).state_manager,
                position_events_processed: old(self).position_events_processed.wrapping_add(1),
                ..*old(self)
            }),
            if event == PositionEventType::PositionClosed && has_adapter {
                let exits = old(self).exit_handler;
                to_cancel@.map_values(
                    |c: CloseCancellation| (c.placeholder_id@, texts(c.order_ids@)),
                ) == exits.rows().filter(
                    |id: Seq<char>| exits@.entries[id].reserves(position.symbol@),
                ).map_values(
                    |id: Seq<char>| (id, order_ids(exits@.entries[id].status.orders())),
                )
            } else {
                to_cancel@.len() == 0
            },
    {
        self.position_events_processed = self.position_events_processed.wrapping_add(1);
        match event {
            PositionEventType::PositionOpened | PositionEventType::PositionModified => {
                self.state_manager.upsert_position(position);
                Vec::new()
            },
            PositionEventType::PositionClosed => {
                let _ = self.state_manager.remove_position(position.id.as_str());
                if has_adapter {
                    self.exit_handler.plan_position_close(position.symbol.as_str())
                } else {
                    Vec::new()
                }
            },
        }
    }

    /// The message that broadcasts a position event, unless broadcasting is switched off.
    pub fn broadcast_position_event(
        &self,
        event: PositionEventType,
        position: &Position,
        now: Timestamp,
    ) -> (message: Option<WsMessage>)
        ensures
            message == (if self.config.broadcast_enabled {
                Some(WsMessage::Position { event, position: *position, timestamp: now })
            } else {
                None
            }),
    {
        if !self.config.broadcast_enabled {
            return None;
        }
        Some(WsMessage::Position { event, position: position.clone(), timestamp: now })
    }

    // -----------------------------------------------------------------------------------
    // Connection events and reconciliation
    // -----------------------------------------------------------------------------------

    /// The message on a connection event (connected, disconnecting, reconnecting), unless
    /// broadcasting is switched off.
    pub fn handle_connection_event(
        &self,
        event: ConnectionEventType,
        error: Option<String>,
        now: Timestamp,
    ) -> (message: Option<WsMessage>)
        ensures
            message == (if self.config.broadcast_enabled {
                Some(
                    WsMessage::Connection {
                        event,
                        error,
                        broker: None,
                        gap_duration_ms: None,
                        timestamp: now,
                    },
                )
            } else {
                None
            }),
    {
        if !self.config.broadcast_enabled {
            return None;
        }
        Some(
            WsMessage::Connection {
                event,
                error,
                broker: None,
                gap_duration_ms: None,
                timestamp: now,
            },
        )
    }

    /// Begins to reconcile the state after a WebSocket reconnection.
    ///
    /// During a disconnect, fills and cancellations may have occurred that the
    /// strategy never received: the provider is asked about every order that is cached.
    ///
    /// Only one reconciliation runs at a time — concurrent reconnect signals
    /// are skipped.
    pub fn begin_reconciliation(&mut self, has_adapter: bool) -> (start: ReconcileStart)
        requires
            old(self).wf(),
        ensures
            final(self).wf(),
            *final(self) == (EventRouter {
                reconciling: old(self).reconciling || has_adapter,
                ..*old(self)
            }),
            old(self).reconciling ==> start is AlreadyRunning,
            !old(self).reconciling && !has_adapter ==> start is NoAdapter,
            !old(self).reconciling && has_adapter ==> {
                &&& start is Check
                &&& snapshot_ids(start->Check_0@).no_duplicates()
                &&& snapshot_ids(start->Check_0@).to_set() == old(self).state_manager@.orders.dom()
                &&& forall|i: int|
                    0 <= i < start->Check_0@.len() ==> shows_order(
                        #[trigger] start->Check_0@[i],
                        old(self).state_manager@,
                    )
            },
    {
        if self.reconciling {
            return ReconcileStart::AlreadyRunning;
        }
        if !has_adapter {
            return ReconcileStart::NoAdapter;
        }
        let ids = self.state_manager.get_all_order_ids();
        let mut snapshots: Vec<OrderSnapshot> = Vec::new();
        let mut i: usize = 0;
        while i < ids.len()
            invariant
                i <= ids.len(),
                self.wf(),
                texts(ids@).to_set() == self.state_manager@.orders.dom(),
                snapshot_ids(snapshots@) == texts(ids@).take(i as int),
                forall|j: int|
                    0 <= j < snapshots@.len() ==> shows_order(
                        #[trigger] snapshots@[j],
                        self.state_manager@,
                    ),
            decreases ids.len() - i,
        {
            let ghost before = snapshot_ids(snapshots@);
            let ghost id = texts(ids@)[i as int];
            proof {
                assert(id == ids@[i as int]@);
                assert(texts(ids@).contains(id));
                assert(self.state_manager@.orders.dom().contains(id));
            }
            let cached = self.state_manager.get_order(ids[i].as_str());
            let (status, filled_quantity) = match &cached {
                Some(c) => (Some(c.status), c.filled_quantity),
                None => (None, Decimal::zero()),
            };
            let snapshot = OrderSnapshot { order_id: ids[i].clone(), status, filled_quantity };
            snapshots.push(snapshot);
            proof {
                assert(snapshot_ids(snapshots@) =~= before.push(id));
                assert(snapshot_ids(snapshots@) =~= texts(ids@).take(i + 1));
            }
            i = i + 1;
        }
        assert(texts(ids@).take(i as int) =~= texts(ids@));
        self.reconciling = true;
        ReconcileStart::Check(snapshots)
    }

    /// Detect what event type represents the status change between cached and provider state.
    ///
    /// Returns `None` if no meaningful change is detected.
    pub fn detect_status_change(
        cached_status: Option<OrderStatus>,
        cached_filled_qty: Decimal,
        provider_order: &Order,
    ) -> (event: Option<OrderEventType>)
        ensures
            event == status_change(cached_status, cached_filled_qty, *provider_order),
    {
        let status = provider_order.status;
        let unchanged = match cached_status {
            Some(cached) => cached == status,
            None => false,
        };
        match status {
            OrderStatus::PartiallyFilled => if cached_filled_qty.less_than(
                &provider_order.filled_quantity,
            ) {
                Some(OrderEventType::OrderPartiallyFilled)
            } else {
                None
            },
            OrderStatus::Filled => if unchanged {
                None
            } else {
                Some(OrderEventType::OrderFilled)
            },
            OrderStatus::Cancelled => if unchanged {
                None
            } else {
                Some(OrderEventType::OrderCancelled)
            },
            OrderStatus::Rejected => if unchanged {
                None
            } else {
                Some(OrderEventType::OrderRejected)
            },
            OrderStatus::Expired => if unchanged {
                None
            } else {
                Some(OrderEventType::OrderExpired)
            },
            _ => None,
        }
    }

    /// Reconciles one order with what the provider answered about it.
    ///
    /// A change is put into the state, and its event is returned: a fill is then handled by
    /// the exit handler, and the event is broadcast. An order that the provider does not know
    /// is removed.
    pub fn reconcile_order(
        &mut self,
        snapshot: &OrderSnapshot,
        answer: &QueryAnswer,
        tally: ReconcileTally,
    ) -> (result: (Option<OrderEventType>, ReconcileTally))
        requires
            old(self).wf(),
        ensures
            final(self).wf(),
            *final(self) == (EventRouter {
                state_manager: final(self).state_manager,
                order_events_processed: if result.0 is Some {
                    old(self).order_events_processed.wrapping_add(1)
                } else {
                    old(self).order_events_processed
                },
                ..*old(self)
            }),
            match *answer {
                QueryAnswer::TimedOut | QueryAnswer::Failed => {
                    &&& result.0 is None
                    &&& result.1 == (ReconcileTally {
                        errors: tally.errors.wrapping_add(1),
                        ..tally
                    })
                    &&& final(self).state_manager@ == old(self).state_manager@
                },
                QueryAnswer::NotFound => {
                    &&& result.0 is None
                    &&& result.1 == (ReconcileTally {
                        changes_detected: tally.changes_detected.wrapping_add(1),
                        ..tally
                    })
                    &&& final(self).state_manager@ == old(self).state_manager@.without_order(
                        snapshot.order_id@,
                    )
                },
                QueryAnswer::Found(order) => {
                    &&& result.0 == status_change(
                        snapshot.status,
                        snapshot.filled_quantity,
                        order,
                    )
                    &&& match result.0 {
                        Some(event) => result.1 == (ReconcileTally {
                            changes_detected: tally.changes_detected.wrapping_add(1),
                            ..tally
                        })
                            && final(self).state_manager@ == old(self).state_manager@.after_order_event(event, order),
                        None => result.1 == tally
                            && final(self).state_manager@ == old(self).state_manager@,
                    }
                },
            },
    {
        match answer {
            QueryAnswer::TimedOut | QueryAnswer::Failed => (
                None,
                ReconcileTally {
                    changes_detected: tally.changes_detected,
                    errors: tally.errors.wrapping_add(1),
                },
            ),
            QueryAnswer::NotFound => {
                let _ = self.state_manager.remove_order(snapshot.order_id.as_str());
                (
                    None,
                    ReconcileTally {
                        changes_detected: tally.changes_detected.wrapping_add(1),
                        errors: tally.errors,
                    },
                )
            },
            QueryAnswer::Found(order) => {
                match EventRouter::detect_status_change(
                    snapshot.status,
                    snapshot.filled_quantity,
                    order,
                ) {
                    Some(event) => {
                        self.update_state_for_order_event(event, order);
                        self.order_events_processed = self.order_events_processed.wrapping_add(1);
                        (
                            Some(event),
                            ReconcileTally {
                                changes_detected: tally.changes_detected.wrapping_add(1),
                                errors: tally.errors,
                            },
                        )
                    },
                    None => (None, tally),
                }
            },
        }
    }

    /// The question for the open orders that the state is synced with.
    pub fn open_orders_query() -> (params: OrderQueryParams)
        ensures
            params.status matches Some(list) && list@ == seq![
                OrderStatus::Open,
                OrderStatus::PartiallyFilled,
                OrderStatus::Pending,
            ],
            params == (OrderQueryParams {
                symbol: None,
                status: params.status,
                side: None,
                client_order_id: None,
                oco_group_id: None,
                since: None,
                until: None,
                limit: None,
            }),
    {
        let mut statuses: Vec<OrderStatus> = Vec::new();
        statuses.push(OrderStatus::Open);
        statuses.push(OrderStatus::PartiallyFilled);
        statuses.push(OrderStatus::Pending);
        assert(statuses@ =~= seq![
            OrderStatus::Open,
            OrderStatus::PartiallyFilled,
            OrderStatus::Pending,
        ]);
        let mut params = OrderQueryParams::default();
        params.status = Some(statuses);
        params
    }

    /// Ends a reconciliation without success: nothing is synced, and strategies are not told
    /// that the provider is connected.
    pub fn abandon_reconciliation(&mut self)
        ensures
            *final(self) == (EventRouter { reconciling: false, ..*old(self) }),
    {
        self.reconciling = false;
    }

    /// Ends a reconciliation with what the provider answered about its open orders and
    /// positions: where either cannot be had, it is abandoned.
    pub fn conclude_reconciliation(
        &mut self,
        orders: Result<Vec<Order>, GatewayError>,
        positions: Result<Vec<Position>, GatewayError>,
        now: Timestamp,
    ) -> (messages: Vec<WsMessage>)
        requires
            old(self).wf(),
        ensures
            final(self).wf(),
            match (orders, positions) {
                (Ok(open_orders), Ok(held)) => final(self).has_finished(
                    *old(self),
                    open_orders@,
                    held@,
                    message_views(messages@),
                    now,
                ),
                _ => messages@.len() == 0 && *final(self) == (EventRouter {
                    reconciling: false,
                    ..*old(self)
                }),
            },
    {
        match (orders, positions) {
            (Ok(open_orders), Ok(held)) => self.finish_reconciliation(open_orders, held, now),
            _ => {
                self.abandon_reconciliation();
                Vec::new()
            },
        }
    }

    /// Whether a reconciliation has ended, from a state before, with the open orders and
    /// positions of the provider: the state is what they make it, the failed entries are
    /// cleared, and strategies are told of the positions that are unprotected and, at last, of
    /// the connection.
    pub open spec fn has_finished(
        self,
        before: EventRouter,
        open_orders: Seq<Order>,
        positions: Seq<Position>,
        messages: Seq<WsMessageView>,
        now: Timestamp,
    ) -> bool {
        let exits = before.exit_handler;
        let failed = exits.rows().filter(
            |id: Seq<char>| exits@.entries[id].status is Failed,
        ).map_values(|id: Seq<char>| failed_info(exits@.entries[id]));
        let connected = if before.config.broadcast_enabled {
            seq![
                WsMessageView::Connection {
                    event: ConnectionEventType::Connected,
                    error: None,
                    broker: None,
                    gap_duration_ms: None,
                    timestamp: now,
                },
            ]
        } else {
            Seq::empty()
        };
        &&& self == EventRouter {
            state_manager: self.state_manager,
            exit_handler: self.exit_handler,
            reconciling: false,
            ..before
        }
        &&& self.state_manager@ == StateView::empty().with_orders(open_orders).with_positions(
            positions,
        )
        &&& self.exit_handler@ == exits@.purged(
            exits@.entries.dom().filter(|id: Seq<char>| exits@.entries[id].status is Failed),
        )
        &&& messages == repeated_messages(failed, exits@.breaker.open, now) + connected
    }

    /// Ends a reconciliation with the open orders and positions of the provider.
    ///
    /// The state is synced, strategies are told again of the positions that are unprotected,
    /// whose failed entries are then cleared, and at last that the provider is connected.
    pub fn finish_reconciliation(
        &mut self,
        open_orders: Vec<Order>,
        positions: Vec<Position>,
        now: Timestamp,
    ) -> (messages: Vec<WsMessage>)
        requires
            old(self).wf(),
        ensures
            final(self).wf(),
            final(self).has_finished(
                *old(self),
                open_orders@,
                positions@,
                message_views(messages@),
                now,
            ),
    {
        self.sync_state_from_provider(open_orders, positions);
        let failed_entries = self.exit_handler.get_failed_entries_internal();
        let mut messages = self.rebroadcast_unprotected_positions(&failed_entries, now);
        let ghost repeated = message_views(messages@);
        let _ = self.exit_handler.clear_failed_entries_internal();
        match self.handle_connection_event(ConnectionEventType::Connected, None, now) {
            Some(connected) => {
                messages.push(connected);
                assert(message_views(messages@) =~= repeated.push(connected@));
                assert(repeated.push(connected@) =~= repeated + seq![connected@]);
            },
            None => {
                assert(repeated =~= repeated + Seq::<WsMessageView>::empty());
            },
        }
        self.reconciling = false;
        messages
    }

    /// The messages that repeat `PositionUnprotected` errors for failed exit entries.
    ///
    /// Called during reconnect reconciliation to recover notifications that may
    /// have been dropped when the strategy was disconnected. Groups entries by
    /// primary order ID so each unprotected position gets exactly one notification.
    pub fn rebroadcast_unprotected_positions(
        &self,
        failed_entries: &Vec<FailedExitInfo>,
        now: Timestamp,
    ) -> (messages: Vec<WsMessage>)
        ensures
            message_views(messages@) == repeated_messages(
                failed_views(failed_entries@),
                self.exit_handler@.breaker.open,
                now,
            ),
    {
        let breaker_open = self.exit_handler.is_circuit_breaker_open_internal();
        let ghost entries = failed_views(failed_entries@);
        let primaries = collect_primaries(failed_entries);
        let ghost distinct = distinct_primaries(entries);
        let ghost told = repeated_messages(entries, breaker_open, now);
        let mut messages: Vec<WsMessage> = Vec::new();
        let mut i: usize = 0;
        while i < primaries.len()
            invariant
                i <= primaries.len(),
                entries == failed_views(failed_entries@),
                distinct == distinct_primaries(entries),
                texts(primaries@) == distinct,
                told == repeated_messages(entries, breaker_open, now),
                message_views(messages@) == told.take(i as int),
            decreases primaries.len() - i,
        {
            let ghost before = message_views(messages@);
            let ghost primary = distinct[i as int];
            proof {
                assert(primary == primaries@[i as int]@);
                lemma_distinct_has_entries(entries, primary);
            }
            let message = repeat_alert(
                failed_entries,
                primaries[i].as_str(),
                breaker_open,
                now,
            );
            messages.push(message);
            proof {
                assert(message_views(messages@) =~= before.push(message@));
                assert(message_views(messages@) =~= told.take(i + 1));
            }
            i = i + 1;
        }
        assert(told.take(i as int) =~= told);
        messages
    }

    /// Sync State Manager from provider data.
    ///
    /// Called on initial connect or reconnect to ensure state is accurate.
    /// This replaces all cached state with fresh data from the provider.
    pub fn sync_state_from_provider(&mut self, orders: Vec<Order>, positions: Vec<Position>)
        requires
            old(self).wf(),
        ensures
            final(self).wf(),
            *final(self) == (EventRouter {
                state_manager: final(self).state_manager,
                ..*old(self)
            }),
            final(self).state_manager@ == StateView::empty().with_orders(orders@).with_positions(
                positions@,
            ),
    {
        self.state_manager.sync_from_provider(orders, positions);
    }
}

// ---------------------------------------------------------------------------------------
// Building messages
// ---------------------------------------------------------------------------------------

fn exit_details(leg: ExitLegType, error: &str, ids: &Vec<String>) -> (details: Json)
    ensures
        details@ == exit_json(leg, error@, texts(ids@)),
{
    let details = Json::object().with("type", Json::text(leg.name())).with(
        "error",
        Json::text(error),
    ).with("actual_order_ids", Json::texts(ids));
    assert(details@->Object_0 =~= seq![
        ("type"@, JsonView::Text(leg.spec_name())),
        ("error"@, JsonView::Text(error@)),
        ("actual_order_ids"@, JsonView::Array(text_items(texts(ids@)))),
    ]);
    details
}

fn fill_details(order_id: &str, quantity: &Decimal, side: Side) -> (details: Json)
    ensures
        details@ == fill_json(order_id@, *quantity, side),
        details is Object,
{
    let details = Json::object().with("order_id", Json::text(order_id)).with(
        "quantity",
        Json::text(quantity.to_text().as_str()),
    ).with("side", Json::text(name_of_side(side)));
    assert(details@->Object_0 =~= seq![
        ("order_id"@, JsonView::Text(order_id@)),
        ("quantity"@, JsonView::Text(quantity.spec_text())),
        ("side"@, JsonView::Text(side_name(side))),
    ]);
    details
}

fn double_exit_alert(
    group: &str,
    first: &OcoFillRecord,
    second: &Order,
    total: Decimal,
    now: Timestamp,
) -> (m: WsMessage)
    ensures
        m@ == double_exit_message(group@, first@, *second, total, now),
{
    let details = Json::object().with("oco_group_id", Json::text(group)).with(
        "symbol",
        Json::text(second.symbol.as_str()),
    ).with(
        "first_fill",
        fill_details(first.first_filled_order_id.as_str(), &first.first_filled_qty, first.side),
    ).with(
        "second_fill",
        fill_details(second.id.as_str(), &second.filled_quantity, second.side),
    ).with("total_exit_quantity", Json::text(total.to_text().as_str()));
    proof {
        assert(details@->Object_0 =~= seq![
            ("oco_group_id"@, JsonView::Text(group@)),
            ("symbol"@, JsonView::Text(second.symbol@)),
            (
                "first_fill"@,
                fill_json(first.first_filled_order_id@, first.first_filled_qty, first.side),
            ),
            ("second_fill"@, fill_json(second.id@, second.filled_quantity, second.side)),
            ("total_exit_quantity"@, JsonView::Text(total.spec_text())),
        ]);
    }
    let mut text = join3(
        "OCO double-exit on ",
        second.symbol.as_str(),
        ": both SL and TP filled (total exit qty: ",
    );
    text.append(total.to_text().as_str());
    text.append(")");
    WsMessage::error_with_details(WsErrorCode::OcoDoubleExit, text, details, now)
}

fn collect_primaries(failed_entries: &Vec<FailedExitInfo>) -> (primaries: Vec<String>)
    ensures
        texts(primaries@) == distinct_primaries(failed_views(failed_entries@)),
{
    let ghost entries = failed_views(failed_entries@);
    let mut primaries: Vec<String> = Vec::new();
    let mut i: usize = 0;
    assert(texts(primaries@) =~= distinct_primaries(entries.take(0)));
    while i < failed_entries.len()
        invariant
            i <= failed_entries.len(),
            entries == failed_views(failed_entries@),
            texts(primaries@) == distinct_primaries(entries.take(i as int)),
        decreases failed_entries.len() - i,
    {
        let ghost before = texts(primaries@);
        proof {
            let longer = entries.take(i + 1);
            assert(longer.drop_last() =~= entries.take(i as int));
            assert(longer.last() == failed_entries@[i as int]@);
        }
        if !list_contains(&primaries, failed_entries[i].primary_order_id.as_str()) {
            primaries.push(failed_entries[i].primary_order_id.clone());
            assert(texts(primaries@) =~= before.push(failed_entries@[i as int].primary_order_id@));
        }
        i = i + 1;
    }
    assert(entries.take(i as int) =~= entries);
    primaries
}

/// The message on the failed entries of a primary order.
fn repeat_alert(
    failed_entries: &Vec<FailedExitInfo>,
    primary: &str,
    breaker_open: bool,
    now: Timestamp,
) -> (m: WsMessage)
    requires
        entries_of(failed_views(failed_entries@), primary@).len() > 0,
    ensures
        m@ == repeated_message(
            entries_of(failed_views(failed_entries@), primary@),
            breaker_open,
            now,
        ),
{
    let ghost entries = failed_views(failed_entries@);
    let ghost own = |e: FailedExitView| e.primary_order_id == primary@;
    let mut exits: Vec<Json> = Vec::new();
    let mut symbol: Option<String> = None;
    let mut i: usize = 0;
    proof {
        reveal(Seq::filter);
        assert(failed_exits_json(entries.take(0).filter(own)) =~= Seq::<JsonView>::empty());
    }
    while i < failed_entries.len()
        invariant
            i <= failed_entries.len(),
            entries == failed_views(failed_entries@),
            own == |e: FailedExitView| e.primary_order_id == primary@,
            items_view(exits@) == failed_exits_json(entries.take(i as int).filter(own)),
            match symbol {
                Some(s) => entries.take(i as int).filter(own).len() > 0 && s@ == entries.take(
                    i as int,
                ).filter(own)[0].symbol && entries.take(i as int).filter(own)[0].primary_order_id
                    == primary@,
                None => entries.take(i as int).filter(own).len() == 0,
            },
        decreases failed_entries.len() - i,
    {
        let ghost before = exits@;
        let ghost kept = entries.take(i as int).filter(own);
        let ghost e = entries[i as int];
        proof {
            crate::exit_management::handler::lemma_filter_next(entries, i as int, own);
            assert(e == failed_entries@[i as int]@);
        }
        if same(failed_entries[i].primary_order_id.as_str(), primary) {
            exits.push(
                exit_details(
                    failed_entries[i].order_type,
                    failed_entries[i].error.as_str(),
                    &failed_entries[i].actual_order_ids,
                ),
            );
            if symbol.is_none() {
                symbol = Some(failed_entries[i].symbol.clone());
            }
            proof {
                assert(own(e));
                assert(exits@.drop_last() =~= before);
                assert(failed_exits_json(kept.push(e)) =~= failed_exits_json(kept).push(
                    exit_json(e.order_type, e.error, e.actual_order_ids),
                ));
            }
        }
        i = i + 1;
    }
    assert(entries.take(i as int) =~= entries);
    let ghost mine = entries_of(entries, primary@);
    assert(mine =~= entries.filter(own));
    let symbol = match symbol {
        Some(s) => s,
        None => String::new(),
    };
    let details = Json::object().with("order_id", Json::text(primary)).with(
        "symbol",
        Json::text(symbol.as_str()),
    ).with("failed_exits", Json::Array(exits)).with(
        "circuit_breaker_open",
        Json::Bool(breaker_open),
    ).with("rebroadcast", Json::Bool(true));
    proof {
        assert(details@->Object_0 =~= seq![
            ("order_id"@, JsonView::Text(mine[0].primary_order_id)),
            ("symbol"@, JsonView::Text(mine[0].symbol)),
            ("failed_exits"@, JsonView::Array(failed_exits_json(mine))),
            ("circuit_breaker_open"@, JsonView::Bool(breaker_open)),
            ("rebroadcast"@, JsonView::Bool(true)),
        ]);
    }
    WsMessage::error_with_details(
        WsErrorCode::PositionUnprotected,
        join3(
            "Exit order placement failed for ",
            symbol.as_str(),
            " — position may be unprotected (re-broadcast on reconnect)",
        ),
        details,
        now,
    )
}

// ---------------------------------------------------------------------------------------
// Lemmas and laws
// ---------------------------------------------------------------------------------------

/// Every primary order that is listed has an entry, and every entry's primary is listed.
proof fn lemma_distinct(entries: Seq<FailedExitView>)
    ensures
        distinct_primaries(entries).no_duplicates(),
        forall|p: Seq<char>| #[trigger]
            distinct_primaries(entries).contains(p) <==> exists|i: int|
                0 <= i < entries.len() && (#[trigger] entries[i]).primary_order_id == p,
    decreases entries.len(),
{
    if entries.len() > 0 {
        let rest = entries.drop_last();
        let last = entries.last().primary_order_id;
        lemma_distinct(rest);
        let before = distinct_primaries(rest);
        crate::exit_management::handler::lemma_contains_push(before, last);
        assert forall|p: Seq<char>| #[trigger] distinct_primaries(entries).contains(p)
            <==> exists|i: int|
            0 <= i < entries.len() && (#[trigger] entries[i]).primary_order_id == p by {
            if before.contains(p) {
                let i = choose|i: int|
                    0 <= i < rest.len() && (#[trigger] rest[i]).primary_order_id == p;
                assert(entries[i].primary_order_id == p);
            }
            if p == last {
                assert(entries[entries.len() - 1].primary_order_id == p);
            }
            if exists|i: int| 0 <= i < entries.len() && (#[trigger] entries[i]).primary_order_id == p {
                let i = choose|i: int|
                    0 <= i < entries.len() && (#[trigger] entries[i]).primary_order_id == p;
                if i < rest.len() {
                    assert(rest[i].primary_order_id == p);
                }
            }
        }
    }
}

proof fn lemma_filter_keeps(entries: Seq<FailedExitView>, primary: Seq<char>, i: int)
    requires
        0 <= i < entries.len(),
        entries[i].primary_order_id == primary,
    ensures
        entries_of(entries, primary).len() > 0,
    decreases entries.len(),
{
    reveal(Seq::filter);
    if i < entries.len() - 1 {
        lemma_filter_keeps(entries.drop_last(), primary, i);
    }
}

proof fn lemma_distinct_has_entries(entries: Seq<FailedExitView>, primary: Seq<char>)
    requires
        distinct_primaries(entries).contains(primary),
    ensures
        entries_of(entries, primary).len() > 0,
{
    lemma_distinct(entries);
    let i = choose|i: int|
        0 <= i < entries.len() && (#[trigger] entries[i]).primary_order_id == primary;
    lemma_filter_keeps(entries, primary, i);
}

/// On reconnect each unprotected position gets exactly one notification: there is one message
/// for each primary order that has a failed entry, and none for any other.
pub proof fn law_one_notification_per_position(
    entries: Seq<FailedExitView>,
    breaker_open: bool,
    now: Timestamp,
)
    ensures
        repeated_messages(entries, breaker_open, now).len() == distinct_primaries(entries).len(),
        distinct_primaries(entries).no_duplicates(),
        forall|p: Seq<char>| #[trigger]
            distinct_primaries(entries).contains(p) <==> exists|i: int|
                0 <= i < entries.len() && (#[trigger] entries[i]).primary_order_id == p,
{
    lemma_distinct(entries);
}

/// An event is broadcast once, after everything else is done: the exit orders of a fill are
/// placed, and its siblings cancelled, before strategies see it.
pub proof fn law_broadcast_comes_last(
    event: OrderEventType,
    order: Order,
    has_adapter: bool,
    has_trailing: bool,
)
    ensures
        order_actions(event, order, has_adapter, has_trailing).len() > 0,
        order_actions(event, order, has_adapter, has_trailing).last() is Broadcast,
        forall|i: int|
            0 <= i < order_actions(event, order, has_adapter, has_trailing).len() - 1 ==> !(
            #[trigger] order_actions(event, order, has_adapter, has_trailing)[i] is Broadcast),
        spec_is_fill(event) && has_adapter ==> order_actions(
            event,
            order,
            has_adapter,
            has_trailing,
        )[0] is RouteFill,
{
}

/// Neither a partial fill nor a cancellation cancels the siblings of an OCO group.
pub proof fn law_only_ends_cancel_siblings(
    event: OrderEventType,
    order: Order,
    has_adapter: bool,
    has_trailing: bool,
    i: int,
)
    requires
        0 <= i < order_actions(event, order, has_adapter, has_trailing).len(),
        order_actions(event, order, has_adapter, has_trailing)[i] is CancelSiblings,
    ensures
        event == OrderEventType::OrderFilled || event == OrderEventType::OrderRejected,
{
}

/// The siblings of an order that is filled or rejected are cancelled, all of them and no other,
/// whether or not the event names their group: the group that is told of the order before the
/// event has, after it, the same members as before but for the order itself, and what was
/// recorded of its exits is the same.
pub proof fn law_siblings_outlive_the_event(
    s: StateView,
    event: OrderEventType,
    order: Order,
    group: Seq<char>,
)
    requires
        s.consistent(),
        event == OrderEventType::OrderFilled || event == OrderEventType::OrderRejected,
        s.tells_group(order, Some(group)),
    ensures
        s.after_order_event(event, order).siblings_in(group, order.id@) == s.siblings_in(
            group,
            order.id@,
        ),
        s.after_order_event(event, order).oco_fills == s.oco_fills,
        order.oco_group_id is None ==> s.oco_groups.contains_key(group)
            && s.oco_groups[group].contains(order.id@),
        order.oco_group_id is None ==> forall|id: Seq<char>|
            s.oco_groups[group].contains(id) && id != order.id@ <==> #[trigger] s.after_order_event(
                event,
                order,
            ).siblings_in(group, order.id@).contains(id),
{
    let after = s.after_order_event(event, order);
    assert(after.siblings_in(group, order.id@) =~= s.siblings_in(group, order.id@));
}

/// A fill that leaves the same net quantity changes nothing, and the net quantity of a position
/// is that of the last fill, with its sign: what is synthesized from a fill makes the same fill
/// no change, and a fill that leaves another net quantity a change.
pub proof fn law_position_change_settles(
    s: StateView,
    order: Order,
    position_qty: Decimal,
    position: Position,
    now: Timestamp,
)
    requires
        s.consistent(),
        position_qty.in_range(),
        position_qty@ != 0,
        s.is_position_after(position, order, position_qty, now),
    ensures
        s.with_position(position).net_quantity_in(order.symbol@) == position_qty@,
        forall|next: Decimal|
            #![trigger s.with_position(position).position_change(order.symbol@, next)]
            s.with_position(position).position_change(order.symbol@, next) is None <==> next@
                == position_qty@,
{
    let t = s.with_position(position);
    assert(t.position_of_symbol(order.symbol@) is Some);
    assert(t.position_of_symbol(order.symbol@)->0.quantity == position.quantity);
    assert(t.position_of_symbol(order.symbol@)->0.side == position.side);
    lemma_abs(position_qty);
}

/// A position that changes sides is modified, and not passed over as the same quantity.
pub proof fn law_flip_is_a_change(s: StateView, symbol: Seq<char>, position_qty: Decimal)
    requires
        s.net_quantity_in(symbol) != 0,
        position_qty@ == -s.net_quantity_in(symbol),
    ensures
        s.position_change(symbol, position_qty) == Some(PositionEventType::PositionModified),
        s.side_after(symbol, position_qty) == (if s.net_quantity_in(symbol) > 0 {
            PositionSide::Short
        } else {
            PositionSide::Long
        }),
{
}

/// The first exit that was recorded of an OCO group is forgotten by no event, so that a second
/// exit is noticed whatever happens in between.
pub proof fn law_recorded_exit_is_kept(
    s: StateView,
    event: OrderEventType,
    order: Order,
    position_event: PositionEventType,
    position: Position,
)
    ensures
        s.after_order_event(event, order).oco_fills == s.oco_fills,
        s.after_position_event(position_event, position).oco_fills == s.oco_fills,
{
}

/// An order whose change was taken over shows no change any more: either it has come to its end
/// and is no longer checked, or the provider's answer is what is cached of it.
pub proof fn law_reconciled_order_settles(s: StateView, order: Order)
    requires
        s.orders.contains_key(order.id@),
    ensures
        ({
            let cached = s.orders[order.id@];
            status_change(Some(cached.status), cached.filled_quantity, order) matches Some(event)
                ==> {
                let after = s.after_order_event(event, order);
                after.orders.contains_key(order.id@) ==> status_change(
                    Some(after.orders[order.id@].status),
                    after.orders[order.id@].filled_quantity,
                    order,
                ) is None
            }
        }),
{
}

} // verus!
