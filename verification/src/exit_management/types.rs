//! Core domain types for exit order management.
//!
//! The entries that track pending stop-loss and take-profit orders, the states that they go
//! through, the configuration, and the results of placing and cancelling exit orders.

use vstd::prelude::*;
use vstd::string::*;
use std::time::Instant;
use crate::decimal::Decimal;
use crate::error::{GatewayError, rfc3339, rfc3339_text};
use crate::models::{Order, Side, TradingPlatform};
use crate::text::{
    digits, has_prefix, join2, join3, in_small_letters, number_text, opt_text, quote, quoted,
    same_ignoring_case, strip_prefix, texts,
};
use crate::time::{Duration, NANOS_PER_MILLI, NANOS_PER_SEC, Timestamp, instant_now, utc_now};
use super::order_list::OrderList;

verus! {

// ---------------------------------------------------------------------------------------
// Exit leg type
// ---------------------------------------------------------------------------------------

/// Type of exit order leg: stop-loss or take-profit.
#[derive(Debug, Clone, Copy, PartialEq, Eq, Structural)]
pub enum ExitLegType {
    /// Stop-loss order to limit downside.
    StopLoss,
    /// Take-profit order to lock in gains.
    TakeProfit,
}

impl ExitLegType {
    /// The prefix of the placeholder IDs of a leg type.
    pub open spec fn spec_prefix(self) -> Seq<char> {
        match self {
            ExitLegType::StopLoss => "exit:sl:"@,
            ExitLegType::TakeProfit => "exit:tp:"@,
        }
    }

    /// The suffix of the client order IDs of a leg type.
    pub open spec fn spec_suffix(self) -> Seq<char> {
        match self {
            ExitLegType::StopLoss => "sl"@,
            ExitLegType::TakeProfit => "tp"@,
        }
    }

    /// How a leg type is written in messages.
    pub open spec fn spec_text(self) -> Seq<char> {
        match self {
            ExitLegType::StopLoss => "stop_loss"@,
            ExitLegType::TakeProfit => "take_profit"@,
        }
    }

    /// The name of the variant.
    pub open spec fn spec_name(self) -> Seq<char> {
        match self {
            ExitLegType::StopLoss => "StopLoss"@,
            ExitLegType::TakeProfit => "TakeProfit"@,
        }
    }

    /// Returns the prefix used in placeholder IDs.
    pub fn prefix(&self) -> (text: &'static str)
        ensures
            text@ == self.spec_prefix(),
    {
        match self {
            ExitLegType::StopLoss => "exit:sl:",
            ExitLegType::TakeProfit => "exit:tp:",
        }
    }

    /// Returns the short suffix used in deterministic client order IDs.
    ///
    /// Used by exit order placement to generate `{primary_order_id}-{suffix}`
    /// for idempotent retry protection.
    pub fn client_order_suffix(&self) -> (text: &'static str)
        ensures
            text@ == self.spec_suffix(),
    {
        match self {
            ExitLegType::StopLoss => "sl",
            ExitLegType::TakeProfit => "tp",
        }
    }

    /// The leg type as text.
    pub fn as_str(&self) -> (text: &'static str)
        ensures
            text@ == self.spec_text(),
    {
        match self {
            ExitLegType::StopLoss => "stop_loss",
            ExitLegType::TakeProfit => "take_profit",
        }
    }

    /// The name of the variant.
    pub fn name(&self) -> (text: &'static str)
        ensures
            text@ == self.spec_name(),
    {
        match self {
            ExitLegType::StopLoss => "StopLoss",
            ExitLegType::TakeProfit => "TakeProfit",
        }
    }
}

/// Type of exit order (simplified enum for pattern matching on events).
#[derive(Debug, Clone, Copy, PartialEq, Eq, Structural)]
pub enum ExitOrderType {
    /// Stop-loss order.
    StopLoss,
    /// Take-profit order.
    TakeProfit,
}

impl From<ExitLegType> for ExitOrderType {
    fn from(leg_type: ExitLegType) -> (t: ExitOrderType) {
        match leg_type {
            ExitLegType::StopLoss => ExitOrderType::StopLoss,
            ExitLegType::TakeProfit => ExitOrderType::TakeProfit,
        }
    }
}

impl vstd::std_specs::convert::FromSpecImpl<ExitLegType> for ExitOrderType {
    open spec fn obeys_from_spec() -> bool {
        true
    }

    open spec fn from_spec(leg_type: ExitLegType) -> ExitOrderType {
        match leg_type {
            ExitLegType::StopLoss => ExitOrderType::StopLoss,
            ExitLegType::TakeProfit => ExitOrderType::TakeProfit,
        }
    }
}

// ---------------------------------------------------------------------------------------
// Actual order
// ---------------------------------------------------------------------------------------

/// Status of an individual actual order at the provider.
#[derive(Debug)]
pub enum ActualOrderStatus {
    /// Order is active on the exchange.
    Open,
    /// Order is partially filled.
    PartiallyFilled { filled_qty: Decimal, updated_at: Timestamp },
    /// Order was fully filled by the provider.
    Filled { filled_at: Timestamp },
    /// Cancellation has been requested but not yet confirmed.
    PendingCancel { requested_at: Timestamp },
    /// Order was cancelled.
    Cancelled { cancelled_at: Timestamp },
    /// Order was rejected by the provider.
    Rejected { rejected_at: Timestamp, reason: String },
    /// Order expired.
    Expired { expired_at: Timestamp },
    /// Order status is unknown.
    Unknown,
}

impl Clone for ActualOrderStatus {
    fn clone(&self) -> (copy: ActualOrderStatus)
        ensures
            copy == *self,
    {
        match self {
            ActualOrderStatus::Open => ActualOrderStatus::Open,
            ActualOrderStatus::PartiallyFilled { filled_qty, updated_at } => {
                ActualOrderStatus::PartiallyFilled {
                    filled_qty: *filled_qty,
                    updated_at: *updated_at,
                }
            },
            ActualOrderStatus::Filled { filled_at } => ActualOrderStatus::Filled {
                filled_at: *filled_at,
            },
            ActualOrderStatus::PendingCancel { requested_at } => {
                ActualOrderStatus::PendingCancel { requested_at: *requested_at }
            },
            ActualOrderStatus::Cancelled { cancelled_at } => ActualOrderStatus::Cancelled {
                cancelled_at: *cancelled_at,
            },
            ActualOrderStatus::Rejected { rejected_at, reason } => ActualOrderStatus::Rejected {
                rejected_at: *rejected_at,
                reason: reason.clone(),
            },
            ActualOrderStatus::Expired { expired_at } => ActualOrderStatus::Expired {
                expired_at: *expired_at,
            },
            ActualOrderStatus::Unknown => ActualOrderStatus::Unknown,
        }
    }
}

/// A single actual order placed at the provider for a pending exit entry.
///
/// When partial fills occur, multiple `ActualOrder`s may be created for a
/// single pending entry, each tracking a proportional exit order.
#[derive(Debug)]
pub struct ActualOrder {
    /// The actual order ID returned by the provider.
    pub order_id: String,
    /// Quantity for this specific order (not cumulative).
    pub quantity: Decimal,
    /// Timestamp when this order was placed at the provider.
    pub placed_at: Timestamp,
    /// Current status of this order at the provider.
    pub status: ActualOrderStatus,
    /// Type of exit order (stop-loss or take-profit).
    pub leg_type: ExitLegType,
}

impl Clone for ActualOrder {
    fn clone(&self) -> (copy: ActualOrder)
        ensures
            copy == *self,
    {
        ActualOrder {
            order_id: self.order_id.clone(),
            quantity: self.quantity,
            placed_at: self.placed_at,
            status: self.status.clone(),
            leg_type: self.leg_type,
        }
    }
}

impl ActualOrder {
    /// Whether an order covers part of a position.
    pub open spec fn spec_active(self) -> bool {
        self.status is Open || self.status is PartiallyFilled
    }

    /// The quantity of an order that is not filled: an order that is not active covers
    /// nothing, and no order covers less than nothing.
    pub open spec fn spec_remaining(self) -> Decimal {
        match self.status {
            ActualOrderStatus::Open => self.quantity,
            ActualOrderStatus::PartiallyFilled { filled_qty, .. } => self.quantity.spec_minus(
                filled_qty,
            ).spec_positive_part(),
            _ => Decimal::spec_zero(),
        }
    }

    /// Whether the quantity less the filled part is a decimal.
    pub open spec fn remaining_in_range(self) -> bool {
        self.status matches ActualOrderStatus::PartiallyFilled { filled_qty, .. }
            ==> crate::decimal::units_in_range(self.quantity@ - filled_qty@)
    }

    /// Returns the remaining unfilled quantity for this order.
    pub fn remaining_qty(&self) -> (qty: Decimal)
        requires
            self.remaining_in_range(),
        ensures
            qty == self.spec_remaining(),
            self.status matches ActualOrderStatus::PartiallyFilled { filled_qty, .. }
                ==> crate::decimal::subtracts_exactly(self.quantity, filled_qty) ==> qty@ == (if
            self.quantity@ < filled_qty@ {
                0
            } else {
                self.quantity@ - filled_qty@
            }),
    {
        match &self.status {
            ActualOrderStatus::Open => self.quantity,
            ActualOrderStatus::PartiallyFilled { filled_qty, .. } => {
                self.quantity.minus(filled_qty).positive_part()
            },
            _ => Decimal::zero(),
        }
    }

    /// Whether the remaining quantity is a decimal.
    pub open spec fn remaining_exists(self) -> bool {
        self.status matches ActualOrderStatus::PartiallyFilled { filled_qty, .. }
            ==> self.quantity.subtracts(filled_qty)
    }

    /// The remaining unfilled quantity for this order, where it is a decimal.
    pub fn checked_remaining_qty(&self) -> (qty: Option<Decimal>)
        ensures
            qty == (if self.remaining_exists() {
                Some(self.spec_remaining())
            } else {
                None::<Decimal>
            }),
    {
        match &self.status {
            ActualOrderStatus::Open => Some(self.quantity),
            ActualOrderStatus::PartiallyFilled { filled_qty, .. } => {
                match self.quantity.checked_minus(filled_qty) {
                    Some(rest) => Some(rest.positive_part()),
                    None => None,
                }
            },
            _ => Some(Decimal::zero()),
        }
    }

    /// Returns true if this order is actively providing position coverage.
    pub fn is_active(&self) -> (active: bool)
        ensures
            active == self.spec_active(),
    {
        match &self.status {
            ActualOrderStatus::Open | ActualOrderStatus::PartiallyFilled { .. } => true,
            _ => false,
        }
    }

    /// Returns true if this order is in a terminal state.
    pub fn is_terminal(&self) -> (terminal: bool)
        ensures
            terminal == (self.status is Filled || self.status is Cancelled || self.status is Rejected
                || self.status is Expired),
    {
        match &self.status {
            ActualOrderStatus::Filled { .. }
            | ActualOrderStatus::Cancelled { .. }
            | ActualOrderStatus::Rejected { .. }
            | ActualOrderStatus::Expired { .. } => true,
            _ => false,
        }
    }
}

// ---------------------------------------------------------------------------------------
// Cancellation reason
// ---------------------------------------------------------------------------------------

/// Reason why a pending SL/TP entry was cancelled.
#[derive(Debug, Clone, Copy, PartialEq, Eq, Structural)]
pub enum CancellationReason {
    /// Primary order was cancelled before filling.
    PrimaryCancelled,
    /// Primary order was rejected by the provider.
    PrimaryRejected,
    /// Sibling SL/TP was filled (OCO behavior).
    SiblingFilled,
    /// User explicitly cancelled via API.
    UserRequested,
    /// Position was closed before SL/TP triggered.
    PositionClosed,
    /// System shutdown or cleanup.
    SystemCleanup,
    /// Native OCO order was successfully placed, replacing the backup.
    OcoSucceeded,
}

impl CancellationReason {
    /// How a reason is written in messages.
    pub open spec fn spec_text(self) -> Seq<char> {
        match self {
            CancellationReason::PrimaryCancelled => "primary_cancelled"@,
            CancellationReason::PrimaryRejected => "primary_rejected"@,
            CancellationReason::SiblingFilled => "sibling_filled"@,
            CancellationReason::UserRequested => "user_requested"@,
            CancellationReason::PositionClosed => "position_closed"@,
            CancellationReason::SystemCleanup => "system_cleanup"@,
            CancellationReason::OcoSucceeded => "oco_succeeded"@,
        }
    }

    /// The name of the variant.
    pub open spec fn spec_name(self) -> Seq<char> {
        match self {
            CancellationReason::PrimaryCancelled => "PrimaryCancelled"@,
            CancellationReason::PrimaryRejected => "PrimaryRejected"@,
            CancellationReason::SiblingFilled => "SiblingFilled"@,
            CancellationReason::UserRequested => "UserRequested"@,
            CancellationReason::PositionClosed => "PositionClosed"@,
            CancellationReason::SystemCleanup => "SystemCleanup"@,
            CancellationReason::OcoSucceeded => "OcoSucceeded"@,
        }
    }

    /// The reason as text.
    pub fn as_str(&self) -> (text: &'static str)
        ensures
            text@ == self.spec_text(),
    {
        match self {
            CancellationReason::PrimaryCancelled => "primary_cancelled",
            CancellationReason::PrimaryRejected => "primary_rejected",
            CancellationReason::SiblingFilled => "sibling_filled",
            CancellationReason::UserRequested => "user_requested",
            CancellationReason::PositionClosed => "position_closed",
            CancellationReason::SystemCleanup => "system_cleanup",
            CancellationReason::OcoSucceeded => "oco_succeeded",
        }
    }

    /// The name of the variant.
    pub fn name(&self) -> (text: &'static str)
        ensures
            text@ == self.spec_name(),
    {
        match self {
            CancellationReason::PrimaryCancelled => "PrimaryCancelled",
            CancellationReason::PrimaryRejected => "PrimaryRejected",
            CancellationReason::SiblingFilled => "SiblingFilled",
            CancellationReason::UserRequested => "UserRequested",
            CancellationReason::PositionClosed => "PositionClosed",
            CancellationReason::SystemCleanup => "SystemCleanup",
            CancellationReason::OcoSucceeded => "OcoSucceeded",
        }
    }
}

// ---------------------------------------------------------------------------------------
// Exit entry status
// ---------------------------------------------------------------------------------------

/// Status of a pending exit order entry.
#[derive(Debug)]
pub enum ExitEntryStatus {
    /// Waiting for primary order to fill.
    Pending,
    /// Primary order partially filled; exit orders placed for filled portion.
    PartiallyTriggered { filled_qty: Decimal, total_qty: Decimal, actual_orders: OrderList },
    /// Exit orders successfully placed with the provider.
    Placed { actual_orders: OrderList },
    /// Exit order placement failed after all retries.
    ///
    /// When transitioning from `PartiallyTriggered` or `Placed`, preserves any
    /// exit orders that were successfully placed for earlier partial fills.
    /// These orders remain live at the provider and must not be lost from tracking.
    Failed { error: String, retry_count: u32, failed_at: Timestamp, actual_orders: OrderList },
    /// Primary order was cancelled before filling.
    Cancelled { cancelled_at: Timestamp, reason: CancellationReason },
    /// Entry expired due to TTL cleanup.
    Expired { expired_at: Timestamp },
}

/// What the status of an entry holds.
#[verifier::ext_equal]
pub enum StatusView {
    Pending,
    PartiallyTriggered { filled_qty: Decimal, total_qty: Decimal, actual_orders: Seq<ActualOrder> },
    Placed { actual_orders: Seq<ActualOrder> },
    Failed {
        error: Seq<char>,
        retry_count: u32,
        failed_at: Timestamp,
        actual_orders: Seq<ActualOrder>,
    },
    Cancelled { cancelled_at: Timestamp, reason: CancellationReason },
    Expired { expired_at: Timestamp },
}

impl StatusView {
    /// The orders that were placed at the provider for an entry.
    pub open spec fn orders(self) -> Seq<ActualOrder> {
        match self {
            StatusView::PartiallyTriggered { actual_orders, .. } => actual_orders,
            StatusView::Placed { actual_orders } => actual_orders,
            StatusView::Failed { actual_orders, .. } => actual_orders,
            _ => Seq::empty(),
        }
    }

    /// Whether an entry waits for fills of its primary order.
    pub open spec fn is_pending(self) -> bool {
        self is Pending || self is PartiallyTriggered
    }

    /// Whether no fill is processed for an entry any more.
    pub open spec fn is_terminal(self) -> bool {
        self is Cancelled || self is Failed || self is Expired
    }
}

impl View for ExitEntryStatus {
    type V = StatusView;

    open spec fn view(&self) -> StatusView {
        match *self {
            ExitEntryStatus::Pending => StatusView::Pending,
            ExitEntryStatus::PartiallyTriggered { filled_qty, total_qty, actual_orders } => {
                StatusView::PartiallyTriggered {
                    filled_qty,
                    total_qty,
                    actual_orders: actual_orders@,
                }
            },
            ExitEntryStatus::Placed { actual_orders } => StatusView::Placed {
                actual_orders: actual_orders@,
            },
            ExitEntryStatus::Failed { error, retry_count, failed_at, actual_orders } => {
                StatusView::Failed {
                    error: error@,
                    retry_count,
                    failed_at,
                    actual_orders: actual_orders@,
                }
            },
            ExitEntryStatus::Cancelled { cancelled_at, reason } => StatusView::Cancelled {
                cancelled_at,
                reason,
            },
            ExitEntryStatus::Expired { expired_at } => StatusView::Expired { expired_at },
        }
    }
}

impl Clone for ExitEntryStatus {
    fn clone(&self) -> (copy: ExitEntryStatus)
        ensures
            copy@ == self@,
    {
        match self {
            ExitEntryStatus::Pending => ExitEntryStatus::Pending,
            ExitEntryStatus::PartiallyTriggered { filled_qty, total_qty, actual_orders } => {
                ExitEntryStatus::PartiallyTriggered {
                    filled_qty: *filled_qty,
                    total_qty: *total_qty,
                    actual_orders: actual_orders.clone(),
                }
            },
            ExitEntryStatus::Placed { actual_orders } => ExitEntryStatus::Placed {
                actual_orders: actual_orders.clone(),
            },
            ExitEntryStatus::Failed { error, retry_count, failed_at, actual_orders } => {
                ExitEntryStatus::Failed {
                    error: error.clone(),
                    retry_count: *retry_count,
                    failed_at: *failed_at,
                    actual_orders: actual_orders.clone(),
                }
            },
            ExitEntryStatus::Cancelled { cancelled_at, reason } => ExitEntryStatus::Cancelled {
                cancelled_at: *cancelled_at,
                reason: *reason,
            },
            ExitEntryStatus::Expired { expired_at } => ExitEntryStatus::Expired {
                expired_at: *expired_at,
            },
        }
    }
}

impl ExitEntryStatus {
    /// The orders that were placed at the provider for an entry.
    pub fn actual_orders(&self) -> (orders: OrderList)
        ensures
            orders@ == self@.orders(),
    {
        match self {
            ExitEntryStatus::PartiallyTriggered { actual_orders, .. } => actual_orders.clone(),
            ExitEntryStatus::Placed { actual_orders } => actual_orders.clone(),
            ExitEntryStatus::Failed { actual_orders, .. } => actual_orders.clone(),
            _ => OrderList::new(),
        }
    }
}

/// A time as it is written in messages.
pub open spec fn time_text(t: Timestamp) -> Seq<char> {
    match rfc3339_text(t.secs, t.nanos) {
        Some(s) => s,
        None => ""@,
    }
}

fn write_time(t: &Timestamp) -> (text: String)
    ensures
        text@ == time_text(*t),
{
    match rfc3339(t.secs, t.nanos) {
        Some(s) => s,
        None => "".to_owned(),
    }
}

/// How the status of an order is written in messages.
pub open spec fn order_status_text(status: ActualOrderStatus) -> Seq<char> {
    match status {
        ActualOrderStatus::Open => "Open"@,
        ActualOrderStatus::PartiallyFilled { filled_qty, updated_at } => {
            "PartiallyFilled { filled_qty: "@ + filled_qty.spec_text() + ", updated_at: "@
                + time_text(updated_at) + " }"@
        },
        ActualOrderStatus::Filled { filled_at } => "Filled { filled_at: "@ + time_text(filled_at)
            + " }"@,
        ActualOrderStatus::PendingCancel { requested_at } => "PendingCancel { requested_at: "@
            + time_text(requested_at) + " }"@,
        ActualOrderStatus::Cancelled { cancelled_at } => "Cancelled { cancelled_at: "@ + time_text(
            cancelled_at,
        ) + " }"@,
        ActualOrderStatus::Rejected { rejected_at, reason } => "Rejected { rejected_at: "@
            + time_text(rejected_at) + ", reason: "@ + quoted(reason@) + " }"@,
        ActualOrderStatus::Expired { expired_at } => "Expired { expired_at: "@ + time_text(
            expired_at,
        ) + " }"@,
        ActualOrderStatus::Unknown => "Unknown"@,
    }
}

/// How an order is written in messages.
pub open spec fn order_text(order: ActualOrder) -> Seq<char> {
    "ActualOrder { order_id: "@ + quoted(order.order_id@) + ", quantity: "@
        + order.quantity.spec_text() + ", placed_at: "@ + time_text(order.placed_at) + ", status: "@
        + order_status_text(order.status) + ", leg_type: "@ + order.leg_type.spec_name() + " }"@
}

/// How orders are written in messages, without the brackets.
pub open spec fn orders_text(orders: Seq<ActualOrder>) -> Seq<char>
    decreases orders.len(),
{
    if orders.len() == 0 {
        Seq::empty()
    } else if orders.len() == 1 {
        order_text(orders[0])
    } else {
        orders_text(orders.drop_last()) + ", "@ + order_text(orders.last())
    }
}

/// How the status of an entry is written in messages.
pub open spec fn status_text(status: StatusView) -> Seq<char> {
    match status {
        StatusView::Pending => "Pending"@,
        StatusView::PartiallyTriggered { filled_qty, total_qty, actual_orders } => {
            "PartiallyTriggered { filled_qty: "@ + filled_qty.spec_text() + ", total_qty: "@
                + total_qty.spec_text() + ", actual_orders: ["@ + orders_text(actual_orders)
                + "] }"@
        },
        StatusView::Placed { actual_orders } => "Placed { actual_orders: ["@ + orders_text(
            actual_orders,
        ) + "] }"@,
        StatusView::Failed { error, retry_count, failed_at, actual_orders } => {
            "Failed { error: "@ + quoted(error) + ", retry_count: "@ + digits(retry_count as nat)
                + ", failed_at: "@ + time_text(failed_at) + ", actual_orders: ["@ + orders_text(
                actual_orders,
            ) + "] }"@
        },
        StatusView::Cancelled { cancelled_at, reason } => "Cancelled { cancelled_at: "@ + time_text(
            cancelled_at,
        ) + ", reason: "@ + reason.spec_name() + " }"@,
        StatusView::Expired { expired_at } => "Expired { expired_at: "@ + time_text(expired_at)
            + " }"@,
    }
}

impl ActualOrderStatus {
    fn write(&self) -> (text: String)
        ensures
            text@ == order_status_text(*self),
    {
        match self {
            ActualOrderStatus::Open => "Open".to_owned(),
            ActualOrderStatus::PartiallyFilled { filled_qty, updated_at } => {
                let mut s = join3(
                    "PartiallyFilled { filled_qty: ",
                    filled_qty.to_text().as_str(),
                    ", updated_at: ",
                );
                s.append(write_time(updated_at).as_str());
                s.append(" }");
                s
            },
            ActualOrderStatus::Filled { filled_at } => join3(
                "Filled { filled_at: ",
                write_time(filled_at).as_str(),
                " }",
            ),
            ActualOrderStatus::PendingCancel { requested_at } => join3(
                "PendingCancel { requested_at: ",
                write_time(requested_at).as_str(),
                " }",
            ),
            ActualOrderStatus::Cancelled { cancelled_at } => join3(
                "Cancelled { cancelled_at: ",
                write_time(cancelled_at).as_str(),
                " }",
            ),
            ActualOrderStatus::Rejected { rejected_at, reason } => {
                let mut s = join3(
                    "Rejected { rejected_at: ",
                    write_time(rejected_at).as_str(),
                    ", reason: ",
                );
                s.append(quote(reason.as_str()).as_str());
                s.append(" }");
                s
            },
            ActualOrderStatus::Expired { expired_at } => join3(
                "Expired { expired_at: ",
                write_time(expired_at).as_str(),
                " }",
            ),
            ActualOrderStatus::Unknown => "Unknown".to_owned(),
        }
    }
}

impl ActualOrder {
    fn write(&self) -> (text: String)
        ensures
            text@ == order_text(*self),
    {
        let mut s = join3(
            "ActualOrder { order_id: ",
            quote(self.order_id.as_str()).as_str(),
            ", quantity: ",
        );
        s.append(self.quantity.to_text().as_str());
        s.append(", placed_at: ");
        s.append(write_time(&self.placed_at).as_str());
        s.append(", status: ");
        s.append(self.status.write().as_str());
        s.append(", leg_type: ");
        s.append(self.leg_type.name());
        s.append(" }");
        s
    }
}

fn write_orders(orders: &OrderList) -> (text: String)
    ensures
        text@ == orders_text(orders@),
{
    let n: usize = orders.len();
    if n == 0 {
        return String::new();
    }
    let mut s = orders.get(0).write();
    let mut i: usize = 1;
    assert(orders@.take(1)[0] == orders@[0]);
    while i < n
        invariant
            1 <= i <= n,
            n == orders@.len(),
            s@ == orders_text(orders@.take(i as int)),
        decreases n - i,
    {
        s.append(", ");
        s.append(orders.get(i).write().as_str());
        proof {
            let longer = orders@.take(i + 1);
            assert(longer.drop_last() =~= orders@.take(i as int));
            assert(longer.last() == orders@[i as int]);
        }
        i = i + 1;
    }
    assert(orders@.take(n as int) =~= orders@);
    s
}

impl ExitEntryStatus {
    /// The status as it is written in messages.
    pub fn to_text(&self) -> (text: String)
        ensures
            text@ == status_text(self@),
    {
        match self {
            ExitEntryStatus::Pending => "Pending".to_owned(),
            ExitEntryStatus::PartiallyTriggered { filled_qty, total_qty, actual_orders } => {
                let mut s = join3(
                    "PartiallyTriggered { filled_qty: ",
                    filled_qty.to_text().as_str(),
                    ", total_qty: ",
                );
                s.append(total_qty.to_text().as_str());
                s.append(", actual_orders: [");
                s.append(write_orders(actual_orders).as_str());
                s.append("] }");
                s
            },
            ExitEntryStatus::Placed { actual_orders } => join3(
                "Placed { actual_orders: [",
                write_orders(actual_orders).as_str(),
                "] }",
            ),
            ExitEntryStatus::Failed { error, retry_count, failed_at, actual_orders } => {
                let mut s = join3(
                    "Failed { error: ",
                    quote(error.as_str()).as_str(),
                    ", retry_count: ",
                );
                s.append(number_text(*retry_count as u64).as_str());
                s.append(", failed_at: ");
                s.append(write_time(failed_at).as_str());
                s.append(", actual_orders: [");
                s.append(write_orders(actual_orders).as_str());
                s.append("] }");
                s
            },
            ExitEntryStatus::Cancelled { cancelled_at, reason } => {
                let mut s = join3(
                    "Cancelled { cancelled_at: ",
                    write_time(cancelled_at).as_str(),
                    ", reason: ",
                );
                s.append(reason.name());
                s.append(" }");
                s
            },
            ExitEntryStatus::Expired { expired_at } => join3(
                "Expired { expired_at: ",
                write_time(expired_at).as_str(),
                " }",
            ),
        }
    }
}

/// Status information for a pending exit entry including audit timestamps.
#[derive(Debug)]
pub struct ExitEntryStatusInfo {
    /// The current status of the entry.
    pub status: ExitEntryStatus,
    /// When this entry was created (wall-clock time).
    pub created_at: Timestamp,
    /// When the status was last updated.
    pub updated_at: Option<Timestamp>,
}

// ---------------------------------------------------------------------------------------
// Placeholder IDs and sides
// ---------------------------------------------------------------------------------------

/// The placeholder ID of an exit order.
pub open spec fn placeholder_of(order_type: ExitLegType, primary_order_id: Seq<char>) -> Seq<char> {
    order_type.spec_prefix() + primary_order_id
}

/// Generates a placeholder ID for an exit order.
///
/// # Format
/// - Stop-loss: `exit:sl:{primary_order_id}`
/// - Take-profit: `exit:tp:{primary_order_id}`
pub fn generate_placeholder_id(order_type: ExitLegType, primary_order_id: &str) -> (id: String)
    ensures
        id@ == placeholder_of(order_type, primary_order_id@),
{
    join2(order_type.prefix(), primary_order_id)
}

/// Parses a placeholder ID to extract the order type and primary order ID.
///
/// Returns `None` if the ID is not a valid placeholder format.
pub fn parse_placeholder_id(placeholder_id: &str) -> (parsed: Option<(ExitLegType, String)>)
    ensures
        match parsed {
            Some((order_type, primary)) => placeholder_id@ == placeholder_of(order_type, primary@),
            None => forall|order_type: ExitLegType, primary: Seq<char>|
                placeholder_id@ != #[trigger] placeholder_of(order_type, primary),
        },
{
    match strip_prefix(placeholder_id, "exit:sl:") {
        Some(primary_id) => Some((ExitLegType::StopLoss, primary_id.to_owned())),
        None => match strip_prefix(placeholder_id, "exit:tp:") {
            Some(primary_id) => Some((ExitLegType::TakeProfit, primary_id.to_owned())),
            None => {
                proof {
                    assert forall|order_type: ExitLegType, primary: Seq<char>|
                        placeholder_id@ != #[trigger] placeholder_of(order_type, primary) by {
                        let p = order_type.spec_prefix();
                        let whole = placeholder_of(order_type, primary);
                        assert(whole.subrange(0, p.len() as int) =~= p);
                        assert(has_prefix(whole, p));
                    }
                }
                None
            },
        },
    }
}

/// A placeholder ID determines the order type and the primary order it was made of.
pub proof fn law_placeholder_id_round_trip(
    a: ExitLegType,
    primary_a: Seq<char>,
    b: ExitLegType,
    primary_b: Seq<char>,
)
    ensures
        placeholder_of(a, primary_a) == placeholder_of(b, primary_b) ==> a == b && primary_a
            == primary_b,
{
    reveal_strlit("exit:sl:");
    reveal_strlit("exit:tp:");
    let x = placeholder_of(a, primary_a);
    let y = placeholder_of(b, primary_b);
    if x == y {
        assert(x[5] == y[5]);
        assert(x[5] == a.spec_prefix()[5]);
        assert(y[5] == b.spec_prefix()[5]);
        assert(x.skip(8) =~= primary_a);
        assert(y.skip(8) =~= primary_b);
    }
}

/// The side that exits a position entered on a side.
pub open spec fn spec_opposite(side: Side) -> Side {
    match side {
        Side::Buy => Side::Sell,
        Side::Sell => Side::Buy,
    }
}

/// Returns the opposite order side.
///
/// SL/TP orders exit the position, so they must be on the opposite side
/// of the primary order.
pub fn opposite_side(side: Side) -> (other: Side)
    ensures
        other == spec_opposite(side),
{
    match side {
        Side::Buy => Side::Sell,
        Side::Sell => Side::Buy,
    }
}

/// The opposite of the opposite side is the side itself, and never the opposite.
pub proof fn law_opposite_side(side: Side)
    ensures
        spec_opposite(side) != side,
        spec_opposite(spec_opposite(side)) == side,
{
}

/// How a side is written in small letters.
pub open spec fn side_text(side: Side) -> Seq<char> {
    match side {
        Side::Buy => "buy"@,
        Side::Sell => "sell"@,
    }
}

/// The side that a text names, in capital or small letters.
pub open spec fn side_named(text: Seq<char>) -> Option<Side> {
    if in_small_letters(text) == "buy"@ {
        Some(Side::Buy)
    } else if in_small_letters(text) == "sell"@ {
        Some(Side::Sell)
    } else {
        None
    }
}

/// Parses a side string into a `Side` enum.
///
/// Accepts "buy", "sell" (case-insensitive).
/// Returns `None` for invalid input.
pub fn parse_side(s: &str) -> (side: Option<Side>)
    ensures
        side == side_named(s@),
{
    proof {
        lemma_side_texts_are_small();
    }
    if same_ignoring_case(s, "buy") {
        Some(Side::Buy)
    } else if same_ignoring_case(s, "sell") {
        Some(Side::Sell)
    } else {
        None
    }
}

proof fn lemma_side_texts_are_small()
    ensures
        in_small_letters("buy"@) == "buy"@,
        in_small_letters("sell"@) == "sell"@,
        "buy"@ != "sell"@,
{
    reveal_strlit("buy");
    reveal_strlit("sell");
    assert(in_small_letters("buy"@) =~= "buy"@);
    assert(in_small_letters("sell"@) =~= "sell"@);
    assert("buy"@.len() != "sell"@.len());
}

/// A text is read as a side exactly where it is how that side is written, in capital or small
/// letters; so what is written of a side is read back as that side.
pub proof fn law_side_is_read_back(side: Side, text: Seq<char>)
    ensures
        side_named(text) == Some(side) <==> in_small_letters(text) == side_text(side),
        side_named(side_text(side)) == Some(side),
{
    lemma_side_texts_are_small();
}

/// Converts a `Side` enum to its lowercase string representation.
pub fn side_to_str(side: Side) -> (text: &'static str)
    ensures
        text@ == side_text(side),
{
    match side {
        Side::Buy => "buy",
        Side::Sell => "sell",
    }
}

// ---------------------------------------------------------------------------------------
// Information about entries
// ---------------------------------------------------------------------------------------

/// Information about an exit entry needed for reconciliation.
#[derive(Debug)]
pub struct ExitEntryInfo {
    /// ID of the primary order that has pending exit entries.
    pub primary_order_id: String,
    /// Type of exit order (stop-loss or take-profit).
    pub order_type: ExitLegType,
    /// When this pending entry was created (wall-clock time).
    pub created_at: Timestamp,
}

/// Information about a failed exit entry for re-broadcasting on reconnect.
#[derive(Debug)]
pub struct FailedExitInfo {
    /// ID of the primary order whose exit failed.
    pub primary_order_id: String,
    /// Trading symbol (e.g., "BTCUSD").
    pub symbol: String,
    /// Type of exit order that failed (stop-loss or take-profit).
    pub order_type: ExitLegType,
    /// Error that caused the failure.
    pub error: String,
    /// When the failure occurred.
    pub failed_at: Timestamp,
    /// IDs of exit orders that are still live at the provider.
    pub actual_order_ids: Vec<String>,
}

/// What is told of a failed exit entry.
#[verifier::ext_equal]
pub struct FailedExitView {
    pub primary_order_id: Seq<char>,
    pub symbol: Seq<char>,
    pub order_type: ExitLegType,
    pub error: Seq<char>,
    pub failed_at: Timestamp,
    pub actual_order_ids: Seq<Seq<char>>,
}

impl View for FailedExitInfo {
    type V = FailedExitView;

    open spec fn view(&self) -> FailedExitView {
        FailedExitView {
            primary_order_id: self.primary_order_id@,
            symbol: self.symbol@,
            order_type: self.order_type,
            error: self.error@,
            failed_at: self.failed_at,
            actual_order_ids: texts(self.actual_order_ids@),
        }
    }
}

/// Information about a cancelled exit entry.
#[derive(Debug)]
pub struct CancelledExitInfo {
    /// Placeholder ID that was returned in the original order response.
    pub placeholder_id: String,
    /// Order ID of the primary order that was cancelled.
    pub primary_order_id: String,
    /// Type of exit order (stop-loss or take-profit).
    pub leg_type: ExitLegType,
    /// Trading platform (e.g., "alpaca", "binance").
    pub platform: String,
    /// Trading symbol (e.g., "BTC/USD", "AAPL").
    pub symbol: String,
    /// Order side of the exit order.
    pub side: Side,
    /// Trigger price for the exit order.
    pub trigger_price: Decimal,
    /// Quantity protected by this exit order.
    pub quantity: Decimal,
}

/// What is told of a cancelled exit entry.
pub struct CancelledExitView {
    pub placeholder_id: Seq<char>,
    pub primary_order_id: Seq<char>,
    pub leg_type: ExitLegType,
    pub platform: Seq<char>,
    pub symbol: Seq<char>,
    pub side: Side,
    pub trigger_price: Decimal,
    pub quantity: Decimal,
}

impl View for CancelledExitInfo {
    type V = CancelledExitView;

    open spec fn view(&self) -> CancelledExitView {
        CancelledExitView {
            placeholder_id: self.placeholder_id@,
            primary_order_id: self.primary_order_id@,
            leg_type: self.leg_type,
            platform: self.platform@,
            symbol: self.symbol@,
            side: self.side,
            trigger_price: self.trigger_price,
            quantity: self.quantity,
        }
    }
}

/// What is told of several cancelled exit entries.
pub open spec fn cancelled_views(list: Seq<CancelledExitInfo>) -> Seq<CancelledExitView> {
    list.map_values(|info: CancelledExitInfo| info@)
}

/// Simplified result of cancelling exit orders.
#[derive(Debug)]
pub struct CancelExitResult {
    /// Order IDs that were successfully cancelled.
    pub cancelled: Vec<String>,
    /// Order IDs that failed to cancel.
    pub failed: Vec<String>,
}

/// Result of attempting to cancel an exit entry.
///
/// Each state that an entry may be in is answered explicitly, so that the caller knows what
/// is left to do at the provider.
#[derive(Debug)]
pub enum CancelExitResultInternal {
    /// Entry was pending and is now cancelled.
    CancelledPending(CancelledExitInfo),
    /// Entry was already placed at the provider - caller must cancel at exchange.
    NeedsCancelAtProvider {
        /// All actual orders at the exchange that need cancellation.
        actual_orders: OrderList,
        /// Trading context for the response.
        info: CancelledExitInfo,
    },
    /// Entry was partially triggered - some orders placed, still waiting for more fills.
    NeedsCancelPartiallyTriggered {
        /// Actual orders already placed at the exchange.
        actual_orders: OrderList,
        /// Trading context for the response.
        info: CancelledExitInfo,
    },
    /// Entry was in `Failed` state but has live orders at the provider.
    NeedsCancelFailed {
        /// Actual orders still live at the provider from before the failure.
        actual_orders: OrderList,
        /// Trading context for the response.
        info: CancelledExitInfo,
    },
    /// Entry was already in a terminal state (Cancelled, Failed with no orders, Expired).
    AlreadyTerminal {
        /// The terminal status.
        status: ExitEntryStatus,
    },
}

/// What the attempt to cancel an exit entry came to.
#[verifier::ext_equal]
pub enum CancelOutcomeView {
    CancelledPending(CancelledExitView),
    NeedsCancelAtProvider { actual_orders: Seq<ActualOrder>, info: CancelledExitView },
    NeedsCancelPartiallyTriggered { actual_orders: Seq<ActualOrder>, info: CancelledExitView },
    NeedsCancelFailed { actual_orders: Seq<ActualOrder>, info: CancelledExitView },
    AlreadyTerminal { status: StatusView },
}

impl View for CancelExitResultInternal {
    type V = CancelOutcomeView;

    open spec fn view(&self) -> CancelOutcomeView {
        match *self {
            CancelExitResultInternal::CancelledPending(info) => {
                CancelOutcomeView::CancelledPending(info@)
            },
            CancelExitResultInternal::NeedsCancelAtProvider { actual_orders, info } => {
                CancelOutcomeView::NeedsCancelAtProvider {
                    actual_orders: actual_orders@,
                    info: info@,
                }
            },
            CancelExitResultInternal::NeedsCancelPartiallyTriggered { actual_orders, info } => {
                CancelOutcomeView::NeedsCancelPartiallyTriggered {
                    actual_orders: actual_orders@,
                    info: info@,
                }
            },
            CancelExitResultInternal::NeedsCancelFailed { actual_orders, info } => {
                CancelOutcomeView::NeedsCancelFailed {
                    actual_orders: actual_orders@,
                    info: info@,
                }
            },
            CancelExitResultInternal::AlreadyTerminal { status } => {
                CancelOutcomeView::AlreadyTerminal { status: status@ }
            },
        }
    }
}

// ---------------------------------------------------------------------------------------
// Exit entry
// ---------------------------------------------------------------------------------------

/// Parameters for creating a new [`ExitEntry`].
pub struct ExitEntryParams {
    /// ID of the primary order this exit order is attached to.
    pub primary_order_id: String,
    /// Whether this is a stop-loss or take-profit order.
    pub order_type: ExitLegType,
    /// Trading symbol (e.g., "BTC/USD", "AAPL").
    pub symbol: String,
    /// Order side -- opposite of primary order.
    pub side: Side,
    /// Price at which to trigger the order.
    pub trigger_price: Decimal,
    /// Limit price for stop-limit orders (None = stop-market).
    pub limit_price: Option<Decimal>,
    /// Quantity to place.
    pub quantity: Decimal,
    /// Trading platform (e.g., `AlpacaLive`, `BinanceSpotLive`).
    pub platform: TradingPlatform,
}

/// A pending exit order (stop-loss or take-profit) waiting to be placed.
///
/// Created when a primary order with `stop_loss` or `take_profit` is submitted
/// to a provider that doesn't support native bracket orders.
#[derive(Debug)]
pub struct ExitEntry {
    /// Placeholder ID returned to the client (e.g., `exit:sl:abc123`).
    pub placeholder_id: String,
    /// ID of the primary order this exit order is attached to.
    pub primary_order_id: String,
    /// Whether this is a stop-loss or take-profit order.
    pub order_type: ExitLegType,
    /// Trading symbol (e.g., "BTC/USD", "AAPL").
    pub symbol: String,
    /// Order side - opposite of primary order.
    pub side: Side,
    /// Price at which to trigger the order.
    pub trigger_price: Decimal,
    /// Limit price for stop-limit orders (None = stop-market).
    pub limit_price: Option<Decimal>,
    /// Current quantity to place (may be adjusted for partial fills).
    pub quantity: Decimal,
    /// Original quantity from the primary order.
    pub original_quantity: Decimal,
    /// Current status of this pending entry.
    pub status: ExitEntryStatus,
    /// When this entry was created (monotonic, for TTL cleanup).
    pub created_at: Instant,
    /// The same in nanoseconds since the handler that keeps the entry was made, below zero where
    /// the entry is the older of the two; zero while no handler keeps it.
    pub made_at: i128,
    /// When this entry was created (wall-clock, for audit trail).
    pub created_at_utc: Timestamp,
    /// When the status was last updated.
    pub updated_at: Option<Timestamp>,
    /// Trading platform (e.g., `AlpacaLive`, `BinanceSpotLive`).
    pub platform: TradingPlatform,
    /// Sibling placeholder ID for OCO-like behavior.
    pub sibling_id: Option<String>,
    /// Last fill quantity that was attempted for placement.
    pub last_attempted_fill_qty: Option<Decimal>,
    /// Position that this exit protects, once the provider has reported it.
    pub position_id: Option<String>,
    /// Version counter for optimistic concurrency control.
    pub version: u64,
    /// How many exit orders were placed for fills or asked for by moves.
    pub counted_orders: usize,
}

/// What an exit entry holds.
#[verifier::ext_equal]
pub struct ExitEntryView {
    pub placeholder_id: Seq<char>,
    pub primary_order_id: Seq<char>,
    pub order_type: ExitLegType,
    pub symbol: Seq<char>,
    pub side: Side,
    pub trigger_price: Decimal,
    pub limit_price: Option<Decimal>,
    pub quantity: Decimal,
    pub original_quantity: Decimal,
    pub status: StatusView,
    pub created_at: Instant,
    pub made_at: i128,
    pub created_at_utc: Timestamp,
    pub updated_at: Option<Timestamp>,
    pub platform: TradingPlatform,
    pub sibling_id: Option<Seq<char>>,
    pub last_attempted_fill_qty: Option<Decimal>,
    pub position_id: Option<Seq<char>>,
    pub version: u64,
    pub counted_orders: usize,
}

/// When an entry was created, by each of its clocks.
pub struct Creation {
    pub created_at: Instant,
    pub made_at: i128,
    pub created_at_utc: Timestamp,
}

impl View for ExitEntry {
    type V = ExitEntryView;

    open spec fn view(&self) -> ExitEntryView {
        ExitEntryView {
            placeholder_id: self.placeholder_id@,
            primary_order_id: self.primary_order_id@,
            order_type: self.order_type,
            symbol: self.symbol@,
            side: self.side,
            trigger_price: self.trigger_price,
            limit_price: self.limit_price,
            quantity: self.quantity,
            original_quantity: self.original_quantity,
            status: self.status@,
            created_at: self.created_at,
            made_at: self.made_at,
            created_at_utc: self.created_at_utc,
            updated_at: self.updated_at,
            platform: self.platform,
            sibling_id: opt_text(self.sibling_id),
            last_attempted_fill_qty: self.last_attempted_fill_qty,
            position_id: opt_text(self.position_id),
            version: self.version,
            counted_orders: self.counted_orders,
        }
    }
}

impl Clone for ExitEntry {
    fn clone(&self) -> (copy: ExitEntry)
        ensures
            copy@ == self@,
    {
        ExitEntry {
            placeholder_id: self.placeholder_id.clone(),
            primary_order_id: self.primary_order_id.clone(),
            order_type: self.order_type,
            symbol: self.symbol.clone(),
            side: self.side,
            trigger_price: self.trigger_price,
            limit_price: self.limit_price,
            quantity: self.quantity,
            original_quantity: self.original_quantity,
            status: self.status.clone(),
            created_at: self.created_at,
            made_at: self.made_at,
            created_at_utc: self.created_at_utc,
            updated_at: self.updated_at,
            platform: self.platform,
            sibling_id: self.sibling_id.clone(),
            last_attempted_fill_qty: self.last_attempted_fill_qty,
            position_id: self.position_id.clone(),
            version: self.version,
            counted_orders: self.counted_orders,
        }
    }
}

/// A fresh entry, as its parameters and the times of its creation make it.
pub open spec fn fresh_entry(
    params: ExitEntryParams,
    created_at: Instant,
    created_at_utc: Timestamp,
) -> ExitEntryView {
    ExitEntryView {
        placeholder_id: placeholder_of(params.order_type, params.primary_order_id@),
        primary_order_id: params.primary_order_id@,
        order_type: params.order_type,
        symbol: params.symbol@,
        side: params.side,
        trigger_price: params.trigger_price,
        limit_price: params.limit_price,
        quantity: params.quantity,
        original_quantity: params.quantity,
        status: StatusView::Pending,
        created_at,
        made_at: 0,
        created_at_utc,
        updated_at: None,
        platform: params.platform,
        sibling_id: None,
        last_attempted_fill_qty: None,
        position_id: None,
        version: 0,
        counted_orders: 0,
    }
}

impl ExitEntryView {
    /// When the entry was created.
    pub open spec fn born(self) -> Creation {
        Creation {
            created_at: self.created_at,
            made_at: self.made_at,
            created_at_utc: self.created_at_utc,
        }
    }

    /// The entry with another status: the version goes up by one, and the time is kept.
    pub open spec fn with_status(self, status: StatusView, now: Timestamp) -> ExitEntryView {
        ExitEntryView {
            status,
            updated_at: Some(now),
            version: self.version.wrapping_add(1),
            ..self
        }
    }

    /// The number of orders placed for the entry so far: as many as were counted, and no fewer
    /// than are tracked.
    pub open spec fn placed_count(self) -> nat {
        if self.counted_orders < self.status.orders().len() {
            self.status.orders().len()
        } else {
            self.counted_orders as nat
        }
    }

    /// The entry once another order was counted.
    pub open spec fn counted(self) -> ExitEntryView {
        ExitEntryView {
            counted_orders: if self.placed_count() < usize::MAX {
                (self.placed_count() + 1) as usize
            } else {
                usize::MAX
            },
            ..self
        }
    }

    /// What is told of the entry when it is cancelled.
    pub open spec fn cancelled_info(self, placeholder_id: Seq<char>) -> CancelledExitView {
        CancelledExitView {
            placeholder_id,
            primary_order_id: self.primary_order_id,
            leg_type: self.order_type,
            platform: self.platform.spec_header(),
            symbol: self.symbol,
            side: self.side,
            trigger_price: self.trigger_price,
            quantity: self.quantity,
        }
    }
}

impl ExitEntry {
    /// Creates an exit entry from the given parameters and times.
    pub fn created(params: ExitEntryParams, created_at: Instant, created_at_utc: Timestamp) -> (
        entry: ExitEntry)
        ensures
            entry@ == fresh_entry(params, created_at, created_at_utc),
    {
        ExitEntry {
            placeholder_id: generate_placeholder_id(
                params.order_type,
                params.primary_order_id.as_str(),
            ),
            primary_order_id: params.primary_order_id,
            order_type: params.order_type,
            symbol: params.symbol,
            side: params.side,
            trigger_price: params.trigger_price,
            limit_price: params.limit_price,
            quantity: params.quantity,
            original_quantity: params.quantity,
            status: ExitEntryStatus::Pending,
            created_at,
            made_at: 0,
            created_at_utc,
            updated_at: None,
            platform: params.platform,
            sibling_id: None,
            last_attempted_fill_qty: None,
            position_id: None,
            version: 0,
            counted_orders: 0,
        }
    }

    /// Creates a new exit entry from the given parameters, at the time that the clocks show.
    pub fn new(params: ExitEntryParams) -> (entry: ExitEntry)
        ensures
            entry@ == fresh_entry(params, entry.created_at, entry.created_at_utc),
    {
        ExitEntry::created(params, instant_now(), utc_now())
    }

    /// The number of orders placed for the entry so far.
    pub fn placed_count(&self) -> (n: usize)
        ensures
            n == self@.placed_count(),
    {
        let tracked_orders: usize = self.status.actual_orders().len();
        if self.counted_orders < tracked_orders {
            tracked_orders
        } else {
            self.counted_orders
        }
    }

    /// Counts an order.
    pub fn count_order(&mut self)
        ensures
            final(self)@ == old(self)@.counted(),
    {
        let placed: usize = self.placed_count();
        self.counted_orders = if placed < usize::MAX {
            placed + 1
        } else {
            usize::MAX
        };
    }

    /// Updates the status and sets the `updated_at` timestamp to a time.
    /// Also increments the version for optimistic concurrency control.
    pub fn set_status_at(&mut self, status: ExitEntryStatus, now: Timestamp)
        ensures
            final(self)@ == old(self)@.with_status(status@, now),
    {
        self.status = status;
        self.updated_at = Some(now);
        self.version = self.version.wrapping_add(1);
    }

    /// Updates the status and sets the `updated_at` timestamp.
    /// Also increments the version for optimistic concurrency control.
    pub fn set_status(&mut self, status: ExitEntryStatus)
        ensures
            final(self).updated_at matches Some(now) && final(self)@ == old(self)@.with_status(
                status@,
                now,
            ),
    {
        self.set_status_at(status, utc_now());
    }

    /// Increments the version counter after a modification at a time.
    pub fn increment_version_at(&mut self, now: Timestamp)
        ensures
            final(self)@ == (ExitEntryView {
                version: old(self).version.wrapping_add(1),
                updated_at: Some(now),
                ..old(self)@
            }),
    {
        self.version = self.version.wrapping_add(1);
        self.updated_at = Some(now);
    }

    /// Increments the version counter after a modification.
    pub fn increment_version(&mut self)
        ensures
            final(self).updated_at is Some,
            final(self)@ == (ExitEntryView {
                version: old(self).version.wrapping_add(1),
                updated_at: final(self).updated_at,
                ..old(self)@
            }),
    {
        self.increment_version_at(utc_now());
    }

    /// Returns the current version for optimistic concurrency checks.
    pub fn version(&self) -> (v: u64)
        ensures
            v == self.version,
    {
        self.version
    }

    /// Checks if this entry has already been triggered (placed or failed).
    pub fn is_triggered(&self) -> (triggered: bool)
        ensures
            triggered == (self@.status is Placed || self@.status is Failed),
    {
        match &self.status {
            ExitEntryStatus::Placed { .. } | ExitEntryStatus::Failed { .. } => true,
            _ => false,
        }
    }

    /// Checks if this entry is still pending placement.
    pub fn is_pending(&self) -> (pending: bool)
        ensures
            pending == self@.status.is_pending(),
    {
        match &self.status {
            ExitEntryStatus::Pending | ExitEntryStatus::PartiallyTriggered { .. } => true,
            _ => false,
        }
    }

    /// Returns the time from creation to first placement, if the entry has been placed.
    pub fn placement_latency(&self) -> (latency: Option<Duration>)
        ensures
            latency == (if (self@.status is Placed || self@.status is PartiallyTriggered)
                && self@.status.orders().len() > 0 {
                span_since(self@.status.orders()[0].placed_at, self.created_at_utc)
            } else {
                None::<Duration>
            }),
    {
        match &self.status {
            ExitEntryStatus::Placed { actual_orders }
            | ExitEntryStatus::PartiallyTriggered { actual_orders, .. } => {
                if actual_orders.len() == 0 {
                    None
                } else {
                    actual_orders.get(0).placed_at.since(&self.created_at_utc)
                }
            },
            _ => None,
        }
    }

    /// Returns the total lifecycle duration if the entry is in a terminal state.
    pub fn lifecycle_duration(&self) -> (span: Option<Duration>)
        ensures
            span == (match self@.status {
                StatusView::Failed { failed_at, .. } => span_since(failed_at, self.created_at_utc),
                StatusView::Cancelled { cancelled_at, .. } => span_since(
                    cancelled_at,
                    self.created_at_utc,
                ),
                StatusView::Expired { expired_at } => span_since(expired_at, self.created_at_utc),
                _ => None::<Duration>,
            }),
    {
        match &self.status {
            ExitEntryStatus::Failed { failed_at, .. } => failed_at.since(&self.created_at_utc),
            ExitEntryStatus::Cancelled { cancelled_at, .. } => cancelled_at.since(
                &self.created_at_utc,
            ),
            ExitEntryStatus::Expired { expired_at } => expired_at.since(&self.created_at_utc),
            _ => None,
        }
    }

    /// What is told of the entry when it is cancelled.
    pub fn cancelled_info(&self, placeholder_id: &str) -> (info: CancelledExitInfo)
        ensures
            info@ == self@.cancelled_info(placeholder_id@),
    {
        CancelledExitInfo {
            placeholder_id: placeholder_id.to_owned(),
            primary_order_id: self.primary_order_id.clone(),
            leg_type: self.order_type,
            platform: self.platform.to_text(),
            symbol: self.symbol.clone(),
            side: self.side,
            trigger_price: self.trigger_price,
            quantity: self.quantity,
        }
    }
}

/// The span from an earlier time to a later one, or nothing where the first is later.
pub open spec fn span_since(later: Timestamp, earlier: Timestamp) -> Option<Duration> {
    if later@ >= earlier@ {
        Some(Duration { nanos: (later@ - earlier@) as u128 })
    } else {
        None
    }
}

// ---------------------------------------------------------------------------------------
// Registration
// ---------------------------------------------------------------------------------------

/// Result of registering exit orders for a primary order.
#[derive(Debug, Clone, PartialEq, Eq)]
pub struct RegisteredExitLegs {
    /// Placeholder ID for stop-loss, if requested.
    pub stop_loss_id: Option<String>,
    /// Placeholder ID for take-profit, if requested.
    pub take_profit_id: Option<String>,
}

impl Default for RegisteredExitLegs {
    fn default() -> (legs: RegisteredExitLegs)
        ensures
            legs == (RegisteredExitLegs { stop_loss_id: None, take_profit_id: None }),
    {
        RegisteredExitLegs { stop_loss_id: None, take_profit_id: None }
    }
}

impl RegisteredExitLegs {
    /// Creates an empty registration result (no exit orders requested).
    pub fn empty() -> (legs: RegisteredExitLegs)
        ensures
            legs == (RegisteredExitLegs { stop_loss_id: None, take_profit_id: None }),
    {
        RegisteredExitLegs { stop_loss_id: None, take_profit_id: None }
    }

    /// Checks if any exit orders were registered.
    pub fn has_any(&self) -> (any: bool)
        ensures
            any == (self.stop_loss_id is Some || self.take_profit_id is Some),
    {
        self.stop_loss_id.is_some() || self.take_profit_id.is_some()
    }
}

/// Result of pre-emptive backup registration for OCO flow.
#[derive(Debug)]
pub struct ExitBackupRegistration {
    /// Unique identifier for this backup registration.
    pub id: String,
    /// Placeholder IDs for the backup exit entries.
    pub placeholder_ids: Vec<String>,
}

// ---------------------------------------------------------------------------------------
// Configuration
// ---------------------------------------------------------------------------------------

/// Configuration for the Exit Handler.
#[derive(Debug)]
pub struct ExitHandlerConfig {
    /// Maximum pending entries before rejecting new registrations.
    pub max_pending_entries: usize,
    /// TTL for pending entries (cleanup stale entries).
    pub entry_ttl: Duration,
    /// Circuit breaker failure threshold.
    pub circuit_breaker_threshold: usize,
    /// Circuit breaker failure window.
    pub circuit_breaker_window: Duration,
    /// Minimum quantity threshold for exit orders (dust prevention).
    pub min_exit_order_qty: Decimal,
    /// Retry delays for order placement.
    pub retry_delays: Vec<Duration>,
}

impl ExitHandlerConfig {
    /// The defaults: ten thousand entries for a day, three failures in five minutes, a
    /// thousandth of a unit, and three retries.
    pub open spec fn is_default(self) -> bool {
        &&& self.max_pending_entries == 10_000
        &&& self.entry_ttl.nanos == 86_400 * NANOS_PER_SEC
        &&& self.circuit_breaker_threshold == 3
        &&& self.circuit_breaker_window.nanos == 300 * NANOS_PER_SEC
        &&& self.min_exit_order_qty == Decimal::of_parts(1, 3)
        &&& self.retry_delays@.len() == 3
        &&& self.retry_delays@[0].nanos == 100 * NANOS_PER_MILLI
        &&& self.retry_delays@[1].nanos == 300 * NANOS_PER_MILLI
        &&& self.retry_delays@[2].nanos == 1000 * NANOS_PER_MILLI
    }

    /// Create config with provider-specific retry delays. All platforms use the same.
    pub fn for_platform(_platform: TradingPlatform) -> (config: ExitHandlerConfig)
        ensures
            config.is_default(),
    {
        ExitHandlerConfig::default()
    }
}

impl Default for ExitHandlerConfig {
    fn default() -> (config: ExitHandlerConfig)
        ensures
            config.is_default(),
    {
        let mut retry_delays: Vec<Duration> = Vec::new();
        retry_delays.push(Duration::from_millis(100));
        retry_delays.push(Duration::from_millis(300));
        retry_delays.push(Duration::from_millis(1000));
        ExitHandlerConfig {
            max_pending_entries: 10_000,
            entry_ttl: Duration::from_secs(86_400),
            circuit_breaker_threshold: 3,
            circuit_breaker_window: Duration::from_secs(300),
            min_exit_order_qty: Decimal::new(1, 3),
            retry_delays,
        }
    }
}

// ---------------------------------------------------------------------------------------
// Sibling cancellation
// ---------------------------------------------------------------------------------------

/// Result of attempting to cancel/reduce a sibling order.
#[derive(Debug)]
pub struct SiblingCancellation {
    /// Placeholder ID of the sibling that was cancelled/reduced.
    pub sibling_placeholder_id: String,
    /// All actual order IDs that were cancelled at the provider.
    pub actual_order_ids: Vec<String>,
    /// Quantity that was cancelled/reduced.
    pub qty_cancelled: Decimal,
    /// Whether the sibling had been placed at the provider.
    pub was_placed: bool,
    /// Whether all cancellations succeeded.
    pub cancel_success: bool,
    /// Error messages if any cancellations failed.
    pub errors: Vec<String>,
}

/// What is told of the cancellation of a sibling.
#[verifier::ext_equal]
pub struct SiblingView {
    pub sibling_placeholder_id: Seq<char>,
    pub actual_order_ids: Seq<Seq<char>>,
    pub qty_cancelled: Decimal,
    pub was_placed: bool,
    pub cancel_success: bool,
    pub errors: Seq<Seq<char>>,
}

impl View for SiblingCancellation {
    type V = SiblingView;

    open spec fn view(&self) -> SiblingView {
        SiblingView {
            sibling_placeholder_id: self.sibling_placeholder_id@,
            actual_order_ids: texts(self.actual_order_ids@),
            qty_cancelled: self.qty_cancelled,
            was_placed: self.was_placed,
            cancel_success: self.cancel_success,
            errors: texts(self.errors@),
        }
    }
}

impl SiblingCancellation {
    /// Create a cancellation result for a sibling that was placed at the provider (single order).
    pub fn placed(
        sibling_id: &str,
        actual_order_id: &str,
        qty: Decimal,
        result: Result<(), GatewayError>,
    ) -> (c: SiblingCancellation)
        ensures
            c@ == (SiblingView {
                sibling_placeholder_id: sibling_id@,
                actual_order_ids: seq![actual_order_id@],
                qty_cancelled: qty,
                was_placed: true,
                cancel_success: result is Ok,
                errors: match result {
                    Ok(()) => Seq::empty(),
                    Err(e) => seq![e@.text()],
                },
            }),
    {
        let mut actual_order_ids: Vec<String> = Vec::new();
        actual_order_ids.push(actual_order_id.to_owned());
        assert(texts(actual_order_ids@) =~= seq![actual_order_id@]);
        let cancel_success = result.is_ok();
        let mut errors: Vec<String> = Vec::new();
        match &result {
            Err(e) => {
                errors.push(e.to_text());
                assert(texts(errors@) =~= seq![e@.text()]);
            },
            Ok(()) => {
                assert(texts(errors@) =~= Seq::<Seq<char>>::empty());
            },
        }
        SiblingCancellation {
            sibling_placeholder_id: sibling_id.to_owned(),
            actual_order_ids,
            qty_cancelled: qty,
            was_placed: true,
            cancel_success,
            errors,
        }
    }

    /// Create a cancellation result for multiple placed orders.
    pub fn placed_multiple(
        sibling_id: &str,
        cancelled_order_ids: Vec<String>,
        qty: Decimal,
        errors: Vec<String>,
    ) -> (c: SiblingCancellation)
        ensures
            c@ == (SiblingView {
                sibling_placeholder_id: sibling_id@,
                actual_order_ids: texts(cancelled_order_ids@),
                qty_cancelled: qty,
                was_placed: true,
                cancel_success: errors@.len() == 0,
                errors: texts(errors@),
            }),
    {
        let cancel_success = errors.len() == 0;
        SiblingCancellation {
            sibling_placeholder_id: sibling_id.to_owned(),
            actual_order_ids: cancelled_order_ids,
            qty_cancelled: qty,
            was_placed: true,
            cancel_success,
            errors,
        }
    }

    /// Create a cancellation result for a sibling that was still pending.
    pub fn pending(sibling_id: &str, qty: Decimal) -> (c: SiblingCancellation)
        ensures
            c@ == pending_sibling(sibling_id@, qty),
    {
        let c = SiblingCancellation {
            sibling_placeholder_id: sibling_id.to_owned(),
            actual_order_ids: Vec::new(),
            qty_cancelled: qty,
            was_placed: false,
            cancel_success: true,
            errors: Vec::new(),
        };
        assert(c@ =~= pending_sibling(sibling_id@, qty));
        c
    }
}

/// What is told of a sibling that was still pending.
pub open spec fn pending_sibling(sibling_id: Seq<char>, qty: Decimal) -> SiblingView {
    SiblingView {
        sibling_placeholder_id: sibling_id,
        actual_order_ids: Seq::empty(),
        qty_cancelled: qty,
        was_placed: false,
        cancel_success: true,
        errors: Seq::empty(),
    }
}

// ---------------------------------------------------------------------------------------
// Placement results
// ---------------------------------------------------------------------------------------

/// Outcome of an exit order placement attempt.
#[derive(Debug)]
pub enum PlacementOutcome {
    /// Order was successfully placed.
    Success {
        /// The actual order ID from the provider.
        actual_order_id: String,
        /// The placed order details.
        order: Box<Order>,
    },
    /// Order placement failed after all retries.
    Failed {
        /// Human-readable error message.
        error: String,
        /// Number of retry attempts made.
        retry_count: u32,
    },
    /// Entry was already processed (double-fill prevention).
    AlreadyProcessed,
    /// Placement deferred until full fill (wash trade prevention).
    Deferred {
        /// Reason for deferral.
        reason: String,
    },
}

/// What a placement attempt came to.
pub enum OutcomeView {
    Success { actual_order_id: Seq<char>, order: Order },
    Failed { error: Seq<char>, retry_count: u32 },
    AlreadyProcessed,
    Deferred { reason: Seq<char> },
}

impl View for PlacementOutcome {
    type V = OutcomeView;

    open spec fn view(&self) -> OutcomeView {
        match *self {
            PlacementOutcome::Success { actual_order_id, order } => OutcomeView::Success {
                actual_order_id: actual_order_id@,
                order: *order,
            },
            PlacementOutcome::Failed { error, retry_count } => OutcomeView::Failed {
                error: error@,
                retry_count,
            },
            PlacementOutcome::AlreadyProcessed => OutcomeView::AlreadyProcessed,
            PlacementOutcome::Deferred { reason } => OutcomeView::Deferred { reason: reason@ },
        }
    }
}

impl PlacementOutcome {
    /// Check if this outcome represents a successful placement.
    pub fn is_success(&self) -> (b: bool)
        ensures
            b == (self@ is Success),
    {
        match self {
            PlacementOutcome::Success { .. } => true,
            _ => false,
        }
    }

    /// Check if this outcome represents a failure.
    pub fn is_failed(&self) -> (b: bool)
        ensures
            b == (self@ is Failed),
    {
        match self {
            PlacementOutcome::Failed { .. } => true,
            _ => false,
        }
    }
}

/// Result of a single exit order placement attempt.
#[derive(Debug)]
pub struct PlacementResult {
    /// The placeholder ID that was processed.
    pub placeholder_id: String,
    /// Type of order (stop-loss or take-profit).
    pub order_type: ExitLegType,
    /// Outcome of the placement attempt.
    pub outcome: PlacementOutcome,
    /// Result of sibling cancellation, if applicable.
    pub sibling_cancellation: Option<SiblingCancellation>,
}

/// What is told of a placement attempt.
pub struct PlacementView {
    pub placeholder_id: Seq<char>,
    pub order_type: ExitLegType,
    pub outcome: OutcomeView,
    pub sibling_cancellation: Option<SiblingView>,
}

impl View for PlacementResult {
    type V = PlacementView;

    open spec fn view(&self) -> PlacementView {
        PlacementView {
            placeholder_id: self.placeholder_id@,
            order_type: self.order_type,
            outcome: self.outcome@,
            sibling_cancellation: opt_sibling(self.sibling_cancellation),
        }
    }
}

/// The view of a sibling's cancellation that may be absent.
pub open spec fn opt_sibling(sibling: Option<SiblingCancellation>) -> Option<SiblingView> {
    match sibling {
        Some(c) => Some(c@),
        None => None,
    }
}

/// What is told of a placement attempt that involved no sibling.
pub open spec fn placement(
    placeholder_id: Seq<char>,
    order_type: ExitLegType,
    outcome: OutcomeView,
) -> PlacementView {
    PlacementView { placeholder_id, order_type, outcome, sibling_cancellation: None }
}

impl PlacementResult {
    /// Create a successful placement result.
    pub fn success(placeholder_id: String, order_type: ExitLegType, order: Order) -> (
        r: PlacementResult)
        ensures
            r@ == placement(
                placeholder_id@,
                order_type,
                OutcomeView::Success { actual_order_id: order.id@, order },
            ),
    {
        PlacementResult::success_with_sibling(placeholder_id, order_type, order, None)
    }

    /// Create a successful placement result with sibling cancellation info.
    pub fn success_with_sibling(
        placeholder_id: String,
        order_type: ExitLegType,
        order: Order,
        sibling_cancellation: Option<SiblingCancellation>,
    ) -> (r: PlacementResult)
        ensures
            r@ == (PlacementView {
                placeholder_id: placeholder_id@,
                order_type,
                outcome: OutcomeView::Success { actual_order_id: order.id@, order },
                sibling_cancellation: opt_sibling(sibling_cancellation),
            }),
    {
        PlacementResult {
            placeholder_id,
            order_type,
            outcome: PlacementOutcome::Success {
                actual_order_id: order.id.clone(),
                order: Box::new(order),
            },
            sibling_cancellation,
        }
    }

    /// Create a failed placement result.
    pub fn failed(
        placeholder_id: String,
        order_type: ExitLegType,
        error: String,
        retry_count: u32,
    ) -> (r: PlacementResult)
        ensures
            r@ == placement(
                placeholder_id@,
                order_type,
                OutcomeView::Failed { error: error@, retry_count },
            ),
    {
        PlacementResult {
            placeholder_id,
            order_type,
            outcome: PlacementOutcome::Failed { error, retry_count },
            sibling_cancellation: None,
        }
    }

    /// Create an already-processed result.
    pub fn already_processed(placeholder_id: String, order_type: ExitLegType) -> (
        r: PlacementResult)
        ensures
            r@ == placement(placeholder_id@, order_type, OutcomeView::AlreadyProcessed),
    {
        PlacementResult {
            placeholder_id,
            order_type,
            outcome: PlacementOutcome::AlreadyProcessed,
            sibling_cancellation: None,
        }
    }

    /// Create a deferred result (waiting for full fill).
    pub fn deferred(placeholder_id: String, order_type: ExitLegType, reason: String) -> (
        r: PlacementResult)
        ensures
            r@ == placement(placeholder_id@, order_type, OutcomeView::Deferred { reason: reason@ }),
    {
        PlacementResult {
            placeholder_id,
            order_type,
            outcome: PlacementOutcome::Deferred { reason },
            sibling_cancellation: None,
        }
    }

    /// Check if this placement was successful.
    pub fn is_success(&self) -> (b: bool)
        ensures
            b == (self@.outcome is Success),
    {
        self.outcome.is_success()
    }

    /// Check if this placement failed.
    pub fn is_failed(&self) -> (b: bool)
        ensures
            b == (self@.outcome is Failed),
    {
        self.outcome.is_failed()
    }

    /// Check if this placement was deferred (waiting for full fill).
    pub fn is_deferred(&self) -> (b: bool)
        ensures
            b == (self@.outcome is Deferred),
    {
        match &self.outcome {
            PlacementOutcome::Deferred { .. } => true,
            _ => false,
        }
    }

    /// Get the actual order ID if placement was successful.
    pub fn actual_order_id(&self) -> (id: Option<&str>)
        ensures
            match id {
                Some(s) => self@.outcome matches OutcomeView::Success { actual_order_id, .. }
                    && actual_order_id == s@,
                None => !(self@.outcome is Success),
            },
    {
        match &self.outcome {
            PlacementOutcome::Success { actual_order_id, .. } => Some(actual_order_id.as_str()),
            _ => None,
        }
    }

    /// Get the sibling cancellation result, if any.
    pub fn sibling_cancellation(&self) -> (c: Option<&SiblingCancellation>)
        ensures
            match c {
                Some(s) => self@.sibling_cancellation == Some(s@),
                None => self@.sibling_cancellation is None,
            },
    {
        self.sibling_cancellation.as_ref()
    }
}

// ---------------------------------------------------------------------------------------
// Error classification
// ---------------------------------------------------------------------------------------

/// Classification of errors for circuit breaker behavior.
#[derive(Debug, Clone, Copy, PartialEq, Eq, Structural)]
pub enum ErrorCategory {
    /// Network errors, timeouts, connection refused, unknown errors.
    /// These count toward the circuit breaker threshold.
    InfrastructureFailure,
    /// HTTP 429 rate limit errors.
    /// These do NOT count - exponential backoff handles them.
    RateLimited,
    /// Maintenance, symbol halted, market closed.
    /// These do NOT count - temporary exchange state.
    ExchangeUnavailable,
}

impl ErrorCategory {
    /// Returns true if this error category should count toward the circuit breaker.
    pub fn should_count_toward_breaker(&self) -> (counts: bool)
        ensures
            counts == (*self == ErrorCategory::InfrastructureFailure),
    {
        match self {
            ErrorCategory::InfrastructureFailure => true,
            _ => false,
        }
    }
}

/// Why an exit order was not placed, by what is done about it.
#[derive(Debug)]
pub enum PlaceOrderError {
    /// Normal placement failure after exhausting retries.
    Failed {
        /// Human-readable error message.
        message: String,
        /// Number of retry attempts made.
        retry_count: u32,
        /// Error classification for circuit breaker behavior.
        category: ErrorCategory,
    },
    /// Wash trade detected by the provider.
    WashTrade {
        /// Human-readable error message from provider.
        message: String,
    },
    /// Insufficient balance for the requested quantity.
    InsufficientBalance {
        /// Human-readable error message from provider.
        message: String,
        /// The quantity we tried to place.
        requested_quantity: Decimal,
        /// The quantity actually available in the position.
        available_quantity: Decimal,
    },
}

/// What is told of an exit order that was not placed.
pub enum PlaceOrderErrorView {
    Failed { message: Seq<char>, retry_count: u32, category: ErrorCategory },
    WashTrade { message: Seq<char> },
    InsufficientBalance {
        message: Seq<char>,
        requested_quantity: Decimal,
        available_quantity: Decimal,
    },
}

impl View for PlaceOrderError {
    type V = PlaceOrderErrorView;

    open spec fn view(&self) -> PlaceOrderErrorView {
        match *self {
            PlaceOrderError::Failed { message, retry_count, category } => {
                PlaceOrderErrorView::Failed { message: message@, retry_count, category }
            },
            PlaceOrderError::WashTrade { message } => PlaceOrderErrorView::WashTrade {
                message: message@,
            },
            PlaceOrderError::InsufficientBalance {
                message,
                requested_quantity,
                available_quantity,
            } => PlaceOrderErrorView::InsufficientBalance {
                message: message@,
                requested_quantity,
                available_quantity,
            },
        }
    }
}

impl PlaceOrderError {
    /// Check if this is a wash trade error.
    pub fn is_wash_trade(&self) -> (b: bool)
        ensures
            b == (self@ is WashTrade),
    {
        match self {
            PlaceOrderError::WashTrade { .. } => true,
            _ => false,
        }
    }

    /// Check if this is an insufficient balance error.
    pub fn is_insufficient_balance(&self) -> (b: bool)
        ensures
            b == (self@ is InsufficientBalance),
    {
        match self {
            PlaceOrderError::InsufficientBalance { .. } => true,
            _ => false,
        }
    }

    /// Get the error message.
    pub fn message(&self) -> (text: &str)
        ensures
            text@ == (match self@ {
                PlaceOrderErrorView::Failed { message, .. } => message,
                PlaceOrderErrorView::WashTrade { message } => message,
                PlaceOrderErrorView::InsufficientBalance { message, .. } => message,
            }),
    {
        match self {
            PlaceOrderError::Failed { message, .. } => message.as_str(),
            PlaceOrderError::WashTrade { message } => message.as_str(),
            PlaceOrderError::InsufficientBalance { message, .. } => message.as_str(),
        }
    }
}

} // verus!
