//! Messages to connected strategies.

use vstd::prelude::*;
use crate::error::opt_json;
use crate::json::{Json, JsonView};
use crate::models::{Order, Position};
use crate::text::opt_text;
use crate::time::Timestamp;

verus! {

/// What happened to an order.
#[derive(Debug, Clone, Copy, PartialEq, Eq, Structural)]
pub enum OrderEventType {
    /// The provider accepted the order.
    OrderCreated,
    /// The order was modified.
    OrderModified,
    /// Part of the order was filled.
    OrderPartiallyFilled,
    /// The order was filled.
    OrderFilled,
    /// The order was cancelled.
    OrderCancelled,
    /// The provider rejected the order.
    OrderRejected,
    /// The order expired.
    OrderExpired,
    /// A bracket order was accepted.
    BracketOrderCreated,
    /// A bracket order was modified.
    BracketOrderModified,
}

/// What happened to a position.
#[derive(Debug, Clone, Copy, PartialEq, Eq, Structural)]
pub enum PositionEventType {
    /// The position was opened.
    PositionOpened,
    /// The position changed.
    PositionModified,
    /// The position was closed.
    PositionClosed,
}

/// What happened to the connection.
#[derive(Debug, Clone, Copy, PartialEq, Eq, Structural)]
pub enum ConnectionEventType {
    /// The provider is connected.
    Connected,
    /// The provider is about to be disconnected.
    Disconnecting,
    /// The provider is being reconnected.
    Reconnecting,
}

/// Why an error is sent to strategies.
#[derive(Debug, Clone, Copy, PartialEq, Eq, Structural)]
pub enum WsErrorCode {
    /// The exit orders of a position could not be placed.
    PositionUnprotected,
    /// Both legs of an OCO group were filled.
    OcoDoubleExit,
}

/// A message to connected strategies.
#[derive(Debug)]
pub enum WsMessage {
    /// An order event.
    Order {
        event: OrderEventType,
        order: Order,
        parent_order_id: Option<String>,
        timestamp: Timestamp,
    },
    /// A position event.
    Position { event: PositionEventType, position: Position, timestamp: Timestamp },
    /// A connection event.
    Connection {
        event: ConnectionEventType,
        error: Option<String>,
        broker: Option<String>,
        gap_duration_ms: Option<u64>,
        timestamp: Timestamp,
    },
    /// An error.
    Error { code: WsErrorCode, message: String, details: Option<Json>, timestamp: Timestamp },
}

/// What a message tells.
pub enum WsMessageView {
    Order {
        event: OrderEventType,
        order: Order,
        parent_order_id: Option<Seq<char>>,
        timestamp: Timestamp,
    },
    Position { event: PositionEventType, position: Position, timestamp: Timestamp },
    Connection {
        event: ConnectionEventType,
        error: Option<Seq<char>>,
        broker: Option<Seq<char>>,
        gap_duration_ms: Option<u64>,
        timestamp: Timestamp,
    },
    Error {
        code: WsErrorCode,
        message: Seq<char>,
        details: Option<JsonView>,
        timestamp: Timestamp,
    },
}

impl View for WsMessage {
    type V = WsMessageView;

    open spec fn view(&self) -> WsMessageView {
        match *self {
            WsMessage::Order { event, order, parent_order_id, timestamp } => WsMessageView::Order {
                event,
                order,
                parent_order_id: opt_text(parent_order_id),
                timestamp,
            },
            WsMessage::Position { event, position, timestamp } => WsMessageView::Position {
                event,
                position,
                timestamp,
            },
            WsMessage::Connection { event, error, broker, gap_duration_ms, timestamp } => {
                WsMessageView::Connection {
                    event,
                    error: opt_text(error),
                    broker: opt_text(broker),
                    gap_duration_ms,
                    timestamp,
                }
            },
            WsMessage::Error { code, message, details, timestamp } => WsMessageView::Error {
                code,
                message: message@,
                details: opt_json(details),
                timestamp,
            },
        }
    }
}

/// What several messages tell.
pub open spec fn message_views(messages: Seq<WsMessage>) -> Seq<WsMessageView> {
    messages.map_values(|m: WsMessage| m@)
}

impl WsMessage {
    /// An error with details.
    pub fn error_with_details(code: WsErrorCode, message: String, details: Json, now: Timestamp)
        -> (m: WsMessage)
        ensures
            m@ == (WsMessageView::Error {
                code,
                message: message@,
                details: Some(details@),
                timestamp: now,
            }),
    {
        WsMessage::Error { code, message, details: Some(details), timestamp: now }
    }
}

} // verus!
