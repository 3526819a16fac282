//! Position-related models.

use vstd::prelude::*;
use crate::decimal::Decimal;
use crate::time::Timestamp;
use super::{MarginMode, OrderHandle, OrderType, PositionSide};

verus! {

/// Position details.
#[derive(Debug)]
pub struct Position {
    /// Position ID (may be synthetic for stock brokers)
    pub id: String,
    /// Trading symbol
    pub symbol: String,
    /// Position direction (long or short)
    pub side: PositionSide,
    /// Current position quantity
    pub quantity: Decimal,
    /// Weighted average entry price
    pub average_entry_price: Decimal,
    /// Current market price
    pub current_price: Decimal,
    /// Unrealized profit/loss
    pub unrealized_pnl: Decimal,
    /// Realized profit/loss (from partial closes)
    pub realized_pnl: Decimal,
    /// Margin mode (for leveraged positions)
    pub margin_mode: Option<MarginMode>,
    /// Leverage multiplier
    pub leverage: Option<Decimal>,
    /// Liquidation price (for leveraged positions)
    pub liquidation_price: Option<Decimal>,
    /// When the position was opened
    pub opened_at: Timestamp,
    /// When the position was last modified
    pub updated_at: Timestamp,
}

impl Clone for Position {
    fn clone(&self) -> (copy: Position)
        ensures
            copy == *self,
    {
        Position {
            id: self.id.clone(),
            symbol: self.symbol.clone(),
            side: self.side,
            quantity: self.quantity,
            average_entry_price: self.average_entry_price,
            current_price: self.current_price,
            unrealized_pnl: self.unrealized_pnl,
            realized_pnl: self.realized_pnl,
            margin_mode: self.margin_mode,
            leverage: self.leverage,
            liquidation_price: self.liquidation_price,
            opened_at: self.opened_at,
            updated_at: self.updated_at,
        }
    }
}

/// Request to close a position.
#[derive(Debug, Clone)]
pub struct ClosePositionRequest {
    /// Order type for close (default: MARKET)
    pub order_type: Option<OrderType>,
    /// Limit price (required if `order_type` is LIMIT)
    pub limit_price: Option<Decimal>,
    /// Quantity to close (None = close entire position)
    pub quantity: Option<Decimal>,
    /// Cancel pending SL/TP orders for this position (default: true)
    pub cancel_associated_orders: bool,
}

impl Default for ClosePositionRequest {
    fn default() -> (r: ClosePositionRequest)
        ensures
            r == (ClosePositionRequest {
                order_type: None,
                limit_price: None,
                quantity: None,
                cancel_associated_orders: true,
            }),
    {
        ClosePositionRequest {
            order_type: None,
            limit_price: None,
            quantity: None,
            cancel_associated_orders: default_true(),
        }
    }
}

/// What a request that leaves `cancel_associated_orders` out means.
pub fn default_true() -> (b: bool)
    ensures
        b,
{
    true
}

/// Result of closing all positions.
#[derive(Debug, Clone)]
pub struct CloseAllPositionsResult {
    /// Order handles for each closing order created
    pub orders: Vec<OrderHandle>,
}

} // verus!
