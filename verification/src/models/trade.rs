//! Trade/fill record types.

use vstd::prelude::*;
use crate::decimal::Decimal;
use crate::time::Timestamp;
use super::Side;

verus! {

/// Individual trade/fill record.
#[derive(Debug, Clone)]
pub struct Trade {
    /// Unique trade identifier from provider
    pub id: String,
    /// Order ID this trade belongs to
    pub order_id: String,
    /// Symbol traded
    pub symbol: String,
    /// Trade side (buy or sell)
    pub side: Side,
    /// Fill quantity in base units
    pub quantity: Decimal,
    /// Fill price
    pub price: Decimal,
    /// Commission/fee amount for this trade
    pub commission: Decimal,
    /// Currency of the commission (e.g., "USD", "USDT", "BNB")
    pub commission_currency: String,
    /// Whether this trade was a maker (added liquidity) or taker.
    pub is_maker: Option<bool>,
    /// Trade execution timestamp
    pub timestamp: Timestamp,
}

/// Query parameters for listing trades.
#[derive(Debug, Clone)]
pub struct TradeQueryParams {
    /// Filter by symbol
    pub symbol: Option<String>,
    /// Filter by order ID
    pub order_id: Option<String>,
    /// Return trades after this time (inclusive)
    pub since: Option<Timestamp>,
    /// Return trades before this time (exclusive)
    pub until: Option<Timestamp>,
    /// Maximum number of trades to return
    pub limit: Option<u32>,
}

impl Default for TradeQueryParams {
    fn default() -> (p: TradeQueryParams)
        ensures
            p == (TradeQueryParams {
                symbol: None,
                order_id: None,
                since: None,
                until: None,
                limit: None,
            }),
    {
        TradeQueryParams { symbol: None, order_id: None, since: None, until: None, limit: None }
    }
}

} // verus!
