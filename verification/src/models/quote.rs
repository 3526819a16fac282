//! Quote model for real-time market data.

use vstd::prelude::*;
use crate::decimal::Decimal;
use crate::time::Timestamp;

verus! {

/// Real-time quote with bid/ask/last prices.
#[derive(Debug, Clone)]
pub struct Quote {
    /// Symbol in canonical format (e.g., "EUR/USD", "AAPL")
    pub symbol: String,
    /// Data source provider (e.g., "alpaca", "binance")
    pub provider: String,
    /// Best bid price (highest buy offer)
    pub bid: Decimal,
    /// Quantity available at bid price
    pub bid_size: Option<Decimal>,
    /// Best ask price (lowest sell offer)
    pub ask: Decimal,
    /// Quantity available at ask price
    pub ask_size: Option<Decimal>,
    /// Last traded price
    pub last: Decimal,
    /// Trading volume (if available)
    pub volume: Option<Decimal>,
    /// Quote timestamp
    pub timestamp: Timestamp,
}

} // verus!
