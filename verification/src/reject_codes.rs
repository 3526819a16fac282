//! The codes by which order rejections are known.

use vstd::prelude::*;

verus! {

/// The account cannot pay for the order.
pub const INSUFFICIENT_FUNDS: &'static str = "INSUFFICIENT_FUNDS";

/// The market is closed.
pub const MARKET_CLOSED: &'static str = "MARKET_CLOSED";

/// The quantity is not allowed.
pub const INVALID_QUANTITY: &'static str = "INVALID_QUANTITY";

/// The symbol is not known.
pub const INVALID_SYMBOL: &'static str = "INVALID_SYMBOL";

} // verus!
