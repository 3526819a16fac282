//! API models for the gateway.

use vstd::prelude::*;
use std::collections::HashMap;
use crate::models::{Position, Trade};

verus! {

/// Response containing trades and positions.
#[derive(Debug)]
pub struct TradesResponse {
    /// List of trades.
    pub trades: Vec<Trade>,
    /// Positions by symbol.
    pub positions: HashMap<String, Position>,
}

} // verus!
