//! Provider capability types.

use vstd::prelude::*;
use crate::models::{Capabilities, OrderRequest};

verus! {

/// Strategy for handling bracket orders (SL/TP).
///
/// Different providers have varying levels of native bracket order support.
#[derive(Debug, Clone, Copy, PartialEq, Eq, Hash, Structural)]
pub enum BracketStrategy {
    /// No bracket order support
    Unsupported,
    /// Provider supports native bracket orders (e.g., Alpaca stocks)
    NativeBracket,
    /// Provider supports native OCO (e.g., Binance)
    NativeOco,
    /// Use pending SL/TP system (universal fallback)
    PendingSlTp,
}

impl BracketStrategy {
    /// Check if this strategy uses native provider support.
    pub fn is_native(&self) -> (native: bool)
        ensures
            native == (*self == BracketStrategy::NativeBracket || *self
                == BracketStrategy::NativeOco),
    {
        match self {
            BracketStrategy::NativeBracket | BracketStrategy::NativeOco => true,
            _ => false,
        }
    }

    /// Check if this strategy requires client-side management.
    pub fn requires_client_management(&self) -> (client: bool)
        ensures
            client == (*self == BracketStrategy::Unsupported || *self == BracketStrategy::PendingSlTp),
    {
        match self {
            BracketStrategy::Unsupported | BracketStrategy::PendingSlTp => true,
            _ => false,
        }
    }
}

/// Provider capability queries.
///
/// Synchronous queries about a provider's static capabilities.
pub trait ProviderCapabilities {
    /// Check if provider supports native bracket orders for symbol.
    fn supports_bracket_orders(&self, symbol: &str) -> bool;

    /// Check if provider supports native OCO for symbol.
    fn supports_oco_orders(&self, symbol: &str) -> bool;

    /// Check if provider supports OTO (one-triggers-other).
    fn supports_oto_orders(&self, symbol: &str) -> bool;

    /// Determine bracket strategy for an order.
    fn bracket_strategy(&self, order: &OrderRequest) -> BracketStrategy;

    /// Get full capabilities object.
    fn capabilities(&self) -> Capabilities;
}

} // verus!
