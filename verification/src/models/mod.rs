//! Core trading models and enums.

pub mod account;
pub mod bar;
pub mod bracket;
pub mod laws;
pub mod order;
pub mod platform;
pub mod position;
pub mod quote;
pub mod system;
pub mod trade;

pub use account::Account;
pub use bar::{Bar, BarParams, Timeframe};
pub use bracket::{PlaceOcoOrderRequest, PlaceOcoOrderResponse};
pub use order::{
    CancelAllResult, CancelOrderResult, ModifyOrderRequest, ModifyOrderResult, Order, OrderHandle,
    OrderQueryParams, OrderRequest,
};
pub use platform::{
    GatewayMode, TradingPlatform, TradingPlatformKind, TradingPlatformParseError, VALID_PROVIDERS,
};
pub use position::{CloseAllPositionsResult, ClosePositionRequest, Position};
pub use quote::Quote;
pub use system::{
    Capabilities, ConnectionStatus, DetailedHealthStatus, HealthStatus, OverallStatus,
    ProviderHealth, RateLimits, ReadyStatus,
};
pub use trade::{Trade, TradeQueryParams};

use vstd::prelude::*;
use crate::text::same;

verus! {

/// Order side (buy or sell)
#[derive(Debug, Clone, Copy, PartialEq, Eq, Hash, Structural)]
pub enum Side {
    /// Buy order (long entry, short exit)
    Buy,
    /// Sell order (short entry, long exit)
    Sell,
}

/// Position side (long or short)
#[derive(Debug, Clone, Copy, PartialEq, Eq, Hash, Structural)]
pub enum PositionSide {
    /// Long position (profit from price increase)
    Long,
    /// Short position (profit from price decrease)
    Short,
}

/// Order type
#[derive(Debug, Clone, Copy, PartialEq, Eq, Hash, Structural)]
pub enum OrderType {
    /// Execute immediately at best available price
    Market,
    /// Execute at specified price or better
    Limit,
    /// Trigger market order when stop price reached
    Stop,
    /// Trigger limit order when stop price reached
    StopLimit,
    /// Trailing stop that follows price movement
    TrailingStop,
}

/// Order status
#[derive(Debug, Clone, Copy, PartialEq, Eq, Hash, Structural)]
pub enum OrderStatus {
    /// Order received but not yet processed
    Pending,
    /// Cancellation requested but not yet confirmed
    PendingCancel,
    /// Order active in the order book
    Open,
    /// Order partially executed
    PartiallyFilled,
    /// Order fully executed
    Filled,
    /// Order cancelled by user or system
    Cancelled,
    /// Order rejected by exchange
    Rejected,
    /// Order expired (time-in-force reached)
    Expired,
}

/// Trailing stop type (how trailing distance is interpreted)
#[derive(Debug, Clone, Copy, PartialEq, Eq, Hash, Structural)]
pub enum TrailingType {
    /// Absolute price distance (e.g., $5 from peak)
    Absolute,
    /// Percentage of price (e.g., 2% from peak)
    Percent,
}

/// Margin mode for leveraged trading
#[derive(Debug, Clone, Copy, PartialEq, Eq, Hash, Structural)]
pub enum MarginMode {
    /// Shared margin across all positions
    Cross,
    /// Margin allocated per position
    Isolated,
}

/// Asset class
#[derive(Debug, Clone, Copy, PartialEq, Eq, Hash, Structural)]
pub enum AssetClass {
    /// Equities (stocks, ETFs)
    Stock,
    /// Foreign exchange currency pairs
    Forex,
    /// Cryptocurrencies and digital assets
    Crypto,
    /// Futures contracts
    Futures,
}

/// Position mode (how positions are aggregated)
#[derive(Debug, Clone, Copy, PartialEq, Eq, Hash, Structural)]
pub enum PositionMode {
    /// Single position per symbol, orders aggregate
    Netting,
    /// Multiple positions per symbol allowed
    Hedging,
}

/// Time in force for orders.
#[derive(Debug, Clone, Copy, PartialEq, Eq, Hash, Structural)]
pub enum TimeInForce {
    /// Good till cancelled (default)
    Gtc,
    /// Day order - expires at end of trading day
    Day,
    /// Immediate or cancel
    Ioc,
    /// Fill or kill
    Fok,
}

impl Default for TimeInForce {
    fn default() -> (t: TimeInForce)
        ensures
            t == TimeInForce::Gtc,
    {
        TimeInForce::Gtc
    }
}

/// Order rejection reason
#[derive(Debug, Clone, Copy, PartialEq, Eq, Hash, Structural)]
pub enum RejectReason {
    /// Not enough margin to place order
    InsufficientMargin,
    /// Not enough cash balance
    InsufficientBalance,
    /// Quantity below minimum or invalid step
    InvalidQuantity,
    /// Price below minimum or invalid tick size
    InvalidPrice,
    /// Symbol not available for trading
    SymbolNotTradeable,
    /// Trading hours closed
    MarketClosed,
    /// Reduce-only order would increase position
    ReduceOnlyViolated,
    /// Post-only order would take liquidity
    PostOnlyViolated,
    /// Rate limit exceeded
    RateLimited,
    /// Unknown rejection reason
    Unknown,
}

impl Side {
    /// The side that a wire name stands for.
    pub open spec fn spec_of_wire(name: Seq<char>) -> Option<Side> {
        if name == "BUY"@ || name == "buy"@ {
            Some(Side::Buy)
        } else if name == "SELL"@ || name == "sell"@ {
            Some(Side::Sell)
        } else {
            None
        }
    }

    /// The wire name of a side.
    pub open spec fn spec_wire(self) -> Seq<char> {
        match self {
            Side::Buy => "BUY"@,
            Side::Sell => "SELL"@,
        }
    }

    /// Reads a side from its wire name, in capitals or in small letters.
    pub fn of_wire(name: &str) -> (side: Option<Side>)
        ensures
            side == Side::spec_of_wire(name@),
    {
        if same(name, "BUY") || same(name, "buy") {
            Some(Side::Buy)
        } else if same(name, "SELL") || same(name, "sell") {
            Some(Side::Sell)
        } else {
            None
        }
    }

    /// The wire name of the side.
    pub fn wire(&self) -> (name: &'static str)
        ensures
            name@ == self.spec_wire(),
    {
        match self {
            Side::Buy => "BUY",
            Side::Sell => "SELL",
        }
    }
}

impl OrderType {
    /// The order type that a wire name stands for.
    pub open spec fn spec_of_wire(name: Seq<char>) -> Option<OrderType> {
        if name == "MARKET"@ || name == "market"@ {
            Some(OrderType::Market)
        } else if name == "LIMIT"@ || name == "limit"@ {
            Some(OrderType::Limit)
        } else if name == "STOP"@ || name == "stop"@ {
            Some(OrderType::Stop)
        } else if name == "STOP_LIMIT"@ || name == "stop_limit"@ {
            Some(OrderType::StopLimit)
        } else if name == "TRAILING_STOP"@ || name == "trailing_stop"@ {
            Some(OrderType::TrailingStop)
        } else {
            None
        }
    }

    /// Reads an order type from its wire name, in capitals or in small letters.
    pub fn of_wire(name: &str) -> (order_type: Option<OrderType>)
        ensures
            order_type == OrderType::spec_of_wire(name@),
    {
        if same(name, "MARKET") || same(name, "market") {
            Some(OrderType::Market)
        } else if same(name, "LIMIT") || same(name, "limit") {
            Some(OrderType::Limit)
        } else if same(name, "STOP") || same(name, "stop") {
            Some(OrderType::Stop)
        } else if same(name, "STOP_LIMIT") || same(name, "stop_limit") {
            Some(OrderType::StopLimit)
        } else if same(name, "TRAILING_STOP") || same(name, "trailing_stop") {
            Some(OrderType::TrailingStop)
        } else {
            None
        }
    }
}

impl TimeInForce {
    /// The time in force that a wire name stands for.
    pub open spec fn spec_of_wire(name: Seq<char>) -> Option<TimeInForce> {
        if name == "GTC"@ || name == "gtc"@ {
            Some(TimeInForce::Gtc)
        } else if name == "DAY"@ || name == "day"@ {
            Some(TimeInForce::Day)
        } else if name == "IOC"@ || name == "ioc"@ {
            Some(TimeInForce::Ioc)
        } else if name == "FOK"@ || name == "fok"@ {
            Some(TimeInForce::Fok)
        } else {
            None
        }
    }

    /// Reads a time in force from its wire name, in capitals or in small letters.
    pub fn of_wire(name: &str) -> (time_in_force: Option<TimeInForce>)
        ensures
            time_in_force == TimeInForce::spec_of_wire(name@),
    {
        if same(name, "GTC") || same(name, "gtc") {
            Some(TimeInForce::Gtc)
        } else if same(name, "DAY") || same(name, "day") {
            Some(TimeInForce::Day)
        } else if same(name, "IOC") || same(name, "ioc") {
            Some(TimeInForce::Ioc)
        } else if same(name, "FOK") || same(name, "fok") {
            Some(TimeInForce::Fok)
        } else {
            None
        }
    }
}

impl OrderStatus {
    /// The status that a wire name stands for.
    pub open spec fn spec_of_wire(name: Seq<char>) -> Option<OrderStatus> {
        if name == "PENDING"@ {
            Some(OrderStatus::Pending)
        } else if name == "PENDING_CANCEL"@ {
            Some(OrderStatus::PendingCancel)
        } else if name == "OPEN"@ {
            Some(OrderStatus::Open)
        } else if name == "PARTIALLY_FILLED"@ {
            Some(OrderStatus::PartiallyFilled)
        } else if name == "FILLED"@ {
            Some(OrderStatus::Filled)
        } else if name == "CANCELLED"@ {
            Some(OrderStatus::Cancelled)
        } else if name == "REJECTED"@ {
            Some(OrderStatus::Rejected)
        } else if name == "EXPIRED"@ {
            Some(OrderStatus::Expired)
        } else {
            None
        }
    }

    /// Reads a status from its wire name.
    pub fn of_wire(name: &str) -> (status: Option<OrderStatus>)
        ensures
            status == OrderStatus::spec_of_wire(name@),
    {
        if same(name, "PENDING") {
            Some(OrderStatus::Pending)
        } else if same(name, "PENDING_CANCEL") {
            Some(OrderStatus::PendingCancel)
        } else if same(name, "OPEN") {
            Some(OrderStatus::Open)
        } else if same(name, "PARTIALLY_FILLED") {
            Some(OrderStatus::PartiallyFilled)
        } else if same(name, "FILLED") {
            Some(OrderStatus::Filled)
        } else if same(name, "CANCELLED") {
            Some(OrderStatus::Cancelled)
        } else if same(name, "REJECTED") {
            Some(OrderStatus::Rejected)
        } else if same(name, "EXPIRED") {
            Some(OrderStatus::Expired)
        } else {
            None
        }
    }
}

} // verus!
