//! Processing of provider events.
//!
//! - **Messages**: what is broadcast to connected strategies
//! - **Router**: what is done about each event of the provider

pub mod laws;
pub mod messages;
pub mod router;

pub use messages::{ConnectionEventType, OrderEventType, PositionEventType, WsErrorCode, WsMessage};
pub use router::{EventRouter, EventRouterConfig};
