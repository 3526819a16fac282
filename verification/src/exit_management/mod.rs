//! Exit order management (stop-loss and take-profit).
//!
//! Exit orders close a position: a stop-loss limits the downside, a take-profit locks gains
//! in. They are placed progressively as the primary order fills.
//!
//! - **Types**: the entries that are tracked and the states they go through
//! - **Order list**: the orders placed at the provider for an entry
//! - **Coverage**: how much of a position the active exit orders cover
//! - **Circuit breaker**: stops placements after repeated failures

pub mod cancellation;
pub mod circuit_breaker;
pub mod coverage;
pub mod fill_handler;
pub mod handler;
pub mod laws;
pub mod order_list;
pub mod registry;
pub mod replace;
pub mod types;

pub use circuit_breaker::{CircuitState, ExitOrderCircuitBreaker};
pub use coverage::{ExitCoverage, build_coverage, calculate_active_coverage};
pub use handler::ExitHandler;
pub use registry::ExitHandlerRegistry;
pub use order_list::OrderList;
pub use types::{
    ActualOrder, ActualOrderStatus, CancelExitResult, CancelExitResultInternal, CancellationReason,
    CancelledExitInfo, ErrorCategory, ExitBackupRegistration, ExitEntry, ExitEntryInfo,
    ExitEntryParams, ExitEntryStatus, ExitEntryStatusInfo, ExitHandlerConfig, ExitLegType,
    ExitOrderType, FailedExitInfo, PlaceOrderError, PlacementOutcome, PlacementResult,
    RegisteredExitLegs, SiblingCancellation, generate_placeholder_id, opposite_side,
    parse_placeholder_id, parse_side, side_to_str,
};
