//! What the REST handlers decide.

use vstd::prelude::*;
use crate::circuit_breaker::CircuitBreakerSnapshot;
use crate::error::{GatewayError, GatewayErrorView};
use crate::exit_management::handler::{ExitHandler, HandlerView};
use crate::failure_window::COOLDOWN_MESSAGE;
use crate::models::{OrderHandle, OrderRequest, ReadyStatus};
use crate::random::{is_hyphenated_uuid, new_uuid};
use super::state::GatewayState;

verus! {

/// Query parameters for cancelling all orders.
#[derive(Debug, Clone)]
pub struct CancelAllOrdersParams {
    /// Filter by symbol (None = cancel all orders)
    pub symbol: Option<String>,
}

impl Default for CancelAllOrdersParams {
    fn default() -> (p: CancelAllOrdersParams)
        ensures
            p.symbol is None,
    {
        CancelAllOrdersParams { symbol: None }
    }
}

/// Request body for get positions with optional symbol filter.
#[derive(Debug, Clone)]
pub struct GetPositionsParams {
    /// Optional symbol to filter positions.
    pub symbol: Option<String>,
}

impl Default for GetPositionsParams {
    fn default() -> (p: GetPositionsParams)
        ensures
            p.symbol is None,
    {
        GetPositionsParams { symbol: None }
    }
}

/// Query parameters for closing all positions.
#[derive(Debug, Clone)]
pub struct CloseAllPositionsParams {
    /// Filter by symbol (None = close all positions)
    pub symbol: Option<String>,
}

impl Default for CloseAllPositionsParams {
    fn default() -> (p: CloseAllPositionsParams)
        ensures
            p.symbol is None,
    {
        CloseAllPositionsParams { symbol: None }
    }
}

// ---------------------------------------------------------------------------------------
// Orders and positions
// ---------------------------------------------------------------------------------------

/// Why an order is not submitted: it makes no sense, or the gateway is shutting down.
pub open spec fn admission_error(request: OrderRequest, shutting_down: bool) -> Option<
    GatewayErrorView,
> {
    match request.semantics_error() {
        Some(e) => Some(e),
        None => if shutting_down {
            Some(GatewayErrorView::ShuttingDown)
        } else {
            None
        },
    }
}

/// Admits an order, and gives it a correlation ID.
pub fn admit_order(state: &GatewayState, request: &OrderRequest) -> (result: Result<
    String,
    GatewayError,
>)
    ensures
        match result {
            Ok(correlation_id) => admission_error(*request, state.shutting_down) is None
                && is_hyphenated_uuid(correlation_id@),
            Err(e) => admission_error(*request, state.shutting_down) == Some(e@),
        },
{
    match request.validate_semantics() {
        Ok(()) => {},
        Err(e) => {
            return Err(e);
        },
    }
    if state.is_shutting_down() {
        return Err(GatewayError::ShuttingDown);
    }
    Ok(new_uuid())
}

/// What closing all positions answers: no position to close is no error.
pub fn closed_handles(result: Result<Vec<OrderHandle>, GatewayError>) -> (answer: Result<
    Vec<OrderHandle>,
    GatewayError,
>)
    ensures
        match result {
            Ok(handles) => answer == Ok::<Vec<OrderHandle>, GatewayError>(handles),
            Err(e) => if e@ is PositionNotFound {
                answer matches Ok(handles) && handles@.len() == 0
            } else {
                answer == Err::<Vec<OrderHandle>, GatewayError>(e)
            },
        },
{
    match result {
        Ok(handles) => Ok(handles),
        Err(e) => {
            let not_found = match &e {
                GatewayError::PositionNotFound { .. } => true,
                _ => false,
            };
            if not_found {
                Ok(Vec::new())
            } else {
                Err(e)
            }
        },
    }
}

// ---------------------------------------------------------------------------------------
// Circuit breakers
// ---------------------------------------------------------------------------------------

/// Status of both circuit breakers.
#[derive(Debug, Clone)]
pub struct CircuitBreakerStatusResponse {
    /// Adapter circuit breaker (provider outage detection).
    pub adapter: CircuitBreakerSnapshot,
    /// Exit order circuit breaker (SL/TP placement failure detection).
    pub exit_order: CircuitBreakerSnapshot,
}

/// A snapshot of the exit order circuit breaker; without a handler it counts as closed.
pub fn exit_order_snapshot(handler: Option<&ExitHandler>) -> (s: CircuitBreakerSnapshot)
    ensures
        match handler {
            Some(h) => s.shows(h@.breaker),
            None => s.state@ == "closed"@ && s.failure_count == 0,
        },
{
    match handler {
        Some(h) => {
            let count: usize = h.circuit_breaker_failure_count();
            let s = CircuitBreakerSnapshot::of(h.is_circuit_breaker_open_internal(), count);
            proof {
                let now = choose|now: u128| count == #[trigger] h@.breaker.count_at(now);
                assert(s.shows_at(h@.breaker, now));
            }
            s
        },
        None => CircuitBreakerSnapshot::closed(),
    }
}

/// The status of both circuit breakers; an adapter without a breaker counts as closed.
pub fn circuit_breaker_status(
    adapter: Option<CircuitBreakerSnapshot>,
    handler: Option<&ExitHandler>,
) -> (response: CircuitBreakerStatusResponse)
    ensures
        match adapter {
            Some(s) => response.adapter == s,
            None => response.adapter.state@ == "closed"@ && response.adapter.failure_count == 0,
        },
        match handler {
            Some(h) => response.exit_order.shows(h@.breaker),
            None => response.exit_order.state@ == "closed"@ && response.exit_order.failure_count == 0,
        },
{
    let adapter = match adapter {
        Some(s) => s,
        None => CircuitBreakerSnapshot::closed(),
    };
    CircuitBreakerStatusResponse { adapter, exit_order: exit_order_snapshot(handler) }
}

/// Resets the exit order circuit breaker; the error says so if it is in cooldown (re-tripped
/// within 60s of last reset).
pub fn reset_exit_breaker(handler: &mut ExitHandler) -> (result: Result<(), GatewayError>)
    requires
        old(handler).wf(),
    ensures
        final(handler).wf(),
        match result {
            Ok(()) => final(handler)@.breaker.last_reset matches Some(now)
                && !old(handler)@.breaker.cooling_down(now) && final(handler)@ == (HandlerView {
                breaker: old(handler)@.breaker.after_reset(now),
                ..old(handler)@
            }),
            Err(e) => old(handler)@.breaker.last_reset is Some && final(handler)@ == old(handler)@
                && e@ == (GatewayErrorView::ResetCooldown { message: COOLDOWN_MESSAGE@ }),
        },
{
    match handler.reset_circuit_breaker() {
        Ok(()) => Ok(()),
        Err(message) => Err(GatewayError::ResetCooldown { message: message.to_owned() }),
    }
}

// ---------------------------------------------------------------------------------------
// Health checks
// ---------------------------------------------------------------------------------------

/// What the readiness probe answers: 200 while the gateway is ready, 503 while it is shutting
/// down.
pub fn readiness(state: &GatewayState) -> (answer: (u16, ReadyStatus))
    ensures
        if state.shutting_down {
            &&& answer.0 == 503
            &&& !answer.1.ready
            &&& answer.1.provider_count == 0
            &&& answer.1.providers@.len() == 0
            &&& answer.1.message matches Some(m)
            &&& m@ == "Gateway is shutting down"@
        } else {
            &&& answer.0 == 200
            &&& answer.1.ready
            &&& answer.1.message is None
            &&& answer.1.provider_count == 1
            &&& answer.1.providers@.len() == 1
            &&& answer.1.providers@[0]@ == state.platform.spec_header()
        },
{
    if state.is_shutting_down() {
        return (503, ReadyStatus::not_ready("Gateway is shutting down"));
    }
    let mut providers: Vec<String> = Vec::new();
    providers.push(state.platform().to_text());
    (200, ReadyStatus::ready(providers))
}

/// A gateway that is shutting down admits no order.
pub proof fn law_shutdown_refuses_orders(request: OrderRequest)
    ensures
        admission_error(request, true) is Some,
{
}

/// An order is admitted exactly where it makes sense and the gateway is not shutting down; an order
/// that makes no sense is told so even then.
pub proof fn law_which_orders_are_admitted(request: OrderRequest, shutting_down: bool)
    ensures
        admission_error(request, shutting_down) is None <==> request.semantics_error() is None
            && !shutting_down,
        request.semantics_error() matches Some(e) ==> admission_error(request, shutting_down)
            == Some(e),
        request.semantics_error() is None && shutting_down ==> (admission_error(
            request,
            shutting_down,
        ) matches Some(e) && e is ShuttingDown),
{
}

} // verus!
