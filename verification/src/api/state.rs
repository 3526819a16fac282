//! Gateway application state.

use vstd::prelude::*;
use crate::correlation::CorrelationStore;
use crate::exit_management::{ExitHandler, ExitHandlerRegistry};
use crate::models::{OrderHandle, TradingPlatform};
use crate::text::{opt_str, opt_text};

verus! {

/// What the REST handlers share.
pub struct GatewayState {
    /// The platform that the gateway serves.
    pub platform: TradingPlatform,
    /// Registry of per-adapter exit handlers.
    pub exit_handler_registry: ExitHandlerRegistry,
    /// Correlation store mapping provider order IDs to gateway-assigned correlation IDs.
    pub correlation_store: CorrelationStore,
    /// The key that requests have to provide, if any.
    pub api_key: Option<String>,
    /// Whether the gateway is shutting down.
    pub shutting_down: bool,
}

impl GatewayState {
    /// Create a new gateway state.
    pub fn new(
        platform: TradingPlatform,
        exit_handler_registry: ExitHandlerRegistry,
        correlation_store: CorrelationStore,
        api_key: Option<String>,
    ) -> (s: GatewayState)
        ensures
            s == (GatewayState {
                platform,
                exit_handler_registry,
                correlation_store,
                api_key,
                shutting_down: false,
            }),
    {
        GatewayState {
            platform,
            exit_handler_registry,
            correlation_store,
            api_key,
            shutting_down: false,
        }
    }

    /// Get the configured trading platform.
    pub fn platform(&self) -> (p: TradingPlatform)
        ensures
            p == self.platform,
    {
        self.platform
    }

    /// Get a reference to the exit handler registry.
    pub fn exit_handler_registry(&self) -> (r: &ExitHandlerRegistry)
        ensures
            *r == self.exit_handler_registry,
    {
        &self.exit_handler_registry
    }

    /// Get a reference to the correlation store.
    pub fn correlation_store(&self) -> (s: &CorrelationStore)
        ensures
            *s == self.correlation_store,
    {
        &self.correlation_store
    }

    /// Get a reference to the configured API key (if any).
    pub fn api_key(&self) -> (key: Option<&str>)
        ensures
            opt_str(key) == opt_text(self.api_key),
    {
        match &self.api_key {
            Some(key) => Some(key.as_str()),
            None => None,
        }
    }

    /// Check if the gateway is shutting down.
    pub fn is_shutting_down(&self) -> (b: bool)
        ensures
            b == self.shutting_down,
    {
        self.shutting_down
    }

    /// Signal that the gateway is shutting down.
    pub fn set_shutting_down(&mut self)
        ensures
            *final(self) == (GatewayState { shutting_down: true, ..*old(self) }),
    {
        self.shutting_down = true;
    }

    /// Keeps the correlation ID of an order that was submitted, and puts it on the handle.
    pub fn assign_correlation(&mut self, handle: OrderHandle, correlation_id: String) -> (assigned:
        OrderHandle)
        requires
            old(self).correlation_store.wf(),
        ensures
            final(self).correlation_store.wf(),
            final(self).correlation_store@ == old(self).correlation_store@.insert(
                handle.id@,
                correlation_id@,
            ),
            assigned == (OrderHandle { correlation_id: Some(correlation_id), ..handle }),
            *final(self) == (GatewayState {
                correlation_store: final(self).correlation_store,
                ..*old(self)
            }),
    {
        self.correlation_store.assign(handle, correlation_id)
    }

    /// The exit handler of the platform that the gateway serves.
    pub fn exit_handler(&self) -> (handler: Option<&ExitHandler>)
        requires
            self.exit_handler_registry.wf(),
        ensures
            match handler {
                Some(h) => self.exit_handler_registry.handler_of(self.platform) == Some(*h)
                    && h.wf(),
                None => self.exit_handler_registry.handler_of(self.platform) is None,
            },
    {
        self.exit_handler_registry.get(&self.platform)
    }
}

} // verus!
