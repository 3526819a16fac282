//! System models for connection status, health checks, and provider capabilities.

use vstd::prelude::*;
use vstd::string::*;
use crate::decimal::Decimal;
use crate::json::{Json, JsonView, items_view, text_items};
use crate::text::{lowercase, same, texts, to_lowercase};
use crate::time::Timestamp;
use super::{AssetClass, OrderType, PositionMode};

verus! {

/// Health check response for liveness probes.
#[derive(Debug, Clone)]
pub struct HealthStatus {
    /// Health status (always "ok" if responding)
    pub status: String,
}

impl HealthStatus {
    /// Create a healthy status response.
    pub fn ok() -> (s: HealthStatus)
        ensures
            s.status@ == "ok"@,
    {
        HealthStatus { status: "ok".to_owned() }
    }
}

impl Default for HealthStatus {
    fn default() -> (s: HealthStatus)
        ensures
            s.status@ == "ok"@,
    {
        HealthStatus::ok()
    }
}

/// Readiness check response for readiness probes.
#[derive(Debug, Clone)]
pub struct ReadyStatus {
    /// Whether the service is ready to accept requests
    pub ready: bool,
    /// List of registered provider names
    pub providers: Vec<String>,
    /// Number of registered providers
    pub provider_count: usize,
    /// Optional message explaining non-ready state
    pub message: Option<String>,
}

impl ReadyStatus {
    /// Create a ready status with the given providers.
    pub fn ready(providers: Vec<String>) -> (s: ReadyStatus)
        ensures
            s.ready,
            s.providers == providers,
            s.provider_count == providers@.len(),
            s.message is None,
    {
        let provider_count: usize = providers.len();
        ReadyStatus { ready: true, providers, provider_count, message: None }
    }

    /// Create a not-ready status with the given reason.
    pub fn not_ready(reason: &str) -> (s: ReadyStatus)
        ensures
            !s.ready,
            s.providers@.len() == 0,
            s.provider_count == 0,
            s.message matches Some(m) && m@ == reason@,
    {
        ReadyStatus {
            ready: false,
            providers: Vec::new(),
            provider_count: 0,
            message: Some(reason.to_owned()),
        }
    }
}

/// Connection status to the trading provider.
#[derive(Debug, Clone)]
pub struct ConnectionStatus {
    /// Whether the connection to the provider is active
    pub connected: bool,
    /// Round-trip latency in milliseconds
    pub latency_ms: u32,
    /// Timestamp of last successful heartbeat/ping
    pub last_heartbeat: Timestamp,
}

/// Rate limit information for a trading provider.
#[derive(Debug, Clone)]
pub struct RateLimits {
    /// Maximum API requests per minute
    pub requests_per_minute: Option<u32>,
    /// Maximum order submissions per second
    pub orders_per_second: Option<u32>,
    /// Maximum orders per day
    pub orders_per_day: Option<u32>,
}

/// Provider capabilities describing supported features.
#[derive(Debug, Clone)]
pub struct Capabilities {
    /// Asset classes supported by this provider
    pub supported_asset_classes: Vec<AssetClass>,
    /// Order types supported by this provider
    pub supported_order_types: Vec<OrderType>,
    /// Position mode (netting vs hedging)
    pub position_mode: PositionMode,
    /// List of supported optional features.
    pub features: Vec<String>,
    /// Maximum leverage multiplier (if applicable)
    pub max_leverage: Option<Decimal>,
    /// Provider rate limits (None means unlimited, e.g., Tektii engine)
    pub rate_limits: Option<RateLimits>,
}

impl Capabilities {
    /// Check if a specific feature is supported (case-insensitive).
    pub fn supports_feature(&self, feature: &str) -> (supported: bool)
        ensures
            supported == exists|i: int|
                0 <= i < self.features@.len() && lowercase(#[trigger] self.features@[i]@)
                    == lowercase(feature@),
    {
        let feature_lower = to_lowercase(feature);
        let mut i: usize = 0;
        while i < self.features.len()
            invariant
                i <= self.features.len(),
                feature_lower@ == lowercase(feature@),
                forall|j: int|
                    0 <= j < i ==> lowercase(#[trigger] self.features@[j]@) != lowercase(feature@),
            decreases self.features.len() - i,
        {
            if same(to_lowercase(self.features[i].as_str()).as_str(), feature_lower.as_str()) {
                return true;
            }
            i = i + 1;
        }
        false
    }

    /// Check if a specific order type is supported.
    pub fn supports_order_type(&self, order_type: OrderType) -> (supported: bool)
        ensures
            supported == self.supported_order_types@.contains(order_type),
    {
        let mut i: usize = 0;
        while i < self.supported_order_types.len()
            invariant
                i <= self.supported_order_types.len(),
                forall|j: int| 0 <= j < i ==> self.supported_order_types@[j] != order_type,
            decreases self.supported_order_types.len() - i,
        {
            if self.supported_order_types[i] == order_type {
                return true;
            }
            i = i + 1;
        }
        false
    }

    /// Check if a specific asset class is supported.
    pub fn supports_asset_class(&self, asset_class: AssetClass) -> (supported: bool)
        ensures
            supported == self.supported_asset_classes@.contains(asset_class),
    {
        let mut i: usize = 0;
        while i < self.supported_asset_classes.len()
            invariant
                i <= self.supported_asset_classes.len(),
                forall|j: int| 0 <= j < i ==> self.supported_asset_classes@[j] != asset_class,
            decreases self.supported_asset_classes.len() - i,
        {
            if self.supported_asset_classes[i] == asset_class {
                return true;
            }
            i = i + 1;
        }
        false
    }
}

/// Overall gateway health status for detailed health endpoint.
#[derive(Debug, Clone, Copy, PartialEq, Eq, Structural)]
pub enum OverallStatus {
    /// All providers connected with fresh data
    Connected,
    /// One or more providers have stale data (e.g., during reconnection)
    Degraded,
}

impl OverallStatus {
    /// How the status is written in a response.
    pub open spec fn spec_text(self) -> Seq<char> {
        match self {
            OverallStatus::Connected => "connected"@,
            OverallStatus::Degraded => "degraded"@,
        }
    }
}

/// Per-provider health detail.
#[derive(Debug, Clone)]
pub struct ProviderHealth {
    /// Platform identifier
    pub platform: String,
    /// Whether all instrument data is fresh
    pub connected: bool,
    /// Instruments with stale data (empty when healthy)
    pub stale_instruments: Vec<String>,
}

/// Detailed health response for the `/health` endpoint.
///
/// Always returned with 200 status — degraded is informational,
/// not an error. This prevents k8s from restarting the pod on a
/// transient broker blip.
#[derive(Debug, Clone)]
pub struct DetailedHealthStatus {
    /// Overall status: "connected" or "degraded"
    pub status: OverallStatus,
    /// Per-provider health details
    pub providers: Vec<ProviderHealth>,
}

impl ProviderHealth {
    /// The provider's part of a health response; an empty list of stale instruments is left
    /// out.
    pub open spec fn spec_json(self) -> JsonView {
        let head = seq![
            ("platform"@, JsonView::Text(self.platform@)),
            ("connected"@, JsonView::Bool(self.connected)),
        ];
        if self.stale_instruments@.len() == 0 {
            JsonView::Object(head)
        } else {
            JsonView::Object(
                head.push(
                    (
                        "stale_instruments"@,
                        JsonView::Array(text_items(texts(self.stale_instruments@))),
                    ),
                ),
            )
        }
    }

    fn to_json(&self) -> (value: Json)
        ensures
            value@ == self.spec_json(),
    {
        let head = Json::object().with("platform", Json::text(self.platform.as_str())).with(
            "connected",
            Json::Bool(self.connected),
        );
        assert(head@->Object_0 =~= seq![
            ("platform"@, JsonView::Text(self.platform@)),
            ("connected"@, JsonView::Bool(self.connected)),
        ]);
        if self.stale_instruments.len() == 0 {
            return head;
        }
        head.with("stale_instruments", Json::texts(&self.stale_instruments))
    }
}

/// The providers' parts of a health response.
pub open spec fn providers_json(providers: Seq<ProviderHealth>) -> Seq<JsonView> {
    providers.map_values(|p: ProviderHealth| p.spec_json())
}

impl DetailedHealthStatus {
    /// The health of a gateway with one provider: degraded exactly while some instrument's
    /// data is stale.
    pub fn for_provider(platform: &str, stale_instruments: Vec<String>) -> (
        health: DetailedHealthStatus)
        ensures
            health.providers@.len() == 1,
            health.providers@[0].platform@ == platform@,
            health.providers@[0].connected == (stale_instruments@.len() == 0),
            health.providers@[0].stale_instruments == stale_instruments,
            health.status == (if stale_instruments@.len() == 0 {
                OverallStatus::Connected
            } else {
                OverallStatus::Degraded
            }),
    {
        let connected = stale_instruments.len() == 0;
        let status = if connected {
            OverallStatus::Connected
        } else {
            OverallStatus::Degraded
        };
        let mut providers: Vec<ProviderHealth> = Vec::new();
        providers.push(
            ProviderHealth { platform: platform.to_owned(), connected, stale_instruments },
        );
        DetailedHealthStatus { status, providers }
    }

    /// The health response.
    pub fn to_json(&self) -> (value: Json)
        ensures
            value@ == JsonView::Object(
                seq![
                    ("status"@, JsonView::Text(self.status.spec_text())),
                    ("providers"@, JsonView::Array(providers_json(self.providers@))),
                ],
            ),
    {
        let status = match self.status {
            OverallStatus::Connected => "connected",
            OverallStatus::Degraded => "degraded",
        };
        let mut list: Vec<Json> = Vec::new();
        let mut i: usize = 0;
        while i < self.providers.len()
            invariant
                i <= self.providers.len(),
                items_view(list@) == providers_json(self.providers@.take(i as int)),
            decreases self.providers.len() - i,
        {
            let ghost before = list@;
            list.push(self.providers[i].to_json());
            proof {
                assert(list@.drop_last() =~= before);
                assert(providers_json(self.providers@.take(i + 1)) =~= providers_json(
                    self.providers@.take(i as int),
                ).push(self.providers@[i as int].spec_json()));
            }
            i = i + 1;
        }
        assert(self.providers@.take(i as int) =~= self.providers@);
        let value = Json::object().with("status", Json::text(status)).with(
            "providers",
            Json::Array(list),
        );
        assert(value@->Object_0 =~= seq![
            ("status"@, JsonView::Text(self.status.spec_text())),
            ("providers"@, JsonView::Array(providers_json(self.providers@))),
        ]);
        value
    }
}

} // verus!
