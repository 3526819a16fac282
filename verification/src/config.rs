//! Gateway runtime configuration.
//!
//! The configuration is made of the values of environment variables, which somebody else has
//! read.

use vstd::prelude::*;
use vstd::string::*;
use vstd::utf8::encode_utf8;
use crate::models::{TradingPlatform, TradingPlatformKind};
use crate::text::{
    digits, has_part, join2, join3, list_contains, number_text, opt_text, parse_u16, parse_u64,
    parsed_u16, parsed_u64, same, texts,
};
use crate::time::{Duration, NANOS_PER_MILLI, NANOS_PER_SEC};

verus! {

/// Errors that can occur when [`GatewayConfig`] is made of the environment.
#[derive(Debug)]
pub enum GatewayConfigError {
    /// The port is not a port number.
    InvalidPort(String),
    /// The TTL is not a number.
    InvalidTtl(String),
    /// The subscriptions cannot be read.
    InvalidSubscriptions(String),
    /// A reconnection value is not a number.
    InvalidReconnect(String),
    /// The API key is too short.
    ApiKeyTooShort(usize),
    /// A variable is missing.
    MissingEnvVar(String),
    /// A variable is invalid.
    InvalidEnvVar(String),
}

/// What a configuration error tells.
pub enum ConfigErrorView {
    InvalidPort(Seq<char>),
    InvalidTtl(Seq<char>),
    InvalidSubscriptions(Seq<char>),
    InvalidReconnect(Seq<char>),
    ApiKeyTooShort(usize),
    MissingEnvVar(Seq<char>),
    InvalidEnvVar(Seq<char>),
}

impl View for GatewayConfigError {
    type V = ConfigErrorView;

    open spec fn view(&self) -> ConfigErrorView {
        match *self {
            GatewayConfigError::InvalidPort(s) => ConfigErrorView::InvalidPort(s@),
            GatewayConfigError::InvalidTtl(s) => ConfigErrorView::InvalidTtl(s@),
            GatewayConfigError::InvalidSubscriptions(s) => ConfigErrorView::InvalidSubscriptions(
                s@,
            ),
            GatewayConfigError::InvalidReconnect(s) => ConfigErrorView::InvalidReconnect(s@),
            GatewayConfigError::ApiKeyTooShort(n) => ConfigErrorView::ApiKeyTooShort(n),
            GatewayConfigError::MissingEnvVar(s) => ConfigErrorView::MissingEnvVar(s@),
            GatewayConfigError::InvalidEnvVar(s) => ConfigErrorView::InvalidEnvVar(s@),
        }
    }
}

impl ConfigErrorView {
    /// The message of an error.
    pub open spec fn text(self) -> Seq<char> {
        match self {
            ConfigErrorView::InvalidPort(s) => "invalid GATEWAY_PORT: "@ + s,
            ConfigErrorView::InvalidTtl(s) => "invalid SL_TP_TTL_HOURS: "@ + s,
            ConfigErrorView::InvalidSubscriptions(s) => "invalid SUBSCRIPTIONS JSON: "@ + s,
            ConfigErrorView::InvalidReconnect(s) => "invalid reconnection config: "@ + s,
            ConfigErrorView::ApiKeyTooShort(n) => "GATEWAY_API_KEY is too short ("@ + digits(
                n as nat,
            ) + " chars). Minimum length is 32 characters."@,
            ConfigErrorView::MissingEnvVar(s) => s,
            ConfigErrorView::InvalidEnvVar(s) => s,
        }
    }
}

impl GatewayConfigError {
    /// The message of the error.
    pub fn to_text(&self) -> (text: String)
        ensures
            text@ == self@.text(),
    {
        match self {
            GatewayConfigError::InvalidPort(s) => join2("invalid GATEWAY_PORT: ", s.as_str()),
            GatewayConfigError::InvalidTtl(s) => join2("invalid SL_TP_TTL_HOURS: ", s.as_str()),
            GatewayConfigError::InvalidSubscriptions(s) => join2(
                "invalid SUBSCRIPTIONS JSON: ",
                s.as_str(),
            ),
            GatewayConfigError::InvalidReconnect(s) => join2(
                "invalid reconnection config: ",
                s.as_str(),
            ),
            GatewayConfigError::ApiKeyTooShort(n) => join3(
                "GATEWAY_API_KEY is too short (",
                number_text(*n as u64).as_str(),
                " chars). Minimum length is 32 characters.",
            ),
            GatewayConfigError::MissingEnvVar(s) => s.clone(),
            GatewayConfigError::InvalidEnvVar(s) => s.clone(),
        }
    }
}

// ---------------------------------------------------------------------------------------
// Reconnection
// ---------------------------------------------------------------------------------------

/// Configuration for broker WebSocket reconnection with exponential backoff.
#[derive(Debug, Clone, Copy, PartialEq, Eq, Structural)]
pub struct ReconnectionConfig {
    /// Initial backoff delay (env: `RECONNECT_INITIAL_BACKOFF_MS`, default `1000`).
    pub initial_backoff: Duration,
    /// Maximum backoff delay (env: `RECONNECT_MAX_BACKOFF_MS`, default `60000`).
    pub max_backoff: Duration,
    /// Maximum total retry duration before giving up (env: `RECONNECT_MAX_DURATION_SECS`,
    /// default `300`).
    pub max_retry_duration: Duration,
}

impl Default for ReconnectionConfig {
    fn default() -> (c: ReconnectionConfig)
        ensures
            c.initial_backoff.nanos == 1000 * NANOS_PER_MILLI,
            c.max_backoff.nanos == 60 * NANOS_PER_SEC,
            c.max_retry_duration.nanos == 300 * NANOS_PER_SEC,
    {
        ReconnectionConfig {
            initial_backoff: Duration::from_millis(1000),
            max_backoff: Duration::from_secs(60),
            max_retry_duration: Duration::from_secs(300),
        }
    }
}

/// The values of the variables that reconnection is configured by.
#[derive(Debug)]
pub struct ReconnectionVars {
    /// `RECONNECT_INITIAL_BACKOFF_MS`
    pub initial_backoff_ms: Option<String>,
    /// `RECONNECT_MAX_BACKOFF_MS`
    pub max_backoff_ms: Option<String>,
    /// `RECONNECT_MAX_DURATION_SECS`
    pub max_duration_secs: Option<String>,
}

/// The number in a variable, or the default where the variable is not set.
pub open spec fn number_or(var: Option<Seq<char>>, default: u64) -> Result<u64, Seq<char>> {
    match var {
        Some(text) => parsed_u64(text),
        None => Ok(default),
    }
}

fn read_number(var: &Option<String>, default: u64) -> (n: Result<u64, String>)
    ensures
        match n {
            Ok(k) => number_or(opt_text(*var), default) == Ok::<u64, Seq<char>>(k),
            Err(e) => number_or(opt_text(*var), default) == Err::<u64, Seq<char>>(e@),
        },
{
    match var {
        Some(text) => parse_u64(text.as_str()),
        None => Ok(default),
    }
}

impl ReconnectionVars {
    /// Why reconnection cannot be configured: the first value that is not a number.
    pub open spec fn error(self) -> Option<ConfigErrorView> {
        match number_or(opt_text(self.initial_backoff_ms), 1000) {
            Err(e) => Some(ConfigErrorView::InvalidReconnect(e)),
            Ok(_) => match number_or(opt_text(self.max_backoff_ms), 60_000) {
                Err(e) => Some(ConfigErrorView::InvalidReconnect(e)),
                Ok(_) => match number_or(opt_text(self.max_duration_secs), 300) {
                    Err(e) => Some(ConfigErrorView::InvalidReconnect(e)),
                    Ok(_) => None,
                },
            },
        }
    }

    /// Whether a configuration is the one that the values make.
    pub open spec fn makes(self, c: ReconnectionConfig) -> bool {
        &&& self.error() is None
        &&& c.initial_backoff.nanos == number_or(opt_text(self.initial_backoff_ms), 1000)->Ok_0
            * NANOS_PER_MILLI
        &&& c.max_backoff.nanos == number_or(opt_text(self.max_backoff_ms), 60_000)->Ok_0
            * NANOS_PER_MILLI
        &&& c.max_retry_duration.nanos == number_or(opt_text(self.max_duration_secs), 300)->Ok_0
            * NANOS_PER_SEC
    }
}

impl ReconnectionConfig {
    /// Makes the reconnection configuration of the variables' values, falling back to
    /// defaults.
    pub fn from_env(vars: &ReconnectionVars) -> (result: Result<
        ReconnectionConfig,
        GatewayConfigError,
    >)
        ensures
            match result {
                Ok(c) => vars.makes(c),
                Err(e) => vars.error() == Some(e@),
            },
    {
        let initial: u64 = match read_number(&vars.initial_backoff_ms, 1000) {
            Ok(n) => n,
            Err(e) => {
                return Err(GatewayConfigError::InvalidReconnect(e));
            },
        };
        let max: u64 = match read_number(&vars.max_backoff_ms, 60_000) {
            Ok(n) => n,
            Err(e) => {
                return Err(GatewayConfigError::InvalidReconnect(e));
            },
        };
        let total: u64 = match read_number(&vars.max_duration_secs, 300) {
            Ok(n) => n,
            Err(e) => {
                return Err(GatewayConfigError::InvalidReconnect(e));
            },
        };
        Ok(
            ReconnectionConfig {
                initial_backoff: Duration::from_millis(initial),
                max_backoff: Duration::from_millis(max),
                max_retry_duration: Duration::from_secs(total),
            },
        )
    }
}

// ---------------------------------------------------------------------------------------
// Gateway
// ---------------------------------------------------------------------------------------

/// A subscription to the events of an instrument.
#[derive(Debug)]
pub struct InstrumentSubscription {
    /// The platform that streams the instrument.
    pub platform: TradingPlatform,
    /// The instrument.
    pub instrument: String,
    /// The events.
    pub events: Vec<String>,
}

/// Gateway runtime configuration loaded from environment variables.
pub struct GatewayConfig {
    /// Bind address (env: `GATEWAY_HOST`, default `127.0.0.1`).
    pub host: String,
    /// Listen port (env: `GATEWAY_PORT`, default `8080`).
    pub port: u16,
    /// TTL in hours for SL/TP exit orders (env: `SL_TP_TTL_HOURS`, default `24`).
    pub sl_tp_ttl_hours: u64,
    /// Static subscriptions for WebSocket provider streams (env: `SUBSCRIPTIONS`, default `[]`).
    pub subscriptions: Vec<InstrumentSubscription>,
    /// Path for exit state snapshot file (env: `EXIT_STATE_FILE`, default
    /// `./gateway-exit-state.json`).
    pub exit_state_file: String,
    /// Broker WebSocket reconnection configuration.
    pub reconnection: ReconnectionConfig,
    /// Optional API key for authenticating REST and WebSocket requests.
    /// When `Some`, all non-health endpoints require `Authorization: Bearer <key>`
    /// or `X-API-Key: <key>`. When `None`, no authentication is enforced.
    pub api_key: Option<String>,
    /// Whether to serve Swagger UI at `/swagger-ui` and the OpenAPI spec at `/api-docs`.
    /// (env: `ENABLE_SWAGGER`, default `false`).
    pub enable_swagger: bool,
}

/// The values of the variables that the gateway is configured by.
pub struct GatewayVars {
    /// `GATEWAY_HOST`
    pub host: Option<String>,
    /// `GATEWAY_PORT`
    pub port: Option<String>,
    /// `SL_TP_TTL_HOURS`
    pub sl_tp_ttl_hours: Option<String>,
    /// What `SUBSCRIPTIONS` was read as, where it is set and not empty.
    pub subscriptions: Option<Result<Vec<InstrumentSubscription>, String>>,
    /// `EXIT_STATE_FILE`
    pub exit_state_file: Option<String>,
    /// The variables for reconnection.
    pub reconnection: ReconnectionVars,
    /// `GATEWAY_API_KEY`
    pub api_key: Option<String>,
    /// `ENABLE_SWAGGER`
    pub enable_swagger: Option<String>,
}

/// The port in a variable.
pub open spec fn port_or_default(var: Option<Seq<char>>) -> Result<u16, Seq<char>> {
    match var {
        Some(text) => parsed_u16(text),
        None => Ok(8080),
    }
}

/// The shortest API key, in bytes.
pub const MIN_API_KEY_LEN: usize = 32;

/// What is wrong with an API key: it is neither empty nor long enough.
pub open spec fn key_error(key: Option<Seq<char>>) -> Option<ConfigErrorView> {
    match key {
        Some(text) => if 0 < encode_utf8(text).len() < MIN_API_KEY_LEN {
            Some(ConfigErrorView::ApiKeyTooShort(encode_utf8(text).len() as usize))
        } else {
            None
        },
        None => None,
    }
}

impl GatewayVars {
    /// Why the gateway cannot be configured: the first value that cannot be read, or an API
    /// key that is too short.
    pub open spec fn error(self) -> Option<ConfigErrorView> {
        match port_or_default(opt_text(self.port)) {
            Err(e) => Some(ConfigErrorView::InvalidPort(e)),
            Ok(_) => match number_or(opt_text(self.sl_tp_ttl_hours), 24) {
                Err(e) => Some(ConfigErrorView::InvalidTtl(e)),
                Ok(_) => match self.subscriptions {
                    Some(Err(e)) => Some(ConfigErrorView::InvalidSubscriptions(e@)),
                    _ => match self.reconnection.error() {
                        Some(e) => Some(e),
                        None => key_error(opt_text(self.api_key)),
                    },
                },
            },
        }
    }

    /// Whether a configuration is the one that the values make.
    pub open spec fn makes(self, c: GatewayConfig) -> bool {
        &&& self.error() is None
        &&& c.host@ == (match self.host {
            Some(h) => h@,
            None => "127.0.0.1"@,
        })
        &&& Ok::<u16, Seq<char>>(c.port) == port_or_default(opt_text(self.port))
        &&& Ok::<u64, Seq<char>>(c.sl_tp_ttl_hours) == number_or(
            opt_text(self.sl_tp_ttl_hours),
            24,
        )
        &&& match self.subscriptions {
            Some(Ok(list)) => c.subscriptions == list,
            _ => c.subscriptions@.len() == 0,
        }
        &&& c.exit_state_file@ == (match self.exit_state_file {
            Some(path) => path@,
            None => "./gateway-exit-state.json"@,
        })
        &&& self.reconnection.makes(c.reconnection)
        &&& opt_text(c.api_key) == (match opt_text(self.api_key) {
            Some(key) => if encode_utf8(key).len() == 0 {
                None
            } else {
                Some(key)
            },
            None => None,
        })
        &&& c.enable_swagger == (opt_text(self.enable_swagger) == Some("true"@) || opt_text(
            self.enable_swagger,
        ) == Some("1"@))
    }
}

impl GatewayConfig {
    /// Makes the configuration of the variables' values, falling back to defaults.
    pub fn from_env(vars: GatewayVars) -> (result: Result<GatewayConfig, GatewayConfigError>)
        ensures
            match result {
                Ok(c) => vars.makes(c),
                Err(e) => vars.error() == Some(e@),
            },
    {
        let host = match vars.host {
            Some(h) => h,
            None => "127.0.0.1".to_owned(),
        };
        let port: u16 = match &vars.port {
            Some(text) => match parse_u16(text.as_str()) {
                Ok(n) => n,
                Err(e) => {
                    return Err(GatewayConfigError::InvalidPort(e));
                },
            },
            None => 8080,
        };
        let sl_tp_ttl_hours: u64 = match read_number(&vars.sl_tp_ttl_hours, 24) {
            Ok(n) => n,
            Err(e) => {
                return Err(GatewayConfigError::InvalidTtl(e));
            },
        };
        let subscriptions = match vars.subscriptions {
            Some(Ok(list)) => list,
            Some(Err(e)) => {
                return Err(GatewayConfigError::InvalidSubscriptions(e));
            },
            None => Vec::new(),
        };
        let exit_state_file = match vars.exit_state_file {
            Some(path) => path,
            None => "./gateway-exit-state.json".to_owned(),
        };
        let reconnection = match ReconnectionConfig::from_env(&vars.reconnection) {
            Ok(c) => c,
            Err(e) => {
                return Err(e);
            },
        };
        let api_key = match vars.api_key {
            Some(key) => {
                let len: usize = key.as_str().as_bytes().len();
                if len == 0 {
                    None
                } else if len < MIN_API_KEY_LEN {
                    return Err(GatewayConfigError::ApiKeyTooShort(len));
                } else {
                    Some(key)
                }
            },
            None => None,
        };
        let enable_swagger = match &vars.enable_swagger {
            Some(text) => same(text.as_str(), "true") || same(text.as_str(), "1"),
            None => false,
        };
        Ok(
            GatewayConfig {
                host,
                port,
                sl_tp_ttl_hours,
                subscriptions,
                exit_state_file,
                reconnection,
                api_key,
                enable_swagger,
            },
        )
    }

    /// Returns the unique platforms referenced by subscriptions.
    pub fn platforms_used(&self) -> (platforms: Vec<TradingPlatform>)
        ensures
            platforms@.no_duplicates(),
            forall|p: TradingPlatform| #[trigger]
                platforms@.contains(p) <==> exists|i: int|
                    0 <= i < self.subscriptions@.len() && (#[trigger] self.subscriptions@[i]).platform
                        == p,
    {
        let mut platforms: Vec<TradingPlatform> = Vec::new();
        let mut i: usize = 0;
        while i < self.subscriptions.len()
            invariant
                i <= self.subscriptions.len(),
                platforms@.no_duplicates(),
                forall|p: TradingPlatform| #[trigger]
                    platforms@.contains(p) <==> exists|j: int|
                        0 <= j < i && (#[trigger] self.subscriptions@[j]).platform == p,
            decreases self.subscriptions.len() - i,
        {
            let platform = self.subscriptions[i].platform;
            let ghost before = platforms@;
            proof {
                crate::exit_management::handler::lemma_contains_push(before, platform);
            }
            if !has_platform(&platforms, platform) {
                platforms.push(platform);
            }
            proof {
                assert forall|p: TradingPlatform| #[trigger] platforms@.contains(p)
                    <==> exists|j: int|
                    0 <= j < i + 1 && (#[trigger] self.subscriptions@[j]).platform == p by {
                    if before.contains(p) {
                        let j = choose|j: int|
                            0 <= j < i && (#[trigger] self.subscriptions@[j]).platform == p;
                        assert(self.subscriptions@[j].platform == p);
                    }
                    if p == platform {
                        assert(self.subscriptions@[i as int].platform == p);
                    }
                    if exists|j: int|
                        0 <= j < i + 1 && (#[trigger] self.subscriptions@[j]).platform == p {
                        let j = choose|j: int|
                            0 <= j < i + 1 && (#[trigger] self.subscriptions@[j]).platform == p;
                        if j < i {
                            assert(before.contains(p));
                        }
                    }
                }
            }
            i = i + 1;
        }
        platforms
    }

    /// Returns the symbols subscribed for a given platform.
    pub fn symbols_for_platform(&self, platform: TradingPlatform) -> (symbols: Vec<String>)
        ensures
            texts(symbols@) == self.subscriptions@.filter(
                |s: InstrumentSubscription| s.platform == platform,
            ).map_values(|s: InstrumentSubscription| s.instrument@),
    {
        let ghost own = |s: InstrumentSubscription| s.platform == platform;
        let ghost name = |s: InstrumentSubscription| s.instrument@;
        let mut symbols: Vec<String> = Vec::new();
        let mut i: usize = 0;
        assert(texts(symbols@) =~= self.subscriptions@.take(0).filter(own).map_values(name)) by {
            reveal(Seq::filter);
        }
        while i < self.subscriptions.len()
            invariant
                i <= self.subscriptions.len(),
                own == |s: InstrumentSubscription| s.platform == platform,
                name == |s: InstrumentSubscription| s.instrument@,
                texts(symbols@) == self.subscriptions@.take(i as int).filter(own).map_values(name),
            decreases self.subscriptions.len() - i,
        {
            let ghost before = texts(symbols@);
            let ghost kept = self.subscriptions@.take(i as int).filter(own);
            let ghost s = self.subscriptions@[i as int];
            proof {
                crate::exit_management::handler::lemma_filter_next(
                    self.subscriptions@,
                    i as int,
                    own,
                );
            }
            if self.subscriptions[i].platform == platform {
                symbols.push(self.subscriptions[i].instrument.clone());
                proof {
                    assert(own(s));
                    assert(texts(symbols@) =~= before.push(name(s)));
                    assert(kept.push(s).map_values(name) =~= kept.map_values(name).push(name(s)));
                }
            }
            i = i + 1;
        }
        assert(self.subscriptions@.take(i as int) =~= self.subscriptions@);
        symbols
    }

    /// Whether an event is subscribed for a platform.
    pub open spec fn subscribes(self, platform: TradingPlatform, event: Seq<char>) -> bool {
        exists|i: int|
            0 <= i < self.subscriptions@.len() && (#[trigger] self.subscriptions@[i]).platform
                == platform && texts(self.subscriptions@[i].events@).contains(event)
    }

    /// Returns the event types subscribed for a given platform, each once.
    pub fn events_for_platform(&self, platform: TradingPlatform) -> (events: Vec<String>)
        ensures
            texts(events@).no_duplicates(),
            forall|e: Seq<char>| #[trigger]
                texts(events@).contains(e) <==> self.subscribes(platform, e),
    {
        let mut events: Vec<String> = Vec::new();
        let mut i: usize = 0;
        while i < self.subscriptions.len()
            invariant
                i <= self.subscriptions.len(),
                texts(events@).no_duplicates(),
                forall|e: Seq<char>| #[trigger]
                    texts(events@).contains(e) <==> exists|j: int|
                        0 <= j < i && (#[trigger] self.subscriptions@[j]).platform == platform
                            && texts(self.subscriptions@[j].events@).contains(e),
            decreases self.subscriptions.len() - i,
        {
            let ghost before = texts(events@);
            if self.subscriptions[i].platform == platform {
                add_missing(&mut events, &self.subscriptions[i].events);
            }
            proof {
                assert forall|e: Seq<char>| #[trigger] texts(events@).contains(e) <==> exists|j: int|
                    0 <= j < i + 1 && (#[trigger] self.subscriptions@[j]).platform == platform
                        && texts(self.subscriptions@[j].events@).contains(e) by {
                    if before.contains(e) {
                        let j = choose|j: int|
                            0 <= j < i && (#[trigger] self.subscriptions@[j]).platform == platform
                                && texts(self.subscriptions@[j].events@).contains(e);
                        assert(self.subscriptions@[j].platform == platform);
                    }
                    if self.subscriptions@[i as int].platform == platform && texts(
                        self.subscriptions@[i as int].events@,
                    ).contains(e) {
                        assert(self.subscriptions@[i as int].platform == platform);
                    }
                    if exists|j: int|
                        0 <= j < i + 1 && (#[trigger] self.subscriptions@[j]).platform == platform
                            && texts(self.subscriptions@[j].events@).contains(e) {
                        let j = choose|j: int|
                            0 <= j < i + 1 && (#[trigger] self.subscriptions@[j]).platform
                                == platform && texts(self.subscriptions@[j].events@).contains(e);
                        if j < i {
                            assert(before.contains(e));
                        }
                    }
                }
            }
            i = i + 1;
        }
        assert forall|e: Seq<char>| #[trigger] texts(events@).contains(e) <==> self.subscribes(
            platform,
            e,
        ) by {}
        events
    }

    /// Returns subscriptions for a given platform.
    pub fn subscriptions_for_platform(&self, platform: TradingPlatform) -> (list: Vec<
        &InstrumentSubscription,
    >)
        ensures
            list@.map_values(|s: &InstrumentSubscription| *s) == self.subscriptions@.filter(
                |s: InstrumentSubscription| s.platform == platform,
            ),
    {
        let ghost own = |s: InstrumentSubscription| s.platform == platform;
        let ghost plain = |s: &InstrumentSubscription| *s;
        let mut list: Vec<&InstrumentSubscription> = Vec::new();
        let mut i: usize = 0;
        assert(list@.map_values(plain) =~= self.subscriptions@.take(0).filter(own)) by {
            reveal(Seq::filter);
        }
        while i < self.subscriptions.len()
            invariant
                i <= self.subscriptions.len(),
                own == |s: InstrumentSubscription| s.platform == platform,
                plain == |s: &InstrumentSubscription| *s,
                list@.map_values(plain) == self.subscriptions@.take(i as int).filter(own),
            decreases self.subscriptions.len() - i,
        {
            let ghost before = list@.map_values(plain);
            proof {
                crate::exit_management::handler::lemma_filter_next(
                    self.subscriptions@,
                    i as int,
                    own,
                );
            }
            if self.subscriptions[i].platform == platform {
                list.push(&self.subscriptions[i]);
                proof {
                    assert(own(self.subscriptions@[i as int]));
                    assert(list@.map_values(plain) =~= before.push(self.subscriptions@[i as int]));
                }
            }
            i = i + 1;
        }
        assert(self.subscriptions@.take(i as int) =~= self.subscriptions@);
        list
    }
}

fn has_platform(platforms: &Vec<TradingPlatform>, platform: TradingPlatform) -> (found: bool)
    ensures
        found == platforms@.contains(platform),
{
    let mut i: usize = 0;
    while i < platforms.len()
        invariant
            i <= platforms.len(),
            forall|j: int| 0 <= j < i ==> platforms@[j] != platform,
        decreases platforms.len() - i,
    {
        if platforms[i] == platform {
            return true;
        }
        i = i + 1;
    }
    false
}

/// Adds the texts of a list that are not there yet.
fn add_missing(list: &mut Vec<String>, more: &Vec<String>)
    requires
        texts(old(list)@).no_duplicates(),
    ensures
        texts(final(list)@).no_duplicates(),
        forall|e: Seq<char>| #[trigger]
            texts(final(list)@).contains(e) <==> texts(old(list)@).contains(e) || texts(
                more@,
            ).contains(e),
{
    let ghost start = texts(list@);
    let mut i: usize = 0;
    while i < more.len()
        invariant
            i <= more.len(),
            texts(list@).no_duplicates(),
            forall|e: Seq<char>| #[trigger]
                texts(list@).contains(e) <==> start.contains(e) || texts(more@).take(
                    i as int,
                ).contains(e),
        decreases more.len() - i,
    {
        let ghost before = texts(list@);
        let ghost e = more@[i as int]@;
        proof {
            assert(texts(more@).take(i + 1) =~= texts(more@).take(i as int).push(e));
            crate::exit_management::handler::lemma_contains_push(
                texts(more@).take(i as int),
                e,
            );
            crate::exit_management::handler::lemma_contains_push(before, e);
        }
        if !list_contains(list, more[i].as_str()) {
            list.push(more[i].clone());
            assert(texts(list@) =~= before.push(e));
        }
        i = i + 1;
    }
    assert(texts(more@).take(i as int) =~= texts(more@));
}

// ---------------------------------------------------------------------------------------
// Credentials of providers
// ---------------------------------------------------------------------------------------

/// What stands before a name in a list of names.
pub open spec fn separator(i: int, n: nat) -> Seq<char> {
    if i == 0 {
        Seq::empty()
    } else if i == n - 1 {
        " and "@
    } else {
        ", "@
    }
}

/// The first names of a list of names, as they are listed in a message.
pub open spec fn listed_names(names: Seq<Seq<char>>, upto: int) -> Seq<char>
    decreases upto,
{
    if upto <= 0 {
        Seq::empty()
    } else {
        listed_names(names, upto - 1) + separator(upto - 1, names.len()) + " "@ + names[upto - 1]
    }
}

/// Whether each of the first variables is set, as a message tells it.
pub open spec fn listed_states(names: Seq<Seq<char>>, set: Seq<bool>, upto: int) -> Seq<char>
    decreases upto,
{
    if upto <= 0 {
        Seq::empty()
    } else {
        listed_states(names, set, upto - 1) + "  "@ + names[upto - 1] + ": "@ + (if set[upto - 1] {
            "set"@
        } else {
            "NOT SET"@
        }) + "\n"@
    }
}

/// The message on variables that are missing.
pub open spec fn missing_message(provider: Seq<char>, names: Seq<Seq<char>>, set: Seq<bool>) -> Seq<
    char,
> {
    "Provider '"@ + provider + "' requires"@ + listed_names(names, names.len() as int) + ".\n"@
        + listed_states(names, set, names.len() as int)
}

/// Whether each variable is set, which an empty one is not.
pub open spec fn which_set(values: Seq<Option<String>>) -> Seq<bool> {
    values.map_values(|v: Option<String>| v matches Some(text) && text@.len() > 0)
}

/// Validates the values of the variables that a provider requires, in the order of
/// [`TradingPlatformKind::required_env_vars`].
///
/// On failure, lists which vars are set and which are missing.
pub fn load_required_env_vars(provider: TradingPlatformKind, values: &Vec<Option<String>>) -> (result:
    Result<Vec<String>, GatewayConfigError>)
    requires
        values@.len() == provider.spec_required_env_vars().len(),
    ensures
        match result {
            Ok(list) => !which_set(values@).contains(false) && list@.len() == values@.len()
                && forall|i: int|
                0 <= i < list@.len() ==> Some(#[trigger] list@[i]) == values@[i],
            Err(e) => which_set(values@).contains(false) && e@ == ConfigErrorView::MissingEnvVar(
                missing_message(
                    provider.spec_text(),
                    provider.spec_required_env_vars(),
                    which_set(values@),
                ),
            ),
        },
{
    let required = provider.required_env_vars();
    let ghost names = provider.spec_required_env_vars();
    let ghost set = which_set(values@);
    let n: usize = values.len();
    let mut list: Vec<String> = Vec::new();
    let mut states = String::new();
    let mut all = true;
    let mut i: usize = 0;
    assert(states@ =~= listed_states(names, set, 0));
    while i < n
        invariant
            i <= n,
            n == values@.len(),
            n == names.len(),
            n == required@.len(),
            names == provider.spec_required_env_vars(),
            forall|j: int| 0 <= j < n ==> (#[trigger] required@[j])@ == names[j],
            set == which_set(values@),
            all == (forall|j: int| 0 <= j < i ==> #[trigger] set[j]),
            all ==> list@.len() == i && forall|j: int|
                0 <= j < i ==> Some(#[trigger] list@[j]) == values@[j],
            states@ == listed_states(names, set, i as int),
        decreases n - i,
    {
        let ghost before = all;
        let state = match &values[i] {
            Some(text) => if text.as_str().is_empty() {
                all = false;
                "NOT SET"
            } else {
                list.push(text.clone());
                "set"
            },
            None => {
                all = false;
                "NOT SET"
            },
        };
        assert(all == (before && set[i as int]));
        states.append("  ");
        states.append(required[i]);
        states.append(": ");
        states.append(state);
        states.append("\n");
        i = i + 1;
    }
    if all {
        assert forall|j: int| 0 <= j < set.len() implies set[j] != false by {}
        return Ok(list);
    }
    proof {
        let j = choose|j: int| 0 <= j < n && !(#[trigger] set[j]);
        assert(set[j] == false);
    }
    let mut message = join3("Provider '", provider.as_str(), "' requires");
    let mut listed = String::new();
    let mut k: usize = 0;
    assert(listed@ =~= listed_names(names, 0));
    while k < n
        invariant
            k <= n,
            n == names.len(),
            n == required@.len(),
            forall|j: int| 0 <= j < n ==> (#[trigger] required@[j])@ == names[j],
            listed@ == listed_names(names, k as int),
        decreases n - k,
    {
        let ghost before = listed@;
        if k > 0 {
            if k == n - 1 {
                listed.append(" and ");
            } else {
                listed.append(", ");
            }
        } else {
            assert(before + Seq::<char>::empty() =~= before);
        }
        listed.append(" ");
        listed.append(required[k]);
        k = k + 1;
    }
    message.append(listed.as_str());
    message.append(".\n");
    message.append(states.as_str());
    Err(GatewayConfigError::MissingEnvVar(message))
}

// ---------------------------------------------------------------------------------------
// Laws
// ---------------------------------------------------------------------------------------

/// Whether a variable is unset or holds a number.
pub open spec fn is_unset_or_number(var: Option<String>) -> bool {
    var matches Some(text) ==> parsed_u64(text@) is Ok
}

/// The gateway can be configured exactly where every number that is set can be read, the
/// subscriptions can be, and the API key is unset, empty or at least 32 bytes long.
pub proof fn law_which_variables_make_a_configuration(vars: GatewayVars)
    ensures
        vars.error() is None <==> {
            &&& vars.port matches Some(text) ==> parsed_u16(text@) is Ok
            &&& is_unset_or_number(vars.sl_tp_ttl_hours)
            &&& !(vars.subscriptions matches Some(Err(_)))
            &&& is_unset_or_number(vars.reconnection.initial_backoff_ms)
            &&& is_unset_or_number(vars.reconnection.max_backoff_ms)
            &&& is_unset_or_number(vars.reconnection.max_duration_secs)
            &&& vars.api_key matches Some(key) ==> encode_utf8(key@).len() == 0 || encode_utf8(
                key@,
            ).len() >= 32
        },
{
}

/// Each error tells of its own variable: the port, the lifetime of exit orders, the subscriptions,
/// the reconnection, or an API key that is too short, with its length.
pub proof fn law_errors_tell_of_their_variables(vars: GatewayVars)
    ensures
        vars.error() matches Some(e) ==> match e {
            ConfigErrorView::InvalidPort(m) => vars.port matches Some(text) && parsed_u16(text@)
                == Err::<u16, Seq<char>>(m),
            ConfigErrorView::InvalidTtl(m) => vars.sl_tp_ttl_hours matches Some(text) && parsed_u64(
                text@,
            ) == Err::<u64, Seq<char>>(m),
            ConfigErrorView::InvalidSubscriptions(m) => vars.subscriptions matches Some(Err(told))
                && told@ == m,
            ConfigErrorView::InvalidReconnect(_) => vars.reconnection.error() == Some(e),
            ConfigErrorView::ApiKeyTooShort(n) => vars.api_key matches Some(key) && n > 0 && n < 32
                && n == encode_utf8(key@).len(),
            ConfigErrorView::MissingEnvVar(_) | ConfigErrorView::InvalidEnvVar(_) => false,
        },
        (vars.port matches Some(text) && parsed_u16(text@) is Err) ==> (vars.error() matches Some(e)
            && e is InvalidPort),
{
}

/// What is set is what is configured, and what is not set has its default.
pub proof fn law_what_is_configured(vars: GatewayVars, c: GatewayConfig)
    requires
        vars.makes(c),
    ensures
        vars.error() is None,
        vars.reconnection.error() is None,
        vars.host matches Some(host) ==> c.host@ == host@,
        vars.host is None ==> c.host@ == "127.0.0.1"@,
        vars.port matches Some(text) ==> parsed_u16(text@) == Ok::<u16, Seq<char>>(c.port),
        vars.port is None ==> c.port == 8080,
        vars.sl_tp_ttl_hours matches Some(text) ==> parsed_u64(text@) == Ok::<u64, Seq<char>>(
            c.sl_tp_ttl_hours,
        ),
        vars.sl_tp_ttl_hours is None ==> c.sl_tp_ttl_hours == 24,
        vars.subscriptions matches Some(Ok(list)) ==> c.subscriptions == list,
        vars.subscriptions is None ==> c.subscriptions@.len() == 0,
        vars.exit_state_file matches Some(path) ==> c.exit_state_file@ == path@,
        vars.exit_state_file is None ==> c.exit_state_file@ == "./gateway-exit-state.json"@,
        vars.api_key is None ==> c.api_key is None,
        vars.api_key matches Some(key) ==> (encode_utf8(key@).len() == 0 ==> c.api_key is None) && (
        encode_utf8(key@).len() > 0 ==> opt_text(c.api_key) == Some(key@)),
        c.enable_swagger <==> (vars.enable_swagger matches Some(text) && (text@ == "true"@ || text@
            == "1"@)),
        reconnects_as_set(vars.reconnection, c.reconnection),
{
}

/// Whether a reconnection is configured as its variables say: in milliseconds and seconds, with a
/// first delay of a second, a longest of a minute, and five minutes in all where they are not set.
pub open spec fn reconnects_as_set(vars: ReconnectionVars, c: ReconnectionConfig) -> bool {
    &&& vars.initial_backoff_ms is None ==> c.initial_backoff.nanos == 1_000_000_000
    &&& vars.max_backoff_ms is None ==> c.max_backoff.nanos == 60_000_000_000
    &&& vars.max_duration_secs is None ==> c.max_retry_duration.nanos == 300_000_000_000
    &&& vars.initial_backoff_ms matches Some(text) ==> (parsed_u64(text@) matches Ok(n)
        && c.initial_backoff.nanos == n * 1_000_000)
    &&& vars.max_backoff_ms matches Some(text) ==> (parsed_u64(text@) matches Ok(n)
        && c.max_backoff.nanos == n * 1_000_000)
    &&& vars.max_duration_secs matches Some(text) ==> (parsed_u64(text@) matches Ok(n)
        && c.max_retry_duration.nanos == n * 1_000_000_000)
}

/// An event is subscribed for a platform exactly where one of its subscriptions lists it.
pub proof fn law_what_is_subscribed(c: GatewayConfig, i: int, platform: TradingPlatform, event: Seq<char>)
    ensures
        0 <= i < c.subscriptions@.len() && c.subscriptions@[i].platform == platform && texts(
            c.subscriptions@[i].events@,
        ).contains(event) ==> c.subscribes(platform, event),
        (forall|k: int|
            0 <= k < c.subscriptions@.len() ==> (#[trigger] c.subscriptions@[k]).platform != platform)
            ==> !c.subscribes(platform, event),
{
}

/// A variable counts as set exactly where it has a value that is not empty.
pub proof fn law_which_variables_are_set(values: Seq<Option<String>>, i: int)
    requires
        0 <= i < values.len(),
    ensures
        which_set(values).len() == values.len(),
        which_set(values)[i] <==> (values[i] matches Some(text) && text@.len() > 0),
{
}

/// The message on missing variables names the provider and tells of every variable whether it is
/// set.
pub proof fn law_missing_variables_are_told(
    provider: Seq<char>,
    names: Seq<Seq<char>>,
    set: Seq<bool>,
    i: int,
)
    requires
        0 <= i < names.len(),
        set.len() == names.len(),
    ensures
        has_part(missing_message(provider, names, set), provider),
        set[i] ==> has_part(missing_message(provider, names, set), names[i] + ": set"@),
        !set[i] ==> has_part(missing_message(provider, names, set), names[i] + ": NOT SET"@),
        has_part(missing_message(provider, names, set), " "@ + names[i]),
{
    let n = names.len() as int;
    let message = missing_message(provider, names, set);
    let states = listed_states(names, set, n);
    let listed = listed_names(names, n);
    let a = "Provider '"@;
    let b = "' requires"@;
    let c = ".\n"@;
    lemma_state_is_told(names, set, i, n);
    lemma_name_is_listed(names, i, n);
    assert(message =~= a + provider + (b + listed + c + states));
    lemma_part(a, provider, b + listed + c + states);
    let state = names[i] + (if set[i] {
        ": set"@
    } else {
        ": NOT SET"@
    });
    assert(message =~= (a + provider + b + listed + c) + states + Seq::<char>::empty());
    lemma_part_of_part(a + provider + b + listed + c, states, Seq::empty(), state);
    assert(message =~= (a + provider + b) + listed + (c + states));
    lemma_part_of_part(a + provider + b, listed, c + states, " "@ + names[i]);
}

/// What stands between two texts is a part of all three together.
proof fn lemma_part(before: Seq<char>, part: Seq<char>, after: Seq<char>)
    ensures
        has_part(before + part + after, part),
{
    let text = before + part + after;
    assert(text.subrange(before.len() as int, (before.len() + part.len()) as int) =~= part);
    assert(crate::text::occurs_at(text, part, before.len() as int));
}

/// A part of what stands between two texts is a part of all three together.
proof fn lemma_part_of_part(before: Seq<char>, middle: Seq<char>, after: Seq<char>, part: Seq<char>)
    requires
        has_part(middle, part),
    ensures
        has_part(before + middle + after, part),
{
    let at = choose|at: int| crate::text::occurs_at(middle, part, at);
    let text = before + middle + after;
    assert(text.subrange(before.len() + at, before.len() + at + part.len()) =~= middle.subrange(
        at,
        at + part.len(),
    ));
    assert(crate::text::occurs_at(text, part, before.len() + at));
}

proof fn lemma_state_is_told(names: Seq<Seq<char>>, set: Seq<bool>, i: int, upto: int)
    requires
        0 <= i < upto <= names.len(),
    ensures
        set[i] ==> has_part(listed_states(names, set, upto), names[i] + ": set"@),
        !set[i] ==> has_part(listed_states(names, set, upto), names[i] + ": NOT SET"@),
    decreases upto,
{
    reveal_strlit(": ");
    reveal_strlit("set");
    reveal_strlit("NOT SET");
    reveal_strlit(": set");
    reveal_strlit(": NOT SET");
    let told = if set[i] {
        ": set"@
    } else {
        ": NOT SET"@
    };
    let word = if set[upto - 1] {
        "set"@
    } else {
        "NOT SET"@
    };
    let before = listed_states(names, set, upto - 1);
    let text = listed_states(names, set, upto);
    if i == upto - 1 {
        assert(": "@ + word =~= told);
        assert(text =~= (before + "  "@) + (names[i] + told) + "\n"@);
        lemma_part(before + "  "@, names[i] + told, "\n"@);
    } else {
        lemma_state_is_told(names, set, i, upto - 1);
        let rest = "  "@ + names[upto - 1] + ": "@ + word + "\n"@;
        assert(text =~= Seq::<char>::empty() + before + rest);
        lemma_part_of_part(Seq::empty(), before, rest, names[i] + told);
    }
}

proof fn lemma_name_is_listed(names: Seq<Seq<char>>, i: int, upto: int)
    requires
        0 <= i < upto <= names.len(),
    ensures
        has_part(listed_names(names, upto), " "@ + names[i]),
    decreases upto,
{
    let before = listed_names(names, upto - 1);
    let mark = separator(upto - 1, names.len());
    let text = listed_names(names, upto);
    if i == upto - 1 {
        assert(text =~= (before + mark) + (" "@ + names[i]) + Seq::<char>::empty());
        lemma_part(before + mark, " "@ + names[i], Seq::empty());
    } else {
        lemma_name_is_listed(names, i, upto - 1);
        let rest = mark + " "@ + names[upto - 1];
        assert(text =~= Seq::<char>::empty() + before + rest);
        lemma_part_of_part(Seq::empty(), before, rest, " "@ + names[i]);
    }
}

/// The message of an error names the variable that is wrong, and tells why.
pub proof fn law_how_errors_are_told(e: ConfigErrorView)
    ensures
        match e {
            ConfigErrorView::InvalidPort(s) => e.text() == "invalid GATEWAY_PORT: "@ + s,
            ConfigErrorView::InvalidTtl(s) => e.text() == "invalid SL_TP_TTL_HOURS: "@ + s,
            ConfigErrorView::InvalidSubscriptions(s) => e.text() == "invalid SUBSCRIPTIONS JSON: "@
                + s,
            ConfigErrorView::InvalidReconnect(s) => e.text() == "invalid reconnection config: "@ + s,
            ConfigErrorView::ApiKeyTooShort(n) => has_part(e.text(), "GATEWAY_API_KEY is too short ("@)
                && has_part(e.text(), digits(n as nat)),
            ConfigErrorView::MissingEnvVar(s) | ConfigErrorView::InvalidEnvVar(s) => e.text() == s,
        },
{
    if let ConfigErrorView::ApiKeyTooShort(n) = e {
        let head = "GATEWAY_API_KEY is too short ("@;
        let number = digits(n as nat);
        let tail = " chars). Minimum length is 32 characters."@;
        assert(e.text() =~= Seq::<char>::empty() + head + (number + tail));
        lemma_part(Seq::empty(), head, number + tail);
        lemma_part(head, number, tail);
    }
}

/// The names in a message are set apart by commas, and the last by `and`.
pub proof fn law_how_names_are_set_apart(i: int, n: nat)
    requires
        0 <= i < n,
    ensures
        i == 0 ==> separator(i, n).len() == 0,
        0 < i < n - 1 ==> separator(i, n) == ", "@,
        0 < i && i == n - 1 ==> separator(i, n) == " and "@,
{
}

} // verus!
