//! Trading platform type definitions.
//!
//! Identifies trading platforms (Alpaca, Binance, etc.) and their environments.

use vstd::prelude::*;
use vstd::string::*;
use crate::text::{ascii_lower, join3, lowercase, same, to_lowercase};

verus! {

/// Trading platform identifier.
///
/// Each variant represents a specific trading platform and environment combination.
#[derive(Debug, Clone, Copy, PartialEq, Eq, Hash, Structural)]
pub enum TradingPlatform {
    /// Alpaca live trading (real money)
    AlpacaLive,
    /// Alpaca paper trading (simulated)
    AlpacaPaper,
    /// Binance spot live trading (real money)
    BinanceSpotLive,
    /// Binance spot testnet (simulated)
    BinanceSpotTestnet,
    /// Binance futures live trading (real money)
    BinanceFuturesLive,
    /// Binance futures testnet (simulated)
    BinanceFuturesTestnet,
    /// Binance margin live trading (real money)
    BinanceMarginLive,
    /// Binance margin testnet (simulated)
    BinanceMarginTestnet,
    /// Binance COIN-M futures live trading (real money)
    BinanceCoinFuturesLive,
    /// Binance COIN-M futures testnet (simulated)
    BinanceCoinFuturesTestnet,
    /// Oanda v20 practice account (simulated)
    OandaPractice,
    /// Oanda v20 live account (real money)
    OandaLive,
    /// Saxo Bank SIM environment (simulated)
    SaxoSim,
    /// Saxo Bank LIVE environment (real money)
    SaxoLive,
    /// Tektii engine (historical simulation)
    Tektii,
    /// Mock provider for local development (no broker credentials required)
    Mock,
}

/// Trading platform kind (groups platforms by implementation).
#[derive(Debug, Clone, Copy, PartialEq, Eq, Hash, Structural)]
pub enum TradingPlatformKind {
    /// Alpaca Markets
    Alpaca,
    /// Binance Spot
    BinanceSpot,
    /// Binance Futures (USD-M)
    BinanceFutures,
    /// Binance Margin (Cross/Isolated)
    BinanceMargin,
    /// Binance COIN-M Futures
    BinanceCoinFutures,
    /// Oanda v20 forex broker
    Oanda,
    /// Saxo Bank forex/CFD broker
    Saxo,
    /// Tektii simulation engine
    Tektii,
    /// Mock provider for local development
    Mock,
}

/// Gateway trading mode.
#[derive(Debug, Clone, Copy, PartialEq, Eq, Structural)]
pub enum GatewayMode {
    /// Paper/testnet/simulated trading (default).
    Paper,
    /// Live trading with real funds.
    Live,
}

/// Error returned when parsing a [`TradingPlatform`] from a string fails.
#[derive(Debug, Clone, PartialEq, Eq)]
pub struct TradingPlatformParseError(pub String);

/// Valid values for `GATEWAY_PROVIDER`.
pub const VALID_PROVIDERS: &'static str = "alpaca, binance_spot, mock, oanda, saxo, tektii";

impl TradingPlatformParseError {
    /// The error as text.
    pub fn to_text(&self) -> (text: String)
        ensures
            text@ == "unknown trading platform '"@ + self.0@
                + "'. Valid platforms: alpaca-live, alpaca-paper, binance-spot-live, binance-spot-testnet, binance-futures-live, binance-futures-testnet, binance-margin-live, binance-margin-testnet, binance-coin-futures-live, binance-coin-futures-testnet, mock, oanda-practice, oanda-live, saxo-sim, saxo-live, tektii"@,
    {
        join3(
            "unknown trading platform '",
            self.0.as_str(),
            "'. Valid platforms: alpaca-live, alpaca-paper, binance-spot-live, binance-spot-testnet, binance-futures-live, binance-futures-testnet, binance-margin-live, binance-margin-testnet, binance-coin-futures-live, binance-coin-futures-testnet, mock, oanda-practice, oanda-live, saxo-sim, saxo-live, tektii",
        )
    }
}

impl TradingPlatform {
    /// The kind that a platform belongs to.
    pub open spec fn spec_kind(self) -> TradingPlatformKind {
        match self {
            TradingPlatform::AlpacaLive
            | TradingPlatform::AlpacaPaper => TradingPlatformKind::Alpaca,
            TradingPlatform::BinanceSpotLive
            | TradingPlatform::BinanceSpotTestnet => TradingPlatformKind::BinanceSpot,
            TradingPlatform::BinanceFuturesLive
            | TradingPlatform::BinanceFuturesTestnet => TradingPlatformKind::BinanceFutures,
            TradingPlatform::BinanceMarginLive
            | TradingPlatform::BinanceMarginTestnet => TradingPlatformKind::BinanceMargin,
            TradingPlatform::BinanceCoinFuturesLive
            | TradingPlatform::BinanceCoinFuturesTestnet => TradingPlatformKind::BinanceCoinFutures,
            TradingPlatform::OandaPractice
            | TradingPlatform::OandaLive => TradingPlatformKind::Oanda,
            TradingPlatform::SaxoSim | TradingPlatform::SaxoLive => TradingPlatformKind::Saxo,
            TradingPlatform::Tektii => TradingPlatformKind::Tektii,
            TradingPlatform::Mock => TradingPlatformKind::Mock,
        }
    }

    /// Whether real money is traded.
    pub open spec fn spec_live(self) -> bool {
        match self {
            TradingPlatform::AlpacaLive
            | TradingPlatform::BinanceSpotLive
            | TradingPlatform::BinanceFuturesLive
            | TradingPlatform::BinanceMarginLive
            | TradingPlatform::BinanceCoinFuturesLive
            | TradingPlatform::OandaLive
            | TradingPlatform::SaxoLive => true,
            _ => false,
        }
    }

    /// The kebab-case identifier of a platform.
    pub open spec fn spec_header(self) -> Seq<char> {
        match self {
            TradingPlatform::AlpacaLive => "alpaca-live"@,
            TradingPlatform::AlpacaPaper => "alpaca-paper"@,
            TradingPlatform::BinanceSpotLive => "binance-spot-live"@,
            TradingPlatform::BinanceSpotTestnet => "binance-spot-testnet"@,
            TradingPlatform::BinanceFuturesLive => "binance-futures-live"@,
            TradingPlatform::BinanceFuturesTestnet => "binance-futures-testnet"@,
            TradingPlatform::BinanceMarginLive => "binance-margin-live"@,
            TradingPlatform::BinanceMarginTestnet => "binance-margin-testnet"@,
            TradingPlatform::BinanceCoinFuturesLive => "binance-coin-futures-live"@,
            TradingPlatform::BinanceCoinFuturesTestnet => "binance-coin-futures-testnet"@,
            TradingPlatform::OandaPractice => "oanda-practice"@,
            TradingPlatform::OandaLive => "oanda-live"@,
            TradingPlatform::SaxoSim => "saxo-sim"@,
            TradingPlatform::SaxoLive => "saxo-live"@,
            TradingPlatform::Tektii => "tektii"@,
            TradingPlatform::Mock => "mock"@,
        }
    }

    /// The platform that a name in small letters stands for. A simulated platform may be named
    /// by its broker alone.
    pub open spec fn spec_named(name: Seq<char>) -> Option<TradingPlatform> {
        if name == "alpaca-live"@ || name == "alpaca_live"@ {
            Some(TradingPlatform::AlpacaLive)
        } else if name == "alpaca-paper"@ || name == "alpaca_paper"@ || name == "alpaca"@ {
            Some(TradingPlatform::AlpacaPaper)
        } else if name == "binance-spot-live"@ || name == "binance_spot_live"@ {
            Some(TradingPlatform::BinanceSpotLive)
        } else if name == "binance-spot-testnet"@ || name == "binance_spot_testnet"@ || name
            == "binance-spot"@ {
            Some(TradingPlatform::BinanceSpotTestnet)
        } else if name == "binance-futures-live"@ || name == "binance_futures_live"@ {
            Some(TradingPlatform::BinanceFuturesLive)
        } else if name == "binance-futures-testnet"@ || name == "binance_futures_testnet"@ || name
            == "binance-futures"@ {
            Some(TradingPlatform::BinanceFuturesTestnet)
        } else if name == "binance-margin-live"@ || name == "binance_margin_live"@ {
            Some(TradingPlatform::BinanceMarginLive)
        } else if name == "binance-margin-testnet"@ || name == "binance_margin_testnet"@ || name
            == "binance-margin"@ {
            Some(TradingPlatform::BinanceMarginTestnet)
        } else if name == "binance-coin-futures-live"@ || name == "binance_coin_futures_live"@ {
            Some(TradingPlatform::BinanceCoinFuturesLive)
        } else if name == "binance-coin-futures-testnet"@ || name
            == "binance_coin_futures_testnet"@ || name == "binance-coin-futures"@ {
            Some(TradingPlatform::BinanceCoinFuturesTestnet)
        } else if name == "oanda-live"@ || name == "oanda_live"@ {
            Some(TradingPlatform::OandaLive)
        } else if name == "oanda-practice"@ || name == "oanda_practice"@ || name == "oanda"@ {
            Some(TradingPlatform::OandaPractice)
        } else if name == "saxo-sim"@ || name == "saxo_sim"@ || name == "saxo"@ {
            Some(TradingPlatform::SaxoSim)
        } else if name == "saxo-live"@ || name == "saxo_live"@ {
            Some(TradingPlatform::SaxoLive)
        } else if name == "tektii"@ {
            Some(TradingPlatform::Tektii)
        } else if name == "mock"@ {
            Some(TradingPlatform::Mock)
        } else {
            None
        }
    }

    /// Get the platform kind (groups related platforms).
    pub fn kind(&self) -> (kind: TradingPlatformKind)
        ensures
            kind == self.spec_kind(),
    {
        match self {
            TradingPlatform::AlpacaLive
            | TradingPlatform::AlpacaPaper => TradingPlatformKind::Alpaca,
            TradingPlatform::BinanceSpotLive
            | TradingPlatform::BinanceSpotTestnet => TradingPlatformKind::BinanceSpot,
            TradingPlatform::BinanceFuturesLive
            | TradingPlatform::BinanceFuturesTestnet => TradingPlatformKind::BinanceFutures,
            TradingPlatform::BinanceMarginLive
            | TradingPlatform::BinanceMarginTestnet => TradingPlatformKind::BinanceMargin,
            TradingPlatform::BinanceCoinFuturesLive
            | TradingPlatform::BinanceCoinFuturesTestnet => TradingPlatformKind::BinanceCoinFutures,
            TradingPlatform::OandaPractice
            | TradingPlatform::OandaLive => TradingPlatformKind::Oanda,
            TradingPlatform::SaxoSim | TradingPlatform::SaxoLive => TradingPlatformKind::Saxo,
            TradingPlatform::Tektii => TradingPlatformKind::Tektii,
            TradingPlatform::Mock => TradingPlatformKind::Mock,
        }
    }

    /// Check if this is a paper/testnet/simulated platform (not real money).
    pub fn is_paper(&self) -> (paper: bool)
        ensures
            paper == !self.spec_live(),
    {
        match self {
            TradingPlatform::AlpacaPaper
            | TradingPlatform::BinanceSpotTestnet
            | TradingPlatform::BinanceFuturesTestnet
            | TradingPlatform::BinanceMarginTestnet
            | TradingPlatform::BinanceCoinFuturesTestnet
            | TradingPlatform::OandaPractice
            | TradingPlatform::SaxoSim
            | TradingPlatform::Tektii
            | TradingPlatform::Mock => true,
            _ => false,
        }
    }

    /// Check if this is a live platform (real money).
    pub fn is_live(&self) -> (live: bool)
        ensures
            live == self.spec_live(),
    {
        match self {
            TradingPlatform::AlpacaLive
            | TradingPlatform::BinanceSpotLive
            | TradingPlatform::BinanceFuturesLive
            | TradingPlatform::BinanceMarginLive
            | TradingPlatform::BinanceCoinFuturesLive
            | TradingPlatform::OandaLive
            | TradingPlatform::SaxoLive => true,
            _ => false,
        }
    }

    /// Get kebab-case string identifier for this platform (used in metrics labels).
    pub fn header_value(&self) -> (text: &'static str)
        ensures
            text@ == self.spec_header(),
    {
        match self {
            TradingPlatform::AlpacaLive => "alpaca-live",
            TradingPlatform::AlpacaPaper => "alpaca-paper",
            TradingPlatform::BinanceSpotLive => "binance-spot-live",
            TradingPlatform::BinanceSpotTestnet => "binance-spot-testnet",
            TradingPlatform::BinanceFuturesLive => "binance-futures-live",
            TradingPlatform::BinanceFuturesTestnet => "binance-futures-testnet",
            TradingPlatform::BinanceMarginLive => "binance-margin-live",
            TradingPlatform::BinanceMarginTestnet => "binance-margin-testnet",
            TradingPlatform::BinanceCoinFuturesLive => "binance-coin-futures-live",
            TradingPlatform::BinanceCoinFuturesTestnet => "binance-coin-futures-testnet",
            TradingPlatform::OandaPractice => "oanda-practice",
            TradingPlatform::OandaLive => "oanda-live",
            TradingPlatform::SaxoSim => "saxo-sim",
            TradingPlatform::SaxoLive => "saxo-live",
            TradingPlatform::Tektii => "tektii",
            TradingPlatform::Mock => "mock",
        }
    }

    /// The platform as text: its kebab-case identifier.
    pub fn to_text(&self) -> (text: String)
        ensures
            text@ == self.spec_header(),
    {
        self.header_value().to_owned()
    }

    /// The human-readable name of a platform.
    pub open spec fn spec_display_name(self) -> Seq<char> {
        match self {
            TradingPlatform::AlpacaLive => "Alpaca (Live)"@,
            TradingPlatform::AlpacaPaper => "Alpaca (Paper)"@,
            TradingPlatform::BinanceSpotLive => "Binance Spot (Live)"@,
            TradingPlatform::BinanceSpotTestnet => "Binance Spot (Testnet)"@,
            TradingPlatform::BinanceFuturesLive => "Binance Futures (Live)"@,
            TradingPlatform::BinanceFuturesTestnet => "Binance Futures (Testnet)"@,
            TradingPlatform::BinanceMarginLive => "Binance Margin (Live)"@,
            TradingPlatform::BinanceMarginTestnet => "Binance Margin (Testnet)"@,
            TradingPlatform::BinanceCoinFuturesLive => "Binance COIN-M Futures (Live)"@,
            TradingPlatform::BinanceCoinFuturesTestnet => "Binance COIN-M Futures (Testnet)"@,
            TradingPlatform::OandaPractice => "Oanda (Practice)"@,
            TradingPlatform::OandaLive => "Oanda (Live)"@,
            TradingPlatform::SaxoSim => "Saxo Bank (SIM)"@,
            TradingPlatform::SaxoLive => "Saxo Bank (Live)"@,
            TradingPlatform::Tektii => "Tektii"@,
            TradingPlatform::Mock => "Mock (Local Development)"@,
        }
    }

    /// Get a human-readable display name.
    pub fn display_name(&self) -> (text: &'static str)
        ensures
            text@ == self.spec_display_name(),
    {
        match self {
            TradingPlatform::AlpacaLive => "Alpaca (Live)",
            TradingPlatform::AlpacaPaper => "Alpaca (Paper)",
            TradingPlatform::BinanceSpotLive => "Binance Spot (Live)",
            TradingPlatform::BinanceSpotTestnet => "Binance Spot (Testnet)",
            TradingPlatform::BinanceFuturesLive => "Binance Futures (Live)",
            TradingPlatform::BinanceFuturesTestnet => "Binance Futures (Testnet)",
            TradingPlatform::BinanceMarginLive => "Binance Margin (Live)",
            TradingPlatform::BinanceMarginTestnet => "Binance Margin (Testnet)",
            TradingPlatform::BinanceCoinFuturesLive => "Binance COIN-M Futures (Live)",
            TradingPlatform::BinanceCoinFuturesTestnet => "Binance COIN-M Futures (Testnet)",
            TradingPlatform::OandaPractice => "Oanda (Practice)",
            TradingPlatform::OandaLive => "Oanda (Live)",
            TradingPlatform::SaxoSim => "Saxo Bank (SIM)",
            TradingPlatform::SaxoLive => "Saxo Bank (Live)",
            TradingPlatform::Tektii => "Tektii",
            TradingPlatform::Mock => "Mock (Local Development)",
        }
    }

    /// Reads a platform from its name, in small letters or in capitals. The identifier of a
    /// platform is read back as that platform.
    pub fn parse(s: &str) -> (platform: Result<TradingPlatform, TradingPlatformParseError>)
        ensures
            match platform {
                Ok(p) => TradingPlatform::spec_named(lowercase(s@)) == Some(p),
                Err(e) => TradingPlatform::spec_named(lowercase(s@)) is None && e.0@ == s@,
            },
            forall|p: TradingPlatform| s@ == #[trigger] p.spec_header() ==> platform == Ok::<
                TradingPlatform,
                TradingPlatformParseError,
            >(p),
    {
        let lower = to_lowercase(s);
        proof {
            assert forall|p: TradingPlatform| s@ == #[trigger] p.spec_header() implies
                TradingPlatform::spec_named(lower@) == Some(p) by {
                lemma_header_is_small(p);
                assert(is_ascii(s));
                assert(lower@ =~= s@);
                law_header_names_platform(p);
            }
        }
        let name = lower.as_str();
        if same(name, "alpaca-live") || same(name, "alpaca_live") {
            Ok(TradingPlatform::AlpacaLive)
        } else if same(name, "alpaca-paper") || same(name, "alpaca_paper") || same(name, "alpaca") {
            Ok(TradingPlatform::AlpacaPaper)
        } else if same(name, "binance-spot-live") || same(name, "binance_spot_live") {
            Ok(TradingPlatform::BinanceSpotLive)
        } else if same(name, "binance-spot-testnet") || same(name, "binance_spot_testnet") || same(
            name,
            "binance-spot",
        ) {
            Ok(TradingPlatform::BinanceSpotTestnet)
        } else if same(name, "binance-futures-live") || same(name, "binance_futures_live") {
            Ok(TradingPlatform::BinanceFuturesLive)
        } else if same(name, "binance-futures-testnet") || same(name, "binance_futures_testnet")
            || same(name, "binance-futures") {
            Ok(TradingPlatform::BinanceFuturesTestnet)
        } else if same(name, "binance-margin-live") || same(name, "binance_margin_live") {
            Ok(TradingPlatform::BinanceMarginLive)
        } else if same(name, "binance-margin-testnet") || same(name, "binance_margin_testnet")
            || same(name, "binance-margin") {
            Ok(TradingPlatform::BinanceMarginTestnet)
        } else if same(name, "binance-coin-futures-live") || same(
            name,
            "binance_coin_futures_live",
        ) {
            Ok(TradingPlatform::BinanceCoinFuturesLive)
        } else if same(name, "binance-coin-futures-testnet") || same(
            name,
            "binance_coin_futures_testnet",
        ) || same(name, "binance-coin-futures") {
            Ok(TradingPlatform::BinanceCoinFuturesTestnet)
        } else if same(name, "oanda-live") || same(name, "oanda_live") {
            Ok(TradingPlatform::OandaLive)
        } else if same(name, "oanda-practice") || same(name, "oanda_practice") || same(
            name,
            "oanda",
        ) {
            Ok(TradingPlatform::OandaPractice)
        } else if same(name, "saxo-sim") || same(name, "saxo_sim") || same(name, "saxo") {
            Ok(TradingPlatform::SaxoSim)
        } else if same(name, "saxo-live") || same(name, "saxo_live") {
            Ok(TradingPlatform::SaxoLive)
        } else if same(name, "tektii") {
            Ok(TradingPlatform::Tektii)
        } else if same(name, "mock") {
            Ok(TradingPlatform::Mock)
        } else {
            Err(TradingPlatformParseError(s.to_owned()))
        }
    }
}

impl std::str::FromStr for TradingPlatform {
    type Err = TradingPlatformParseError;

    fn from_str(s: &str) -> (platform: Result<TradingPlatform, TradingPlatformParseError>)
        ensures
            match platform {
                Ok(p) => TradingPlatform::spec_named(lowercase(s@)) == Some(p),
                Err(e) => TradingPlatform::spec_named(lowercase(s@)) is None && e.0@ == s@,
            },
            forall|p: TradingPlatform| s@ == #[trigger] p.spec_header() ==> platform == Ok::<
                TradingPlatform,
                TradingPlatformParseError,
            >(p),
    {
        TradingPlatform::parse(s)
    }
}

impl TradingPlatformKind {
    /// The platforms of a kind.
    pub open spec fn spec_platforms(self) -> Seq<TradingPlatform> {
        match self {
            TradingPlatformKind::Alpaca => seq![
                TradingPlatform::AlpacaLive,
                TradingPlatform::AlpacaPaper,
            ],
            TradingPlatformKind::BinanceSpot => seq![
                TradingPlatform::BinanceSpotLive,
                TradingPlatform::BinanceSpotTestnet,
            ],
            TradingPlatformKind::BinanceFutures => seq![
                TradingPlatform::BinanceFuturesLive,
                TradingPlatform::BinanceFuturesTestnet,
            ],
            TradingPlatformKind::BinanceMargin => seq![
                TradingPlatform::BinanceMarginLive,
                TradingPlatform::BinanceMarginTestnet,
            ],
            TradingPlatformKind::BinanceCoinFutures => seq![
                TradingPlatform::BinanceCoinFuturesLive,
                TradingPlatform::BinanceCoinFuturesTestnet,
            ],
            TradingPlatformKind::Oanda => seq![
                TradingPlatform::OandaPractice,
                TradingPlatform::OandaLive,
            ],
            TradingPlatformKind::Saxo => seq![TradingPlatform::SaxoSim, TradingPlatform::SaxoLive],
            TradingPlatformKind::Tektii => seq![TradingPlatform::Tektii],
            TradingPlatformKind::Mock => seq![TradingPlatform::Mock],
        }
    }

    /// The platform of a kind in a mode; an engine without real money has only one.
    pub open spec fn spec_to_platform(self, mode: GatewayMode) -> TradingPlatform {
        match (self, mode) {
            (TradingPlatformKind::Alpaca, GatewayMode::Paper) => TradingPlatform::AlpacaPaper,
            (TradingPlatformKind::Alpaca, GatewayMode::Live) => TradingPlatform::AlpacaLive,
            (TradingPlatformKind::BinanceSpot, GatewayMode::Paper) => {
                TradingPlatform::BinanceSpotTestnet
            },
            (TradingPlatformKind::BinanceSpot, GatewayMode::Live) => {
                TradingPlatform::BinanceSpotLive
            },
            (TradingPlatformKind::BinanceFutures, GatewayMode::Paper) => {
                TradingPlatform::BinanceFuturesTestnet
            },
            (TradingPlatformKind::BinanceFutures, GatewayMode::Live) => {
                TradingPlatform::BinanceFuturesLive
            },
            (TradingPlatformKind::BinanceMargin, GatewayMode::Paper) => {
                TradingPlatform::BinanceMarginTestnet
            },
            (TradingPlatformKind::BinanceMargin, GatewayMode::Live) => {
                TradingPlatform::BinanceMarginLive
            },
            (TradingPlatformKind::BinanceCoinFutures, GatewayMode::Paper) => {
                TradingPlatform::BinanceCoinFuturesTestnet
            },
            (TradingPlatformKind::BinanceCoinFutures, GatewayMode::Live) => {
                TradingPlatform::BinanceCoinFuturesLive
            },
            (TradingPlatformKind::Oanda, GatewayMode::Paper) => TradingPlatform::OandaPractice,
            (TradingPlatformKind::Oanda, GatewayMode::Live) => TradingPlatform::OandaLive,
            (TradingPlatformKind::Saxo, GatewayMode::Paper) => TradingPlatform::SaxoSim,
            (TradingPlatformKind::Saxo, GatewayMode::Live) => TradingPlatform::SaxoLive,
            (TradingPlatformKind::Tektii, _) => TradingPlatform::Tektii,
            (TradingPlatformKind::Mock, _) => TradingPlatform::Mock,
        }
    }

    /// How a kind is written.
    pub open spec fn spec_text(self) -> Seq<char> {
        match self {
            TradingPlatformKind::Alpaca => "alpaca"@,
            TradingPlatformKind::BinanceSpot => "binance_spot"@,
            TradingPlatformKind::BinanceFutures => "binance_futures"@,
            TradingPlatformKind::BinanceMargin => "binance_margin"@,
            TradingPlatformKind::BinanceCoinFutures => "binance_coin_futures"@,
            TradingPlatformKind::Oanda => "oanda"@,
            TradingPlatformKind::Saxo => "saxo"@,
            TradingPlatformKind::Tektii => "tektii"@,
            TradingPlatformKind::Mock => "mock"@,
        }
    }

    /// Whether a kind can be configured: derivatives and margin trading at Binance cannot.
    pub open spec fn is_offered(self) -> bool {
        match self {
            TradingPlatformKind::BinanceFutures
            | TradingPlatformKind::BinanceMargin
            | TradingPlatformKind::BinanceCoinFutures => false,
            _ => true,
        }
    }

    /// Get all platforms for this kind.
    pub fn platforms(&self) -> (list: Vec<TradingPlatform>)
        ensures
            list@ == self.spec_platforms(),
    {
        match self {
            TradingPlatformKind::Alpaca => vec![
                TradingPlatform::AlpacaLive,
                TradingPlatform::AlpacaPaper,
            ],
            TradingPlatformKind::BinanceSpot => vec![
                TradingPlatform::BinanceSpotLive,
                TradingPlatform::BinanceSpotTestnet,
            ],
            TradingPlatformKind::BinanceFutures => vec![
                TradingPlatform::BinanceFuturesLive,
                TradingPlatform::BinanceFuturesTestnet,
            ],
            TradingPlatformKind::BinanceMargin => vec![
                TradingPlatform::BinanceMarginLive,
                TradingPlatform::BinanceMarginTestnet,
            ],
            TradingPlatformKind::BinanceCoinFutures => vec![
                TradingPlatform::BinanceCoinFuturesLive,
                TradingPlatform::BinanceCoinFuturesTestnet,
            ],
            TradingPlatformKind::Oanda => vec![
                TradingPlatform::OandaPractice,
                TradingPlatform::OandaLive,
            ],
            TradingPlatformKind::Saxo => vec![TradingPlatform::SaxoSim, TradingPlatform::SaxoLive],
            TradingPlatformKind::Tektii => vec![TradingPlatform::Tektii],
            TradingPlatformKind::Mock => vec![TradingPlatform::Mock],
        }
    }

    /// Map `(provider, mode)` to a concrete [`TradingPlatform`].
    pub fn to_platform(self, mode: GatewayMode) -> (platform: TradingPlatform)
        ensures
            platform == self.spec_to_platform(mode),
    {
        match (self, mode) {
            (TradingPlatformKind::Alpaca, GatewayMode::Paper) => TradingPlatform::AlpacaPaper,
            (TradingPlatformKind::Alpaca, GatewayMode::Live) => TradingPlatform::AlpacaLive,
            (TradingPlatformKind::BinanceSpot, GatewayMode::Paper) => {
                TradingPlatform::BinanceSpotTestnet
            },
            (TradingPlatformKind::BinanceSpot, GatewayMode::Live) => {
                TradingPlatform::BinanceSpotLive
            },
            (TradingPlatformKind::BinanceFutures, GatewayMode::Paper) => {
                TradingPlatform::BinanceFuturesTestnet
            },
            (TradingPlatformKind::BinanceFutures, GatewayMode::Live) => {
                TradingPlatform::BinanceFuturesLive
            },
            (TradingPlatformKind::BinanceMargin, GatewayMode::Paper) => {
                TradingPlatform::BinanceMarginTestnet
            },
            (TradingPlatformKind::BinanceMargin, GatewayMode::Live) => {
                TradingPlatform::BinanceMarginLive
            },
            (TradingPlatformKind::BinanceCoinFutures, GatewayMode::Paper) => {
                TradingPlatform::BinanceCoinFuturesTestnet
            },
            (TradingPlatformKind::BinanceCoinFutures, GatewayMode::Live) => {
                TradingPlatform::BinanceCoinFuturesLive
            },
            (TradingPlatformKind::Oanda, GatewayMode::Paper) => TradingPlatform::OandaPractice,
            (TradingPlatformKind::Oanda, GatewayMode::Live) => TradingPlatform::OandaLive,
            (TradingPlatformKind::Saxo, GatewayMode::Paper) => TradingPlatform::SaxoSim,
            (TradingPlatformKind::Saxo, GatewayMode::Live) => TradingPlatform::SaxoLive,
            (TradingPlatformKind::Tektii, _) => TradingPlatform::Tektii,
            (TradingPlatformKind::Mock, _) => TradingPlatform::Mock,
        }
    }

    /// The environment variables that a kind needs.
    pub open spec fn spec_required_env_vars(self) -> Seq<Seq<char>> {
        match self {
            TradingPlatformKind::Alpaca => seq!["ALPACA_API_KEY"@, "ALPACA_API_SECRET"@],
            TradingPlatformKind::BinanceSpot
            | TradingPlatformKind::BinanceFutures
            | TradingPlatformKind::BinanceMargin
            | TradingPlatformKind::BinanceCoinFutures => seq![
                "BINANCE_API_KEY"@,
                "BINANCE_API_SECRET"@,
            ],
            TradingPlatformKind::Oanda => seq!["OANDA_API_KEY"@, "OANDA_ACCOUNT_ID"@],
            TradingPlatformKind::Saxo => seq![
                "SAXO_APP_KEY"@,
                "SAXO_APP_SECRET"@,
                "SAXO_ACCOUNT_KEY"@,
            ],
            TradingPlatformKind::Tektii => seq!["TEKTII_ENGINE_URL"@, "TEKTII_ENGINE_WS_URL"@],
            TradingPlatformKind::Mock => Seq::empty(),
        }
    }

    /// Required environment variables for this provider.
    pub fn required_env_vars(&self) -> (names: Vec<&'static str>)
        ensures
            names@.map_values(|s: &'static str| s@) == self.spec_required_env_vars(),
    {
        let names: Vec<&'static str> = match self {
            TradingPlatformKind::Alpaca => vec!["ALPACA_API_KEY", "ALPACA_API_SECRET"],
            TradingPlatformKind::BinanceSpot
            | TradingPlatformKind::BinanceFutures
            | TradingPlatformKind::BinanceMargin
            | TradingPlatformKind::BinanceCoinFutures => vec![
                "BINANCE_API_KEY",
                "BINANCE_API_SECRET",
            ],
            TradingPlatformKind::Oanda => vec!["OANDA_API_KEY", "OANDA_ACCOUNT_ID"],
            TradingPlatformKind::Saxo => vec![
                "SAXO_APP_KEY",
                "SAXO_APP_SECRET",
                "SAXO_ACCOUNT_KEY",
            ],
            TradingPlatformKind::Tektii => vec!["TEKTII_ENGINE_URL", "TEKTII_ENGINE_WS_URL"],
            TradingPlatformKind::Mock => Vec::new(),
        };
        assert(names@.map_values(|s: &'static str| s@) =~= self.spec_required_env_vars());
        names
    }

    /// The kind as text.
    pub fn as_str(&self) -> (text: &'static str)
        ensures
            text@ == self.spec_text(),
    {
        match self {
            TradingPlatformKind::Alpaca => "alpaca",
            TradingPlatformKind::BinanceSpot => "binance_spot",
            TradingPlatformKind::BinanceFutures => "binance_futures",
            TradingPlatformKind::BinanceMargin => "binance_margin",
            TradingPlatformKind::BinanceCoinFutures => "binance_coin_futures",
            TradingPlatformKind::Oanda => "oanda",
            TradingPlatformKind::Saxo => "saxo",
            TradingPlatformKind::Tektii => "tektii",
            TradingPlatformKind::Mock => "mock",
        }
    }

    /// Reads a kind. What is read is the offered kind that is written so; any other text,
    /// also in other letters, is refused.
    pub fn parse(s: &str) -> (kind: Result<TradingPlatformKind, TradingPlatformParseError>)
        ensures
            match kind {
                Ok(k) => k.is_offered() && k.spec_text() == s@,
                Err(e) => e.0@ == s@ && forall|k: TradingPlatformKind|
                    k.is_offered() ==> #[trigger] k.spec_text() != s@,
            },
    {
        if same(s, "alpaca") {
            Ok(TradingPlatformKind::Alpaca)
        } else if same(s, "binance_spot") {
            Ok(TradingPlatformKind::BinanceSpot)
        } else if same(s, "oanda") {
            Ok(TradingPlatformKind::Oanda)
        } else if same(s, "saxo") {
            Ok(TradingPlatformKind::Saxo)
        } else if same(s, "tektii") {
            Ok(TradingPlatformKind::Tektii)
        } else if same(s, "mock") {
            Ok(TradingPlatformKind::Mock)
        } else {
            Err(TradingPlatformParseError(s.to_owned()))
        }
    }
}

impl std::str::FromStr for TradingPlatformKind {
    type Err = TradingPlatformParseError;

    fn from_str(s: &str) -> (kind: Result<TradingPlatformKind, TradingPlatformParseError>)
        ensures
            match kind {
                Ok(k) => k.is_offered() && k.spec_text() == s@,
                Err(e) => e.0@ == s@ && forall|k: TradingPlatformKind|
                    k.is_offered() ==> #[trigger] k.spec_text() != s@,
            },
    {
        TradingPlatformKind::parse(s)
    }
}

impl Default for GatewayMode {
    fn default() -> (m: GatewayMode)
        ensures
            m == GatewayMode::Paper,
    {
        GatewayMode::Paper
    }
}

impl GatewayMode {
    /// How a mode is written.
    pub open spec fn spec_text(self) -> Seq<char> {
        match self {
            GatewayMode::Paper => "paper"@,
            GatewayMode::Live => "live"@,
        }
    }

    /// The mode as text.
    pub fn as_str(&self) -> (text: &'static str)
        ensures
            text@ == self.spec_text(),
    {
        match self {
            GatewayMode::Paper => "paper",
            GatewayMode::Live => "live",
        }
    }

    /// Reads a mode. What is read is the mode that is written so; any other text is refused
    /// with a message that names it.
    pub fn parse(s: &str) -> (mode: Result<GatewayMode, String>)
        ensures
            match mode {
                Ok(m) => m.spec_text() == s@,
                Err(message) => (forall|m: GatewayMode| #[trigger] m.spec_text() != s@)
                    && message@ == "invalid GATEWAY_MODE='"@ + s@
                    + "': valid values are 'paper', 'live'"@,
            },
    {
        if same(s, "paper") {
            Ok(GatewayMode::Paper)
        } else if same(s, "live") {
            Ok(GatewayMode::Live)
        } else {
            Err(join3("invalid GATEWAY_MODE='", s, "': valid values are 'paper', 'live'"))
        }
    }
}

impl std::str::FromStr for GatewayMode {
    type Err = String;

    fn from_str(s: &str) -> (mode: Result<GatewayMode, String>)
        ensures
            match mode {
                Ok(m) => m.spec_text() == s@,
                Err(message) => (forall|m: GatewayMode| #[trigger] m.spec_text() != s@)
                    && message@ == "invalid GATEWAY_MODE='"@ + s@
                    + "': valid values are 'paper', 'live'"@,
            },
    {
        GatewayMode::parse(s)
    }
}

// ---------------------------------------------------------------------------------------
// Laws
// ---------------------------------------------------------------------------------------

/// A provider in a mode is a platform of that provider, and it trades real money exactly in
/// live mode, except with the two engines that have no real money.
pub proof fn law_mode_chooses_platform(kind: TradingPlatformKind, mode: GatewayMode)
    ensures
        kind.spec_to_platform(mode).spec_kind() == kind,
        kind.spec_platforms().contains(kind.spec_to_platform(mode)),
        !(kind is Tektii) && !(kind is Mock) ==> kind.spec_to_platform(mode).spec_live() == (mode
            == GatewayMode::Live),
        kind is Tektii || kind is Mock ==> !kind.spec_to_platform(mode).spec_live(),
{
    let list = kind.spec_platforms();
    let p = kind.spec_to_platform(mode);
    assert(list[0] == p || list[1] == p);
}

/// The platforms of a kind are exactly those that belong to it.
pub proof fn law_platforms_of_kind(kind: TradingPlatformKind, platform: TradingPlatform)
    ensures
        kind.spec_platforms().contains(platform) <==> platform.spec_kind() == kind,
{
    let list = kind.spec_platforms();
    if platform.spec_kind() == kind {
        assert(list[0] == platform || list[1] == platform);
    }
}

/// No two kinds are written the same, so that an offered kind is read back as itself.
pub proof fn law_kind_texts_differ(a: TradingPlatformKind, b: TradingPlatformKind)
    ensures
        a.spec_text() == b.spec_text() ==> a == b,
{
    reveal_strlit("alpaca");
    reveal_strlit("binance_spot");
    reveal_strlit("binance_futures");
    reveal_strlit("binance_margin");
    reveal_strlit("binance_coin_futures");
    reveal_strlit("oanda");
    reveal_strlit("saxo");
    reveal_strlit("tektii");
    reveal_strlit("mock");
    let x = a.spec_text();
    let y = b.spec_text();
    assert(x.len() == y.len() && x[0] == y[0] ==> a == b);
}

/// The identifier of a platform names that platform, with hyphens or with underscores.
pub proof fn law_header_names_platform(p: TradingPlatform)
    ensures
        TradingPlatform::spec_named(p.spec_header()) == Some(p),
        TradingPlatform::spec_named(underscored(p.spec_header())) == Some(p),
{
    lemma_underscored_header(p);
    reveal_strlit("alpaca-live");
    reveal_strlit("alpaca_live");
    reveal_strlit("alpaca-paper");
    reveal_strlit("alpaca_paper");
    reveal_strlit("alpaca");
    reveal_strlit("binance-spot-live");
    reveal_strlit("binance_spot_live");
    reveal_strlit("binance-spot-testnet");
    reveal_strlit("binance_spot_testnet");
    reveal_strlit("binance-spot");
    reveal_strlit("binance-futures-live");
    reveal_strlit("binance_futures_live");
    reveal_strlit("binance-futures-testnet");
    reveal_strlit("binance_futures_testnet");
    reveal_strlit("binance-futures");
    reveal_strlit("binance-margin-live");
    reveal_strlit("binance_margin_live");
    reveal_strlit("binance-margin-testnet");
    reveal_strlit("binance_margin_testnet");
    reveal_strlit("binance-margin");
    reveal_strlit("binance-coin-futures-live");
    reveal_strlit("binance_coin_futures_live");
    reveal_strlit("binance-coin-futures-testnet");
    reveal_strlit("binance_coin_futures_testnet");
    reveal_strlit("binance-coin-futures");
    reveal_strlit("oanda-live");
    reveal_strlit("oanda_live");
    reveal_strlit("oanda-practice");
    reveal_strlit("oanda_practice");
    reveal_strlit("oanda");
    reveal_strlit("saxo-sim");
    reveal_strlit("saxo_sim");
    reveal_strlit("saxo");
    reveal_strlit("saxo-live");
    reveal_strlit("saxo_live");
    reveal_strlit("tektii");
    reveal_strlit("mock");
    let h = p.spec_header();
    let marks = (h.len(), h[0], h[3], h[4], h[6], h[8], h[h.len() - 4]);
    assert(TradingPlatform::spec_named(h) == Some(p));
    let u = underscored_header(p);
    let others = (u.len(), u[0], u[3], u[4], u[6], u[8], u[u.len() - 4]);
    assert(TradingPlatform::spec_named(u) == Some(p));
}

/// A name with underscores in place of its hyphens.
pub open spec fn underscored(name: Seq<char>) -> Seq<char> {
    name.map_values(
        |c: char|
            if c == '-' {
                '_'
            } else {
                c
            },
    )
}

/// The identifier of a platform with underscores in place of its hyphens.
pub open spec fn underscored_header(p: TradingPlatform) -> Seq<char> {
    match p {
        TradingPlatform::AlpacaLive => "alpaca_live"@,
        TradingPlatform::AlpacaPaper => "alpaca_paper"@,
        TradingPlatform::BinanceSpotLive => "binance_spot_live"@,
        TradingPlatform::BinanceSpotTestnet => "binance_spot_testnet"@,
        TradingPlatform::BinanceFuturesLive => "binance_futures_live"@,
        TradingPlatform::BinanceFuturesTestnet => "binance_futures_testnet"@,
        TradingPlatform::BinanceMarginLive => "binance_margin_live"@,
        TradingPlatform::BinanceMarginTestnet => "binance_margin_testnet"@,
        TradingPlatform::BinanceCoinFuturesLive => "binance_coin_futures_live"@,
        TradingPlatform::BinanceCoinFuturesTestnet => "binance_coin_futures_testnet"@,
        TradingPlatform::OandaPractice => "oanda_practice"@,
        TradingPlatform::OandaLive => "oanda_live"@,
        TradingPlatform::SaxoSim => "saxo_sim"@,
        TradingPlatform::SaxoLive => "saxo_live"@,
        TradingPlatform::Tektii => "tektii"@,
        TradingPlatform::Mock => "mock"@,
    }
}

proof fn lemma_underscored_header(p: TradingPlatform)
    ensures
        underscored(p.spec_header()) == underscored_header(p),
{
    match p {
        TradingPlatform::AlpacaLive => {
            reveal_strlit("alpaca-live");
            reveal_strlit("alpaca_live");
            assert(underscored("alpaca-live"@) =~= "alpaca_live"@);
        },
        TradingPlatform::AlpacaPaper => {
            reveal_strlit("alpaca-paper");
            reveal_strlit("alpaca_paper");
            assert(underscored("alpaca-paper"@) =~= "alpaca_paper"@);
        },
        TradingPlatform::BinanceSpotLive => {
            reveal_strlit("binance-spot-live");
            reveal_strlit("binance_spot_live");
            assert(underscored("binance-spot-live"@) =~= "binance_spot_live"@);
        },
        TradingPlatform::BinanceSpotTestnet => {
            reveal_strlit("binance-spot-testnet");
            reveal_strlit("binance_spot_testnet");
            assert(underscored("binance-spot-testnet"@) =~= "binance_spot_testnet"@);
        },
        TradingPlatform::BinanceFuturesLive => {
            reveal_strlit("binance-futures-live");
            reveal_strlit("binance_futures_live");
            assert(underscored("binance-futures-live"@) =~= "binance_futures_live"@);
        },
        TradingPlatform::BinanceFuturesTestnet => {
            reveal_strlit("binance-futures-testnet");
            reveal_strlit("binance_futures_testnet");
            assert(underscored("binance-futures-testnet"@) =~= "binance_futures_testnet"@);
        },
        TradingPlatform::BinanceMarginLive => {
            reveal_strlit("binance-margin-live");
            reveal_strlit("binance_margin_live");
            assert(underscored("binance-margin-live"@) =~= "binance_margin_live"@);
        },
        TradingPlatform::BinanceMarginTestnet => {
            reveal_strlit("binance-margin-testnet");
            reveal_strlit("binance_margin_testnet");
            assert(underscored("binance-margin-testnet"@) =~= "binance_margin_testnet"@);
        },
        TradingPlatform::BinanceCoinFuturesLive => {
            reveal_strlit("binance-coin-futures-live");
            reveal_strlit("binance_coin_futures_live");
            assert(underscored("binance-coin-futures-live"@) =~= "binance_coin_futures_live"@);
        },
        TradingPlatform::BinanceCoinFuturesTestnet => {
            reveal_strlit("binance-coin-futures-testnet");
            reveal_strlit("binance_coin_futures_testnet");
            assert(underscored("binance-coin-futures-testnet"@) =~= "binance_coin_futures_testnet"@);
        },
        TradingPlatform::OandaPractice => {
            reveal_strlit("oanda-practice");
            reveal_strlit("oanda_practice");
            assert(underscored("oanda-practice"@) =~= "oanda_practice"@);
        },
        TradingPlatform::OandaLive => {
            reveal_strlit("oanda-live");
            reveal_strlit("oanda_live");
            assert(underscored("oanda-live"@) =~= "oanda_live"@);
        },
        TradingPlatform::SaxoSim => {
            reveal_strlit("saxo-sim");
            reveal_strlit("saxo_sim");
            assert(underscored("saxo-sim"@) =~= "saxo_sim"@);
        },
        TradingPlatform::SaxoLive => {
            reveal_strlit("saxo-live");
            reveal_strlit("saxo_live");
            assert(underscored("saxo-live"@) =~= "saxo_live"@);
        },
        TradingPlatform::Tektii => {
            reveal_strlit("tektii");
            assert(underscored("tektii"@) =~= "tektii"@);
        },
        TradingPlatform::Mock => {
            reveal_strlit("mock");
            assert(underscored("mock"@) =~= "mock"@);
        },
    }
}

/// A platform that trades real money is named in full, with hyphens or with underscores, and
/// by nothing else: a broker alone stands for its simulated platform.
pub proof fn law_live_platforms_are_named_in_full(name: Seq<char>)
    ensures
        TradingPlatform::spec_named(name) matches Some(p) ==> p.spec_live() ==> name
            == p.spec_header() || name == underscored(p.spec_header()),
{
    if let Some(p) = TradingPlatform::spec_named(name) {
        lemma_underscored_header(p);
    }
}

/// The identifier of a platform is made of ASCII characters, none of them a capital.
proof fn lemma_header_is_small(p: TradingPlatform)
    ensures
        vstd::utf8::is_ascii_chars(p.spec_header()),
        p.spec_header().map_values(|c: char| ascii_lower(c)) == p.spec_header(),
{
    reveal_strlit("alpaca-live");
    reveal_strlit("alpaca-paper");
    reveal_strlit("binance-spot-live");
    reveal_strlit("binance-spot-testnet");
    reveal_strlit("binance-futures-live");
    reveal_strlit("binance-futures-testnet");
    reveal_strlit("binance-margin-live");
    reveal_strlit("binance-margin-testnet");
    reveal_strlit("binance-coin-futures-live");
    reveal_strlit("binance-coin-futures-testnet");
    reveal_strlit("oanda-practice");
    reveal_strlit("oanda-live");
    reveal_strlit("saxo-sim");
    reveal_strlit("saxo-live");
    reveal_strlit("tektii");
    reveal_strlit("mock");
    let h = p.spec_header();
    assert(h.map_values(|c: char| ascii_lower(c)) =~= h);
}

} // verus!
