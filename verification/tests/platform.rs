use tektii_gateway_core::models::{GatewayMode, TradingPlatform, TradingPlatformKind};

#[test]
fn platform_kind_from_str_all_valid() {
    let cases = [
        ("alpaca", TradingPlatformKind::Alpaca),
        ("binance_spot", TradingPlatformKind::BinanceSpot),
        // UK-restricted: futures/margin/coin_futures disabled
        ("oanda", TradingPlatformKind::Oanda),
        ("saxo", TradingPlatformKind::Saxo),
        ("tektii", TradingPlatformKind::Tektii),
        ("mock", TradingPlatformKind::Mock),
    ];
    for (s, expected) in cases {
        assert_eq!(s.parse::<TradingPlatformKind>().unwrap(), expected);
    }
}

#[test]
fn platform_kind_from_str_uk_restricted_rejected() {
    for s in ["binance_futures", "binance_margin", "binance_coin_futures"] {
        assert!(
            s.parse::<TradingPlatformKind>().is_err(),
            "{s} should be rejected (UK-restricted)"
        );
    }
}

#[test]
fn platform_kind_from_str_invalid() {
    assert!("alpaka".parse::<TradingPlatformKind>().is_err());
    assert!("ALPACA".parse::<TradingPlatformKind>().is_err());
    assert!("".parse::<TradingPlatformKind>().is_err());
}

#[test]
fn platform_kind_display_roundtrip() {
    let kinds = [
        TradingPlatformKind::Alpaca,
        TradingPlatformKind::BinanceSpot,
        TradingPlatformKind::Oanda,
        TradingPlatformKind::Saxo,
        TradingPlatformKind::Tektii,
        TradingPlatformKind::Mock,
    ];
    for kind in kinds {
        assert_eq!(
            kind.as_str().parse::<TradingPlatformKind>().unwrap(),
            kind
        );
    }
}

#[test]
fn to_platform_exhaustive() {
    assert_eq!(TradingPlatformKind::Alpaca.to_platform(GatewayMode::Paper), TradingPlatform::AlpacaPaper);
    assert_eq!(TradingPlatformKind::Alpaca.to_platform(GatewayMode::Live), TradingPlatform::AlpacaLive);
    assert_eq!(
        TradingPlatformKind::BinanceSpot.to_platform(GatewayMode::Paper),
        TradingPlatform::BinanceSpotTestnet
    );
    assert_eq!(
        TradingPlatformKind::BinanceSpot.to_platform(GatewayMode::Live),
        TradingPlatform::BinanceSpotLive
    );
    assert_eq!(
        TradingPlatformKind::BinanceFutures.to_platform(GatewayMode::Paper),
        TradingPlatform::BinanceFuturesTestnet
    );
    assert_eq!(
        TradingPlatformKind::BinanceFutures.to_platform(GatewayMode::Live),
        TradingPlatform::BinanceFuturesLive
    );
    assert_eq!(
        TradingPlatformKind::BinanceMargin.to_platform(GatewayMode::Paper),
        TradingPlatform::BinanceMarginTestnet
    );
    assert_eq!(
        TradingPlatformKind::BinanceMargin.to_platform(GatewayMode::Live),
        TradingPlatform::BinanceMarginLive
    );
    assert_eq!(
        TradingPlatformKind::BinanceCoinFutures.to_platform(GatewayMode::Paper),
        TradingPlatform::BinanceCoinFuturesTestnet
    );
    assert_eq!(
        TradingPlatformKind::BinanceCoinFutures.to_platform(GatewayMode::Live),
        TradingPlatform::BinanceCoinFuturesLive
    );
    assert_eq!(TradingPlatformKind::Oanda.to_platform(GatewayMode::Paper), TradingPlatform::OandaPractice);
    assert_eq!(TradingPlatformKind::Oanda.to_platform(GatewayMode::Live), TradingPlatform::OandaLive);
    assert_eq!(TradingPlatformKind::Saxo.to_platform(GatewayMode::Paper), TradingPlatform::SaxoSim);
    assert_eq!(TradingPlatformKind::Saxo.to_platform(GatewayMode::Live), TradingPlatform::SaxoLive);
    assert_eq!(TradingPlatformKind::Tektii.to_platform(GatewayMode::Paper), TradingPlatform::Tektii);
    assert_eq!(TradingPlatformKind::Tektii.to_platform(GatewayMode::Live), TradingPlatform::Tektii);
    assert_eq!(TradingPlatformKind::Mock.to_platform(GatewayMode::Paper), TradingPlatform::Mock);
    assert_eq!(TradingPlatformKind::Mock.to_platform(GatewayMode::Live), TradingPlatform::Mock);
}

#[test]
fn gateway_mode_from_str() {
    assert_eq!("paper".parse::<GatewayMode>().unwrap(), GatewayMode::Paper);
    assert_eq!("live".parse::<GatewayMode>().unwrap(), GatewayMode::Live);
    assert!("LIVE".parse::<GatewayMode>().is_err());
    assert!("test".parse::<GatewayMode>().is_err());
}

#[test]
fn gateway_mode_default_is_paper() {
    assert_eq!(GatewayMode::default(), GatewayMode::Paper);
}

#[test]
fn required_env_vars_non_empty() {
    let kinds = [
        TradingPlatformKind::Alpaca,
        TradingPlatformKind::BinanceSpot,
        TradingPlatformKind::BinanceFutures,
        TradingPlatformKind::Oanda,
        TradingPlatformKind::Saxo,
        TradingPlatformKind::Tektii,
    ];
    for kind in kinds {
        assert!(
            !kind.required_env_vars().is_empty(),
            "{} should have required env vars",
            kind.as_str()
        );
    }
}

#[test]
fn mock_requires_no_env_vars() {
    assert!(
        TradingPlatformKind::Mock.required_env_vars().is_empty(),
        "Mock should require no env vars"
    );
}

#[test]
fn every_platform_is_named_by_its_header() {
    let platforms = [
        TradingPlatform::AlpacaLive,
        TradingPlatform::AlpacaPaper,
        TradingPlatform::BinanceSpotLive,
        TradingPlatform::BinanceSpotTestnet,
        TradingPlatform::BinanceFuturesLive,
        TradingPlatform::BinanceFuturesTestnet,
        TradingPlatform::BinanceMarginLive,
        TradingPlatform::BinanceMarginTestnet,
        TradingPlatform::BinanceCoinFuturesLive,
        TradingPlatform::BinanceCoinFuturesTestnet,
        TradingPlatform::OandaPractice,
        TradingPlatform::OandaLive,
        TradingPlatform::SaxoSim,
        TradingPlatform::SaxoLive,
        TradingPlatform::Tektii,
        TradingPlatform::Mock,
    ];
    for platform in platforms {
        assert_eq!(TradingPlatform::parse(platform.header_value()), Ok(platform));
        assert_eq!(TradingPlatform::parse(&platform.to_text().to_uppercase()), Ok(platform));
        assert!(!(platform.is_paper() && platform.is_live()));
    }
    let err = TradingPlatform::parse("nowhere").unwrap_err();
    assert_eq!(err.0, "nowhere");
    assert!(err.to_text().contains("nowhere"));
}

#[test]
fn platforms_have_display_names() {
    assert_eq!(TradingPlatform::AlpacaPaper.display_name(), "Alpaca (Paper)");
    assert_eq!(TradingPlatform::SaxoSim.display_name(), "Saxo Bank (SIM)");
    assert_eq!(TradingPlatform::Mock.display_name(), "Mock (Local Development)");
}

#[test]
fn the_mode_chooses_between_real_and_simulated_money() {
    let live = TradingPlatformKind::Alpaca.to_platform(GatewayMode::Live);
    let paper = TradingPlatformKind::Alpaca.to_platform(GatewayMode::Paper);
    assert!(live.is_live() && !live.is_paper());
    assert!(paper.is_paper() && !paper.is_live());
    assert_eq!(TradingPlatformKind::Alpaca.platforms().len(), 2);
}
