use tektii_gateway_core::config::{
    GatewayConfig, GatewayConfigError, GatewayVars, InstrumentSubscription, ReconnectionConfig,
    ReconnectionVars, load_required_env_vars,
};
use tektii_gateway_core::models::{TradingPlatform, TradingPlatformKind};
use tektii_gateway_core::time::Duration;

fn no_reconnection() -> ReconnectionVars {
    ReconnectionVars { initial_backoff_ms: None, max_backoff_ms: None, max_duration_secs: None }
}

fn no_vars() -> GatewayVars {
    GatewayVars {
        host: None,
        port: None,
        sl_tp_ttl_hours: None,
        subscriptions: None,
        exit_state_file: None,
        reconnection: no_reconnection(),
        api_key: None,
        enable_swagger: None,
    }
}

fn refused(vars: GatewayVars) -> GatewayConfigError {
    match GatewayConfig::from_env(vars) {
        Ok(_) => panic!("expected an error"),
        Err(e) => e,
    }
}

fn subscription(platform: TradingPlatform, instrument: &str, events: &[&str]) -> InstrumentSubscription {
    InstrumentSubscription {
        platform,
        instrument: instrument.to_string(),
        events: events.iter().map(|e| e.to_string()).collect(),
    }
}

#[test]
fn from_env_config_parsing() {
    // --- defaults when no env vars ---
    let config = GatewayConfig::from_env(no_vars()).ok().expect("defaults should work");
    assert_eq!(config.host, "127.0.0.1");
    assert_eq!(config.port, 8080);
    assert_eq!(config.sl_tp_ttl_hours, 24);
    assert!(config.subscriptions.is_empty());
    assert_eq!(config.exit_state_file, "./gateway-exit-state.json");
    assert!(!config.enable_swagger);

    // --- reads custom values ---
    let mut vars = no_vars();
    vars.host = Some("0.0.0.0".to_string());
    vars.port = Some("9090".to_string());
    vars.sl_tp_ttl_hours = Some("48".to_string());
    let config = GatewayConfig::from_env(vars).ok().expect("valid env vars");
    assert_eq!(config.host, "0.0.0.0");
    assert_eq!(config.port, 9090);
    assert_eq!(config.sl_tp_ttl_hours, 48);

    // --- rejects invalid port ---
    let mut vars = no_vars();
    vars.port = Some("not-a-number".to_string());
    let err = refused(vars);
    assert!(matches!(err, GatewayConfigError::InvalidPort(_)));

    // --- rejects invalid ttl ---
    let mut vars = no_vars();
    vars.sl_tp_ttl_hours = Some("abc".to_string());
    let err = refused(vars);
    assert!(matches!(err, GatewayConfigError::InvalidTtl(_)));

    // --- takes subscriptions ---
    let mut vars = no_vars();
    vars.subscriptions =
        Some(Ok(vec![subscription(TradingPlatform::AlpacaPaper, "AAPL", &["quote"])]));
    let config = GatewayConfig::from_env(vars).ok().expect("valid subscriptions");
    assert_eq!(config.subscriptions.len(), 1);
    assert_eq!(config.subscriptions[0].instrument, "AAPL");

    // --- rejects invalid subscriptions ---
    let mut vars = no_vars();
    vars.subscriptions = Some(Err("expected ident at line 1 column 2".to_string()));
    let err = refused(vars);
    assert!(matches!(err, GatewayConfigError::InvalidSubscriptions(_)));
}

#[test]
fn reconnection_config_parsing() {
    // --- defaults when no env vars ---
    let config = ReconnectionConfig::from_env(&no_reconnection()).expect("defaults should work");
    assert_eq!(config.initial_backoff, Duration::from_millis(1000));
    assert_eq!(config.max_backoff, Duration::from_secs(60));
    assert_eq!(config.max_retry_duration, Duration::from_secs(300));
    assert_eq!(config, ReconnectionConfig::default());

    // --- reads custom values ---
    let config = ReconnectionConfig::from_env(&ReconnectionVars {
        initial_backoff_ms: Some("500".to_string()),
        max_backoff_ms: Some("30000".to_string()),
        max_duration_secs: Some("120".to_string()),
    })
    .expect("valid env vars");
    assert_eq!(config.initial_backoff, Duration::from_millis(500));
    assert_eq!(config.max_backoff, Duration::from_millis(30000));
    assert_eq!(config.max_retry_duration, Duration::from_secs(120));

    // --- rejects invalid values ---
    let mut vars = no_reconnection();
    vars.initial_backoff_ms = Some("not-a-number".to_string());
    let err = ReconnectionConfig::from_env(&vars).unwrap_err();
    assert!(matches!(err, GatewayConfigError::InvalidReconnect(_)));
}

#[test]
fn api_key_config_parsing() {
    // --- no key set → None ---
    let config = GatewayConfig::from_env(no_vars()).ok().expect("defaults should work");
    assert!(config.api_key.is_none());

    // --- empty string → None ---
    let mut vars = no_vars();
    vars.api_key = Some(String::new());
    let config = GatewayConfig::from_env(vars).ok().expect("empty key is ok");
    assert!(config.api_key.is_none());

    // --- too short → error ---
    let mut vars = no_vars();
    vars.api_key = Some("short-key".to_string());
    let err = refused(vars);
    assert!(matches!(err, GatewayConfigError::ApiKeyTooShort(9)));

    // --- valid key (32+ chars) → Some ---
    let mut vars = no_vars();
    vars.api_key = Some("abcdefghijklmnopqrstuvwxyz123456".to_string());
    let config = GatewayConfig::from_env(vars).ok().expect("valid key should work");
    assert!(config.api_key.is_some());
}

#[test]
fn the_first_invalid_value_is_reported() {
    let mut vars = no_vars();
    vars.port = Some("70000".to_string());
    vars.sl_tp_ttl_hours = Some("x".to_string());
    vars.api_key = Some("short".to_string());
    assert!(matches!(refused(vars), GatewayConfigError::InvalidPort(_)));

    let mut vars = no_vars();
    vars.reconnection.max_backoff_ms = Some("x".to_string());
    vars.api_key = Some("short".to_string());
    assert!(matches!(refused(vars), GatewayConfigError::InvalidReconnect(_)));
}

#[test]
fn swagger_is_enabled_by_true_or_one() {
    for (text, expected) in [("true", true), ("1", true), ("TRUE", false), ("yes", false)] {
        let mut vars = no_vars();
        vars.enable_swagger = Some(text.to_string());
        let config = GatewayConfig::from_env(vars).ok().unwrap();
        assert_eq!(config.enable_swagger, expected);
    }
}

#[test]
fn subscriptions_are_looked_up_by_platform() {
    let mut vars = no_vars();
    vars.subscriptions = Some(Ok(vec![
        subscription(TradingPlatform::AlpacaPaper, "AAPL", &["quote", "trade"]),
        subscription(TradingPlatform::Mock, "X", &["bar"]),
        subscription(TradingPlatform::AlpacaPaper, "MSFT", &["trade"]),
    ]));
    let config = GatewayConfig::from_env(vars).ok().unwrap();
    assert_eq!(
        config.platforms_used(),
        vec![TradingPlatform::AlpacaPaper, TradingPlatform::Mock]
    );
    assert_eq!(config.symbols_for_platform(TradingPlatform::AlpacaPaper), vec!["AAPL", "MSFT"]);
    assert_eq!(config.events_for_platform(TradingPlatform::AlpacaPaper), vec!["quote", "trade"]);
    assert_eq!(config.subscriptions_for_platform(TradingPlatform::Mock).len(), 1);
    assert!(config.symbols_for_platform(TradingPlatform::OandaLive).is_empty());
}

#[test]
fn messages_of_errors() {
    assert_eq!(
        GatewayConfigError::InvalidPort("bad".to_string()).to_text(),
        "invalid GATEWAY_PORT: bad"
    );
    assert_eq!(
        GatewayConfigError::InvalidTtl("bad".to_string()).to_text(),
        "invalid SL_TP_TTL_HOURS: bad"
    );
    assert_eq!(
        GatewayConfigError::InvalidSubscriptions("bad".to_string()).to_text(),
        "invalid SUBSCRIPTIONS JSON: bad"
    );
    assert_eq!(
        GatewayConfigError::InvalidReconnect("bad".to_string()).to_text(),
        "invalid reconnection config: bad"
    );
    assert_eq!(
        GatewayConfigError::ApiKeyTooShort(9).to_text(),
        "GATEWAY_API_KEY is too short (9 chars). Minimum length is 32 characters."
    );
    assert_eq!(GatewayConfigError::InvalidEnvVar("bad".to_string()).to_text(), "bad");
}

#[test]
fn missing_credentials_are_listed() {
    let set = |text: &str| Some(text.to_string());
    let values =
        load_required_env_vars(TradingPlatformKind::Alpaca, &vec![set("a"), set("b")]).unwrap();
    assert_eq!(values, vec!["a", "b"]);

    let err = load_required_env_vars(TradingPlatformKind::Saxo, &vec![set("a"), None, set("")])
        .unwrap_err();
    match &err {
        GatewayConfigError::MissingEnvVar(message) => assert_eq!(
            message,
            "Provider 'saxo' requires SAXO_APP_KEY,  SAXO_APP_SECRET and  SAXO_ACCOUNT_KEY.\n  SAXO_APP_KEY: set\n  SAXO_APP_SECRET: NOT SET\n  SAXO_ACCOUNT_KEY: NOT SET\n"
        ),
        _ => panic!("expected MissingEnvVar"),
    }
    assert_eq!(
        load_required_env_vars(TradingPlatformKind::Mock, &vec![]).unwrap(),
        Vec::<String>::new()
    );
}
