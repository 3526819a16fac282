use tektii_gateway_core::decimal::Decimal;
use tektii_gateway_core::exit_management::{
    ExitEntry, ExitEntryParams, ExitHandler, ExitHandlerRegistry, ExitLegType,
};
use tektii_gateway_core::models::{Side, TradingPlatform};

fn create_test_handler(platform: TradingPlatform) -> ExitHandler {
    ExitHandler::with_defaults(platform)
}

#[test]
fn test_register_and_get() {
    let mut registry = ExitHandlerRegistry::new();
    let handler = create_test_handler(TradingPlatform::AlpacaLive);

    registry.register(TradingPlatform::AlpacaLive, handler);

    assert!(registry.get(&TradingPlatform::AlpacaLive).is_some());
    assert!(registry.get(&TradingPlatform::BinanceSpotLive).is_none());
}

#[test]
fn test_all_handlers() {
    let mut registry = ExitHandlerRegistry::new();
    registry.register(
        TradingPlatform::AlpacaLive,
        create_test_handler(TradingPlatform::AlpacaLive),
    );
    registry.register(
        TradingPlatform::BinanceSpotLive,
        create_test_handler(TradingPlatform::BinanceSpotLive),
    );

    let all = registry.all();
    assert_eq!(all.len(), 2);
}

#[test]
fn test_len_and_is_empty() {
    let mut registry = ExitHandlerRegistry::new();
    assert!(registry.is_empty());
    assert_eq!(registry.len(), 0);

    registry.register(
        TradingPlatform::AlpacaLive,
        create_test_handler(TradingPlatform::AlpacaLive),
    );
    assert!(!registry.is_empty());
    assert_eq!(registry.len(), 1);
}

#[test]
fn totals_add_up_over_the_handlers() {
    let mut registry = ExitHandlerRegistry::new();
    for platform in [TradingPlatform::AlpacaLive, TradingPlatform::OandaLive] {
        let mut handler = create_test_handler(platform);
        for leg in [ExitLegType::StopLoss, ExitLegType::TakeProfit] {
            handler.insert_entry(ExitEntry::new(ExitEntryParams {
                primary_order_id: "order-1".to_string(),
                order_type: leg,
                symbol: "BTCUSD".to_string(),
                side: Side::Sell,
                trigger_price: Decimal::new(1, 0),
                limit_price: None,
                quantity: Decimal::new(1, 0),
                platform,
            }));
        }
        registry.register(platform, handler);
    }
    assert_eq!(registry.total_pending_count(), 4);
    assert_eq!(registry.total_primary_orders_count(), 2);
}

#[test]
fn taken_handler_is_gone_until_it_is_registered_again() {
    let mut registry = ExitHandlerRegistry::new();
    registry.register(
        TradingPlatform::AlpacaLive,
        create_test_handler(TradingPlatform::AlpacaLive),
    );
    let handler = registry.take(&TradingPlatform::AlpacaLive).unwrap();
    assert!(registry.is_empty());
    assert!(registry.take(&TradingPlatform::AlpacaLive).is_none());
    registry.register(TradingPlatform::AlpacaLive, handler);
    assert_eq!(registry.len(), 1);
}
