use anchorbell_engine::decimal::parse_commission_ppm;
use anchorbell_engine::execution::intent::Side;
use anchorbell_engine::execution::user_data::{AccountUpdate, OrderUpdate, PositionUpdate, UserDataEvent};
use anchorbell_engine::keyed::SortedMap;
use anchorbell_engine::live_runner::{
    apply_market, apply_user, user_event_time_ms, validate_instruments, AccountPrecisionError,
    InstrumentGateError, InstrumentStage, LiveSymbolState,
};
use anchorbell_engine::maker_runner::WorkingOrder;
use anchorbell_engine::market::binance::{BinanceMarketEvent, BookTicker, MarkPrice};
use anchorbell_engine::market::instrument_registry::{
    AssetClass, InstrumentClassification, InstrumentRegistryConfig, MarketRegion,
};
use anchorbell_engine::model::{PriceTicks, Quantity};

fn entry(symbol: &str, class: AssetClass, simulation: bool, live: bool) -> InstrumentClassification {
    InstrumentClassification {
        symbol: symbol.to_owned(),
        market_region: MarketRegion::HongKong,
        reference_venue: "HKEX".to_owned(),
        asset_class: class,
        management_profile: "tradfi_reference".to_owned(),
        source: None,
        simulation_enabled: simulation,
        live_enabled: live,
    }
}

fn registry() -> InstrumentRegistryConfig {
    InstrumentRegistryConfig {
        schema_version: 1,
        source: "test".to_owned(),
        instruments: vec![
            entry("TENCENTUSDT", AssetClass::OrdinaryEquity, true, true),
            entry("ALIBABAUSDT", AssetClass::OrdinaryEquity, true, false),
            entry("HSIUSDT", AssetClass::Index, true, true),
            entry("MYSTERYUSDT", AssetClass::Unknown, true, true),
        ],
    }
}

fn names(symbols: &[&str]) -> Vec<String> {
    symbols.iter().map(|s| s.to_string()).collect()
}

fn states() -> SortedMap<LiveSymbolState> {
    let mut map = SortedMap::new();
    map.insert("TENCENTUSDT".to_string(), LiveSymbolState::new(2, "0.5".to_string()));
    map
}

fn mark(symbol: &str, price: i64, at: u64) -> BinanceMarketEvent {
    BinanceMarketEvent::MarkPrice(MarkPrice {
        symbol: symbol.to_string(),
        event_time_ms: at,
        mark_price: PriceTicks(price),
        index_price: PriceTicks(price),
        next_funding_time_ms: 0,
        latest_funding_rate_e8: None,
    })
}

fn order_update(symbol: &str, status: &str) -> UserDataEvent {
    UserDataEvent::OrderUpdate(Box::new(OrderUpdate {
        event_time_ms: 41,
        transaction_time_ms: 40,
        symbol: symbol.to_string(),
        client_order_id: "anchorbell-1-0".to_string(),
        order_id: 7,
        side: "BUY".to_string(),
        order_type: "LIMIT".to_string(),
        time_in_force: "GTX".to_string(),
        status: status.to_string(),
        execution_type: "TRADE".to_string(),
        executed_quantity: "1".to_string(),
        last_filled_quantity: "1".to_string(),
        average_price: "1".to_string(),
        reduce_only: false,
    }))
}

fn position(symbol: &str, amount: &str, profit: &str) -> PositionUpdate {
    PositionUpdate {
        symbol: symbol.to_string(),
        position_amount: amount.to_string(),
        entry_price: "0".to_string(),
        unrealized_profit: profit.to_string(),
        position_side: "BOTH".to_string(),
    }
}

fn account(positions: Vec<PositionUpdate>) -> UserDataEvent {
    UserDataEvent::AccountUpdate(AccountUpdate {
        event_time_ms: 55,
        transaction_time_ms: 54,
        reason: "ORDER".to_string(),
        positions,
        balances: Vec::new(),
    })
}

#[test]
fn registry_admits_only_enabled_symbols_of_the_profile_class() {
    let registry = registry();
    let live = InstrumentStage::Live;
    assert_eq!(validate_instruments(&registry, AssetClass::OrdinaryEquity, &names(&[" tencentusdt "]), live), Ok(()));
    assert_eq!(
        validate_instruments(&registry, AssetClass::OrdinaryEquity, &names(&["TENCENTUSDT", "ALIBABAUSDT"]), live),
        Err(InstrumentGateError::NotEnabled("ALIBABAUSDT".to_string()))
    );
    assert_eq!(
        validate_instruments(&registry, AssetClass::OrdinaryEquity, &names(&["ALIBABAUSDT"]), InstrumentStage::Simulation),
        Ok(())
    );
    assert_eq!(
        validate_instruments(&registry, AssetClass::OrdinaryEquity, &names(&["HSIUSDT"]), live),
        Err(InstrumentGateError::AssetClassMismatch {
            symbol: "HSIUSDT".to_string(),
            profile: AssetClass::OrdinaryEquity,
            symbol_class: AssetClass::Index,
        })
    );
    assert_eq!(
        validate_instruments(&registry, AssetClass::Unknown, &names(&["MYSTERYUSDT"]), live),
        Err(InstrumentGateError::UnknownAssetClass("MYSTERYUSDT".to_string()))
    );
    assert_eq!(
        validate_instruments(&registry, AssetClass::OrdinaryEquity, &names(&["NOPEUSDT", "HSIUSDT"]), live),
        Err(InstrumentGateError::Missing("NOPEUSDT".to_string()))
    );
}

#[test]
fn market_events_update_tracked_symbols_only() {
    let mut map = states();
    apply_market(&mut map, mark("TENCENTUSDT", 10_000, 1));
    apply_market(&mut map, mark("TENCENTUSDT", 10_020, 2));
    apply_market(&mut map, mark("ALIBABAUSDT", 5, 3));
    let book = BookTicker {
        symbol: "TENCENTUSDT".to_string(),
        event_time_ms: 4,
        transaction_time_ms: 4,
        update_id: 9,
        bid_price: PriceTicks(10_010),
        bid_quantity: Quantity(2),
        ask_price: PriceTicks(10_030),
        ask_quantity: Quantity(1),
    };
    apply_market(&mut map, BinanceMarketEvent::BookTicker(book.clone()));
    assert_eq!(map.len(), 1);
    let state = map.get("TENCENTUSDT").unwrap();
    assert_eq!(state.ewma_abs_return_bps, 20);
    assert_eq!(state.last_mark_price_ticks, Some(10_020));
    assert_eq!(state.book, Some(book));
    assert_eq!(state.position_ticks, 2);
    assert_eq!(BinanceMarketEvent::BookTicker(state.book.clone().unwrap()).symbol(), "TENCENTUSDT");
    assert_eq!(mark("X", 1, 77).event_time_ms(), 77);
}

#[test]
fn user_events_update_orders_and_positions() {
    let mut map = states();
    let mut working = SortedMap::new();
    working.insert(
        "TENCENTUSDT".to_string(),
        WorkingOrder { client_order_id: "anchorbell-1-0".to_string(), side: Side::Buy, price_ticks: 1, quantity_ticks: 1 },
    );
    assert_eq!(apply_user(&mut map, &mut working, &order_update("TENCENTUSDT", "PARTIALLY_FILLED"), 3), Ok(()));
    assert_eq!(working.len(), 1);
    assert_eq!(apply_user(&mut map, &mut working, &order_update("TENCENTUSDT", "EXPIRED_IN_MATCH"), 3), Ok(()));
    assert_eq!(working.len(), 1);
    assert_eq!(apply_user(&mut map, &mut working, &order_update("TENCENTUSDT", "FILLED"), 3), Ok(()));
    assert_eq!(working.len(), 0);

    let update = account(vec![position("TENCENTUSDT", "-0.125", "-1.5"), position("OTHERUSDT", "1", "0")]);
    assert_eq!(apply_user(&mut map, &mut working, &update, 3), Ok(()));
    let state = map.get("TENCENTUSDT").unwrap();
    assert_eq!(state.position_ticks, -125);
    assert_eq!(state.unrealized_profit, "-1.5");
    assert_eq!(map.len(), 1);

    let bad = account(vec![position("TENCENTUSDT", "0.5", "2"), position("OTHERUSDT", "0.0001", "0")]);
    assert_eq!(
        apply_user(&mut map, &mut working, &bad, 3),
        Err(AccountPrecisionError { symbol: "OTHERUSDT".to_string() })
    );
    assert_eq!(map.get("TENCENTUSDT").unwrap().position_ticks, 500);
    assert_eq!(user_event_time_ms(&bad), 55);
    assert_eq!(user_event_time_ms(&UserDataEvent::ListenKeyExpired), 0);
    assert_eq!(user_event_time_ms(&order_update("X", "NEW")), 41);
}

#[test]
fn commission_rates_parse_to_parts_per_million() {
    assert_eq!(parse_commission_ppm("0.0002"), Some(200));
    assert_eq!(parse_commission_ppm(" 0.000500 "), Some(500));
    assert_eq!(parse_commission_ppm("1"), Some(1_000_000));
    assert_eq!(parse_commission_ppm("1.5"), Some(1_500_000));
    assert_eq!(parse_commission_ppm("2"), None);
    assert_eq!(parse_commission_ppm("0.0000001"), None);
    assert_eq!(parse_commission_ppm(".5"), None);
    assert_eq!(parse_commission_ppm("-0.1"), None);
    assert_eq!(parse_commission_ppm("0.1.2"), None);
}
