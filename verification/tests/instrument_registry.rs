use anchorbell_engine::market::instrument_registry::{
    AssetClass, InstrumentClassification, InstrumentRegistryConfig, InstrumentRegistryError,
    InstrumentRegistrySnapshot, MarketRegion, INSTRUMENT_REGISTRY_SCHEMA_VERSION,
};
use anchorbell_engine::market::metadata::BinanceSymbolMetadata;

fn metadata(symbol: &str, underlying_type: &str) -> BinanceSymbolMetadata {
    BinanceSymbolMetadata {
        symbol: symbol.to_owned(),
        status: "TRADING".to_owned(),
        contract_type: "TRADIFI_PERPETUAL".to_owned(),
        underlying_type: Some(underlying_type.to_owned()),
        base_asset: symbol.trim_end_matches("USDT").to_owned(),
        quote_asset: "USDT".to_owned(),
        margin_asset: "USDT".to_owned(),
        price_precision: 5,
        quantity_precision: 2,
        onboard_date_ms: 1,
        delivery_date_ms: 4_133_404_800_000,
        filters: Vec::new(),
    }
}

fn entry(symbol: &str, region: MarketRegion, venue: &str, class: AssetClass, simulation: bool) -> InstrumentClassification {
    InstrumentClassification {
        symbol: symbol.to_owned(),
        market_region: region,
        reference_venue: venue.to_owned(),
        asset_class: class,
        management_profile: "tradfi_reference".to_owned(),
        source: None,
        simulation_enabled: simulation,
        live_enabled: false,
    }
}

fn registry(instruments: Vec<InstrumentClassification>) -> InstrumentRegistryConfig {
    InstrumentRegistryConfig { schema_version: 1, source: "test".to_owned(), instruments }
}

#[test]
fn ordinary_equity_and_etf_are_distinct() {
    let config = registry(vec![
        entry("SAMSUNGUSDT", MarketRegion::Korea, "KRX", AssetClass::OrdinaryEquity, true),
        entry("EWYUSDT", MarketRegion::Korea, "NYSE_ARCA", AssetClass::Etf, true),
    ])
    .validated()
    .unwrap();
    let snapshot = InstrumentRegistrySnapshot::from_exchange_info(
        vec![metadata("SAMSUNGUSDT", "KR_EQUITY"), metadata("EWYUSDT", "EQUITY")],
        &config,
    );
    assert_eq!(
        snapshot
            .by_asset_class(AssetClass::OrdinaryEquity)
            .iter()
            .map(|i| i.symbol.as_str())
            .collect::<Vec<_>>(),
        vec!["SAMSUNGUSDT"]
    );
    assert_eq!(
        snapshot.by_asset_class(AssetClass::Etf).iter().map(|i| i.symbol.as_str()).collect::<Vec<_>>(),
        vec!["EWYUSDT"]
    );
}

#[test]
fn unclassified_exchange_symbols_fail_closed() {
    let config = registry(Vec::new()).validated().unwrap();
    let snapshot = InstrumentRegistrySnapshot::from_exchange_info(vec![metadata("NEWUSDT", "KR_EQUITY")], &config);
    let instrument = &snapshot.instruments[0];
    assert_eq!(instrument.asset_class, AssetClass::Unknown);
    assert!(!instrument.strategy_eligible);
    assert_eq!(instrument.eligibility_reason, "missing_external_asset_classification");
}

#[test]
fn registry_entries_are_normalized_and_checked_in_order() {
    let mut e = entry("  ewyusdt ", MarketRegion::Korea, " NYSE_ARCA ", AssetClass::Etf, true);
    e.source = Some("   ".to_owned());
    e.management_profile = " p ".to_owned();
    let config = registry(vec![e]).validated().unwrap();
    assert_eq!(config.instruments[0].symbol, "EWYUSDT");
    assert_eq!(config.instruments[0].reference_venue, "NYSE_ARCA");
    assert_eq!(config.instruments[0].management_profile, "p");
    assert_eq!(config.instruments[0].source, None);

    let mut bad = registry(Vec::new());
    bad.schema_version = 2;
    assert_eq!(bad.validated(), Err(InstrumentRegistryError::UnsupportedSchema(2)));
    assert_eq!(
        registry(vec![entry("AB-C", MarketRegion::Global, "X", AssetClass::Index, false)]).validated(),
        Err(InstrumentRegistryError::InvalidSymbol("AB-C".to_owned()))
    );
    assert_eq!(
        registry(vec![
            entry("abc", MarketRegion::Global, "X", AssetClass::Index, false),
            entry("ABC ", MarketRegion::Global, "", AssetClass::Index, false),
        ])
        .validated(),
        Err(InstrumentRegistryError::DuplicateSymbol("ABC".to_owned()))
    );
    assert_eq!(
        registry(vec![entry("ABC", MarketRegion::Global, "  ", AssetClass::Index, false)]).validated(),
        Err(InstrumentRegistryError::MissingVenue("ABC".to_owned()))
    );
}

#[test]
fn snapshot_is_sorted_reasoned_and_lists_missing_symbols() {
    let mut live = entry("BBBUSDT", MarketRegion::UnitedStates, "NASDAQ", AssetClass::Adr, true);
    live.live_enabled = true;
    let config = registry(vec![
        live,
        entry("AAAUSDT", MarketRegion::Japan, "TSE", AssetClass::OrdinaryEquity, false),
        entry("ZZZUSDT", MarketRegion::China, "SSE", AssetClass::OrdinaryEquity, true),
        entry("MMMUSDT", MarketRegion::Taiwan, "TWSE", AssetClass::OrdinaryEquity, true),
    ]);
    let mut halted = metadata("MMMUSDT", "EQUITY");
    halted.status = "SETTLING".to_owned();
    let mut perpetual = metadata("CCCUSDT", "COIN");
    perpetual.contract_type = "PERPETUAL".to_owned();
    let snapshot = InstrumentRegistrySnapshot::from_exchange_info(
        vec![metadata("BBBUSDT", "EQUITY"), perpetual, halted, metadata("AAAUSDT", "EQUITY")],
        &config,
    );
    assert_eq!(snapshot.schema_version, INSTRUMENT_REGISTRY_SCHEMA_VERSION);
    let symbols: Vec<&str> = snapshot.instruments.iter().map(|i| i.symbol.as_str()).collect();
    assert_eq!(symbols, vec!["AAAUSDT", "BBBUSDT", "MMMUSDT"]);
    let reasons: Vec<&str> = snapshot.instruments.iter().map(|i| i.eligibility_reason.as_str()).collect();
    assert_eq!(
        reasons,
        vec![
            "management_only_until_strategy_is_enabled",
            "explicitly_enabled_for_live_and_simulation",
            "exchange_status_not_trading",
        ]
    );
    assert!(!snapshot.instruments[0].strategy_eligible);
    assert!(snapshot.instruments[1].strategy_eligible);
    assert_eq!(snapshot.instruments[1].reference_venue.as_deref(), Some("NASDAQ"));
    assert_eq!(snapshot.configured_missing_from_exchange, vec!["ZZZUSDT".to_owned()]);
}

#[test]
fn later_entries_win_in_the_symbol_index() {
    let config = registry(vec![
        entry("AAA", MarketRegion::Japan, "TSE", AssetClass::Etf, false),
        entry("AAA", MarketRegion::Korea, "KRX", AssetClass::Index, true),
    ]);
    let index = config.by_symbol();
    assert_eq!(index.len(), 1);
    assert_eq!(index.get("AAA").unwrap().market_region, MarketRegion::Korea);
}

#[test]
fn asset_class_groups() {
    assert!(AssetClass::LeveragedEtf.is_equity_like());
    assert!(!AssetClass::Commodity.is_equity_like());
    assert!(!AssetClass::Unknown.is_equity_like());
    assert!(AssetClass::OrdinaryEquity.is_plain_ordinary_equity());
    assert!(!AssetClass::Adr.is_plain_ordinary_equity());
}
