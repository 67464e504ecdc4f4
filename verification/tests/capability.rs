use anchorbell_engine::market::capability::{CapabilityGateError, MarketCapabilityGate};
use anchorbell_engine::market::metadata::{
    BinanceBookTickerSnapshot, BinancePremiumIndexSnapshot, BinanceSymbolFilter, BinanceSymbolMetadata,
    BinanceSymbolSnapshot, PublicMetadataError, PUBLIC_SNAPSHOT_MAX_AGE_MS,
};

fn filter(filter_type: &str) -> BinanceSymbolFilter {
    BinanceSymbolFilter {
        filter_type: filter_type.into(),
        min_price: None,
        max_price: None,
        tick_size: None,
        min_quantity: None,
        max_quantity: None,
        step_size: None,
        notional: None,
        multiplier_up: None,
        multiplier_down: None,
    }
}

fn snapshot(symbol: &str, observed_at_ms: u64) -> BinanceSymbolSnapshot {
    BinanceSymbolSnapshot {
        metadata: BinanceSymbolMetadata {
            symbol: symbol.into(),
            status: "TRADING".into(),
            contract_type: "TRADIFI_PERPETUAL".into(),
            underlying_type: None,
            base_asset: symbol.trim_end_matches("USDT").into(),
            quote_asset: "USDT".into(),
            margin_asset: "USDT".into(),
            price_precision: 5,
            quantity_precision: 2,
            onboard_date_ms: 1,
            delivery_date_ms: 4_102_444_800_000,
            filters: vec![
                BinanceSymbolFilter {
                    min_price: Some("0.001".into()),
                    max_price: Some("20000".into()),
                    tick_size: Some("0.001".into()),
                    ..filter("PRICE_FILTER")
                },
                BinanceSymbolFilter {
                    min_quantity: Some("0.01".into()),
                    max_quantity: Some("400000".into()),
                    step_size: Some("0.01".into()),
                    ..filter("LOT_SIZE")
                },
                BinanceSymbolFilter { notional: Some("5".into()), ..filter("MIN_NOTIONAL") },
                BinanceSymbolFilter {
                    multiplier_up: Some("1.03".into()),
                    multiplier_down: Some("0.97".into()),
                    ..filter("PERCENT_PRICE")
                },
            ],
        },
        book_ticker: BinanceBookTickerSnapshot {
            symbol: symbol.into(),
            bid_price: "8.27800".into(),
            bid_quantity: "22.46".into(),
            ask_price: "8.28100".into(),
            ask_quantity: "14.18".into(),
        },
        premium_index: BinancePremiumIndexSnapshot {
            symbol: symbol.into(),
            mark_price: "8.27900".into(),
            index_price: "8.27850".into(),
            last_funding_rate: "-0.00010000".into(),
            next_funding_time_ms: 2_000,
            time: 1_000,
        },
        observed_at_ms,
    }
}

#[test]
fn requires_a_non_empty_unique_universe() {
    assert_eq!(MarketCapabilityGate::new(Vec::<&str>::new()), Err(CapabilityGateError::EmptyUniverse));
    assert_eq!(
        MarketCapabilityGate::new(vec!["CXMTUSDT", "cxmtusdt"]),
        Err(CapabilityGateError::DuplicateSymbol("CXMTUSDT".into()))
    );
}

#[test]
fn becomes_ready_only_after_every_required_symbol_is_valid() {
    let mut gate = MarketCapabilityGate::new(vec!["CXMTUSDT", "UNITREEUSDT"]).unwrap();
    assert!(!gate.is_ready_at(1_000));
    assert_eq!(gate.missing_symbols(), vec!["CXMTUSDT", "UNITREEUSDT"]);
    gate.accept(snapshot("CXMTUSDT", 1_000), 1_000).unwrap();
    assert!(!gate.is_ready_at(1_000));
    gate.accept(snapshot("UNITREEUSDT", 1_000), 1_000).unwrap();
    assert!(gate.is_ready_at(1_000));
    assert!(gate.snapshot("cxmtusdt").is_some());
}

#[test]
fn accepted_snapshot_expires_without_refresh() {
    let mut gate = MarketCapabilityGate::new(vec!["CXMTUSDT"]).unwrap();
    gate.accept(snapshot("CXMTUSDT", 1_000), 1_000).unwrap();
    assert!(gate.is_ready_at(1_000));
    assert!(!gate.is_ready_at(1_000 + PUBLIC_SNAPSHOT_MAX_AGE_MS + 1));
}

#[test]
fn invalid_refresh_removes_previous_ready_snapshot() {
    let mut gate = MarketCapabilityGate::new(vec!["CXMTUSDT"]).unwrap();
    gate.accept(snapshot("CXMTUSDT", 1_000), 1_000).unwrap();
    let result = gate.accept(snapshot("CXMTUSDT", 1), 10_000);
    assert!(matches!(
        result,
        Err(CapabilityGateError::InvalidSnapshot { source: PublicMetadataError::StaleSnapshot, .. })
    ));
    assert!(!gate.is_ready_at(1_000));
    assert!(!gate.is_ready_at(10_000));
    assert_eq!(gate.missing_symbols(), vec!["CXMTUSDT"]);
}

#[test]
fn rejects_symbols_outside_the_declared_universe() {
    let mut gate = MarketCapabilityGate::new(vec!["CXMTUSDT"]).unwrap();
    assert_eq!(
        gate.accept(snapshot("OTHERUSDT", 1_000), 1_000),
        Err(CapabilityGateError::UnexpectedSymbol("OTHERUSDT".into()))
    );
    assert!(!gate.is_ready_at(1_000));
}

#[test]
fn rejects_empty_symbol_entries() {
    assert_eq!(MarketCapabilityGate::new(vec![" "]), Err(CapabilityGateError::EmptySymbol));
}

#[test]
fn snapshot_validation_reports_the_first_problem() {
    let good = snapshot("CXMTUSDT", 1_000);
    assert_eq!(good.validate_for_runtime(1_000), Ok(()));
    let mut mismatch = good.clone();
    mismatch.book_ticker.symbol = "OTHER".into();
    assert_eq!(mismatch.validate_for_runtime(1_000), Err(PublicMetadataError::SymbolMismatch));
    let mut missing = good.clone();
    missing.metadata.filters.remove(1);
    assert_eq!(missing.validate_for_runtime(1_000), Err(PublicMetadataError::MissingExchangeFilter("LOT_SIZE")));
    let mut zero = good.clone();
    zero.metadata.filters[2].notional = Some("0.0".into());
    assert_eq!(
        zero.validate_for_runtime(1_000),
        Err(PublicMetadataError::InvalidExchangeFilter { filter: "MIN_NOTIONAL", field: "notional" })
    );
    let mut one_sided = good.clone();
    one_sided.book_ticker.ask_price = String::new();
    assert_eq!(one_sided.validate_for_runtime(1_000), Err(PublicMetadataError::IncompleteQuote));
    let mut negative = good.clone();
    negative.book_ticker.ask_price = "-1".into();
    assert_eq!(negative.validate_for_runtime(1_000), Err(PublicMetadataError::NonPositiveMarketValue));
    assert_eq!(good.validate_for_runtime(2_000), Err(PublicMetadataError::ExpiredFundingTime));
    let mut future = good.clone();
    future.observed_at_ms = 5_000;
    assert_eq!(future.validate_for_runtime(1_000), Err(PublicMetadataError::StaleSnapshot));
}
