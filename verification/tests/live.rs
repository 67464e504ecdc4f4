use anchorbell_engine::market::live::{
    classify_frame, BinanceMarketConfig, BinanceMarketFeed, FrameStep, MarketStreamError, ReconnectPolicy,
};
use anchorbell_engine::market::subscription::{
    BinanceSubscription, SubscriptionError, SubscriptionPlan, SubscriptionPlanError,
};

fn config(base: &str, subscriptions: Vec<BinanceSubscription>) -> BinanceMarketConfig {
    BinanceMarketConfig {
        market_ws_base: base.into(),
        subscriptions,
        price_scale: 4,
        quantity_scale: 2,
        max_frame_bytes: 1_048_576,
        connect_timeout_ms: 5_000,
        read_timeout_ms: 15_000,
        http_proxy: None,
        reconnect: ReconnectPolicy::default(),
    }
}

#[test]
fn builds_combined_market_stream_url() {
    let config = config(
        "wss://demo-fstream.binance.com/public/",
        vec![BinanceSubscription::new("ABCUSDT").unwrap()],
    );
    assert_eq!(
        config.combined_stream_url().unwrap(),
        "wss://demo-fstream.binance.com/public/stream?streams=abcusdt@bookTicker/abcusdt@markPrice@1s"
    );
}

#[test]
fn builds_feed_specific_shards_from_one_symbol_universe() {
    let symbols = ["AAAUSDT", "BBBUSDT"];
    let public = BinanceMarketConfig::for_symbols(
        "wss://fstream.binance.com".to_string(),
        &symbols,
        BinanceMarketFeed::BookTicker,
        8,
        8,
        1_048_576,
        5_000,
        15_000,
        None,
        ReconnectPolicy::default(),
        64,
    )
    .unwrap();
    let reference = BinanceMarketConfig::for_symbols(
        "wss://fstream.binance.com".to_string(),
        &symbols,
        BinanceMarketFeed::ReferenceAndTrades,
        8,
        8,
        1_048_576,
        5_000,
        15_000,
        None,
        ReconnectPolicy::default(),
        64,
    )
    .unwrap();

    assert_eq!(public.len(), 1);
    assert_eq!(reference.len(), 1);
    assert_eq!(
        public[0].subscriptions[0].stream_names().unwrap(),
        vec!["aaausdt@bookTicker".to_owned()]
    );
    assert_eq!(
        reference[0].subscriptions[0].stream_names().unwrap(),
        vec!["aaausdt@markPrice@1s".to_owned(), "aaausdt@aggTrade".to_owned()]
    );
}

#[test]
fn builds_explicit_subscription_request() {
    let config = config(
        "wss://demo-fstream.binance.com/public",
        vec![BinanceSubscription::new("ABCUSDT").unwrap()],
    );
    let request = config.subscription_request().unwrap();
    assert_eq!(request.method, "SUBSCRIBE");
    assert_eq!(request.params[0], "abcusdt@bookTicker");
    assert_eq!(request.id, "anchorbell-market-1");
    assert_eq!(
        config.subscription_endpoint().unwrap(),
        "wss://demo-fstream.binance.com/public/stream"
    );
}

#[test]
fn rejects_duplicate_symbols_before_combined_stream_creation() {
    let config = config(
        "wss://demo-fstream.binance.com/public",
        vec![
            BinanceSubscription::new("ABCUSDT").unwrap(),
            BinanceSubscription::new("abcusdt").unwrap(),
        ],
    );
    assert!(matches!(
        config.combined_stream_url(),
        Err(MarketStreamError::InvalidSubscriptionPlan(
            SubscriptionPlanError::DuplicateSymbol(symbol)
        )) if symbol == "abcusdt"
    ));
}

#[test]
fn creates_independently_supervised_shards_without_changing_transport_config() {
    let mut config = config(
        "wss://demo-fstream.binance.com/public",
        vec![
            BinanceSubscription::new("CCCUSDT").unwrap(),
            BinanceSubscription::new("AAAUSDT").unwrap(),
            BinanceSubscription::new("BBBUSDT").unwrap(),
        ],
    );
    config.http_proxy = Some("http://127.0.0.1:7890".into());

    let shards = config.into_shards(2).unwrap();
    assert_eq!(shards.len(), 2);
    assert_eq!(shards[0].subscriptions.len(), 2);
    assert_eq!(shards[1].subscriptions.len(), 1);
    assert_eq!(shards[0].http_proxy, config.http_proxy);
    assert_eq!(shards[0].connect_timeout_ms, config.connect_timeout_ms);
    assert_eq!(shards[0].subscriptions[0].symbol, "aaausdt");
}

#[test]
fn rejects_empty_subscription_set() {
    let config = config("wss://demo-fstream.binance.com", Vec::new());
    assert!(matches!(config.combined_stream_url(), Err(MarketStreamError::NoSubscriptions)));
    assert_eq!(config.subscription_endpoint(), Err(MarketStreamError::NoSubscriptions));
    assert_eq!(
        config.into_shards(4),
        Err(MarketStreamError::InvalidSubscriptionPlan(SubscriptionPlanError::EmptyUniverse))
    );
}

#[test]
fn shards_are_sorted_consecutive_runs() {
    let symbols = ["EEEUSDT", "BBBUSDT", "DDDUSDT", "AAAUSDT", "CCCUSDT"];
    let shards = BinanceMarketConfig::for_symbols(
        "wss://x//".to_string(),
        &symbols,
        BinanceMarketFeed::BookTicker,
        1,
        1,
        10,
        1,
        1,
        None,
        ReconnectPolicy { max_attempts: Some(3) },
        2,
    )
    .unwrap();
    let names: Vec<Vec<String>> = shards
        .iter()
        .map(|c| c.subscriptions.iter().map(|s| s.symbol.clone()).collect())
        .collect();
    assert_eq!(
        names,
        vec![
            vec!["aaausdt".to_string(), "bbbusdt".to_string()],
            vec!["cccusdt".to_string(), "dddusdt".to_string()],
            vec!["eeeusdt".to_string()],
        ]
    );
    assert!(shards.iter().all(|c| c.reconnect.max_attempts == Some(3) && c.market_ws_base == "wss://x//"));
    assert_eq!(shards[2].combined_stream_url().unwrap(), "wss://x/stream?streams=eeeusdt@bookTicker");
}

#[test]
fn invalid_symbols_and_plans_are_refused() {
    let base = || "wss://x".to_string();
    let for_symbols = |symbols: &[&str], max: usize| {
        BinanceMarketConfig::for_symbols(
            base(),
            symbols,
            BinanceMarketFeed::BookTicker,
            1,
            1,
            10,
            1,
            1,
            None,
            ReconnectPolicy::default(),
            max,
        )
    };
    assert_eq!(
        for_symbols(&["AAAUSDT", "", "B-B"], 4),
        Err(MarketStreamError::InvalidSubscription(SubscriptionError::EmptySymbol))
    );
    assert_eq!(
        for_symbols(&["AAAUSDT", "B-B"], 4),
        Err(MarketStreamError::InvalidSubscription(SubscriptionError::InvalidSymbol))
    );
    assert_eq!(
        for_symbols(&["AAAUSDT"], 0),
        Err(MarketStreamError::InvalidSubscriptionPlan(SubscriptionPlanError::ZeroShardSize))
    );
    assert_eq!(
        for_symbols(&["X1", "Y2", "x1", "y2"], 4),
        Err(MarketStreamError::InvalidSubscriptionPlan(SubscriptionPlanError::DuplicateSymbol("x1".into())))
    );
}

#[test]
fn subscriptions_name_their_streams() {
    let s = BinanceSubscription::new("BtcUsdt").unwrap();
    assert_eq!(s.symbol, "btcusdt");
    assert_eq!(s.stream_names().unwrap(), vec!["btcusdt@bookTicker", "btcusdt@markPrice@1s"]);
    let none = BinanceSubscription {
        symbol: "ethusdt".to_string(),
        book_ticker: false,
        mark_price: false,
        agg_trade: false,
    };
    assert_eq!(none.stream_names(), Err(SubscriptionError::NoStreams));
    let config = config("wss://x", vec![s, none]);
    assert_eq!(
        config.combined_stream_url(),
        Err(MarketStreamError::InvalidSubscription(SubscriptionError::NoStreams))
    );
}

#[test]
fn a_plan_with_room_for_everything_has_one_shard() {
    let subs = vec![BinanceSubscription::new("B").unwrap(), BinanceSubscription::new("A").unwrap()];
    let plan = SubscriptionPlan::new(subs, 10).unwrap();
    assert_eq!(plan.shards().len(), 1);
    assert_eq!(plan.shards()[0][0].symbol, "a");
}

#[test]
fn frames_are_classified_before_parsing() {
    let ack = br#"{"result":null,"id":"anchorbell-market-1"}"#;
    assert_eq!(classify_frame(ack, true, 1_024), FrameStep::Acknowledgement);
    assert_eq!(classify_frame(ack, false, 1_024), FrameStep::Event);
    assert_eq!(classify_frame(ack, true, 10), FrameStep::TooLarge);
    let event = br#"{"stream":"abcusdt@bookTicker","data":{"e":"bookTicker","u":1}}"#;
    assert_eq!(classify_frame(event, true, 1_024), FrameStep::Event);
    assert_eq!(classify_frame(b"", true, 0), FrameStep::Event);
}
