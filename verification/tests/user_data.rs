use anchorbell_engine::execution::environment::BinanceEnvironment;
use anchorbell_engine::execution::user_data::{
    ends_stream, user_data_event, AccountFields, BalanceUpdate, BinanceUserDataStream, OrderFields, PositionUpdate,
    Section, UserDataError, UserDataEvent, UserDataFrame,
};

fn order_fields(client: &str) -> OrderFields {
    OrderFields {
        symbol: "CXMTUSDT".into(),
        client_order_id: client.into(),
        order_id: 7,
        side: "BUY".into(),
        order_type: "LIMIT".into(),
        time_in_force: "GTX".into(),
        status: "NEW".into(),
        execution_type: "NEW".into(),
        executed_quantity: "0".into(),
        last_filled_quantity: "0".into(),
        average_price: "0".into(),
        reduce_only: false,
    }
}

fn frame(event_type: &str) -> UserDataFrame {
    UserDataFrame {
        event_type: Some(event_type.into()),
        event_time_ms: Some(100),
        transaction_time_ms: Some(101),
        order: Section::Missing,
        account: Section::Missing,
        payload: String::new(),
    }
}

fn order_frame(client: &str) -> UserDataFrame {
    UserDataFrame { order: Section::Decoded(order_fields(client)), ..frame("ORDER_TRADE_UPDATE") }
}

#[test]
fn parses_identity_complete_order_update() {
    let event = user_data_event(order_frame("anchorbell-1")).unwrap();
    assert!(
        matches!(event, UserDataEvent::OrderUpdate(value) if value.symbol == "CXMTUSDT" && value.time_in_force == "GTX")
    );
}

#[test]
fn rejects_order_update_without_client_identity() {
    assert!(matches!(user_data_event(order_frame("")), Err(UserDataError::Missing("order identity"))));
}

#[test]
fn parses_account_position_update() {
    let account = AccountFields {
        transaction_time_ms: 101,
        reason: "ORDER".into(),
        positions: vec![PositionUpdate {
            symbol: "CXMTUSDT".into(),
            position_amount: "2".into(),
            entry_price: "8".into(),
            unrealized_profit: "1".into(),
            position_side: "BOTH".into(),
        }],
        balances: vec![BalanceUpdate {
            asset: "USDT".into(),
            wallet_balance: "100".into(),
            cross_wallet_balance: "100".into(),
            balance_change: "0".into(),
        }],
    };
    let event = user_data_event(UserDataFrame { account: Section::Decoded(account), ..frame("ACCOUNT_UPDATE") }).unwrap();
    assert!(
        matches!(event, UserDataEvent::AccountUpdate(value) if value.positions.len() == 1 && value.positions[0].position_amount == "2" && value.balances.len() == 1 && value.event_time_ms == 100)
    );
}

#[test]
fn new_events_are_preserved_without_tearing_down_the_stream() {
    let payload = r#"{"e":"ACCOUNT_CONFIG_UPDATE","E":100,"T":101,"ac":{"s":"BOTH"}}"#;
    let event = user_data_event(UserDataFrame { payload: payload.into(), ..frame("ACCOUNT_CONFIG_UPDATE") }).unwrap();
    assert!(ends_stream(&UserDataEvent::ListenKeyExpired));
    assert!(!ends_stream(&event));
    assert!(matches!(
        event,
        UserDataEvent::Unmodeled { event_type, payload: raw, .. } if event_type == "ACCOUNT_CONFIG_UPDATE" && raw == payload
    ));
}

#[test]
fn frames_missing_their_keys_are_refused() {
    let mut f = frame("ORDER_TRADE_UPDATE");
    f.event_type = None;
    assert_eq!(user_data_event(f), Err(UserDataError::Missing("e")));
    let mut f = frame("ORDER_TRADE_UPDATE");
    f.event_time_ms = None;
    assert_eq!(user_data_event(f), Err(UserDataError::Missing("E")));
    assert_eq!(user_data_event(frame("ORDER_TRADE_UPDATE")), Err(UserDataError::Missing("o")));
    assert_eq!(user_data_event(frame("ACCOUNT_UPDATE")), Err(UserDataError::Missing("a")));
    let invalid = UserDataFrame { order: Section::Invalid, ..frame("ORDER_TRADE_UPDATE") };
    assert_eq!(user_data_event(invalid), Err(UserDataError::Decode));
    let mut no_time = order_frame("anchorbell-1");
    no_time.transaction_time_ms = None;
    assert_eq!(user_data_event(no_time), Err(UserDataError::Missing("T")));
    assert_eq!(user_data_event(frame("listenKeyExpired")), Ok(UserDataEvent::ListenKeyExpired));
}

#[test]
fn user_data_streams_need_a_listen_key() {
    assert!(matches!(
        BinanceUserDataStream::new(BinanceEnvironment::Testnet, String::new(), None),
        Err(UserDataError::Missing("listenKey"))
    ));
    let stream = BinanceUserDataStream::new(BinanceEnvironment::Production, "abc".into(), None).unwrap();
    assert_eq!(stream.max_frame_bytes(), 1_048_576);
    assert_eq!(stream.stream_url(), "wss://fstream.binance.com/private/ws/abc");
}
