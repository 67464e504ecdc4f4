use anchorbell_engine::execution::intent::OrderIntent;
use anchorbell_engine::execution::supervisor::{
    parse_quantity_ticks, ExecutionSupervisor, GateDecision, GateReason, SupervisorConfig, SupervisorState,
};
use anchorbell_engine::execution::user_data::{AccountUpdate, OrderUpdate, PositionUpdate, UserDataEvent};

fn test_symbols() -> Vec<String> {
    ["CXMTUSDT", "UNITREEUSDT", "GIGADEVUSDT", "HK0625USDT", "MINIMAXUSDT", "ZHIPUUSDT", "ZHONGJIUSDT"]
        .into_iter()
        .map(str::to_owned)
        .collect()
}

fn supervisor() -> ExecutionSupervisor {
    ExecutionSupervisor::new(SupervisorConfig::default(), test_symbols()).unwrap()
}

fn ready(mut value: ExecutionSupervisor) -> ExecutionSupervisor {
    value.observe_symbol("CXMTUSDT", 1_000, 1_000, true, true, true, 1_000_000, 0).unwrap();
    value.reconciliation_clean().unwrap();
    value
}

#[test]
fn checkpoint_restore_is_risk_stopped_until_reconciliation() {
    let mut value = ready(supervisor());
    value.observe_symbol("CXMTUSDT", 1_000, 1_000, true, true, true, 1_000_000, -7).unwrap();
    let checkpoint = value.checkpoint("session-1".into(), "testnet".into(), "CXMTUSDT", 1_001).unwrap();

    let mut restored = supervisor();
    restored.restore_checkpoint(&checkpoint).unwrap();
    assert_eq!(restored.state(), SupervisorState::RiskStopped);
    assert_eq!(restored.tracked_order_count(), 0);
    assert!(restored.on_reconnect().is_ok());
    assert!(restored.reconciliation_clean().is_ok());
    assert_eq!(
        restored.evaluate("CXMTUSDT", OrderIntent::maker_buy(7, 100, 1), 1_001),
        GateDecision::Halt(GateReason::AnchorUnavailable)
    );
}

#[test]
fn configured_symbol_universe_is_normalized_and_explicit() {
    let symbols = test_symbols();
    assert_eq!(symbols.len(), 7);
    assert!(symbols.iter().any(|symbol| symbol == "CXMTUSDT"));
    assert!(symbols.iter().any(|symbol| symbol == "ZHONGJIUSDT"));
    assert!(!symbols.iter().any(|symbol| symbol == "BTCUSDT"));
    assert!(ExecutionSupervisor::new(SupervisorConfig::default(), vec![" cxmtusdt ".to_owned(), "UNITREEUSDT".to_owned()]).is_ok());
    assert!(ExecutionSupervisor::new(SupervisorConfig::default(), Vec::<String>::new()).is_err());
}

#[test]
fn healthy_gate_allows_only_fresh_maker_intent() {
    let value = ready(supervisor());
    let intent = OrderIntent::maker_buy(7, 100, 2);
    assert_eq!(value.evaluate("CXMTUSDT", intent, 1_001), GateDecision::Allow);
    assert_eq!(
        value.evaluate("CXMTUSDT", OrderIntent { post_only: false, ..intent }, 1_001),
        GateDecision::Halt(GateReason::NonMakerIntent)
    );
}

#[test]
fn stale_and_open_session_fail_closed() {
    let mut value = ready(supervisor());
    assert_eq!(
        value.evaluate("CXMTUSDT", OrderIntent::maker_buy(7, 100, 2), 7_000),
        GateDecision::Halt(GateReason::MarketStale)
    );
    value.observe_symbol("CXMTUSDT", 1_000, 1_000, true, false, true, 1_000_000, 0).unwrap();
    assert_eq!(
        value.evaluate("CXMTUSDT", OrderIntent::maker_buy(7, 100, 2), 1_001),
        GateDecision::NoAction(GateReason::EquitySessionOpen)
    );
}

#[test]
fn disconnect_and_listen_key_expiry_stop_risk() {
    let mut value = ready(supervisor());
    value.on_disconnect();
    assert_eq!(value.state(), SupervisorState::RiskStopped);
    assert!(value.on_reconnect().is_ok());
    assert!(value.on_user_data(UserDataEvent::ListenKeyExpired).is_err());
    assert_eq!(value.state(), SupervisorState::RiskStopped);
}

#[test]
fn funding_window_flattens_residual_position() {
    let mut value = ready(supervisor());
    value.observe_symbol("CXMTUSDT", 1_000, 1_000, true, true, true, 301_000, 10).unwrap();
    assert_eq!(
        value.evaluate("CXMTUSDT", OrderIntent::maker_buy(7, 100, 1), 1_000),
        GateDecision::Flatten(GateReason::FundingWindow)
    );
}

#[test]
fn parses_signed_decimal_position_at_configured_scale() {
    assert_eq!(parse_quantity_ticks("2.5", 1), Some(25));
    assert_eq!(parse_quantity_ticks("-0.125", 3), Some(-125));
    assert_eq!(parse_quantity_ticks("2.50", 1), None);
    assert_eq!(parse_quantity_ticks("999999999999999999999", 8), None);
}

#[test]
fn invalid_remote_position_halts_instead_of_rounding() {
    let mut value = ready(supervisor());
    let event = UserDataEvent::AccountUpdate(AccountUpdate {
        event_time_ms: 2_000,
        transaction_time_ms: 2_000,
        reason: "ORDER".into(),
        positions: vec![PositionUpdate {
            symbol: "CXMTUSDT".into(),
            position_amount: "2.000000001".into(),
            entry_price: "1".into(),
            unrealized_profit: "0".into(),
            position_side: "BOTH".into(),
        }],
        balances: Vec::new(),
    });
    assert_eq!(value.on_user_data(event), Err(GateReason::UnknownRemoteState));
    assert_eq!(value.state(), SupervisorState::Halted);
}

#[test]
fn million_fresh_events_stay_bounded_and_deterministic() {
    let mut value = supervisor();
    for i in 0..1_000_000_u64 {
        value.observe_symbol("CXMTUSDT", i + 1, i + 1, true, true, true, i + 1_000_000, 0).unwrap();
    }
    value.reconciliation_clean().unwrap();
    assert_eq!(value.state(), SupervisorState::Healthy);
    assert_eq!(value.tracked_order_count(), 0);
}

fn order_update(symbol: &str, order_type: &str, tif: &str, client: &str) -> UserDataEvent {
    UserDataEvent::OrderUpdate(Box::new(OrderUpdate {
        event_time_ms: 1_500,
        transaction_time_ms: 1_500,
        symbol: symbol.into(),
        client_order_id: client.into(),
        order_id: 7,
        side: "BUY".into(),
        order_type: order_type.into(),
        time_in_force: tif.into(),
        status: "NEW".into(),
        execution_type: "NEW".into(),
        executed_quantity: "0".into(),
        last_filled_quantity: "0".into(),
        average_price: "0".into(),
        reduce_only: false,
    }))
}

#[test]
fn maker_order_updates_are_tracked_and_others_halt() {
    let mut value = ready(supervisor());
    assert_eq!(value.on_user_data(order_update("CXMTUSDT", "LIMIT", "GTX", "a-1")), Ok(()));
    assert_eq!(value.on_user_data(order_update("CXMTUSDT", "LIMIT", "GTX", "a-1")), Ok(()));
    assert_eq!(value.tracked_order_count(), 1);
    assert_eq!(value.state(), SupervisorState::Healthy);
    assert_eq!(value.on_user_data(order_update("CXMTUSDT", "MARKET", "GTC", "a-2")), Err(GateReason::NonMakerIntent));
    assert_eq!(value.state(), SupervisorState::Halted);
    let mut other = ready(supervisor());
    assert_eq!(other.on_user_data(order_update("BTCUSDT", "LIMIT", "GTX", "a-3")), Err(GateReason::UnknownSymbol));
    assert_eq!(other.state(), SupervisorState::Halted);
}

#[test]
fn account_positions_apply_and_flatten_confirms() {
    let mut value = ready(supervisor());
    let event = UserDataEvent::AccountUpdate(AccountUpdate {
        event_time_ms: 2_000,
        transaction_time_ms: 2_000,
        reason: "ORDER".into(),
        positions: vec![PositionUpdate {
            symbol: "CXMTUSDT".into(),
            position_amount: "-0.5".into(),
            entry_price: "1".into(),
            unrealized_profit: "0".into(),
            position_side: "BOTH".into(),
        }],
        balances: Vec::new(),
    });
    assert_eq!(value.on_user_data(event), Ok(()));
    let checkpoint = value.checkpoint("s".into(), "testnet".into(), "cxmtusdt", 2_000).unwrap();
    assert_eq!(checkpoint.position_ticks, -50_000_000);
    assert_eq!(checkpoint.gross_position_ticks, 50_000_000);
    assert_eq!(checkpoint.symbol, "CXMTUSDT");
    assert!(checkpoint.validate().is_ok());
    assert!(value.begin_flatten().is_ok());
    assert_eq!(value.confirm_flattened(), Err(GateReason::ResidualExposure));
    assert_eq!(value.state(), SupervisorState::Halted);
    assert_eq!(value.begin_flatten(), Err(GateReason::NotHealthy));
}

#[test]
fn audit_records_every_gate() {
    let mut value = ready(supervisor());
    let (decision, audit) = value.evaluate_with_audit("CXMTUSDT", OrderIntent::maker_buy(7, 100, 2), 1_001);
    assert_eq!(decision, GateDecision::Allow);
    assert_eq!(audit.decision_id, 1);
    assert_eq!(audit.outcome, "admissible");
    assert_eq!(audit.final_gate, "allow");
    assert_eq!(audit.gates.len(), 9);
    assert_eq!(audit.gates[0].reason, "Healthy");
    assert!(audit.gates.iter().all(|gate| gate.passed));
    let (second, audit) = value.evaluate_with_audit("OTHER", OrderIntent::maker_buy(7, 100, 2), 1_001);
    assert_eq!(second, GateDecision::Halt(GateReason::UnknownSymbol));
    assert_eq!(audit.decision_id, 2);
    assert_eq!(audit.final_gate, "unknown_symbol");
    assert_eq!(audit.mark_age_ms, None);
    assert_eq!(GateReason::PositionLimit.label(), "position_limit");
}

#[test]
fn position_limit_and_unknown_symbol() {
    let value = ready(supervisor());
    assert_eq!(
        value.evaluate("CXMTUSDT", OrderIntent::maker_sell(7, 100, 101), 1_001),
        GateDecision::NoAction(GateReason::PositionLimit)
    );
    assert_eq!(
        value.evaluate("NOPE", OrderIntent::maker_sell(7, 100, 1), 1_001),
        GateDecision::Halt(GateReason::UnknownSymbol)
    );
    let duplicate = ExecutionSupervisor::new(SupervisorConfig::default(), vec!["abc".to_owned(), " ABC".to_owned()]);
    assert_eq!(duplicate.err(), Some(GateReason::InvalidIntent));
}
