use anchorbell_engine::decimal::{format_ticks, parse_position_ticks, PositionParseError};
use anchorbell_engine::execution::environment::BinanceEnvironment;
use anchorbell_engine::execution::intent::Side;
use anchorbell_engine::execution::rest::{BinanceOpenOrder, BinancePositionRisk};
use anchorbell_engine::execution::session_checkpoint::SessionCheckpoint;
use anchorbell_engine::maker_runner::{
    checkpoint_matches, client_order_id, ewma, is_terminal_status, mark_change_bps, market_is_valid,
    max_order_quantity, session_id, stable_symbol_id, MakerIntent, NewOrder, PositionRiskError,
    QuoteGate, RebalanceAction, ReconcileRefusal, RunnerConfig, RunnerConfigError, RunnerState,
    WorkingOrder,
};
use anchorbell_engine::market::binance::{AggTrade, BinanceMarketEvent, BookTicker, MarkPrice};
use anchorbell_engine::model::{PriceTicks, Quantity};

fn config(send_orders: bool) -> RunnerConfig {
    RunnerConfig {
        symbol: "BTCUSDT".to_string(),
        anchor_ticks: 100_000,
        price_scale: 2,
        quantity_scale: 3,
        requested_quantity: 5,
        max_position: 10,
        entry_threshold_bps: 4,
        max_mark_index_gap_bps: 50,
        duration_secs: 60,
        poll_ms: 1_000,
        min_replace_ms: 500,
        recv_window_ms: 5_000,
        environment: BinanceEnvironment::Testnet,
        send_orders,
    }
}

fn book(bid: i64, ask: i64, at: u64) -> BookTicker {
    BookTicker {
        symbol: "BTCUSDT".to_string(),
        event_time_ms: at,
        transaction_time_ms: at,
        update_id: 1,
        bid_price: PriceTicks(bid),
        bid_quantity: Quantity(3),
        ask_price: PriceTicks(ask),
        ask_quantity: Quantity(4),
    }
}

fn mark(price: i64, index: i64, at: u64) -> MarkPrice {
    MarkPrice {
        symbol: "BTCUSDT".to_string(),
        event_time_ms: at,
        mark_price: PriceTicks(price),
        index_price: PriceTicks(index),
        next_funding_time_ms: 0,
        latest_funding_rate_e8: None,
    }
}

fn quotable_state() -> RunnerState {
    let mut state = RunnerState::new();
    state.apply_market_event(BinanceMarketEvent::BookTicker(book(10_000, 10_002, 7)));
    state.apply_market_event(BinanceMarketEvent::MarkPrice(mark(10_001, 10_000, 9)));
    state
}

fn intent(side: Side, price: i64, quantity: i64) -> Option<MakerIntent> {
    Some(MakerIntent { side, price, quantity, post_only: true })
}

fn risk(symbol: &str, amount: &str) -> BinancePositionRisk {
    BinancePositionRisk {
        symbol: symbol.to_string(),
        position_amount: amount.to_string(),
        entry_price: "0".to_string(),
        mark_price: "0".to_string(),
        unrealized_profit: "0".to_string(),
        position_side: "BOTH".to_string(),
        update_time_ms: 0,
    }
}

fn open_order(id: &str) -> BinanceOpenOrder {
    BinanceOpenOrder {
        symbol: "BTCUSDT".to_string(),
        client_order_id: id.to_string(),
        status: "NEW".to_string(),
        executed_quantity: "0".to_string(),
        original_quantity: "1".to_string(),
        price: "100".to_string(),
        average_price: "0".to_string(),
        side: "BUY".to_string(),
        time_in_force: "GTX".to_string(),
        order_type: "LIMIT".to_string(),
        reduce_only: false,
        update_time_ms: 0,
        order_id: 1,
    }
}

#[test]
fn formats_ticks_at_their_scale() {
    assert_eq!(format_ticks(12_345, 2), "123.45");
    assert_eq!(format_ticks(-5, 2), "-0.05");
    assert_eq!(format_ticks(7, 0), "7");
    assert_eq!(format_ticks(-7, 0), "-7");
    assert_eq!(format_ticks(i64::MIN, 0), "-9223372036854775808");
    assert_eq!(format_ticks(1_000, 3), "1.000");
    assert_eq!(format_ticks(123, 20), "0.00000000000000000123");
}

#[test]
fn parses_position_amounts_leniently() {
    assert_eq!(parse_position_ticks("1.500", 2), Ok(150));
    assert_eq!(parse_position_ticks("-0.001", 3), Ok(-1));
    assert_eq!(parse_position_ticks("1.2300", 2), Ok(123));
    assert_eq!(parse_position_ticks("42", 0), Ok(42));
    assert_eq!(parse_position_ticks("-9223372036854775808", 0), Ok(i64::MIN));
    assert_eq!(parse_position_ticks("1.2345", 2), Err(PositionParseError::ExcessPrecision));
    assert_eq!(parse_position_ticks("abc", 2), Err(PositionParseError::Invalid));
    assert_eq!(parse_position_ticks(".5", 2), Err(PositionParseError::Invalid));
    assert_eq!(parse_position_ticks("1.2.3", 2), Err(PositionParseError::Invalid));
    assert_eq!(parse_position_ticks("1.5", 39), Err(PositionParseError::ScaleTooLarge));
    assert_eq!(parse_position_ticks("99999999999999999999", 0), Err(PositionParseError::TooLarge));
    assert_eq!(parse_position_ticks("9223372036854775808", 0), Err(PositionParseError::TooLarge));
}

#[test]
fn return_estimate_and_mark_moves() {
    assert_eq!(ewma(0, 50), 50);
    assert_eq!(ewma(0, -5), 0);
    assert_eq!(ewma(100, 0), 70);
    assert_eq!(ewma(100, 200), 130);
    assert_eq!(mark_change_bps(100, 101), 100);
    assert_eq!(mark_change_bps(10_000, 9_999), 1);
    assert_eq!(mark_change_bps(1, i64::MAX), i64::MAX);
}

#[test]
fn order_room_respects_the_position_limit() {
    assert_eq!(max_order_quantity(3, Side::Buy, 10), 7);
    assert_eq!(max_order_quantity(3, Side::Sell, 10), 13);
    assert_eq!(max_order_quantity(12, Side::Buy, 10), 0);
    assert_eq!(max_order_quantity(i64::MIN, Side::Sell, i64::MAX), 0);
    assert_eq!(max_order_quantity(i64::MIN, Side::Buy, i64::MAX), i64::MAX);
}

#[test]
fn terminal_statuses_and_symbol_ids() {
    for status in ["FILLED", "CANCELED", "EXPIRED", "REJECTED", "EXPIRED_IN_MATCH"] {
        assert!(is_terminal_status(status));
    }
    assert!(!is_terminal_status("NEW"));
    assert!(!is_terminal_status("PARTIALLY_FILLED"));
    assert_eq!(stable_symbol_id(""), 2_166_136_261);
    assert_eq!(stable_symbol_id("a"), 3_826_002_220);
    assert_eq!(stable_symbol_id("BTCUSDT"), 3_895_251_564);
}

#[test]
fn runner_configuration_is_checked() {
    assert_eq!(config(false).validate(), Ok(()));
    let mut bad = config(false);
    bad.symbol = "BTC-USDT".to_string();
    assert_eq!(bad.validate(), Err(RunnerConfigError::InvalidSymbol));
    assert_eq!(RunnerConfigError::InvalidSymbol.message(), "symbol must be ASCII alphanumeric");
    let mut bad = config(false);
    bad.anchor_ticks = 0;
    assert_eq!(bad.validate(), Err(RunnerConfigError::InvalidConfiguration));
    let mut bad = config(false);
    bad.price_scale = 19;
    assert_eq!(bad.validate(), Err(RunnerConfigError::InvalidConfiguration));
    let mut bad = config(false);
    bad.poll_ms = 0;
    assert_eq!(bad.validate(), Err(RunnerConfigError::InvalidConfiguration));
}

#[test]
fn market_validity_checks_book_and_mark_gap() {
    assert!(market_is_valid(&book(10_000, 10_002, 1), &mark(10_005, 10_000, 1), 5));
    assert!(!market_is_valid(&book(10_000, 10_002, 1), &mark(10_006, 10_000, 1), 5));
    assert!(!market_is_valid(&book(10_002, 10_000, 1), &mark(10_000, 10_000, 1), 5));
    assert!(!market_is_valid(&book(0, 10_000, 1), &mark(10_000, 10_000, 1), 5));
    assert!(!market_is_valid(&book(10_000, 10_002, 1), &mark(10_000, 0, 1), 5));
}

#[test]
fn market_events_update_book_mark_and_return_estimate() {
    let mut state = RunnerState::new();
    state.apply_market_event(BinanceMarketEvent::MarkPrice(mark(10_000, 10_000, 1)));
    assert_eq!(state.ewma_abs_return_bps, 0);
    assert_eq!(state.last_mark_price_ticks, Some(10_000));
    state.apply_market_event(BinanceMarketEvent::MarkPrice(mark(10_010, 10_000, 2)));
    assert_eq!(state.ewma_abs_return_bps, 10);
    state.apply_market_event(BinanceMarketEvent::MarkPrice(mark(10_010, 10_000, 3)));
    assert_eq!(state.ewma_abs_return_bps, 7);
    let before = state.clone();
    state.apply_market_event(BinanceMarketEvent::AggTrade(AggTrade {
        symbol: "BTCUSDT".to_string(),
        event_time_ms: 4,
        aggregate_trade_id: 1,
        price: PriceTicks(1),
        quantity: Quantity(1),
        trade_time_ms: 4,
        buyer_is_maker: false,
    }));
    assert_eq!(state, before);
    state.apply_market_event(BinanceMarketEvent::BookTicker(book(9_999, 10_001, 5)));
    assert_eq!(state.book, Some(book(9_999, 10_001, 5)));
    assert_eq!(state.quote_gate(&config(true)), QuoteGate::Ready { market_at_ms: 5 });
}

#[test]
fn dry_run_announces_each_quote_once() {
    let c = config(false);
    let mut state = quotable_state();
    let first = state.rebalance(&c, intent(Side::Buy, 10_000, 5), 1_000);
    assert_eq!(
        first,
        RebalanceAction::Announce { side: Side::Buy, price_ticks: 10_000, quantity_ticks: 5, post_only: true }
    );
    assert_eq!(state.last_proposal, Some((Side::Buy, 10_000, 5)));
    assert_eq!(state.rebalance(&c, intent(Side::Buy, 10_000, 5), 2_000), RebalanceAction::Hold);
    assert_eq!(state.rebalance(&c, None, 3_000), RebalanceAction::Hold);
    assert_eq!(state.last_proposal, None);
}

#[test]
fn live_rebalancing_places_replaces_and_waits() {
    let c = config(true);
    let mut state = quotable_state();
    state.position_ticks = 8;
    let placed = state.rebalance(&c, intent(Side::Buy, 10_000, 5), 1_000);
    let order = NewOrder {
        client_order_id: "anchorbell-1000-0".to_string(),
        side: Side::Buy,
        price_ticks: 10_000,
        quantity_ticks: 2,
    };
    assert_eq!(placed, RebalanceAction::Replace { cancel_first: false, order: order.clone() });
    assert_eq!(state.next_order_id, 1);
    state.on_placed(order, "NEW", 1_001);
    assert_eq!(
        state.working,
        Some(WorkingOrder {
            client_order_id: "anchorbell-1000-0".to_string(),
            side: Side::Buy,
            price_ticks: 10_000,
            quantity_ticks: 2,
        })
    );
    assert_eq!(state.rebalance(&c, intent(Side::Buy, 10_000, 5), 5_000), RebalanceAction::Hold);
    assert_eq!(state.rebalance(&c, intent(Side::Buy, 10_001, 5), 1_200), RebalanceAction::Hold);
    match state.rebalance(&c, intent(Side::Buy, 10_001, 5), 1_501) {
        RebalanceAction::Replace { cancel_first, order } => {
            assert!(cancel_first);
            assert_eq!(order.client_order_id, "anchorbell-1501-1");
            assert_eq!(order.price_ticks, 10_001);
        }
        other => panic!("expected a replacement, got {other:?}"),
    }
    state.on_withdrawn(1_502);
    assert_eq!(state.working, None);
    assert_eq!(state.last_action_ms, 1_502);
    state.halted = true;
    assert_eq!(state.rebalance(&c, intent(Side::Sell, 10_003, 5), 9_000), RebalanceAction::Hold);
}

#[test]
fn invalid_market_or_no_room_withdraws_resting_order() {
    let c = config(true);
    let mut state = quotable_state();
    state.working = Some(WorkingOrder {
        client_order_id: "anchorbell-1-0".to_string(),
        side: Side::Buy,
        price_ticks: 10_000,
        quantity_ticks: 1,
    });
    state.position_ticks = 10;
    assert_eq!(state.rebalance(&c, intent(Side::Buy, 10_000, 5), 1_000), RebalanceAction::Withdraw);
    state.apply_market_event(BinanceMarketEvent::MarkPrice(mark(11_000, 10_000, 10)));
    assert_eq!(state.quote_gate(&c), QuoteGate::Invalid);
    assert_eq!(state.rebalance(&c, intent(Side::Sell, 10_000, 5), 1_000), RebalanceAction::Withdraw);
    assert_eq!(RunnerState::new().rebalance(&c, intent(Side::Sell, 1, 1), 0), RebalanceAction::Hold);
}

#[test]
fn order_status_updates_the_resting_order() {
    let mut state = RunnerState::new();
    state.on_order_status("x".to_string(), "FILLED");
    assert_eq!(state.working, None);
    state.working = Some(WorkingOrder {
        client_order_id: "anchorbell-1-0".to_string(),
        side: Side::Sell,
        price_ticks: 5,
        quantity_ticks: 2,
    });
    state.on_order_status("anchorbell-1-0b".to_string(), "PARTIALLY_FILLED");
    assert_eq!(state.working.as_ref().map(|w| w.client_order_id.as_str()), Some("anchorbell-1-0b"));
    assert_eq!(state.working.as_ref().map(|w| w.quantity_ticks), Some(2));
    state.on_order_status("anchorbell-1-0b".to_string(), "CANCELED");
    assert_eq!(state.working, None);
    let order = NewOrder { client_order_id: "id".to_string(), side: Side::Buy, price_ticks: 1, quantity_ticks: 1 };
    state.on_placed(order, "FILLED", 77);
    assert_eq!(state.working, None);
    assert_eq!(state.last_action_ms, 77);
}

#[test]
fn position_reports_are_checked() {
    let c = config(true);
    let mut state = RunnerState::new();
    assert_eq!(state.apply_position_report(&c, &[risk("ETHUSDT", "1")]), Err(PositionRiskError::MissingSymbol));
    assert_eq!(
        state.apply_position_report(&c, &[risk("BTCUSDT", "x")]),
        Err(PositionRiskError::Parse(PositionParseError::Invalid))
    );
    assert_eq!(
        state.apply_position_report(&c, &[risk("BTCUSDT", "0.001"), risk("ETHUSDT", "1"), risk("BTCUSDT", "0")]),
        Err(PositionRiskError::MultipleLegs)
    );
    assert_eq!(state.position_ticks, 0);
    assert_eq!(state.apply_position_report(&c, &[risk("ETHUSDT", "1"), risk("BTCUSDT", "-0.004")]), Ok(()));
    assert_eq!(state.position_ticks, -4);
    assert_eq!(
        state.apply_position_report(&c, &[risk("BTCUSDT", "-0.011")]),
        Err(PositionRiskError::ExceedsMax { position: 11, max_position: 10 })
    );
    assert_eq!(state.position_ticks, -11);
}

#[test]
fn reconciliation_cancels_own_orphans_and_refuses_foreign_orders() {
    let mut state = RunnerState::new();
    state.working = Some(WorkingOrder {
        client_order_id: "anchorbell-5-0".to_string(),
        side: Side::Buy,
        price_ticks: 1,
        quantity_ticks: 1,
    });
    let live = config(true);
    let plan = state.reconcile_open_orders(
        &live,
        &[open_order("anchorbell-5-0"), open_order("anchorbell-3-9"), open_order("manual-1"), open_order("anchorbell-4-1")],
    );
    assert_eq!(plan.cancels, vec!["anchorbell-3-9".to_string()]);
    assert_eq!(plan.refusal, Some(ReconcileRefusal::Untracked("manual-1".to_string())));
    let plan = state.reconcile_open_orders(&config(false), &[open_order("anchorbell-3-9")]);
    assert!(plan.cancels.is_empty());
    assert_eq!(plan.refusal, Some(ReconcileRefusal::ReadOnlyOrphan("anchorbell-3-9".to_string())));
    let id = client_order_id(123, 4);
    let plan = RunnerState::new().reconcile_open_orders(&live, &[open_order(&id)]);
    assert_eq!(plan.cancels, vec![id]);
    assert_eq!(plan.refusal, None);
}

#[test]
fn session_ends_with_checkpoint_and_exit_status() {
    let c = config(true);
    assert_eq!(session_id("BTCUSDT", 1_700), "BTCUSDT-1700");
    let mut state = RunnerState::new();
    assert_eq!(state.exit_code(), 0);
    let flat = state.final_checkpoint(&c, "s-1".to_string());
    assert!(!flat.risk_stopped);
    assert_eq!(flat.environment, "testnet");
    assert_eq!(flat.portfolio_positions.get("BTCUSDT"), Some(&0));
    assert!(flat.validate().is_ok());
    state.position_ticks = -3;
    state.working = Some(WorkingOrder {
        client_order_id: "anchorbell-9-2".to_string(),
        side: Side::Sell,
        price_ticks: 1,
        quantity_ticks: 1,
    });
    let checkpoint = state.final_checkpoint(&c, "s-2".to_string());
    assert_eq!(checkpoint.position_ticks, -3);
    assert_eq!(checkpoint.gross_position_ticks, 3);
    assert_eq!(checkpoint.working_order_ids, vec!["anchorbell-9-2".to_string()]);
    assert!(checkpoint.risk_stopped);
    assert!(checkpoint.validate().is_ok());
    assert_eq!(state.exit_code(), 3);
    assert!(checkpoint_matches(&c, &checkpoint));
    let mut other = SessionCheckpoint::new("s".to_string(), "production".to_string(), "BTCUSDT".to_string());
    assert!(!checkpoint_matches(&c, &other));
    other.environment = "testnet".to_string();
    other.symbol = "ETHUSDT".to_string();
    assert!(!checkpoint_matches(&c, &other));
}
