use anchorbell_engine::execution::intent::{OrderIntent, Side};
use anchorbell_engine::execution::supervisor::{GateDecision, GateReason};
use anchorbell_engine::live_loop::{
    adopt_working_order, completion_check, flatten_confirmed, flatten_intent, gate_step, plan_order, recovery_step, tick_step, user_event_order, OrderRoute,
    RecoveryStep, RemoteResidual, SymbolStep, TickStop,
};
use anchorbell_engine::maker_runner::WorkingOrder;
use anchorbell_engine::market::binance::BookTicker;
use anchorbell_engine::market::live::{after_drop, stream_read_step, StreamAfterDrop, StreamRead, StreamStep, SupervisorAnswer};
use anchorbell_engine::market::metadata::BinanceScaledExecutionFilters;
use anchorbell_engine::model::{PriceTicks, Quantity};

fn filters() -> BinanceScaledExecutionFilters {
    BinanceScaledExecutionFilters {
        min_price_ticks: 10,
        max_price_ticks: 1_000_000,
        price_tick: 10,
        min_quantity_units: 2,
        max_quantity_units: 1_000,
        quantity_step: 2,
        min_notional_price_ticks: 500,
        multiplier_up_ppm: 1_050_000,
        multiplier_down_ppm: 950_000,
    }
}

fn intent(side: Side, price: i64, quantity: i64, post_only: bool, reduce_only: bool) -> OrderIntent {
    OrderIntent { symbol: 7, side, price, quantity, post_only, reduce_only }
}

fn book(bid: i64, ask: i64) -> BookTicker {
    BookTicker {
        symbol: "AAPLUSDT".to_string(),
        event_time_ms: 1,
        transaction_time_ms: 1,
        update_id: 1,
        bid_price: PriceTicks(bid),
        bid_quantity: Quantity(1),
        ask_price: PriceTicks(ask),
        ask_quantity: Quantity(1),
    }
}

#[test]
fn plan_order_normalizes_and_routes_a_maker_order() {
    let plan = plan_order("AAPLUSDT", intent(Side::Buy, 105, 9, true, false), filters(), 0, 1_000, 3, false, 100, 1_000)
        .unwrap();
    assert_eq!(plan.route, OrderRoute::Maker { reduce_only: false });
    assert_eq!(plan.side, Side::Buy);
    assert_eq!(plan.price_ticks, 100);
    assert_eq!(plan.quantity_ticks, 8);
    assert_eq!(plan.client_order_id, "anchorbell-1000-3");
}

#[test]
fn plan_order_routes_an_emergency_taker_only_when_reduce_only() {
    let taker = intent(Side::Sell, 100, 6, false, true);
    let plan = plan_order("AAPLUSDT", taker, filters(), 0, 5, 1, true, 100, 6).unwrap();
    assert_eq!(plan.route, OrderRoute::EmergencyReduceOnlyTaker);
    assert_eq!(
        plan_order("AAPLUSDT", taker, filters(), 0, 5, 1, false, 100, 6),
        Err("emergency taker intent must be reduce-only".to_string())
    );
}

#[test]
fn plan_order_refuses_an_unauthorized_taker() {
    assert_eq!(
        plan_order("AAPLUSDT", intent(Side::Buy, 100, 6, false, false), filters(), 0, 5, 1, false, 100, 100),
        Err("non-maker intent missing adaptive taker authorization".to_string())
    );
}

#[test]
fn plan_order_names_the_failing_gate() {
    assert_eq!(
        plan_order("AAPLUSDT", intent(Side::Buy, 5, 6, true, false), filters(), 0, 5, 1, false, 100, 100),
        Err("Binance exchange price gate rejected order for AAPLUSDT: exchange_price_below_min".to_string())
    );
    assert_eq!(
        plan_order("AAPLUSDT", intent(Side::Buy, 100, 1, true, false), filters(), 0, 5, 1, false, 100, 4),
        Err("Binance exchange quantity gate rejected order for AAPLUSDT: exchange_min_notional_exceeds_risk_capacity"
            .to_string())
    );
    assert_eq!(
        plan_order("AAPLUSDT", intent(Side::Buy, 120, 6, true, false), filters(), 0, 5, 1, false, 100, 100),
        Err("Binance exchange filter rejected order for AAPLUSDT: exchange_percent_price".to_string())
    );
}

#[test]
fn flatten_closes_at_the_touch() {
    let b = book(99, 101);
    let long = flatten_intent(7, 12, Some(&b)).unwrap();
    assert_eq!((long.side, long.price, long.quantity, long.post_only, long.reduce_only), (Side::Sell, 99, 12, true, true));
    let short = flatten_intent(7, -5, Some(&b)).unwrap();
    assert_eq!((short.side, short.price, short.quantity), (Side::Buy, 101, 5));
    assert_eq!(flatten_intent(7, 0, Some(&b)), None);
    assert_eq!(flatten_intent(7, 3, None), None);
    assert_eq!(flatten_intent(7, i64::MIN, Some(&b)).unwrap().quantity, i64::MAX);
}

#[test]
fn gate_step_places_an_allowed_intent_within_capacity() {
    let i = intent(Side::Buy, 100, 6, true, false);
    assert_eq!(
        gate_step(GateDecision::Allow, i, true, false, -30, None, 7, 100),
        SymbolStep::Place { intent: i, reduce_only: false, maximum_quantity: 70 }
    );
    assert_eq!(gate_step(GateDecision::Allow, i, true, true, 0, None, 7, 100), SymbolStep::Nothing);
    assert_eq!(gate_step(GateDecision::Allow, i, false, false, 0, None, 7, 100), SymbolStep::Nothing);
}

#[test]
fn gate_step_flattens_cancels_and_stops() {
    let i = intent(Side::Buy, 100, 6, true, false);
    let b = book(99, 101);
    assert_eq!(
        gate_step(GateDecision::Flatten(GateReason::FundingWindow), i, true, true, 4, Some(&b), 7, 100),
        SymbolStep::Flatten { cancel_all: true, order: flatten_intent(7, 4, Some(&b)), maximum_quantity: 4 }
    );
    assert_eq!(
        gate_step(GateDecision::Flatten(GateReason::FundingWindow), i, false, true, 4, Some(&b), 7, 100),
        SymbolStep::Flatten { cancel_all: false, order: None, maximum_quantity: 4 }
    );
    assert_eq!(gate_step(GateDecision::Halt(GateReason::MarketStale), i, true, true, 0, None, 7, 100), SymbolStep::CancelWorking);
    assert_eq!(gate_step(GateDecision::Halt(GateReason::FxStale), i, true, false, 0, None, 7, 100), SymbolStep::Nothing);
    assert_eq!(
        gate_step(GateDecision::Halt(GateReason::PositionLimit), i, true, true, 0, None, 7, 100),
        SymbolStep::Stop(GateReason::PositionLimit)
    );
    assert_eq!(
        gate_step(GateDecision::NoAction(GateReason::EquitySessionOpen), i, true, false, 0, None, 7, 100),
        SymbolStep::Nothing
    );
}

#[test]
fn tick_step_stops_on_overflow_and_withdraws_when_unready() {
    let stop = tick_step(true, true, true, true, true, 10, 0, 5);
    assert_eq!(stop.stop, Some(TickStop::MarketFeed));
    assert!(stop.disconnect_supervisor && !stop.cancel_working && !stop.persist_checkpoint);
    assert_eq!(tick_step(false, true, true, true, true, 10, 0, 5).stop, Some(TickStop::UserFeed));
    assert_eq!(TickStop::UserFeed.message(), "user data event queue overflowed; risk stopped");
    let unready = tick_step(false, false, false, true, true, 10, 8, 5);
    assert_eq!((unready.stop, unready.disconnect_supervisor, unready.cancel_working, unready.persist_checkpoint), (None, true, true, false));
    let ready = tick_step(false, false, true, true, false, 10, 5, 5);
    assert_eq!((ready.disconnect_supervisor, ready.cancel_working, ready.persist_checkpoint), (false, false, true));
    assert!(!tick_step(false, false, true, true, false, 3, 9, 5).persist_checkpoint);
}

#[test]
fn user_events_out_of_order_are_dropped() {
    assert_eq!(user_event_order(5, 10), None);
    assert_eq!(user_event_order(12, 10), Some(12));
    assert_eq!(user_event_order(10, 10), Some(10));
    assert_eq!(user_event_order(0, 10), Some(10));
}

#[test]
fn recovery_follows_the_supervisor_state() {
    assert_eq!(recovery_step(true, true, false, false), RecoveryStep::Recover);
    assert_eq!(recovery_step(false, true, false, false), RecoveryStep::Stay);
    assert_eq!(recovery_step(false, false, true, false), RecoveryStep::ConfirmInitial);
    assert_eq!(recovery_step(true, false, true, true), RecoveryStep::Stay);
}

#[test]
fn completion_requires_a_flat_account() {
    let flat = vec![RemoteResidual { symbol: "AAPLUSDT".to_string(), position_ticks: 0, working_orders: 0 }];
    assert_eq!(completion_check(&flat), Ok(()));
    let open = vec![
        RemoteResidual { symbol: "AAPLUSDT".to_string(), position_ticks: -3, working_orders: 0 },
        RemoteResidual { symbol: "MSFTUSDT".to_string(), position_ticks: 0, working_orders: 0 },
        RemoteResidual { symbol: "TSLAUSDT".to_string(), position_ticks: 0, working_orders: 2 },
    ];
    assert_eq!(
        completion_check(&open),
        Err("normal live completion blocked by residual remote state: AAPLUSDT:position_ticks=-3,working_orders=0,TSLAUSDT:position_ticks=0,working_orders=2".to_string())
    );
}

#[test]
fn stream_reads_and_drops() {
    assert_eq!(stream_read_step(StreamRead::TimedOut, b"", 10), StreamStep::Disconnected);
    assert_eq!(stream_read_step(StreamRead::Close, b"", 10), StreamStep::Disconnected);
    assert_eq!(stream_read_step(StreamRead::Text, b"{\"id\":1,\"result\":null}", 100), StreamStep::Skip);
    assert_eq!(stream_read_step(StreamRead::Binary, b"{\"id\":1,\"result\":null}", 100), StreamStep::Deliver);
    assert_eq!(stream_read_step(StreamRead::Text, b"0123456789x", 10), StreamStep::FailTooLarge);
    assert_eq!(stream_read_step(StreamRead::Ping, b"p", 10), StreamStep::Pong);
    assert_eq!(stream_read_step(StreamRead::Other, b"", 10), StreamStep::Skip);
    assert_eq!(after_drop(true, SupervisorAnswer::Reconnect { delay_ms: 250 }), StreamAfterDrop::ReconnectAfter { delay_ms: 250 });
    assert_eq!(after_drop(true, SupervisorAnswer::GiveUp), StreamAfterDrop::End);
    assert_eq!(after_drop(false, SupervisorAnswer::GiveUp), StreamAfterDrop::EndWithConnectError);
}

#[test]
fn adopting_remote_orders_allows_at_most_one() {
    let order = WorkingOrder { client_order_id: "anchorbell-1-1".to_string(), side: Side::Buy, price_ticks: 100, quantity_ticks: 2 };
    assert_eq!(adopt_working_order("AAPLUSDT", &vec![]), Ok(None));
    assert_eq!(adopt_working_order("AAPLUSDT", &vec![order.clone()]), Ok(Some(order.clone())));
    assert_eq!(
        adopt_working_order("AAPLUSDT", &vec![order.clone(), order]),
        Err("multiple managed open orders on AAPLUSDT".to_string())
    );
    assert!(flatten_confirmed(true, &vec![0, 0]));
    assert!(!flatten_confirmed(true, &vec![0, 3]));
    assert!(!flatten_confirmed(false, &vec![0, 0]));
}
