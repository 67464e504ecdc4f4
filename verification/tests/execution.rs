use anchorbell_engine::execution::adaptive_taker::{
    decide, AdaptiveTakerDecision, AdaptiveTakerInput, EmergencyExecutionPolicy, TakerBlockReason, TakerDecision,
    TakerTrigger,
};
use anchorbell_engine::execution::environment::BinanceEnvironment;
use anchorbell_engine::execution::intent::{OrderIntent, OrderIntentError, Side};
use anchorbell_engine::execution::session_checkpoint::{CheckpointError, SessionCheckpoint};
use anchorbell_engine::execution::{Authority, OrderEvent, OrderRecord, OrderState};
use anchorbell_engine::model::{
    CandidateOrder, ModelError, OrderRoute, PositionSide, PriceTicks, Quantity, TimeInForce, ValidatedOrder,
    WorkingType,
};

fn record() -> OrderRecord {
    let validated = ValidatedOrder {
        queue_ahead_quantity: 5,
        order: CandidateOrder {
            symbol: "BTCUSDT".into(),
            side: Side::Buy,
            price: PriceTicks(99),
            quantity: Quantity(3),
            reduce_only: false,
            position_side: PositionSide::Both,
            time_in_force: TimeInForce::Gtx,
            working_type: WorkingType::ContractPrice,
            price_protect: false,
            trigger_price: None,
            close_position: false,
        },
        route: OrderRoute::PassiveMaker,
        contract_digest: "rules".into(),
        validated_at_ms: 1,
    };
    OrderRecord::from_validated("order-1".into(), &validated)
}

fn event(id: &str, state: OrderState, authority: Authority, at: u64, cumulative: i64, traded: Option<i64>, latency: Option<u64>) -> OrderEvent {
    OrderEvent {
        event_id: id.into(),
        order_id: "order-1".into(),
        symbol: "BTCUSDT".into(),
        state,
        authority,
        event_at_ms: at,
        cumulative_quantity: cumulative,
        traded_through_quantity: traded,
        observed_latency_ms: latency,
    }
}

#[test]
fn local_authority_cannot_create_a_fill() {
    let mut order = record();
    assert_eq!(
        order.apply(event("local-fill", OrderState::Filled, Authority::Local, 2, 3, None, None)),
        Err(ModelError::IncompleteEvidence)
    );
}

#[test]
fn exchange_fill_cannot_exceed_causal_queue_throughput() {
    let mut order = record();
    assert!(order.apply(event("partial", OrderState::PartiallyFilled, Authority::Exchange, 2, 1, Some(6), Some(50))).is_ok());
    assert_eq!(
        order.apply(event("overfill", OrderState::Filled, Authority::Exchange, 3, 3, Some(6), Some(50))),
        Err(ModelError::IncompleteEvidence)
    );
}

#[test]
fn duplicate_event_id_is_rejected_even_after_progress() {
    let mut order = record();
    let accepted = event("accepted", OrderState::Accepted, Authority::Exchange, 2, 0, None, None);
    order.apply(accepted.clone()).unwrap();
    let mut progressed = accepted;
    progressed.event_at_ms = 3;
    progressed.state = OrderState::Canceled;
    assert_eq!(order.apply(progressed), Err(ModelError::IncompleteEvidence));
}

#[test]
fn terminal_states_cannot_cross_after_cancellation_or_rejection() {
    let mut canceled = record();
    canceled.apply(event("accepted", OrderState::Accepted, Authority::Exchange, 2, 0, None, None)).unwrap();
    canceled.apply(event("cancel-pending", OrderState::CancelPending, Authority::Local, 3, 0, None, None)).unwrap();
    canceled.apply(event("canceled", OrderState::Canceled, Authority::Exchange, 4, 0, None, None)).unwrap();
    assert_eq!(
        canceled.apply(event("late-fill", OrderState::Filled, Authority::Exchange, 5, 3, Some(8), Some(50))),
        Err(ModelError::IncompleteEvidence)
    );
}

#[test]
fn cancel_race_allows_authoritative_fill_before_cancel_confirmation() {
    let mut order = record();
    order.apply(event("accepted", OrderState::Accepted, Authority::Exchange, 2, 0, None, None)).unwrap();
    order.apply(event("cancel-pending", OrderState::CancelPending, Authority::Local, 3, 0, None, None)).unwrap();
    order.apply(event("partial-race", OrderState::PartiallyFilled, Authority::Exchange, 4, 1, Some(6), Some(50))).unwrap();
    assert_eq!(order.state, OrderState::PartiallyFilled);
    assert_eq!(order.filled_quantity, 1);
}

#[test]
fn unknown_state_can_be_recovered_by_authoritative_update() {
    let mut order = record();
    order.apply(event("unknown", OrderState::Unknown, Authority::Local, 2, 0, None, None)).unwrap();
    order.apply(event("accepted", OrderState::Accepted, Authority::Exchange, 3, 0, None, None)).unwrap();
    assert_eq!(order.state, OrderState::Accepted);
    assert_eq!(order.last_event_at_ms, 3);
}

fn policy() -> EmergencyExecutionPolicy {
    EmergencyExecutionPolicy::default()
}

fn taker_input() -> AdaptiveTakerInput {
    AdaptiveTakerInput {
        now_ms: 9_000,
        deadline_ms: Some(11_000),
        position: 100,
        maker_remaining_quantity: 100,
        maker_estimated_time_ms: 250,
        maker_confidence_bps: 9_000,
        bid_price_ticks: 990,
        ask_price_ticks: 1_000,
        bid_quantity: 1_000,
        ask_quantity: 1_000,
        market_age_ms: 10,
        book_age_ms: 10,
        remote_state_known: true,
        anchor_valid: true,
        mark_index_gap_bps: Some(1),
        max_mark_index_gap_bps: 50,
        volatility_bps: 0,
        last_taker_at_ms: None,
    }
}

#[test]
fn keeps_maker_when_it_is_feasible_and_cheaper() {
    assert_eq!(decide(policy(), taker_input()), AdaptiveTakerDecision::Hold(TakerBlockReason::KeepMakerWorking));
}

#[test]
fn escalates_when_maker_cannot_meet_deadline() {
    let mut value = taker_input();
    value.maker_estimated_time_ms = 2_000;
    assert!(matches!(
        decide(policy(), value),
        AdaptiveTakerDecision::Submit(TakerDecision {
            trigger: TakerTrigger::MakerCannotMeetDeadline,
            side: Side::Sell,
            quantity: 100,
            ..
        })
    ));
}

#[test]
fn hard_safety_gates_fail_closed_and_cooldown_is_adaptive_state() {
    let mut value = taker_input();
    value.remote_state_known = false;
    assert_eq!(decide(policy(), value), AdaptiveTakerDecision::Hold(TakerBlockReason::UnknownRemoteState));
    value.remote_state_known = true;
    value.last_taker_at_ms = Some(8_500);
    assert_eq!(decide(policy(), value), AdaptiveTakerDecision::Hold(TakerBlockReason::Cooldown));
}

#[test]
fn testnet_is_explicitly_separate_from_production() {
    let testnet = BinanceEnvironment::Testnet.endpoints();
    let production = BinanceEnvironment::Production.endpoints();
    assert_eq!(testnet.rest_base, "https://demo-fapi.binance.com");
    assert_eq!(testnet.market_ws_base, "wss://demo-fstream.binance.com/market");
    assert_eq!(testnet.public_market_ws_base, "wss://demo-fstream.binance.com/public");
    assert_eq!(testnet.order_ws_base, "wss://testnet.binancefuture.com/ws-fapi/v1");
    assert_ne!(testnet.rest_base, production.rest_base);
    assert_ne!(testnet.market_ws_base, production.market_ws_base);
}

#[test]
fn valid_intents_share_one_domain_validator() {
    assert!(OrderIntent::maker_buy(1, 100, 2).validate().is_ok());
    assert!(OrderIntent::emergency_reduce_only_taker(1, Side::Sell, 99, 2).validate().is_ok());
}

#[test]
fn invalid_intents_fail_closed() {
    assert_eq!(
        (OrderIntent { symbol: 1, side: Side::Buy, price: 100, quantity: 2, post_only: false, reduce_only: false }).validate(),
        Err(OrderIntentError::UnscopedAggressor)
    );
    assert_eq!(
        (OrderIntent { symbol: 0, side: Side::Buy, price: 100, quantity: 2, post_only: true, reduce_only: false }).validate(),
        Err(OrderIntentError::InvalidShape)
    );
}

#[test]
fn portfolio_checkpoint_keeps_offsetting_positions_visible() {
    let mut checkpoint = SessionCheckpoint::new("session-1".into(), "simulation".into(), "PORTFOLIO".into());
    checkpoint.portfolio_positions.insert("M1::BTCUSDT".into(), 12);
    checkpoint.portfolio_positions.insert("M2::BTCUSDT".into(), -12);
    checkpoint.position_ticks = 0;
    checkpoint.gross_position_ticks = 24;
    assert!(checkpoint.validate().is_ok());
}

#[test]
fn invalid_schema_is_rejected_before_restore() {
    let mut checkpoint = SessionCheckpoint::new("session-1".into(), "testnet".into(), "BTCUSDT".into());
    checkpoint.schema_version = 99;
    assert!(matches!(checkpoint.validate(), Err(CheckpointError::UnsupportedSchema(99))));
}

#[test]
fn checkpoint_gross_must_match_detail() {
    let mut checkpoint = SessionCheckpoint::new("session-1".into(), "testnet".into(), "BTCUSDT".into());
    checkpoint.position_ticks = -12;
    checkpoint.gross_position_ticks = 12;
    checkpoint.portfolio_positions.insert("BTCUSDT".into(), -12);
    assert!(checkpoint.validate().is_ok());
    checkpoint.gross_position_ticks = 11;
    assert_eq!(checkpoint.validate(), Err(CheckpointError::GrossPositionMismatch));
    checkpoint.session_id = "  ".into();
    assert_eq!(checkpoint.validate(), Err(CheckpointError::EmptySessionId));
}
