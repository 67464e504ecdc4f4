use anchorbell_engine::m8::{decide, FundingAction, FundingRateStatus, M8Input};

fn input(rate: Option<i64>) -> M8Input {
    M8Input {
        now_ms: 0,
        anchor_ticks: 100_000,
        mid_ticks: 99_000,
        mark_ticks: 99_000,
        index_ticks: 99_000,
        position: 0,
        max_position: 1_000,
        funding_rate_e8: rate,
        next_funding_ms: Some(60_000),
        funding_rate_status: FundingRateStatus::Observed,
        fee_ppm: 4,
        volatility_bps: 1,
        spread_bps: 1,
        model_uncertainty_bps: 1,
        liquidation_buffer_bps: 1,
        volatility_pico_bps: 1_000_000_000_000,
        spread_pico_bps: 1_000_000_000_000,
        model_uncertainty_pico_bps: 1_000_000_000_000,
        liquidation_buffer_pico_bps: 1_000_000_000_000,
    }
}

#[test]
fn positive_short_funding_can_be_collected_with_edge() {
    let d = decide(input(Some(-20_000)));
    assert!(d.allow_entry);
    assert_eq!(d.action, FundingAction::Collect);
}

#[test]
fn unknown_rate_fails_closed() {
    let mut x = input(None);
    x.funding_rate_status = FundingRateStatus::Missing;
    assert_eq!(decide(x).action, FundingAction::NoAction);
}

#[test]
fn zero_funding_does_not_create_a_deadline_exit_when_edge_remains() {
    let d = decide(input(Some(0)));
    assert_eq!(d.action, FundingAction::Tolerate);
    assert!(d.allow_entry);
    assert_ne!(d.reason, "held_edge_not_compensating_funding_or_special");
}

#[test]
fn expensive_carry_is_avoided() {
    let mut x = input(Some(200_000));
    x.mid_ticks = 99_950;
    assert_eq!(decide(x).action, FundingAction::Avoid);
}
