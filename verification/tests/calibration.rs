use anchorbell_engine::calibration::{
    CalibrationError, CalibrationObservation, CalibrationPhase, CalibrationState, MIN_EFFECTIVE_SAMPLES,
};
use anchorbell_engine::model::Side;

fn observation(at: u64, side: Side, markout: Option<i64>) -> CalibrationObservation {
    CalibrationObservation { event_at_ms: at, side, attempted_quantity: 10, filled_quantity: 5, markout_pico_bps: markout }
}

#[test]
fn cold_start_uses_no_history() {
    let state = CalibrationState::new("BTCUSDT").unwrap();
    let snapshot = state.decision_snapshot().unwrap();
    assert_eq!(snapshot.phase, CalibrationPhase::ColdStart);
    assert_eq!(snapshot.robust_executable_value(Side::Buy, 123), 123);
    assert!(snapshot.validate().is_ok());
}

#[test]
fn history_shortage_is_not_admitted() {
    let mut state = CalibrationState::new("BTCUSDT").unwrap();
    for i in 0..(MIN_EFFECTIVE_SAMPLES - 1) {
        state
            .observe(observation(i as u64 + 1, if i % 2 == 0 { Side::Buy } else { Side::Sell }, Some(20_000_000_000)))
            .unwrap();
    }
    assert_eq!(state.snapshot(), Err(CalibrationError::HistoryNotAdmitted));
    assert_eq!(state.phase(), CalibrationPhase::Validating);
}

#[test]
fn history_is_admitted_only_after_holdout_validation() {
    let mut state = CalibrationState::new("BTCUSDT").unwrap();
    for i in 0..MIN_EFFECTIVE_SAMPLES {
        state
            .observe(observation(
                i as u64 + 1,
                if i % 2 == 0 { Side::Buy } else { Side::Sell },
                Some(if i % 2 == 0 { 20_000_000_000 } else { -10_000_000_000 }),
            ))
            .unwrap();
    }
    let report = state.history_quality().unwrap();
    assert!(report.admissible);
    assert_eq!(state.phase(), CalibrationPhase::Admitted);
    let snapshot = state.snapshot().unwrap();
    assert!(snapshot.validate().is_ok());
    assert_eq!(snapshot.buy.robust_lower_pico_bps, 20_000_000_000);
    assert_eq!(snapshot.sell.robust_lower_pico_bps, -10_000_000_000);
}

#[test]
fn chronological_holdout_rejects_future_regime_break() {
    let mut state = CalibrationState::new("BTCUSDT").unwrap();
    for i in 0..MIN_EFFECTIVE_SAMPLES {
        let markout = if i < 20 { 20_000_000_000 } else { -20_000_000_000 };
        state
            .observe(observation(i as u64 + 1, if i % 2 == 0 { Side::Buy } else { Side::Sell }, Some(markout)))
            .unwrap();
    }
    let report = state.history_quality().unwrap();
    assert!(!report.admissible);
    assert!(
        report.train_robust_lower_pico_bps.expect("train statistic")
            > report.validation_robust_lower_pico_bps.expect("validation statistic")
    );
}

#[test]
fn incomplete_history_is_kept_but_not_admitted() {
    let mut state = CalibrationState::new("BTCUSDT").unwrap();
    for i in 0..MIN_EFFECTIVE_SAMPLES {
        state.observe(observation(i as u64 + 1, Side::Sell, None)).unwrap();
    }
    assert_eq!(state.observations.len(), MIN_EFFECTIVE_SAMPLES);
    assert_eq!(state.phase(), CalibrationPhase::Validating);
    assert_eq!(state.snapshot(), Err(CalibrationError::HistoryNotAdmitted));
}

#[test]
fn event_time_regression_is_rejected() {
    let mut state = CalibrationState::new("BTCUSDT").unwrap();
    state.observe(observation(10, Side::Sell, Some(1))).unwrap();
    assert_eq!(state.observe(observation(9, Side::Sell, Some(1))), Err(CalibrationError::EventTimeRegression));
}

#[test]
fn replayed_state_is_accepted_back() {
    let mut state = CalibrationState::new("BTCUSDT").unwrap();
    for i in 0..MIN_EFFECTIVE_SAMPLES {
        state.observe(observation(i as u64 + 1, Side::Sell, Some(20_000_000_000))).unwrap();
    }
    assert_eq!(state.replay().unwrap(), state);
    assert_eq!(state.clone().verify_decoded().unwrap(), state);
    let mut tampered = state.clone();
    tampered.last_event_at_ms += 1;
    assert_eq!(tampered.verify_decoded(), Err(CalibrationError::InvalidSnapshot));
}

#[test]
fn invalid_observations_and_identity_are_rejected() {
    assert_eq!(CalibrationState::new("  "), Err(CalibrationError::EmptyInstrument));
    let mut state = CalibrationState::new("BTCUSDT").unwrap();
    let mut bad = observation(1, Side::Buy, None);
    bad.filled_quantity = 11;
    assert_eq!(state.observe(bad), Err(CalibrationError::InvalidObservation));
    assert_eq!(state.observe(observation(0, Side::Buy, None)), Err(CalibrationError::InvalidObservation));
    assert_eq!(state.observe(observation(1, Side::Buy, Some(i64::MIN))), Err(CalibrationError::InvalidObservation));
    state.model_version = "other".into();
    assert_eq!(state.observe(observation(1, Side::Buy, None)), Err(CalibrationError::ModelMismatch));
    state.schema_version = 1;
    assert_eq!(state.history_quality(), Err(CalibrationError::SchemaMismatch));
}

#[test]
fn window_keeps_the_most_recent_observations() {
    let mut state = CalibrationState::new("BTCUSDT").unwrap();
    for i in 0..4_100u64 {
        state.observe(observation(i + 1, Side::Buy, None)).unwrap();
    }
    assert_eq!(state.observations.len(), 4_096);
    assert_eq!(state.observations[0].event_at_ms, 5);
    assert_eq!(state.first_event_at_ms, 1);
    assert_eq!(state.last_event_at_ms, 4_100);
    assert!(!state.history_quality().unwrap().replay_valid);
}

#[test]
fn admitted_value_scales_by_fill_probability() {
    let mut state = CalibrationState::new("BTCUSDT").unwrap();
    for i in 0..MIN_EFFECTIVE_SAMPLES {
        state
            .observe(observation(
                i as u64 + 1,
                if i % 2 == 0 { Side::Buy } else { Side::Sell },
                Some(if i % 2 == 0 { 20_000_000_000 } else { -10_000_000_000 }),
            ))
            .unwrap();
    }
    let snapshot = state.snapshot().unwrap();
    assert_eq!(snapshot.buy.fill_probability_bps, 5_000);
    assert_eq!(snapshot.buy.attempts, 150);
    assert_eq!(snapshot.buy.fills, 75);
    assert_eq!(snapshot.robust_executable_value(Side::Buy, 1_000), 500 + 20_000_000_000);
    assert_eq!(snapshot.evidence_digest.len(), 64);
    let cold = CalibrationState::new("BTCUSDT").unwrap().decision_snapshot().unwrap();
    assert_eq!(cold.evidence_digest.len(), 64);
    assert_ne!(cold.evidence_digest, snapshot.evidence_digest);
}

#[test]
fn cold_start_digest_is_a_full_sha256_hex() {
    let snapshot = CalibrationState::new("BTCUSDT").unwrap().decision_snapshot().unwrap();
    assert_eq!(snapshot.evidence_digest.len(), 64);
    assert!(snapshot.evidence_digest.bytes().all(|b| b.is_ascii_hexdigit() && !b.is_ascii_uppercase()));
}
