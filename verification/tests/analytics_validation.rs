use anchorbell_engine::analytics_validation::{
    adjudicate_verdict, causal_contrast, classify_price_discovery, cluster_bootstrap, competing_risk,
    evaluate_post_fill_edge, evaluate_simulation_promotion, evaluate_survival, self_excluded_lob_probe,
    ContractTransform, EpisodeOutcome, EpisodeRecord, EvidenceState, EvidenceStateMachine,
    LatentStateEstimate, MakerProbeInput, MarkoutPoint, MethodAvailability, RuleRegime,
    SimulationPromotionInput, ValidationSummary, ValidationVerdict, VerdictInputs,
};

fn episode(id: &str, cluster: &str, outcome: EpisodeOutcome, improvement: i64) -> EpisodeRecord {
    EpisodeRecord {
        episode_id: id.into(),
        cluster_id: cluster.into(),
        start_event_time_ms: 0,
        end_event_time_ms: 1,
        outcome,
        signed_improvement_bps: improvement,
    }
}

#[test]
fn contract_transform_is_checked_and_deterministic() {
    let transform = ContractTransform { price_scale: 2, quote_currency: "USDT".to_owned(), multiplier: 2, inverse: false };
    assert_eq!(transform.transform_ticks(7), Some(14));
}

#[test]
fn inverse_and_invalid_transforms() {
    let inverse = ContractTransform { price_scale: 2, quote_currency: "USD".to_owned(), multiplier: 1, inverse: true };
    assert_eq!(inverse.transform_ticks(1_000_000_000), Some(1_000_000_000));
    assert_eq!(inverse.transform_ticks(-3), Some(-333_333_333_333_333_333));
    assert_eq!(inverse.transform_ticks(0), None);
    let invalid = ContractTransform { price_scale: 19, quote_currency: "USD".to_owned(), multiplier: 1, inverse: false };
    assert_eq!(invalid.transform_ticks(5), None);
    assert_eq!(invalid.validate(), Err("invalid contract transform"));
    let saturating = ContractTransform { price_scale: 0, quote_currency: "USD".to_owned(), multiplier: 3, inverse: false };
    assert_eq!(saturating.transform_ticks(i64::MAX), Some(i64::MAX));
}

#[test]
fn rule_regime_applies_only_inside_its_window() {
    let regime = RuleRegime {
        regime_id: "r1".into(),
        venue: "binance".into(),
        contract_type: "perp".into(),
        fee_ppm: 20,
        tick_size_ticks: 1,
        lot_size: 1,
        maker_only: true,
        effective_from_ms: 10,
        effective_to_ms: Some(20),
    };
    assert!(!regime.valid_at(9));
    assert!(regime.valid_at(10));
    assert!(regime.valid_at(19));
    assert!(!regime.valid_at(20));
}

#[test]
fn competing_risk_keeps_censoring_separate() {
    let records = vec![
        episode("a", "d1", EpisodeOutcome::Converged, 10),
        episode("b", "d1", EpisodeOutcome::Censored, -2),
    ];
    let summary = competing_risk(&records);
    assert_eq!(summary.total, 2);
    assert_eq!(summary.convergence_rate_ppm, 500_000);
    assert_eq!(summary.adverse, 0);
}

#[test]
fn bootstrap_is_seeded_and_clustered() {
    let records = vec![
        episode("a", "d1", EpisodeOutcome::Converged, 10),
        episode("b", "d2", EpisodeOutcome::Adverse, -4),
    ];
    let one = cluster_bootstrap(&records, 32, 7);
    let two = cluster_bootstrap(&records, 32, 7);
    assert_eq!(one.mean_bps, two.mean_bps);
    assert_eq!(one.cluster_count, 2);
}

#[test]
fn bootstrap_of_one_cluster_is_its_mean() {
    let records = vec![
        episode("a", "only", EpisodeOutcome::Converged, 10),
        episode("b", "only", EpisodeOutcome::Converged, 20),
    ];
    let summary = cluster_bootstrap(&records, 5, 0);
    assert_eq!(summary.replicates, 5);
    assert_eq!(summary.cluster_count, 1);
    assert_eq!(summary.mean_bps, 15);
    assert_eq!(summary.lower_bps, 15);
    assert_eq!(summary.upper_bps, 15);
    let empty = cluster_bootstrap(&[], 5, 0);
    assert_eq!(empty.cluster_count, 0);
    assert_eq!(empty.mean_bps, 0);
}

#[test]
fn state_machine_does_not_skip_evidence_levels() {
    let mut machine = EvidenceStateMachine::default();
    assert!(!machine.transition(EvidenceState::X4EconomicallyPositive));
    assert!(machine.transition(EvidenceState::X1Observed));
}

#[test]
fn evidence_never_moves_down() {
    let mut machine = EvidenceStateMachine { state: EvidenceState::X2Eligible };
    assert!(!machine.transition(EvidenceState::X1Observed));
    assert_eq!(machine.state, EvidenceState::X2Eligible);
    assert!(machine.transition(EvidenceState::X2Eligible));
    assert!(machine.transition(EvidenceState::X3Convergent));
}

#[test]
fn latent_filter_blends_observation() {
    let mut estimate = LatentStateEstimate::default();
    estimate.update(100, 1_000, 10, 10);
    assert_eq!(estimate.residual_bps, 50);
    assert_eq!(estimate.velocity_bps_per_s, 100);
    assert_eq!(estimate.uncertainty_bps, 5);
}

#[test]
fn price_discovery_requires_opening_and_trade_labels() {
    let observation = classify_price_discovery("X", 100, Some(102), Some(103));
    assert_eq!(observation.label, MethodAvailability::Available);
    assert_eq!(observation.opening_gap_bps, Some(200));
}

#[test]
fn price_discovery_without_anchor_is_indeterminate() {
    let observation = classify_price_discovery("X", 0, Some(102), Some(103));
    assert_eq!(observation.label, MethodAvailability::Indeterminate);
    assert_eq!(observation.opening_gap_bps, None);
    let missing = classify_price_discovery("X", 100, Some(99), None);
    assert_eq!(missing.label, MethodAvailability::Unavailable);
    assert_eq!(missing.opening_gap_bps, Some(-100));
}

#[test]
fn lob_probe_excludes_own_quantity() {
    let result = self_excluded_lob_probe(MakerProbeInput {
        bid_ticks: 100,
        ask_ticks: 103,
        bid_quantity: 10,
        ask_quantity: 4,
        own_bid_quantity: 3,
        own_ask_quantity: 9,
    });
    assert_eq!(result.self_excluded_bid_quantity, 7);
    assert_eq!(result.self_excluded_ask_quantity, 0);
    assert_eq!(result.mid_ticks, Some(101));
    assert_eq!(result.availability, MethodAvailability::Available);
}

#[test]
fn post_fill_net_edge_subtracts_costs() {
    let result = evaluate_post_fill_edge(true, 100, 102, 5, 2, &[MarkoutPoint { horizon_ms: 1_000, mark_ticks: 101 }]);
    assert_eq!(result.net_edge_bps, Some(193));
    assert_eq!(result.markout_samples, 1);
}

#[test]
fn post_fill_adverse_is_the_worst_markout() {
    let result = evaluate_post_fill_edge(
        false,
        100,
        98,
        0,
        0,
        &[
            MarkoutPoint { horizon_ms: 1, mark_ticks: 101 },
            MarkoutPoint { horizon_ms: 2, mark_ticks: 0 },
            MarkoutPoint { horizon_ms: 3, mark_ticks: 97 },
        ],
    );
    assert_eq!(result.gross_edge_bps, Some(200));
    assert_eq!(result.adverse_selection_bps, Some(-300));
    assert_eq!(result.markout_samples, 3);
    let none = evaluate_post_fill_edge(true, 0, 100, 0, 0, &[]);
    assert_eq!(none.availability, MethodAvailability::Indeterminate);
    assert_eq!(none.gross_edge_bps, None);
}

#[test]
fn causal_contrast_needs_both_arms() {
    let c = causal_contrast(&[10, 20, -3], &[1, 2]);
    assert_eq!(c.treated_mean_bps, Some(9));
    assert_eq!(c.control_mean_bps, Some(1));
    assert_eq!(c.difference_bps, Some(8));
    assert_eq!(c.availability, MethodAvailability::Available);
    let missing = causal_contrast(&[], &[1]);
    assert_eq!(missing.difference_bps, None);
    assert_eq!(missing.availability, MethodAvailability::Unavailable);
}

#[test]
fn survival_tracks_drawdown_and_ruin() {
    let s = evaluate_survival(100, &[120, 90, 130, 80], 85);
    assert_eq!(s.observations, 4);
    assert_eq!(s.terminal_equity_bps, 80);
    assert_eq!(s.max_drawdown_bps, 50);
    assert!(s.ruin);
    let empty = evaluate_survival(100, &[], 0);
    assert_eq!(empty.availability, MethodAvailability::Unavailable);
}

#[test]
fn multi_ledger_matrix_requires_candidate_level_oos_validation() {
    let gate = evaluate_simulation_promotion(SimulationPromotionInput {
        ledger_count: 10,
        orders: 1_000,
        fills: 500,
        records_dropped: 0,
        valuation_incomplete_ledgers: 0,
        non_flat_ledgers: 0,
        total_net_pnl_ticks: 1_000_000,
    });
    assert_eq!(gate.verdict, ValidationVerdict::Indeterminate);
    assert_eq!(gate.reason, "candidate_level_oos_validation_required");
    assert!(!gate.economic_passed);
}

#[test]
fn single_ledger_promotion_outcomes() {
    let base = SimulationPromotionInput {
        ledger_count: 1,
        orders: 200,
        fills: 150,
        records_dropped: 0,
        valuation_incomplete_ledgers: 0,
        non_flat_ledgers: 0,
        total_net_pnl_ticks: 10,
    };
    let supported = evaluate_simulation_promotion(base);
    assert_eq!(supported.verdict, ValidationVerdict::Supported);
    assert_eq!(supported.reason, "all_promotion_conditions_passed");
    let losing = evaluate_simulation_promotion(SimulationPromotionInput { total_net_pnl_ticks: 0, ..base });
    assert_eq!(losing.verdict, ValidationVerdict::Falsified);
    assert_eq!(losing.reason, "net_pnl_not_positive");
    let thin = evaluate_simulation_promotion(SimulationPromotionInput { fills: 99, ..base });
    assert_eq!(thin.verdict, ValidationVerdict::Indeterminate);
    assert_eq!(thin.reason, "insufficient_fill_evidence");
    let dropped = evaluate_simulation_promotion(SimulationPromotionInput { records_dropped: 1, ..base });
    assert_eq!(dropped.reason, "data_integrity_failed");
    let open = evaluate_simulation_promotion(SimulationPromotionInput { non_flat_ledgers: 1, ..base });
    assert_eq!(open.verdict, ValidationVerdict::Falsified);
    assert_eq!(open.reason, "open_risk_or_incomplete_valuation");
}

#[test]
fn incomplete_verdict_is_indeterminate() {
    assert_eq!(
        adjudicate_verdict(VerdictInputs {
            h_r_positive: true,
            h_m_positive: true,
            h_d_consistent: true,
            h_e_positive: true,
            h_s_survives: true,
            labels_complete: false,
        }),
        ValidationVerdict::Indeterminate
    );
}

#[test]
fn default_validation_summary_is_unavailable() {
    let summary = ValidationSummary::default();
    assert_eq!(summary.methodology_id, "anchorbell-analytics-methods-v2");
    assert_eq!(summary.verdict, ValidationVerdict::Indeterminate);
    assert_eq!(summary.survival, MethodAvailability::Unavailable);
}

#[test]
fn bootstrap_interval_stays_within_the_outcomes() {
    let records = vec![
        episode("a", "d1", EpisodeOutcome::Converged, 10),
        episode("b", "d1", EpisodeOutcome::Converged, 7),
        episode("c", "d2", EpisodeOutcome::Adverse, -4),
        episode("d", "d3", EpisodeOutcome::Converged, 3),
    ];
    for seed in [0_u64, 1, 7, 99] {
        let summary = cluster_bootstrap(&records, 40, seed);
        assert!(summary.lower_bps <= summary.upper_bps);
        assert!(-4 <= summary.lower_bps && summary.upper_bps <= 10);
    }
}
