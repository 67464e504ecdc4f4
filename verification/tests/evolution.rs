use anchorbell_engine::evolution::{
    CoreInvariants, PromotionGate, PromotionRejection, PromotionThresholds, StrategyArtifact,
};
use anchorbell_engine::policy::{StrategyNode, StrategyPlan};

fn artifact(version: &str, value: i64) -> StrategyArtifact {
    StrategyArtifact {
        version: version.into(),
        plan: StrategyPlan::anchor_closed_maker(version),
        evidence_digest: "evidence".into(),
        sealed_set_digest: "sealed".into(),
        effective_sample_size: 100,
        robust_value_pico_bps: value,
        max_drawdown_pico_bps: 10,
        simplicity_score: 1,
    }
}

fn gate() -> PromotionGate {
    PromotionGate {
        invariants: CoreInvariants::immutable(),
        thresholds: PromotionThresholds { minimum_effective_sample_size: 30, maximum_drawdown_pico_bps: 100 },
    }
}

#[test]
fn evolution_cannot_remove_anchor_or_closed_invariants() {
    let gate = gate();
    assert!(gate.approve(&artifact("champion", 10), &artifact("challenger", 20)).is_ok());
    let blocked = PromotionGate {
        invariants: CoreInvariants { closed_window: false, ..CoreInvariants::immutable() },
        ..gate
    };
    assert_eq!(
        blocked.approve(&artifact("champion", 10), &artifact("challenger", 20)),
        Err(PromotionRejection::InvalidInvariants)
    );
}

#[test]
fn evolution_cannot_trade_robust_value_for_simplicity() {
    let gate = gate();
    let mut simpler_but_worse = artifact("challenger", 9);
    simpler_but_worse.simplicity_score = 0;
    assert_eq!(
        gate.approve(&artifact("champion", 10), &simpler_but_worse),
        Err(PromotionRejection::NotBetterThanChampion)
    );
}

#[test]
fn plan_missing_a_required_step_is_rejected() {
    let mut challenger = artifact("challenger", 20);
    challenger.plan.nodes.retain(|node| *node != StrategyNode::QuotePassive);
    assert_eq!(
        gate().approve(&artifact("champion", 10), &challenger),
        Err(PromotionRejection::MissingRequiredSemantics)
    );
}

#[test]
fn each_rejection_reason_is_reachable() {
    let champion = artifact("champion", 10);
    let mut c = artifact("challenger", 20);
    c.evidence_digest = String::new();
    assert_eq!(gate().approve(&champion, &c), Err(PromotionRejection::MissingEvidence));
    let mut c = artifact("challenger", 20);
    c.sealed_set_digest = String::new();
    assert_eq!(gate().approve(&champion, &c), Err(PromotionRejection::MissingSealedSet));
    let mut c = artifact("challenger", 20);
    c.effective_sample_size = 29;
    assert_eq!(gate().approve(&champion, &c), Err(PromotionRejection::InsufficientHistory));
    let mut c = artifact("challenger", 20);
    c.max_drawdown_pico_bps = 101;
    assert_eq!(gate().approve(&champion, &c), Err(PromotionRejection::DrawdownLimit));
    let mut tie_but_simpler = artifact("challenger", 10);
    tie_but_simpler.simplicity_score = 0;
    assert!(gate().approve(&champion, &tie_but_simpler).is_ok());
}
