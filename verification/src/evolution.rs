//! Strategy evolution: a challenger replaces the champion only under the
//! core invariants, with sealed evidence, enough history, bounded drawdown,
//! every required semantic step, and strictly better robust value.
use crate::policy::{StrategyNode, StrategyPlan};
use vstd::prelude::*;

verus! {

#[derive(Debug, Clone, Copy, PartialEq, Eq, Structural)]
pub struct CoreInvariants {
    pub anchor_bound: bool,
    pub closed_window: bool,
    pub causal_information: bool,
    pub binance_contract: bool,
    pub maker_entry: bool,
    pub reconciled_account: bool,
}

impl CoreInvariants {
    pub open spec fn all_hold(self) -> bool {
        self.anchor_bound && self.closed_window && self.causal_information && self.binance_contract
            && self.maker_entry && self.reconciled_account
    }

    /// The invariants no evolution may relax: all of them.
    pub fn immutable() -> (r: Self)
        ensures
            r.all_hold(),
    {
        CoreInvariants {
            anchor_bound: true,
            closed_window: true,
            causal_information: true,
            binance_contract: true,
            maker_entry: true,
            reconciled_account: true,
        }
    }

    pub fn holds(self) -> (r: bool)
        ensures
            r == self.all_hold(),
    {
        self.anchor_bound && self.closed_window && self.causal_information && self.binance_contract
            && self.maker_entry && self.reconciled_account
    }
}

#[derive(Debug, Clone, PartialEq, Eq)]
pub struct StrategyArtifact {
    pub version: String,
    pub plan: StrategyPlan,
    pub evidence_digest: String,
    pub sealed_set_digest: String,
    pub effective_sample_size: u64,
    pub robust_value_pico_bps: i64,
    pub max_drawdown_pico_bps: i64,
    pub simplicity_score: u32,
}

#[derive(Debug, Clone, Copy, PartialEq, Eq, Structural)]
pub struct PromotionThresholds {
    pub minimum_effective_sample_size: u64,
    pub maximum_drawdown_pico_bps: i64,
}

#[derive(Debug, Clone, Copy, PartialEq, Eq, Structural)]
pub enum PromotionRejection {
    InvalidInvariants,
    MissingEvidence,
    MissingSealedSet,
    InsufficientHistory,
    DrawdownLimit,
    NotBetterThanChampion,
    MissingRequiredSemantics,
}

pub struct PromotionGate {
    pub invariants: CoreInvariants,
    pub thresholds: PromotionThresholds,
}

/// The semantic steps every promoted plan must contain.
pub open spec fn required_nodes() -> Seq<StrategyNode> {
    seq![
        StrategyNode::BindAnchor,
        StrategyNode::RequireClosedWindow,
        StrategyNode::EstimateJointOutcome,
        StrategyNode::AdmitIfRobustValueBeatsWait,
        StrategyNode::QuotePassive,
        StrategyNode::ReconcileBeforeResume,
    ]
}

pub open spec fn has_required_semantics(plan: StrategyPlan) -> bool {
    forall|i: int| 0 <= i < required_nodes().len() ==> plan.nodes@.contains(#[trigger] required_nodes()[i])
}

/// A challenger beats the champion on robust value, or ties it and is
/// simpler.
pub open spec fn better_than(champion: StrategyArtifact, challenger: StrategyArtifact) -> bool {
    !(challenger.robust_value_pico_bps < champion.robust_value_pico_bps || (challenger.robust_value_pico_bps
        == champion.robust_value_pico_bps && challenger.simplicity_score >= champion.simplicity_score))
}

pub open spec fn approve_spec(
    gate: PromotionGate,
    champion: StrategyArtifact,
    challenger: StrategyArtifact,
) -> Result<(), PromotionRejection> {
    if !gate.invariants.all_hold() {
        Err(PromotionRejection::InvalidInvariants)
    } else if challenger.evidence_digest@.len() == 0 {
        Err(PromotionRejection::MissingEvidence)
    } else if challenger.sealed_set_digest@.len() == 0 {
        Err(PromotionRejection::MissingSealedSet)
    } else if challenger.effective_sample_size < gate.thresholds.minimum_effective_sample_size {
        Err(PromotionRejection::InsufficientHistory)
    } else if challenger.max_drawdown_pico_bps > gate.thresholds.maximum_drawdown_pico_bps {
        Err(PromotionRejection::DrawdownLimit)
    } else if !has_required_semantics(challenger.plan) {
        Err(PromotionRejection::MissingRequiredSemantics)
    } else if !better_than(champion, challenger) {
        Err(PromotionRejection::NotBetterThanChampion)
    } else {
        Ok(())
    }
}

fn contains_node(nodes: &Vec<StrategyNode>, node: StrategyNode) -> (r: bool)
    ensures
        r == nodes@.contains(node),
{
    let mut i: usize = 0;
    while i < nodes.len()
        invariant
            i <= nodes@.len(),
            forall|k: int| 0 <= k < i ==> nodes@[k] != node,
        decreases nodes@.len() - i,
    {
        if nodes[i] == node {
            return true;
        }
        i = i + 1;
    }
    false
}

fn required_semantics(plan: &StrategyPlan) -> (r: bool)
    ensures
        r == has_required_semantics(*plan),
{
    let present = contains_node(&plan.nodes, StrategyNode::BindAnchor) && contains_node(
        &plan.nodes,
        StrategyNode::RequireClosedWindow,
    ) && contains_node(&plan.nodes, StrategyNode::EstimateJointOutcome) && contains_node(
        &plan.nodes,
        StrategyNode::AdmitIfRobustValueBeatsWait,
    ) && contains_node(&plan.nodes, StrategyNode::QuotePassive) && contains_node(
        &plan.nodes,
        StrategyNode::ReconcileBeforeResume,
    );
    proof {
        if !present {
            let missing = if !plan.nodes@.contains(StrategyNode::BindAnchor) {
                0int
            } else if !plan.nodes@.contains(StrategyNode::RequireClosedWindow) {
                1int
            } else if !plan.nodes@.contains(StrategyNode::EstimateJointOutcome) {
                2int
            } else if !plan.nodes@.contains(StrategyNode::AdmitIfRobustValueBeatsWait) {
                3int
            } else if !plan.nodes@.contains(StrategyNode::QuotePassive) {
                4int
            } else {
                5int
            };
            assert(!plan.nodes@.contains(required_nodes()[missing]));
        }
    }
    present
}

impl PromotionGate {
    pub fn approve(&self, champion: &StrategyArtifact, challenger: &StrategyArtifact) -> (r: Result<(), PromotionRejection>)
        ensures
            r == approve_spec(*self, *champion, *challenger),
    {
        if !self.invariants.holds() {
            return Err(PromotionRejection::InvalidInvariants);
        }
        if challenger.evidence_digest.as_str().is_empty() {
            return Err(PromotionRejection::MissingEvidence);
        }
        if challenger.sealed_set_digest.as_str().is_empty() {
            return Err(PromotionRejection::MissingSealedSet);
        }
        if challenger.effective_sample_size < self.thresholds.minimum_effective_sample_size {
            return Err(PromotionRejection::InsufficientHistory);
        }
        if challenger.max_drawdown_pico_bps > self.thresholds.maximum_drawdown_pico_bps {
            return Err(PromotionRejection::DrawdownLimit);
        }
        if !required_semantics(&challenger.plan) {
            return Err(PromotionRejection::MissingRequiredSemantics);
        }
        if challenger.robust_value_pico_bps < champion.robust_value_pico_bps || (challenger.robust_value_pico_bps
            == champion.robust_value_pico_bps && challenger.simplicity_score >= champion.simplicity_score) {
            return Err(PromotionRejection::NotBetterThanChampion);
        }
        Ok(())
    }
}

/// Evolution cannot relax the core invariants nor trade robust value for
/// simplicity: an approved challenger kept every invariant and every
/// required step, and is worth at least as much as the champion.
pub proof fn law_approval_keeps_invariants_and_value(
    gate: PromotionGate,
    champion: StrategyArtifact,
    challenger: StrategyArtifact,
)
    requires
        approve_spec(gate, champion, challenger) is Ok,
    ensures
        gate.invariants.all_hold(),
        has_required_semantics(challenger.plan),
        challenger.robust_value_pico_bps >= champion.robust_value_pico_bps,
        challenger.robust_value_pico_bps == champion.robust_value_pico_bps ==> challenger.simplicity_score
            < champion.simplicity_score,
        challenger.effective_sample_size >= gate.thresholds.minimum_effective_sample_size,
        challenger.max_drawdown_pico_bps <= gate.thresholds.maximum_drawdown_pico_bps,
{
}

} // verus!
