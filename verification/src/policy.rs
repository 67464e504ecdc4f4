//! Strategy plans: the ordered semantic steps a strategy is made of.
use crate::text::owned;
use vstd::prelude::*;

verus! {

#[derive(Debug, Clone, Copy, PartialEq, Eq, Structural)]
pub enum StrategyNode {
    BindAnchor,
    RequireClosedWindow,
    EstimateJointOutcome,
    AdmitIfRobustValueBeatsWait,
    QuotePassive,
    ReconcileBeforeResume,
}

#[derive(Debug, Clone, PartialEq, Eq)]
pub struct StrategyPlan {
    pub name: String,
    pub nodes: Vec<StrategyNode>,
}

impl StrategyPlan {
    /// The anchored, closed-window, passive-maker plan: every required step
    /// in order.
    pub fn anchor_closed_maker(name: &str) -> (r: Self)
        ensures
            r.name@ == name@,
            r.nodes@ == seq![
                StrategyNode::BindAnchor,
                StrategyNode::RequireClosedWindow,
                StrategyNode::EstimateJointOutcome,
                StrategyNode::AdmitIfRobustValueBeatsWait,
                StrategyNode::QuotePassive,
                StrategyNode::ReconcileBeforeResume,
            ],
    {
        let mut nodes: Vec<StrategyNode> = Vec::new();
        nodes.push(StrategyNode::BindAnchor);
        nodes.push(StrategyNode::RequireClosedWindow);
        nodes.push(StrategyNode::EstimateJointOutcome);
        nodes.push(StrategyNode::AdmitIfRobustValueBeatsWait);
        nodes.push(StrategyNode::QuotePassive);
        nodes.push(StrategyNode::ReconcileBeforeResume);
        assert(nodes@ =~= seq![
            StrategyNode::BindAnchor,
            StrategyNode::RequireClosedWindow,
            StrategyNode::EstimateJointOutcome,
            StrategyNode::AdmitIfRobustValueBeatsWait,
            StrategyNode::QuotePassive,
            StrategyNode::ReconcileBeforeResume,
        ]);
        StrategyPlan { name: owned(name), nodes }
    }
}

} // verus!
