//! How old an observation may be before a decision stops trusting it.
use vstd::prelude::*;

verus! {

#[derive(Debug, Clone, Copy, PartialEq, Eq, Structural)]
pub enum FreshnessClass {
    Quote,
    Reference,
}

#[derive(Debug, Clone, Copy, PartialEq, Eq, Structural)]
pub enum FreshnessState {
    Fresh,
    Aging,
    Expired,
    Invalid,
}

#[derive(Debug, Clone, Copy, PartialEq, Eq, Structural)]
pub struct FreshnessPolicy {
    pub class: FreshnessClass,
    pub fresh_within_ms: u64,
    pub max_age_ms: u64,
}

/// An observation from the future is invalid; otherwise it is fresh within
/// the fresh age, aging up to the maximum age, and expired beyond it.
pub open spec fn freshness_spec(policy: FreshnessPolicy, observed_at_ms: u64, now_ms: u64) -> FreshnessState {
    if observed_at_ms > now_ms {
        FreshnessState::Invalid
    } else if now_ms - observed_at_ms <= policy.fresh_within_ms {
        FreshnessState::Fresh
    } else if now_ms - observed_at_ms <= policy.max_age_ms {
        FreshnessState::Aging
    } else {
        FreshnessState::Expired
    }
}

impl FreshnessPolicy {
    pub fn new(class: FreshnessClass, fresh_within_ms: u64, max_age_ms: u64) -> (r: Self)
        ensures
            r == (FreshnessPolicy { class, fresh_within_ms, max_age_ms }),
    {
        FreshnessPolicy { class, fresh_within_ms, max_age_ms }
    }

    pub fn validate(&self, observed_at_ms: u64, now_ms: u64) -> (r: FreshnessState)
        ensures
            r == freshness_spec(*self, observed_at_ms, now_ms),
    {
        if observed_at_ms > now_ms {
            FreshnessState::Invalid
        } else if now_ms - observed_at_ms <= self.fresh_within_ms {
            FreshnessState::Fresh
        } else if now_ms - observed_at_ms <= self.max_age_ms {
            FreshnessState::Aging
        } else {
            FreshnessState::Expired
        }
    }
}

} // verus!
