//! The economics of an order action: its executable value net of every
//! transition cost, and the comparisons that decide whether to act.
use vstd::prelude::*;

verus! {

#[derive(Clone, Copy, Debug, PartialEq, Eq, Structural)]
pub enum ActionKind {
    Wait,
    Place,
    Requote,
    Cancel,
    Reduce,
    EmergencyReduce,
}

#[derive(Clone, Copy, Debug, PartialEq, Eq, Structural)]
pub struct ActionEconomics {
    pub executable_value_pico_bps: i128,
    pub queue_priority_loss_pico_bps: i128,
    pub cancel_race_loss_pico_bps: i128,
    pub deadline_loss_pico_bps: i128,
    pub uncertainty_pico_bps: i128,
}

#[derive(Clone, Copy, Debug, PartialEq, Eq, Structural)]
pub enum ActionValueError {
    NegativeCost,
    Overflow,
}

/// The value of an action net of its queue, cancel-race, deadline and
/// uncertainty costs. A negative cost is refused, and so is any sum or
/// difference that leaves `i128`.
pub open spec fn conservative_spec(e: ActionEconomics) -> Result<i128, ActionValueError> {
    let q = e.queue_priority_loss_pico_bps as int;
    let c = e.cancel_race_loss_pico_bps as int;
    let d = e.deadline_loss_pico_bps as int;
    let u = e.uncertainty_pico_bps as int;
    if q < 0 || c < 0 || d < 0 || u < 0 {
        Err(ActionValueError::NegativeCost)
    } else if q + c > i128::MAX || q + c + d > i128::MAX || q + c + d + u > i128::MAX {
        Err(ActionValueError::Overflow)
    } else if e.executable_value_pico_bps - (q + c + d + u) < i128::MIN {
        Err(ActionValueError::Overflow)
    } else {
        Ok((e.executable_value_pico_bps - (q + c + d + u)) as i128)
    }
}

/// Whether `a` is worth strictly more than `b`, both valued conservatively.
pub open spec fn improves_spec(a: ActionEconomics, b: ActionEconomics) -> Result<bool, ActionValueError> {
    match conservative_spec(a) {
        Err(e) => Err(e),
        Ok(x) => match conservative_spec(b) {
            Err(e) => Err(e),
            Ok(y) => Ok(x > y),
        },
    }
}

impl ActionEconomics {
    pub fn conservative_value(self) -> (r: Result<i128, ActionValueError>)
        ensures
            r == conservative_spec(self),
    {
        if self.queue_priority_loss_pico_bps < 0 || self.cancel_race_loss_pico_bps < 0
            || self.deadline_loss_pico_bps < 0 || self.uncertainty_pico_bps < 0 {
            return Err(ActionValueError::NegativeCost);
        }
        let c1 = match self.queue_priority_loss_pico_bps.checked_add(self.cancel_race_loss_pico_bps) {
            Some(v) => v,
            None => {
                return Err(ActionValueError::Overflow);
            },
        };
        let c2 = match c1.checked_add(self.deadline_loss_pico_bps) {
            Some(v) => v,
            None => {
                return Err(ActionValueError::Overflow);
            },
        };
        let costs = match c2.checked_add(self.uncertainty_pico_bps) {
            Some(v) => v,
            None => {
                return Err(ActionValueError::Overflow);
            },
        };
        match self.executable_value_pico_bps.checked_sub(costs) {
            Some(v) => Ok(v),
            None => Err(ActionValueError::Overflow),
        }
    }

    /// Whether this action is worth strictly more than `alternative`.
    pub fn improves_on(self, alternative: Self) -> (r: Result<bool, ActionValueError>)
        ensures
            r == improves_spec(self, alternative),
    {
        let mine = match self.conservative_value() {
            Ok(v) => v,
            Err(e) => {
                return Err(e);
            },
        };
        let theirs = match alternative.conservative_value() {
            Ok(v) => v,
            Err(e) => {
                return Err(e);
            },
        };
        Ok(mine > theirs)
    }

    /// A requote is worth it only when the replacement improves on the
    /// current order after all of its transition costs.
    pub fn requote_is_worthwhile(current: Self, replacement: Self) -> (r: Result<bool, ActionValueError>)
        ensures
            r == improves_spec(replacement, current),
    {
        replacement.improves_on(current)
    }
}

#[derive(Clone, Copy, Debug, PartialEq, Eq, Structural)]
pub struct ActionChoice {
    pub kind: ActionKind,
    pub economics: ActionEconomics,
}

impl ActionChoice {
    pub fn beats(self, alternative: Self) -> (r: Result<bool, ActionValueError>)
        ensures
            r == improves_spec(self.economics, alternative.economics),
    {
        self.economics.improves_on(alternative.economics)
    }
}

/// Costs never add value: a conservative value is at most the executable
/// value, and lower by exactly the costs.
pub proof fn law_costs_never_add_value(e: ActionEconomics)
    requires
        conservative_spec(e) is Ok,
    ensures
        conservative_spec(e).get_Ok_0() <= e.executable_value_pico_bps,
        conservative_spec(e).get_Ok_0() == e.executable_value_pico_bps - e.queue_priority_loss_pico_bps
            - e.cancel_race_loss_pico_bps - e.deadline_loss_pico_bps - e.uncertainty_pico_bps,
{
}

/// Improvement is strict: two actions never each improve on the other, and
/// no action improves on itself.
pub proof fn law_improvement_is_strict(a: ActionEconomics, b: ActionEconomics)
    ensures
        !(improves_spec(a, b) == Ok::<bool, ActionValueError>(true) && improves_spec(b, a) == Ok::<bool, ActionValueError>(true)),
        improves_spec(a, a) != Ok::<bool, ActionValueError>(true),
{
}

} // verus!
