use anchorbell_engine::action::{ActionChoice, ActionEconomics, ActionKind, ActionValueError};

fn economics(value: i128, queue: i128, cancel: i128, deadline: i128, uncertainty: i128) -> ActionEconomics {
    ActionEconomics {
        executable_value_pico_bps: value,
        queue_priority_loss_pico_bps: queue,
        cancel_race_loss_pico_bps: cancel,
        deadline_loss_pico_bps: deadline,
        uncertainty_pico_bps: uncertainty,
    }
}

#[test]
fn requote_requires_net_improvement_after_all_transition_costs() {
    let current = economics(1_000, 100, 20, 30, 50);
    let replacement = economics(1_200, 180, 40, 30, 50);
    assert!(ActionEconomics::requote_is_worthwhile(current, replacement).unwrap());
    let expensive = economics(1_200, 250, 80, 30, 50);
    assert!(!ActionEconomics::requote_is_worthwhile(current, expensive).unwrap());
}

#[test]
fn unknown_or_negative_costs_never_become_free_value() {
    let invalid = economics(100, -1, 0, 0, 0);
    assert_eq!(invalid.conservative_value(), Err(ActionValueError::NegativeCost));
}

#[test]
fn conservative_value_subtracts_every_cost() {
    assert_eq!(economics(1_000, 100, 20, 30, 50).conservative_value(), Ok(800));
}

#[test]
fn cost_overflow_is_reported_not_wrapped() {
    assert_eq!(economics(0, i128::MAX, 1, 0, 0).conservative_value(), Err(ActionValueError::Overflow));
    assert_eq!(economics(i128::MIN, 1, 0, 0, 0).conservative_value(), Err(ActionValueError::Overflow));
}

#[test]
fn improvement_is_strict_both_ways() {
    let a = economics(1_000, 0, 0, 0, 0);
    assert_eq!(a.improves_on(a), Ok(false));
    let b = economics(900, 0, 0, 0, 0);
    assert_eq!(a.improves_on(b), Ok(true));
    assert_eq!(b.improves_on(a), Ok(false));
    let choice = ActionChoice { kind: ActionKind::Place, economics: a };
    let wait = ActionChoice { kind: ActionKind::Wait, economics: b };
    assert_eq!(choice.beats(wait), Ok(true));
}
