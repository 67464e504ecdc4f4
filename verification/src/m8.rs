//! M8 funding-aware robust anchor control: pure strategy arithmetic in
//! pico-basis-points, with no exchange, simulator or persistence dependency.
use crate::num::{
    abs_int, clamp_int, clamp_to_i64, div_trunc, max_int, sat_add_i64, sat_i64, sat_mul_i64,
    sat_sub_i64, sat_u64, sat_sub_u64, signum, signum_i64, trunc_div,
};
use vstd::prelude::*;

verus! {

pub const PICO_BPS_SCALE: i128 = 1_000_000_000_000;

#[derive(Debug, Clone, Copy, PartialEq, Eq, Structural)]
pub enum FundingAction {
    NoAction,
    Collect,
    Tolerate,
    Avoid,
    Exit,
}

#[derive(Debug, Clone, Copy, PartialEq, Eq, Structural)]
pub enum FundingRateStatus {
    Observed,
    Missing,
    Stale,
    Special,
    Unknown,
}

#[derive(Debug, Clone, Copy)]
pub struct M8Input {
    pub now_ms: u64,
    pub anchor_ticks: i64,
    pub mid_ticks: i64,
    pub mark_ticks: i64,
    pub index_ticks: i64,
    pub position: i64,
    pub max_position: i64,
    pub funding_rate_e8: Option<i64>,
    pub next_funding_ms: Option<u64>,
    pub funding_rate_status: FundingRateStatus,
    pub fee_ppm: i64,
    /// Compatibility display fields; exact calculations use pico-bps.
    pub volatility_bps: i64,
    pub spread_bps: i64,
    pub model_uncertainty_bps: i64,
    pub liquidation_buffer_bps: i64,
    pub volatility_pico_bps: i64,
    pub spread_pico_bps: i64,
    pub model_uncertainty_pico_bps: i64,
    pub liquidation_buffer_pico_bps: i64,
}

#[derive(Debug, Clone, Copy, PartialEq, Eq)]
pub struct M8Decision {
    pub action: FundingAction,
    pub allow_entry: bool,
    pub reduce_only: bool,
    pub side: i8,
    pub anchor_edge_bps: i64,
    pub funding_carry_bps: i64,
    pub total_cost_bps: i64,
    pub net_edge_bps: i64,
    pub safety_margin_bps: i64,
    pub anchor_edge_pico_bps: i64,
    pub funding_carry_pico_bps: i64,
    pub total_cost_pico_bps: i64,
    pub net_edge_pico_bps: i64,
    pub safety_margin_pico_bps: i64,
    pub reason: &'static str,
}

/// `num / den` expressed in pico-basis-points, zero unless both are positive.
pub open spec fn pico_bps_spec(num: int, den: int) -> int {
    if num <= 0 || den <= 0 {
        0
    } else {
        clamp_int(num * 10_000 * (PICO_BPS_SCALE as int) / den, 0, i64::MAX as int)
    }
}

/// Pico-bps rounded half away from zero to whole basis points.
pub open spec fn pico_to_bps_spec(value: int) -> int {
    if value == 0 {
        0
    } else {
        let rounded = clamp_int(
            (abs_int(value) + (PICO_BPS_SCALE as int) / 2) / (PICO_BPS_SCALE as int),
            0,
            i64::MAX as int,
        );
        if value >= 0 {
            rounded
        } else {
            -rounded
        }
    }
}

pub open spec fn bps_to_pico_spec(value: int) -> int {
    sat_i64(value * (PICO_BPS_SCALE as int))
}

pub open spec fn ppm_to_pico_bps_spec(ppm: int) -> int {
    if ppm <= 0 {
        0
    } else {
        clamp_int(ppm * (PICO_BPS_SCALE as int) / 100, 0, i64::MAX as int)
    }
}

pub open spec fn exact_or_bps_spec(pico: int, bps: int) -> int {
    if pico != 0 {
        pico
    } else {
        bps_to_pico_spec(bps)
    }
}

/// The side the anchor points to (+1 buy below anchor, -1 sell above) and
/// the size of the gap in pico-bps of the mid.
pub open spec fn signed_edge_spec(anchor: int, mid: int) -> (int, int) {
    if mid < anchor {
        (1, pico_bps_spec(anchor - mid, mid))
    } else if mid > anchor {
        (-1, pico_bps_spec(mid - anchor, mid))
    } else {
        (0, 0)
    }
}

/// Funding carried by a position on `side` at rate `rate_e8` (1e-8 units);
/// longs pay positive funding.
pub open spec fn funding_carry_spec(side: int, rate_e8: Option<i64>) -> int {
    match rate_e8 {
        Some(rate) => sat_i64(trunc_div(-side * rate * (PICO_BPS_SCALE as int), 10_000)),
        None => 0,
    }
}

pub open spec fn m8_input_valid(input: M8Input) -> bool {
    &&& input.anchor_ticks > 0
    &&& input.mid_ticks > 0
    &&& input.mark_ticks > 0
    &&& input.index_ticks > 0
    &&& input.max_position > 0
    &&& input.fee_ppm >= 0
    &&& input.volatility_bps >= 0
    &&& input.spread_bps >= 0
    &&& input.model_uncertainty_bps >= 0
    &&& input.liquidation_buffer_bps >= 0
    &&& input.volatility_pico_bps >= 0
    &&& input.spread_pico_bps >= 0
    &&& input.model_uncertainty_pico_bps >= 0
    &&& input.liquidation_buffer_pico_bps >= 0
}

pub open spec fn funding_rate_usable(input: M8Input) -> bool {
    input.funding_rate_status != FundingRateStatus::Unknown && input.funding_rate_status
        != FundingRateStatus::Missing && input.next_funding_ms is Some
}

/// Total conservative cost: both-way fees, volatility, half the spread,
/// model uncertainty and the liquidation buffer, saturating at each step.
pub open spec fn costs_pico_spec(input: M8Input) -> int {
    let volatility = max_int(exact_or_bps_spec(input.volatility_pico_bps as int, input.volatility_bps as int), 0);
    let spread = max_int(exact_or_bps_spec(input.spread_pico_bps as int, input.spread_bps as int), 0);
    let uncertainty = max_int(exact_or_bps_spec(input.model_uncertainty_pico_bps as int, input.model_uncertainty_bps as int), 0);
    let buffer = max_int(exact_or_bps_spec(input.liquidation_buffer_pico_bps as int, input.liquidation_buffer_bps as int), 0);
    sat_i64(sat_i64(sat_i64(sat_i64(ppm_to_pico_bps_spec(sat_i64(input.fee_ppm * 2)) + volatility) + spread / 2) + uncertainty) + buffer)
}

pub open spec fn m8_side(input: M8Input) -> int {
    let held = signum(input.position as int);
    if held != 0 {
        held
    } else {
        signed_edge_spec(input.anchor_ticks as int, input.mid_ticks as int).0
    }
}

pub open spec fn m8_net_pico(input: M8Input) -> int {
    let edge = signed_edge_spec(input.anchor_ticks as int, input.mid_ticks as int).1;
    let carry = funding_carry_spec(m8_side(input), input.funding_rate_e8);
    sat_i64(sat_i64(edge + carry) - costs_pico_spec(input))
}

pub open spec fn m8_safety_pico(input: M8Input) -> int {
    sat_i64(costs_pico_spec(input) + bps_to_pico_spec(5))
}

pub open spec fn m8_near_funding(input: M8Input) -> bool {
    sat_u64(input.next_funding_ms.unwrap() - input.now_ms) <= 300_000
}

/// The action M8 takes, checked in order: fail closed on invalid input or
/// unusable funding; exit a held position whose net edge is gone or whose
/// funding is special; wait when no anchor edge is observable; collect
/// carry near funding; tolerate when the net edge clears the safety margin;
/// otherwise avoid.
pub open spec fn m8_action(input: M8Input) -> FundingAction {
    let (signal_side, edge) = signed_edge_spec(input.anchor_ticks as int, input.mid_ticks as int);
    let carry = funding_carry_spec(m8_side(input), input.funding_rate_e8);
    let net = m8_net_pico(input);
    let safety = m8_safety_pico(input);
    if !m8_input_valid(input) || !funding_rate_usable(input) {
        FundingAction::NoAction
    } else if input.position != 0 && (net <= 0 || input.funding_rate_status == FundingRateStatus::Special) {
        FundingAction::Exit
    } else if signal_side == 0 || edge <= 0 {
        FundingAction::NoAction
    } else if m8_near_funding(input) && carry > 0 && net > safety {
        FundingAction::Collect
    } else if net > safety {
        FundingAction::Tolerate
    } else {
        FundingAction::Avoid
    }
}

/// The figures M8 reports with a decision made on valid, usable input.
pub open spec fn m8_figures_reported(input: M8Input, d: M8Decision) -> bool {
    let edge = signed_edge_spec(input.anchor_ticks as int, input.mid_ticks as int).1;
    let carry = funding_carry_spec(m8_side(input), input.funding_rate_e8);
    let costs = costs_pico_spec(input);
    &&& d.side as int == m8_side(input)
    &&& d.anchor_edge_pico_bps as int == edge
    &&& d.funding_carry_pico_bps as int == carry
    &&& d.total_cost_pico_bps as int == costs
    &&& d.net_edge_pico_bps as int == m8_net_pico(input)
    &&& d.safety_margin_pico_bps as int == m8_safety_pico(input)
    &&& d.anchor_edge_bps as int == pico_to_bps_spec(edge)
    &&& d.funding_carry_bps as int == pico_to_bps_spec(carry)
    &&& d.total_cost_bps as int == pico_to_bps_spec(costs)
    &&& d.net_edge_bps as int == pico_to_bps_spec(m8_net_pico(input))
    &&& d.safety_margin_bps as int == pico_to_bps_spec(m8_safety_pico(input))
}

pub open spec fn m8_reason(action: FundingAction, input: M8Input) -> Seq<char> {
    if !m8_input_valid(input) || !funding_rate_usable(input) {
        "invalid_or_unknown_state"@
    } else {
        match action {
            FundingAction::Exit => "held_edge_not_compensating_funding_or_special"@,
            FundingAction::NoAction => "anchor_edge_not_observable"@,
            FundingAction::Collect => "carry_and_anchor_edge_cover_tail_cost"@,
            FundingAction::Tolerate => "anchor_edge_covers_funding_and_cost"@,
            FundingAction::Avoid => "funding_or_tail_cost_exceeds_conservative_edge"@,
        }
    }
}

fn pico_bps(num: i64, den: i64) -> (r: i64)
    ensures
        r as int == pico_bps_spec(num as int, den as int),
{
    if num <= 0 || den <= 0 {
        return 0;
    }
    assert(0 < (num as int) * 10_000 * PICO_BPS_SCALE <= 0x7FFF_FFFF_FFFF_FFFF * 10_000 * 1_000_000_000_000) by (nonlinear_arith)
        requires
            0 < num <= 0x7FFF_FFFF_FFFF_FFFF,
            PICO_BPS_SCALE == 1_000_000_000_000,
    ;
    let scaled = (num as i128) * 10_000 * PICO_BPS_SCALE / (den as i128);
    clamp_to_i64(scaled)
}

fn pico_to_bps(value: i64) -> (r: i64)
    ensures
        r as int == pico_to_bps_spec(value as int),
{
    if value == 0 {
        return 0;
    }
    let magnitude: i128 = if value < 0 {
        -(value as i128)
    } else {
        value as i128
    };
    let rounded_wide = (magnitude + PICO_BPS_SCALE / 2) / PICO_BPS_SCALE;
    let rounded: i64 = if rounded_wide > i64::MAX as i128 {
        i64::MAX
    } else {
        rounded_wide as i64
    };
    if value >= 0 {
        rounded
    } else {
        -rounded
    }
}

fn bps_to_pico(value: i64) -> (r: i64)
    ensures
        r as int == bps_to_pico_spec(value as int),
{
    assert(-0x8000_0000_0000_0000 * 1_000_000_000_000 <= (value as int) * PICO_BPS_SCALE <= 0x7FFF_FFFF_FFFF_FFFF * 1_000_000_000_000) by (nonlinear_arith)
        requires
            -0x8000_0000_0000_0000 <= value <= 0x7FFF_FFFF_FFFF_FFFF,
            PICO_BPS_SCALE == 1_000_000_000_000,
    ;
    clamp_to_i64((value as i128) * PICO_BPS_SCALE)
}

fn ppm_to_pico_bps(ppm: i64) -> (r: i64)
    ensures
        r as int == ppm_to_pico_bps_spec(ppm as int),
{
    if ppm <= 0 {
        return 0;
    }
    assert(0 < (ppm as int) * PICO_BPS_SCALE <= 0x7FFF_FFFF_FFFF_FFFF * 1_000_000_000_000) by (nonlinear_arith)
        requires
            0 < ppm <= 0x7FFF_FFFF_FFFF_FFFF,
            PICO_BPS_SCALE == 1_000_000_000_000,
    ;
    clamp_to_i64((ppm as i128) * PICO_BPS_SCALE / 100)
}

fn exact_or_bps(pico: i64, bps: i64) -> (r: i64)
    ensures
        r as int == exact_or_bps_spec(pico as int, bps as int),
{
    if pico != 0 {
        pico
    } else {
        bps_to_pico(bps)
    }
}

fn signed_edge(anchor: i64, mid: i64) -> (r: (i8, i64))
    requires
        anchor > 0,
        mid > 0,
    ensures
        r.0 as int == signed_edge_spec(anchor as int, mid as int).0,
        r.1 as int == signed_edge_spec(anchor as int, mid as int).1,
{
    if mid < anchor {
        (1, pico_bps(anchor - mid, mid))
    } else if mid > anchor {
        (-1, pico_bps(mid - anchor, mid))
    } else {
        (0, 0)
    }
}

fn funding_carry(side: i8, rate_e8: Option<i64>) -> (r: i64)
    requires
        -1 <= side <= 1,
    ensures
        r as int == funding_carry_spec(side as int, rate_e8),
{
    match rate_e8 {
        Some(rate) => {
            assert(-0x8000_0000_0000_0000 * 1_000_000_000_000 <= -(side as int) * (rate as int) * PICO_BPS_SCALE <= 0x8000_0000_0000_0000 * 1_000_000_000_000) by (nonlinear_arith)
                requires
                    -1 <= side <= 1,
                    -0x8000_0000_0000_0000 <= rate <= 0x7FFF_FFFF_FFFF_FFFF,
                    PICO_BPS_SCALE == 1_000_000_000_000,
            ;
            let product = -(side as i128) * (rate as i128) * PICO_BPS_SCALE;
            clamp_to_i64(div_trunc(product, 10_000))
        },
        None => 0,
    }
}

fn max0(v: i64) -> (r: i64)
    ensures
        r as int == max_int(v as int, 0),
{
    if v >= 0 {
        v
    } else {
        0
    }
}

fn decision(
    action: FundingAction,
    allow_entry: bool,
    reduce_only: bool,
    side: i8,
    edge: i64,
    carry: i64,
    costs: i64,
    net: i64,
    safety: i64,
    reason: &'static str,
) -> (r: M8Decision)
    ensures
        r.action == action,
        r.allow_entry == allow_entry,
        r.reduce_only == reduce_only,
        r.side == side,
        r.anchor_edge_pico_bps == edge,
        r.funding_carry_pico_bps == carry,
        r.total_cost_pico_bps == costs,
        r.net_edge_pico_bps == net,
        r.safety_margin_pico_bps == safety,
        r.anchor_edge_bps as int == pico_to_bps_spec(edge as int),
        r.funding_carry_bps as int == pico_to_bps_spec(carry as int),
        r.total_cost_bps as int == pico_to_bps_spec(costs as int),
        r.net_edge_bps as int == pico_to_bps_spec(net as int),
        r.safety_margin_bps as int == pico_to_bps_spec(safety as int),
        r.reason@ == reason@,
{
    M8Decision {
        action,
        allow_entry,
        reduce_only,
        side,
        anchor_edge_bps: pico_to_bps(edge),
        funding_carry_bps: pico_to_bps(carry),
        total_cost_bps: pico_to_bps(costs),
        net_edge_bps: pico_to_bps(net),
        safety_margin_bps: pico_to_bps(safety),
        anchor_edge_pico_bps: edge,
        funding_carry_pico_bps: carry,
        total_cost_pico_bps: costs,
        net_edge_pico_bps: net,
        safety_margin_pico_bps: safety,
        reason,
    }
}

/// Decides whether to enter, hold, avoid or exit given the anchor edge,
/// funding carry and conservative costs.
pub fn decide(input: M8Input) -> (r: M8Decision)
    ensures
        r.action == m8_action(input),
        r.reason@ == m8_reason(r.action, input),
        r.allow_entry == (r.action == FundingAction::Collect || r.action == FundingAction::Tolerate),
        r.reduce_only == (r.action == FundingAction::Exit || (r.action == FundingAction::Avoid && input.position != 0)),
        !m8_input_valid(input) || !funding_rate_usable(input) ==> r == (M8Decision {
            action: FundingAction::NoAction,
            allow_entry: false,
            reduce_only: false,
            side: 0,
            anchor_edge_bps: 0,
            funding_carry_bps: 0,
            total_cost_bps: i64::MAX,
            net_edge_bps: i64::MIN,
            safety_margin_bps: 0,
            anchor_edge_pico_bps: 0,
            funding_carry_pico_bps: 0,
            total_cost_pico_bps: i64::MAX,
            net_edge_pico_bps: i64::MIN,
            safety_margin_pico_bps: 0,
            reason: r.reason,
        }),
        m8_input_valid(input) && funding_rate_usable(input) ==> m8_figures_reported(input, r),
{
    let zero = M8Decision {
        action: FundingAction::NoAction,
        allow_entry: false,
        reduce_only: false,
        side: 0,
        anchor_edge_bps: 0,
        funding_carry_bps: 0,
        total_cost_bps: i64::MAX,
        net_edge_bps: i64::MIN,
        safety_margin_bps: 0,
        anchor_edge_pico_bps: 0,
        funding_carry_pico_bps: 0,
        total_cost_pico_bps: i64::MAX,
        net_edge_pico_bps: i64::MIN,
        safety_margin_pico_bps: 0,
        reason: "invalid_or_unknown_state",
    };
    if input.anchor_ticks <= 0 || input.mid_ticks <= 0 || input.mark_ticks <= 0
        || input.index_ticks <= 0 || input.max_position <= 0 || input.fee_ppm < 0
        || input.volatility_bps < 0 || input.spread_bps < 0 || input.model_uncertainty_bps < 0
        || input.liquidation_buffer_bps < 0 || input.volatility_pico_bps < 0
        || input.spread_pico_bps < 0 || input.model_uncertainty_pico_bps < 0
        || input.liquidation_buffer_pico_bps < 0 {
        return zero;
    }
    if input.funding_rate_status == FundingRateStatus::Unknown || input.funding_rate_status
        == FundingRateStatus::Missing || input.next_funding_ms.is_none() {
        return zero;
    }
    let (signal_side, anchor_edge_pico) = signed_edge(input.anchor_ticks, input.mid_ticks);
    let held_side = signum_i64(input.position) as i8;
    let side: i8 = if held_side != 0 {
        held_side
    } else {
        signal_side
    };
    let carry_pico = funding_carry(side, input.funding_rate_e8);
    let volatility_pico = max0(exact_or_bps(input.volatility_pico_bps, input.volatility_bps));
    let spread_pico = max0(exact_or_bps(input.spread_pico_bps, input.spread_bps));
    let uncertainty_pico = max0(exact_or_bps(input.model_uncertainty_pico_bps, input.model_uncertainty_bps));
    let liquidation_buffer_pico = max0(exact_or_bps(input.liquidation_buffer_pico_bps, input.liquidation_buffer_bps));
    let costs_pico = sat_add_i64(
        sat_add_i64(
            sat_add_i64(
                sat_add_i64(ppm_to_pico_bps(sat_mul_i64(input.fee_ppm, 2)), volatility_pico),
                spread_pico / 2,
            ),
            uncertainty_pico,
        ),
        liquidation_buffer_pico,
    );
    let net_pico = sat_sub_i64(sat_add_i64(anchor_edge_pico, carry_pico), costs_pico);
    let next_funding = match input.next_funding_ms {
        Some(v) => v,
        None => 0,
    };
    let remaining = sat_sub_u64(next_funding, input.now_ms);
    let near_funding = remaining <= 5 * 60 * 1_000;
    let safety_pico = sat_add_i64(costs_pico, bps_to_pico(5));
    if input.position != 0 && (net_pico <= 0 || input.funding_rate_status
        == FundingRateStatus::Special) {
        return decision(FundingAction::Exit, false, true, side, anchor_edge_pico, carry_pico,
            costs_pico, net_pico, safety_pico, "held_edge_not_compensating_funding_or_special");
    }
    if signal_side == 0 || anchor_edge_pico <= 0 {
        return decision(FundingAction::NoAction, false, false, side, anchor_edge_pico, carry_pico,
            costs_pico, net_pico, safety_pico, "anchor_edge_not_observable");
    }
    if near_funding && carry_pico > 0 && net_pico > safety_pico {
        return decision(FundingAction::Collect, true, false, side, anchor_edge_pico, carry_pico,
            costs_pico, net_pico, safety_pico, "carry_and_anchor_edge_cover_tail_cost");
    }
    if net_pico > safety_pico {
        return decision(FundingAction::Tolerate, true, false, side, anchor_edge_pico, carry_pico,
            costs_pico, net_pico, safety_pico, "anchor_edge_covers_funding_and_cost");
    }
    decision(FundingAction::Avoid, false, input.position != 0, side, anchor_edge_pico,
        carry_pico, costs_pico, net_pico, safety_pico,
        "funding_or_tail_cost_exceeds_conservative_edge")
}

/// A decision never both opens exposure and reduces it, and entry is only
/// ever allowed when the net edge clears the safety margin.
pub proof fn law_entry_requires_margin(input: M8Input, d: M8Decision)
    requires
        d.action == m8_action(input),
        d.allow_entry == (d.action == FundingAction::Collect || d.action == FundingAction::Tolerate),
        d.reduce_only == (d.action == FundingAction::Exit || (d.action == FundingAction::Avoid && input.position != 0)),
    ensures
        !(d.allow_entry && d.reduce_only),
        d.allow_entry ==> m8_net_pico(input) > m8_safety_pico(input) && m8_input_valid(input)
            && funding_rate_usable(input),
{
}

/// A held position decides the side: the decision's side is the sign of
/// the position, and the funding carry it reports is the one that position
/// pays or receives (a long pays positive funding, a short receives it).
/// Only a flat book takes its side from the anchor signal.
pub proof fn law_held_position_sets_side_and_carry(input: M8Input, d: M8Decision)
    requires
        m8_input_valid(input),
        funding_rate_usable(input),
        m8_figures_reported(input, d),
    ensures
        input.position > 0 ==> d.side == 1,
        input.position < 0 ==> d.side == -1,
        input.position != 0 ==> d.funding_carry_pico_bps as int == funding_carry_spec(
            signum(input.position as int),
            input.funding_rate_e8,
        ),
        input.position > 0 && (input.funding_rate_e8 matches Some(rate) && rate > 0) ==> d.funding_carry_pico_bps <= 0,
        input.position < 0 && (input.funding_rate_e8 matches Some(rate) && rate > 0) ==> d.funding_carry_pico_bps >= 0,
        input.position == 0 ==> d.side as int == signed_edge_spec(input.anchor_ticks as int, input.mid_ticks as int).0,
{
    if let Some(rate) = input.funding_rate_e8 {
        if rate > 0 {
            let x = (PICO_BPS_SCALE as int) * rate;
            assert(x > 0) by (nonlinear_arith)
                requires
                    rate > 0,
                    x == (PICO_BPS_SCALE as int) * rate,
            ;
            assert(-1 * rate * (PICO_BPS_SCALE as int) == -x) by (nonlinear_arith)
                requires
                    x == (PICO_BPS_SCALE as int) * rate,
            ;
            assert(-(1int) * rate * (PICO_BPS_SCALE as int) == -x) by (nonlinear_arith)
                requires
                    x == (PICO_BPS_SCALE as int) * rate,
            ;
            assert(-(-1int) * rate * (PICO_BPS_SCALE as int) == x) by (nonlinear_arith)
                requires
                    x == (PICO_BPS_SCALE as int) * rate,
            ;
            assert(trunc_div(-x, 10_000) <= 0);
            assert(trunc_div(x, 10_000) >= 0);
        }
    }
}

} // verus!
