//! Adaptive emergency taker: decides when a residual position must leave the
//! book aggressively instead of waiting for the passive maker order.
use crate::execution::intent::Side;
use crate::num::{
    clamp_int, clamp_to_i64, max_int, min_int, sat_add_i64, sat_i64, sat_mul_i64, sat_mul_u64,
    sat_sub_i64, sat_sub_u64, sat_u64,
};
use vstd::prelude::*;

verus! {

#[derive(Debug, Clone, Copy, PartialEq, Eq, Structural)]
pub struct EmergencyExecutionPolicy {
    pub max_slippage_bps: i64,
    pub max_participation_bps: u16,
    pub minimum_maker_confidence_bps: u16,
    pub cooldown_ms: u64,
    pub safety_buffer_ms: u64,
    pub taker_fee_ppm: i64,
    pub urgency_cost_bps_per_second: i64,
    pub deadline_penalty_bps: i64,
    pub cost_margin_bps: i64,
}

impl Default for EmergencyExecutionPolicy {
    fn default() -> (r: Self)
        ensures
            r == (EmergencyExecutionPolicy {
                max_slippage_bps: 25,
                max_participation_bps: 5_000,
                minimum_maker_confidence_bps: 7_000,
                cooldown_ms: 1_000,
                safety_buffer_ms: 1_000,
                taker_fee_ppm: 400,
                urgency_cost_bps_per_second: 2,
                deadline_penalty_bps: 100,
                cost_margin_bps: 1,
            }),
    {
        Self {
            max_slippage_bps: 25,
            max_participation_bps: 5_000,
            minimum_maker_confidence_bps: 7_000,
            cooldown_ms: 1_000,
            safety_buffer_ms: 1_000,
            taker_fee_ppm: 400,
            urgency_cost_bps_per_second: 2,
            deadline_penalty_bps: 100,
            cost_margin_bps: 1,
        }
    }
}

impl EmergencyExecutionPolicy {
    pub open spec fn valid(self) -> bool {
        &&& self.max_slippage_bps > 0
        &&& self.max_participation_bps != 0
        &&& self.max_participation_bps <= 10_000
        &&& self.minimum_maker_confidence_bps <= 10_000
        &&& self.taker_fee_ppm >= 0
        &&& self.urgency_cost_bps_per_second >= 0
        &&& self.deadline_penalty_bps >= 0
        &&& self.cost_margin_bps >= 0
    }

    pub fn validate(&self) -> (r: Result<(), &'static str>)
        ensures
            r is Ok <==> self.valid(),
            r matches Err(message) ==> message@ == "invalid emergency execution policy"@,
    {
        if self.max_slippage_bps <= 0 || self.max_participation_bps == 0
            || self.max_participation_bps > 10_000 || self.minimum_maker_confidence_bps > 10_000
            || self.taker_fee_ppm < 0 || self.urgency_cost_bps_per_second < 0
            || self.deadline_penalty_bps < 0 || self.cost_margin_bps < 0 {
            return Err("invalid emergency execution policy");
        }
        Ok(())
    }
}

#[derive(Debug, Clone, Copy, PartialEq, Eq, Structural)]
pub enum TakerTrigger {
    MakerCannotMeetDeadline,
    WaitingCostExceedsTakerCost,
}

impl TakerTrigger {
    pub fn label(self) -> (r: &'static str)
        ensures
            r@ == (match self {
                TakerTrigger::MakerCannotMeetDeadline => "maker_cannot_meet_deadline"@,
                TakerTrigger::WaitingCostExceedsTakerCost => "waiting_cost_exceeds_taker_cost"@,
            }),
    {
        match self {
            Self::MakerCannotMeetDeadline => "maker_cannot_meet_deadline",
            Self::WaitingCostExceedsTakerCost => "waiting_cost_exceeds_taker_cost",
        }
    }
}

#[derive(Debug, Clone, Copy, PartialEq, Eq, Structural)]
pub enum TakerBlockReason {
    Flat,
    UnknownRemoteState,
    StaleMarket,
    InvalidBook,
    MarkIndexDivergence,
    NoDeadline,
    Cooldown,
    NoSafeQuantity,
    KeepMakerWorking,
}

impl TakerBlockReason {
    pub fn label(self) -> (r: &'static str)
        ensures
            r@ == (match self {
                TakerBlockReason::Flat => "flat"@,
                TakerBlockReason::UnknownRemoteState => "unknown_remote_state"@,
                TakerBlockReason::StaleMarket => "stale_market"@,
                TakerBlockReason::InvalidBook => "invalid_book"@,
                TakerBlockReason::MarkIndexDivergence => "mark_index_divergence"@,
                TakerBlockReason::NoDeadline => "no_deadline"@,
                TakerBlockReason::Cooldown => "cooldown"@,
                TakerBlockReason::NoSafeQuantity => "no_safe_quantity"@,
                TakerBlockReason::KeepMakerWorking => "keep_maker_working"@,
            }),
    {
        match self {
            Self::Flat => "flat",
            Self::UnknownRemoteState => "unknown_remote_state",
            Self::StaleMarket => "stale_market",
            Self::InvalidBook => "invalid_book",
            Self::MarkIndexDivergence => "mark_index_divergence",
            Self::NoDeadline => "no_deadline",
            Self::Cooldown => "cooldown",
            Self::NoSafeQuantity => "no_safe_quantity",
            Self::KeepMakerWorking => "keep_maker_working",
        }
    }
}

#[derive(Debug, Clone, Copy, PartialEq, Eq, Structural)]
pub struct AdaptiveTakerInput {
    pub now_ms: u64,
    pub deadline_ms: Option<u64>,
    pub position: i64,
    pub maker_remaining_quantity: i64,
    pub maker_estimated_time_ms: u64,
    pub maker_confidence_bps: u16,
    pub bid_price_ticks: i64,
    pub ask_price_ticks: i64,
    pub bid_quantity: i64,
    pub ask_quantity: i64,
    pub market_age_ms: u64,
    pub book_age_ms: u64,
    pub remote_state_known: bool,
    pub anchor_valid: bool,
    pub mark_index_gap_bps: Option<i64>,
    pub max_mark_index_gap_bps: i64,
    pub volatility_bps: i64,
    pub last_taker_at_ms: Option<u64>,
}

#[derive(Debug, Clone, Copy, PartialEq, Eq, Structural)]
pub struct TakerDecision {
    pub side: Side,
    pub price_ticks: i64,
    pub quantity: i64,
    pub trigger: TakerTrigger,
    pub maker_slack_ms: i64,
    pub taker_cost_bps: i64,
    pub waiting_cost_bps: i64,
}

#[derive(Debug, Clone, Copy, PartialEq, Eq, Structural)]
pub enum AdaptiveTakerDecision {
    Submit(TakerDecision),
    Hold(TakerBlockReason),
}

/// The first safety gate that blocks a taker exit, if any, in the order the
/// gates are checked.
pub open spec fn taker_gate(policy: EmergencyExecutionPolicy, input: AdaptiveTakerInput) -> Option<TakerBlockReason> {
    let stale_limit = sat_u64(policy.safety_buffer_ms * 5);
    if !policy.valid() {
        Some(TakerBlockReason::NoSafeQuantity)
    } else if input.position == 0 {
        Some(TakerBlockReason::Flat)
    } else if !input.remote_state_known {
        Some(TakerBlockReason::UnknownRemoteState)
    } else if !input.anchor_valid || input.market_age_ms > stale_limit {
        Some(TakerBlockReason::StaleMarket)
    } else if input.book_age_ms > stale_limit || input.bid_price_ticks <= 0
        || input.ask_price_ticks <= input.bid_price_ticks || input.bid_quantity <= 0
        || input.ask_quantity <= 0 {
        Some(TakerBlockReason::InvalidBook)
    } else if input.max_mark_index_gap_bps < 0 || match input.mark_index_gap_bps {
        Some(gap) => gap < 0 || gap > input.max_mark_index_gap_bps,
        None => true,
    } {
        Some(TakerBlockReason::MarkIndexDivergence)
    } else if input.deadline_ms is None {
        Some(TakerBlockReason::NoDeadline)
    } else if match input.last_taker_at_ms {
        Some(last) => sat_u64(input.now_ms - last) < policy.cooldown_ms,
        None => false,
    } {
        Some(TakerBlockReason::Cooldown)
    } else {
        None
    }
}

/// Time the maker order has to spare before the deadline, after its expected
/// fill time and the safety buffer.
pub open spec fn maker_slack(policy: EmergencyExecutionPolicy, input: AdaptiveTakerInput) -> int {
    sat_u64(input.deadline_ms.unwrap() - input.now_ms) - input.maker_estimated_time_ms
        - policy.safety_buffer_ms
}

pub open spec fn position_quantity(input: AdaptiveTakerInput) -> int {
    if input.position == i64::MIN {
        i64::MAX as int
    } else if input.position < 0 {
        -input.position
    } else {
        input.position as int
    }
}

pub open spec fn opposing_depth(input: AdaptiveTakerInput) -> int {
    if input.position > 0 {
        input.bid_quantity as int
    } else {
        input.ask_quantity as int
    }
}

/// Cost of crossing now: spread, taker fee, depth impact and volatility.
pub open spec fn taker_cost(policy: EmergencyExecutionPolicy, input: AdaptiveTakerInput) -> int {
    let mid = (input.bid_price_ticks + input.ask_price_ticks) / 2;
    let spread = clamp_int((input.ask_price_ticks - input.bid_price_ticks) * 10_000 / mid, 0, i64::MAX as int);
    let impact = clamp_int(
        max_int(position_quantity(input), 1) * 10_000 / max_int(opposing_depth(input), 1),
        0,
        i64::MAX as int,
    );
    sat_i64(sat_i64(sat_i64(spread + policy.taker_fee_ppm / 100) + impact) + max_int(input.volatility_bps as int, 0))
}

/// Cost of waiting for the maker: urgency per expected second, plus the
/// deadline penalty when the maker cannot finish in time.
pub open spec fn waiting_cost(policy: EmergencyExecutionPolicy, input: AdaptiveTakerInput) -> int {
    sat_i64(
        sat_i64(max_int((input.maker_estimated_time_ms / 1_000) as int, 1) * policy.urgency_cost_bps_per_second)
            + if maker_slack(policy, input) < 0 { policy.deadline_penalty_bps as int } else { 0 },
    )
}

pub open spec fn maker_not_feasible(policy: EmergencyExecutionPolicy, input: AdaptiveTakerInput) -> bool {
    maker_slack(policy, input) < 0 || input.maker_confidence_bps < policy.minimum_maker_confidence_bps
}

/// The exit quantity: the position, capped by the maker's remaining quantity
/// and by the allowed participation in the opposing depth.
pub open spec fn exit_quantity(policy: EmergencyExecutionPolicy, input: AdaptiveTakerInput) -> int {
    let pq = position_quantity(input);
    let remaining = if input.maker_remaining_quantity > 0 {
        input.maker_remaining_quantity as int
    } else {
        pq
    };
    let capped = clamp_int(opposing_depth(input) * policy.max_participation_bps / 10_000, 0, i64::MAX as int);
    min_int(min_int(pq, remaining), capped)
}

/// A price `max_slippage_bps` through the touch (at least one tick), never
/// below one tick.
pub open spec fn aggressive_price(policy: EmergencyExecutionPolicy, price: int, buy: bool) -> int {
    let delta = clamp_int(price * policy.max_slippage_bps / 10_000, 1, i64::MAX as int);
    if buy {
        sat_i64(price + delta)
    } else {
        max_int(sat_i64(price - delta), 1)
    }
}

pub open spec fn taker_decision_spec(policy: EmergencyExecutionPolicy, input: AdaptiveTakerInput) -> AdaptiveTakerDecision {
    match taker_gate(policy, input) {
        Some(reason) => AdaptiveTakerDecision::Hold(reason),
        None => if !maker_not_feasible(policy, input) && waiting_cost(policy, input) <= sat_i64(
            taker_cost(policy, input) + policy.cost_margin_bps,
        ) {
            AdaptiveTakerDecision::Hold(TakerBlockReason::KeepMakerWorking)
        } else if exit_quantity(policy, input) <= 0 {
            AdaptiveTakerDecision::Hold(TakerBlockReason::NoSafeQuantity)
        } else {
            AdaptiveTakerDecision::Submit(
                TakerDecision {
                    side: if input.position > 0 { Side::Sell } else { Side::Buy },
                    price_ticks: (if input.position > 0 {
                        aggressive_price(policy, input.bid_price_ticks as int, false)
                    } else {
                        aggressive_price(policy, input.ask_price_ticks as int, true)
                    }) as i64,
                    quantity: exit_quantity(policy, input) as i64,
                    trigger: if maker_not_feasible(policy, input) {
                        TakerTrigger::MakerCannotMeetDeadline
                    } else {
                        TakerTrigger::WaitingCostExceedsTakerCost
                    },
                    maker_slack_ms: sat_i64(maker_slack(policy, input)) as i64,
                    taker_cost_bps: taker_cost(policy, input) as i64,
                    waiting_cost_bps: waiting_cost(policy, input) as i64,
                },
            )
        },
    }
}

fn aggressive_price_exec(price: i64, slippage: i64, buy: bool) -> (r: i64)
    requires
        price > 0,
        slippage > 0,
    ensures
        r as int == aggressive_price(
            EmergencyExecutionPolicy {
                max_slippage_bps: slippage,
                max_participation_bps: 0,
                minimum_maker_confidence_bps: 0,
                cooldown_ms: 0,
                safety_buffer_ms: 0,
                taker_fee_ppm: 0,
                urgency_cost_bps_per_second: 0,
                deadline_penalty_bps: 0,
                cost_margin_bps: 0,
            },
            price as int,
            buy,
        ),
{
    assert(0 < (price as int) * (slippage as int) <= 0x7FFF_FFFF_FFFF_FFFF * 0x7FFF_FFFF_FFFF_FFFF) by (nonlinear_arith)
        requires
            0 < price <= 0x7FFF_FFFF_FFFF_FFFF,
            0 < slippage <= 0x7FFF_FFFF_FFFF_FFFF,
    ;
    let wide = (price as i128) * (slippage as i128) / 10_000;
    let delta: i64 = if wide < 1 {
        1
    } else if wide > i64::MAX as i128 {
        i64::MAX
    } else {
        wide as i64
    };
    if buy {
        sat_add_i64(price, delta)
    } else {
        let lowered = sat_sub_i64(price, delta);
        if lowered >= 1 {
            lowered
        } else {
            1
        }
    }
}

/// Holds or submits an emergency reduce-only taker order.
pub fn decide(policy: EmergencyExecutionPolicy, input: AdaptiveTakerInput) -> (r: AdaptiveTakerDecision)
    ensures
        r == taker_decision_spec(policy, input),
{
    if policy.validate().is_err() {
        return AdaptiveTakerDecision::Hold(TakerBlockReason::NoSafeQuantity);
    }
    if input.position == 0 {
        return AdaptiveTakerDecision::Hold(TakerBlockReason::Flat);
    }
    if !input.remote_state_known {
        return AdaptiveTakerDecision::Hold(TakerBlockReason::UnknownRemoteState);
    }
    let stale_limit = sat_mul_u64(policy.safety_buffer_ms, 5);
    if !input.anchor_valid || input.market_age_ms > stale_limit {
        return AdaptiveTakerDecision::Hold(TakerBlockReason::StaleMarket);
    }
    if input.book_age_ms > stale_limit || input.bid_price_ticks <= 0 || input.ask_price_ticks
        <= input.bid_price_ticks || input.bid_quantity <= 0 || input.ask_quantity <= 0 {
        return AdaptiveTakerDecision::Hold(TakerBlockReason::InvalidBook);
    }
    let gap_invalid = match input.mark_index_gap_bps {
        Some(gap) => gap < 0 || gap > input.max_mark_index_gap_bps,
        None => true,
    };
    if input.max_mark_index_gap_bps < 0 || gap_invalid {
        return AdaptiveTakerDecision::Hold(TakerBlockReason::MarkIndexDivergence);
    }
    let deadline_ms = match input.deadline_ms {
        Some(deadline) => deadline,
        None => {
            return AdaptiveTakerDecision::Hold(TakerBlockReason::NoDeadline);
        },
    };
    let cooling = match input.last_taker_at_ms {
        Some(last) => sat_sub_u64(input.now_ms, last) < policy.cooldown_ms,
        None => false,
    };
    if cooling {
        return AdaptiveTakerDecision::Hold(TakerBlockReason::Cooldown);
    }
    let remaining_ms = sat_sub_u64(deadline_ms, input.now_ms);
    let maker_slack = (remaining_ms as i128) - (input.maker_estimated_time_ms as i128)
        - (policy.safety_buffer_ms as i128);
    let maker_slack_ms = clamp_to_i64(maker_slack);
    let mid = ((input.bid_price_ticks as i128) + (input.ask_price_ticks as i128)) / 2;
    if mid <= 0 {
        return AdaptiveTakerDecision::Hold(TakerBlockReason::InvalidBook);
    }
    let spread_wide = ((input.ask_price_ticks - input.bid_price_ticks) as i128) * 10_000 / mid;
    let spread_bps: i64 = if spread_wide > i64::MAX as i128 {
        i64::MAX
    } else {
        spread_wide as i64
    };
    let opposing_depth = if input.position > 0 {
        input.bid_quantity
    } else {
        input.ask_quantity
    };
    let position_quantity: i64 = if input.position == i64::MIN {
        i64::MAX
    } else if input.position < 0 {
        -input.position
    } else {
        input.position
    };
    let pq1: i64 = if position_quantity >= 1 {
        position_quantity
    } else {
        1
    };
    let depth1: i64 = if opposing_depth >= 1 {
        opposing_depth
    } else {
        1
    };
    assert(0 <= (pq1 as int) * 10_000 <= 0x7FFF_FFFF_FFFF_FFFF * 10_000) by (nonlinear_arith)
        requires
            0 < pq1 <= 0x7FFF_FFFF_FFFF_FFFF,
    ;
    let impact_wide = (pq1 as i128) * 10_000 / (depth1 as i128);
    let depth_impact_bps: i64 = if impact_wide > i64::MAX as i128 {
        i64::MAX
    } else {
        impact_wide as i64
    };
    let volatility: i64 = if input.volatility_bps >= 0 {
        input.volatility_bps
    } else {
        0
    };
    let taker_cost_bps = sat_add_i64(
        sat_add_i64(sat_add_i64(spread_bps, policy.taker_fee_ppm / 100), depth_impact_bps),
        volatility,
    );
    let seconds = input.maker_estimated_time_ms / 1_000;
    let seconds1: i64 = if seconds >= 1 {
        seconds as i64
    } else {
        1
    };
    let penalty: i64 = if maker_slack < 0 {
        policy.deadline_penalty_bps
    } else {
        0
    };
    let waiting_cost_bps = sat_add_i64(
        sat_mul_i64(seconds1, policy.urgency_cost_bps_per_second),
        penalty,
    );
    let maker_not_feasible = maker_slack < 0 || input.maker_confidence_bps
        < policy.minimum_maker_confidence_bps;
    if !maker_not_feasible && waiting_cost_bps <= sat_add_i64(
        taker_cost_bps,
        policy.cost_margin_bps,
    ) {
        return AdaptiveTakerDecision::Hold(TakerBlockReason::KeepMakerWorking);
    }
    assert(0 <= (opposing_depth as int) * (policy.max_participation_bps as int) <= 0x7FFF_FFFF_FFFF_FFFF * 10_000) by (nonlinear_arith)
        requires
            0 < opposing_depth <= 0x7FFF_FFFF_FFFF_FFFF,
            0 <= policy.max_participation_bps <= 10_000,
    ;
    let capped_wide = (opposing_depth as i128) * (policy.max_participation_bps as i128) / 10_000;
    let capped: i64 = if capped_wide > i64::MAX as i128 {
        i64::MAX
    } else {
        capped_wide as i64
    };
    let remaining_quantity = if input.maker_remaining_quantity > 0 {
        input.maker_remaining_quantity
    } else {
        position_quantity
    };
    let mut quantity = position_quantity;
    if remaining_quantity < quantity {
        quantity = remaining_quantity;
    }
    if capped < quantity {
        quantity = capped;
    }
    if quantity <= 0 {
        return AdaptiveTakerDecision::Hold(TakerBlockReason::NoSafeQuantity);
    }
    let (side, price_ticks) = if input.position > 0 {
        (Side::Sell, aggressive_price_exec(input.bid_price_ticks, policy.max_slippage_bps, false))
    } else {
        (Side::Buy, aggressive_price_exec(input.ask_price_ticks, policy.max_slippage_bps, true))
    };
    AdaptiveTakerDecision::Submit(
        TakerDecision {
            side,
            price_ticks,
            quantity,
            trigger: if maker_not_feasible {
                TakerTrigger::MakerCannotMeetDeadline
            } else {
                TakerTrigger::WaitingCostExceedsTakerCost
            },
            maker_slack_ms,
            taker_cost_bps,
            waiting_cost_bps,
        },
    )
}

/// A taker order is only ever submitted against a known, fresh, two-sided
/// book with a deadline, and always reduces the held position: it sells a
/// long and buys a short, for no more than the position.
pub proof fn law_taker_only_reduces(policy: EmergencyExecutionPolicy, input: AdaptiveTakerInput, d: TakerDecision)
    requires
        taker_decision_spec(policy, input) == AdaptiveTakerDecision::Submit(d),
    ensures
        input.position != 0,
        input.remote_state_known,
        input.anchor_valid,
        input.deadline_ms is Some,
        input.position > 0 ==> d.side == Side::Sell,
        input.position < 0 ==> d.side == Side::Buy,
        0 < d.quantity <= position_quantity(input),
        d.price_ticks >= 1,
{
}

} // verus!
