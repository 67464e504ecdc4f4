//! Domain vocabulary of candidate and validated orders, and the causal
//! queue-fill bound that order updates are checked against.
use vstd::prelude::*;

pub use crate::execution::intent::Side;

verus! {

#[derive(Debug, Clone, Copy, PartialEq, Eq, Structural)]
pub struct PriceTicks(pub i64);

#[derive(Debug, Clone, Copy, PartialEq, Eq, Structural)]
pub struct Quantity(pub i64);

#[derive(Debug, Clone, Copy, PartialEq, Eq, Structural)]
pub enum PositionSide {
    Both,
    Long,
    Short,
}

#[derive(Debug, Clone, Copy, PartialEq, Eq, Structural)]
pub enum TimeInForce {
    Gtc,
    Ioc,
    Fok,
    Gtx,
}

#[derive(Debug, Clone, Copy, PartialEq, Eq, Structural)]
pub enum WorkingType {
    ContractPrice,
    MarkPrice,
}

#[derive(Debug, Clone, Copy, PartialEq, Eq, Structural)]
pub enum OrderRoute {
    PassiveMaker,
    ReduceOnlyMaker,
    EmergencyReduceOnlyTaker,
}

#[derive(Debug, Clone, Copy, PartialEq, Eq, Structural)]
pub enum ModelError {
    IncompleteEvidence,
}

#[derive(Debug, Clone, PartialEq, Eq)]
pub struct CandidateOrder {
    pub symbol: String,
    pub side: Side,
    pub price: PriceTicks,
    pub quantity: Quantity,
    pub reduce_only: bool,
    pub position_side: PositionSide,
    pub time_in_force: TimeInForce,
    pub working_type: WorkingType,
    pub price_protect: bool,
    pub trigger_price: Option<PriceTicks>,
    pub close_position: bool,
}

#[derive(Debug, Clone, PartialEq, Eq)]
pub struct ValidatedOrder {
    pub queue_ahead_quantity: i64,
    pub order: CandidateOrder,
    pub route: OrderRoute,
    pub contract_digest: String,
    pub validated_at_ms: u64,
}

/// A queue-position estimate for a resting maker order.
#[derive(Debug, Clone, Copy, PartialEq, Eq, Structural)]
pub struct QueueFillEstimate {
    pub queue_ahead_quantity: i64,
    pub order_quantity: i64,
    pub traded_through_quantity: i64,
    pub observed_latency_ms: u64,
}

/// The most that can causally have filled: volume traded through the price
/// first consumes the queue ahead of the order, and the fill never exceeds the
/// order. Undefined for negative inputs or an empty order.
pub open spec fn causal_fill_spec(queue_ahead: int, order_quantity: int, traded_through: int) -> Option<int> {
    if queue_ahead < 0 || order_quantity <= 0 || traded_through < 0 {
        None
    } else if traded_through <= queue_ahead {
        Some(0)
    } else if traded_through - queue_ahead >= order_quantity {
        Some(order_quantity)
    } else {
        Some(traded_through - queue_ahead)
    }
}

impl QueueFillEstimate {
    pub fn causal_fill_quantity(&self) -> (r: Option<i64>)
        ensures
            r matches Some(v) ==> causal_fill_spec(
                self.queue_ahead_quantity as int,
                self.order_quantity as int,
                self.traded_through_quantity as int,
            ) == Some(v as int),
            r is None ==> causal_fill_spec(
                self.queue_ahead_quantity as int,
                self.order_quantity as int,
                self.traded_through_quantity as int,
            ) is None,
    {
        if self.queue_ahead_quantity < 0 || self.order_quantity <= 0
            || self.traded_through_quantity < 0 {
            None
        } else if self.traded_through_quantity <= self.queue_ahead_quantity {
            Some(0)
        } else if self.traded_through_quantity - self.queue_ahead_quantity >= self.order_quantity {
            Some(self.order_quantity)
        } else {
            Some(self.traded_through_quantity - self.queue_ahead_quantity)
        }
    }
}

/// Floor division (toward negative infinity) by a positive divisor.
pub open spec fn floor_div_spec(numerator: int, denominator: int) -> int {
    numerator / denominator
}

/// Floor division by a positive divisor; `None` when the divisor is not positive.
pub fn floor_div_positive(numerator: i128, denominator: i128) -> (r: Option<i128>)
    ensures
        denominator <= 0 ==> r is None,
        denominator > 0 ==> r == Some(floor_div_spec(numerator as int, denominator as int) as i128),
{
    if denominator <= 0 {
        return None;
    }
    if numerator >= 0 {
        Some(numerator / denominator)
    } else {
        let m: i128 = -(numerator + 1);
        let q = m / denominator;
        assert(numerator as int / denominator as int == -q - 1) by (nonlinear_arith)
            requires
                m == -(numerator + 1),
                m >= 0,
                denominator > 0,
                q == m / denominator,
        {
            let r = m % denominator;
            assert(m == q * denominator + r);
            assert(numerator == (-q - 1) * denominator + (denominator - r - 1));
            assert(0 <= denominator - r - 1 < denominator);
        }
        Some(-q - 1)
    }
}

} // verus!
