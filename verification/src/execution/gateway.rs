//! The synchronous execution gateway: what an order submission or cancel
//! came to.
use vstd::prelude::*;

verus! {

#[derive(Debug, Clone, Copy, PartialEq, Eq, Structural)]
pub struct ExchangeOrder {
    pub client_id: u64,
    pub price: i64,
    pub quantity: i64,
    pub post_only: bool,
    pub reduce_only: bool,
}

#[derive(Debug, Clone, Copy, PartialEq, Eq, Structural)]
pub enum GatewayResult {
    /// The exchange acknowledged the operation.
    Accepted,
    /// The request was rejected by a local policy boundary.
    Rejected,
    /// No live transport is bound to this gateway.
    Unavailable,
}

pub trait ExecutionGateway {
    fn submit(&self, order: ExchangeOrder) -> GatewayResult;

    fn cancel(&self, client_id: u64) -> GatewayResult;
}

/// A gateway that accepts what a venue would: passive orders, and orders
/// that only reduce exposure.
pub struct SimulationGateway;

impl ExecutionGateway for SimulationGateway {
    fn submit(&self, order: ExchangeOrder) -> (r: GatewayResult)
        ensures
            r == (if order.post_only || order.reduce_only {
                GatewayResult::Accepted
            } else {
                GatewayResult::Rejected
            }),
    {
        if order.post_only || (order.reduce_only && !order.post_only) {
            GatewayResult::Accepted
        } else {
            GatewayResult::Rejected
        }
    }

    fn cancel(&self, client_id: u64) -> (r: GatewayResult)
        ensures
            r == GatewayResult::Accepted,
    {
        GatewayResult::Accepted
    }
}

} // verus!
