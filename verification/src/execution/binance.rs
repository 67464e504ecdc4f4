//! The Binance gateway facade: bound to an environment, without a signed
//! transport, so it never claims an exchange acknowledgement.
use crate::execution::environment::{
    market_ws_base_of, order_ws_base_of, public_market_ws_base_of, rest_base_of, user_data_ws_base_of,
    BinanceEndpoints, BinanceEnvironment,
};
use crate::execution::gateway::{ExchangeOrder, ExecutionGateway, GatewayResult};
use vstd::prelude::*;

verus! {

#[derive(Debug, Clone, Copy, PartialEq, Eq, Structural)]
pub struct BinanceGateway {
    pub environment: BinanceEnvironment,
}

impl BinanceGateway {
    pub fn new(testnet: bool) -> (r: Self)
        ensures
            r.environment == (if testnet { BinanceEnvironment::Testnet } else { BinanceEnvironment::Production }),
    {
        let environment = if testnet {
            BinanceEnvironment::Testnet
        } else {
            BinanceEnvironment::Production
        };
        BinanceGateway { environment }
    }

    pub fn endpoints(&self) -> (r: BinanceEndpoints)
        ensures
            r.rest_base@ == rest_base_of(self.environment),
            r.market_ws_base@ == market_ws_base_of(self.environment),
            r.public_market_ws_base@ == public_market_ws_base_of(self.environment),
            r.order_ws_base@ == order_ws_base_of(self.environment),
            r.user_data_ws_base@ == user_data_ws_base_of(self.environment),
    {
        self.environment.endpoints()
    }
}

impl ExecutionGateway for BinanceGateway {
    /// No signed transport is bound here; acceptance is never manufactured.
    fn submit(&self, order: ExchangeOrder) -> (r: GatewayResult)
        ensures
            r == GatewayResult::Unavailable,
    {
        GatewayResult::Unavailable
    }

    fn cancel(&self, client_id: u64) -> (r: GatewayResult)
        ensures
            r == GatewayResult::Unavailable,
    {
        GatewayResult::Unavailable
    }
}

} // verus!
