//! Binance deployment environments, their endpoints and the runtime
//! configuration that every environment must satisfy.
use crate::keyed::SortedMap;
use crate::text::{lower_chars, owned, to_lower, trim, trim_chars};
use std::str::FromStr;
use vstd::prelude::*;

verus! {

#[derive(Debug, Clone, Copy, PartialEq, Eq, Structural)]
pub enum BinanceEnvironment {
    Testnet,
    Production,
}

#[derive(Debug, Clone, Copy, PartialEq, Eq, Structural)]
pub enum EnvironmentParseError {
    Unsupported,
}

#[derive(Debug, Clone, PartialEq, Eq)]
pub struct BinanceEndpoints {
    pub rest_base: String,
    pub market_ws_base: String,
    pub public_market_ws_base: String,
    pub order_ws_base: String,
    pub user_data_ws_base: String,
}

#[derive(Debug, Clone)]
pub struct BinanceRequestWeights {
    pub generic: u32,
    pub exchange_info: u32,
    pub funding: u32,
    pub index_price_klines: u32,
    pub depth_by_limit: SortedMap<u32>,
    pub depth_default: u32,
}

#[derive(Debug, Clone)]
pub struct BinanceOperationalConfig {
    pub max_frame_bytes: usize,
    pub default_recv_window_ms: u64,
    pub max_signal_age_ms: u64,
    pub default_funding_flatten_lead_ms: u64,
    pub default_maker_flatten_horizon_ms: u64,
    pub default_funding_flatten_horizon_ms: u64,
    pub default_inventory_skew_bps: i64,
    pub default_deadline_risk_bps: i64,
    pub listen_key_keepalive_interval_ms: u64,
}

#[derive(Debug, Clone)]
pub struct BinanceRuntimeConfig {
    pub schema_version: u16,
    pub environments: SortedMap<BinanceEndpoints>,
    pub request_weights: BinanceRequestWeights,
    pub operational: BinanceOperationalConfig,
}

pub open spec fn environment_name(e: BinanceEnvironment) -> Seq<char> {
    match e {
        BinanceEnvironment::Testnet => "testnet"@,
        BinanceEnvironment::Production => "production"@,
    }
}

/// Accepted spellings, after trimming and ASCII lower-casing.
pub open spec fn parse_environment_spec(value: Seq<char>) -> Option<BinanceEnvironment> {
    let v = lower_chars(trim_chars(value));
    if v == "testnet"@ || v == "demo"@ {
        Some(BinanceEnvironment::Testnet)
    } else if v == "production"@ || v == "prod"@ || v == "live"@ || v == "mainnet"@ {
        Some(BinanceEnvironment::Production)
    } else {
        None
    }
}

pub open spec fn rest_base_of(e: BinanceEnvironment) -> Seq<char> {
    match e {
        BinanceEnvironment::Testnet => "https://demo-fapi.binance.com"@,
        BinanceEnvironment::Production => "https://fapi.binance.com"@,
    }
}

pub open spec fn market_ws_base_of(e: BinanceEnvironment) -> Seq<char> {
    match e {
        BinanceEnvironment::Testnet => "wss://demo-fstream.binance.com/market"@,
        BinanceEnvironment::Production => "wss://fstream.binance.com/market"@,
    }
}

pub open spec fn public_market_ws_base_of(e: BinanceEnvironment) -> Seq<char> {
    match e {
        BinanceEnvironment::Testnet => "wss://demo-fstream.binance.com/public"@,
        BinanceEnvironment::Production => "wss://fstream.binance.com/public"@,
    }
}

pub open spec fn order_ws_base_of(e: BinanceEnvironment) -> Seq<char> {
    match e {
        BinanceEnvironment::Testnet => "wss://testnet.binancefuture.com/ws-fapi/v1"@,
        BinanceEnvironment::Production => "wss://ws-fapi.binance.com/ws-fapi/v1"@,
    }
}

pub open spec fn user_data_ws_base_of(e: BinanceEnvironment) -> Seq<char> {
    match e {
        BinanceEnvironment::Testnet => "wss://demo-fstream.binance.com/private"@,
        BinanceEnvironment::Production => "wss://fstream.binance.com/private"@,
    }
}

impl BinanceEnvironment {
    /// The REST and websocket endpoints of the environment.
    pub fn endpoints(self) -> (r: BinanceEndpoints)
        ensures
            r.rest_base@ == rest_base_of(self),
            r.market_ws_base@ == market_ws_base_of(self),
            r.public_market_ws_base@ == public_market_ws_base_of(self),
            r.order_ws_base@ == order_ws_base_of(self),
            r.user_data_ws_base@ == user_data_ws_base_of(self),
    {
        match self {
            Self::Testnet => BinanceEndpoints {
                rest_base: owned("https://demo-fapi.binance.com"),
                market_ws_base: owned("wss://demo-fstream.binance.com/market"),
                public_market_ws_base: owned("wss://demo-fstream.binance.com/public"),
                order_ws_base: owned("wss://testnet.binancefuture.com/ws-fapi/v1"),
                user_data_ws_base: owned("wss://demo-fstream.binance.com/private"),
            },
            Self::Production => BinanceEndpoints {
                rest_base: owned("https://fapi.binance.com"),
                market_ws_base: owned("wss://fstream.binance.com/market"),
                public_market_ws_base: owned("wss://fstream.binance.com/public"),
                order_ws_base: owned("wss://ws-fapi.binance.com/ws-fapi/v1"),
                user_data_ws_base: owned("wss://fstream.binance.com/private"),
            },
        }
    }

    pub fn as_str(self) -> (r: &'static str)
        ensures
            r@ == environment_name(self),
    {
        match self {
            Self::Testnet => "testnet",
            Self::Production => "production",
        }
    }

    /// Names of the environment variables that hold the API key and secret;
    /// production keys are kept apart from testnet keys.
    pub fn credential_env_names(self) -> (r: (&'static str, &'static str))
        ensures
            self == BinanceEnvironment::Testnet ==> r.0@ == "ANCHORBELL_BINANCE_API_KEY"@
                && r.1@ == "ANCHORBELL_BINANCE_API_SECRET"@,
            self == BinanceEnvironment::Production ==> r.0@ == "ANCHORBELL_BINANCE_LIVE_API_KEY"@
                && r.1@ == "ANCHORBELL_BINANCE_LIVE_API_SECRET"@,
    {
        match self {
            Self::Testnet => ("ANCHORBELL_BINANCE_API_KEY", "ANCHORBELL_BINANCE_API_SECRET"),
            Self::Production => (
                "ANCHORBELL_BINANCE_LIVE_API_KEY",
                "ANCHORBELL_BINANCE_LIVE_API_SECRET",
            ),
        }
    }

    /// Parses an environment name; unknown names are unsupported.
    pub fn parse(value: &str) -> (r: Result<Self, EnvironmentParseError>)
        ensures
            r matches Ok(e) ==> parse_environment_spec(value@) == Some(e),
            r is Err ==> parse_environment_spec(value@) is None,
    {
        let v = to_lower(trim(value));
        let testnet = owned("testnet");
        let demo = owned("demo");
        let production = owned("production");
        let prod = owned("prod");
        let live = owned("live");
        let mainnet = owned("mainnet");
        if v == testnet || v == demo {
            Ok(Self::Testnet)
        } else if v == production || v == prod || v == live || v == mainnet {
            Ok(Self::Production)
        } else {
            Err(EnvironmentParseError::Unsupported)
        }
    }
}

impl FromStr for BinanceEnvironment {
    type Err = EnvironmentParseError;

    fn from_str(value: &str) -> Result<Self, Self::Err> {
        Self::parse(value)
    }
}

pub open spec fn endpoints_complete(e: BinanceEndpoints) -> bool {
    &&& trim_chars(e.rest_base@).len() > 0
    &&& trim_chars(e.market_ws_base@).len() > 0
    &&& trim_chars(e.public_market_ws_base@).len() > 0
    &&& trim_chars(e.order_ws_base@).len() > 0
    &&& trim_chars(e.user_data_ws_base@).len() > 0
}

pub open spec fn runtime_config_valid(c: BinanceRuntimeConfig) -> bool {
    &&& c.environments.entries().len() == 2
    &&& forall|i: int| 0 <= i < c.environments.entries().len() ==> endpoints_complete(#[trigger] c.environments.values()[i])
    &&& c.request_weights.generic != 0
    &&& c.request_weights.exchange_info != 0
    &&& c.request_weights.funding != 0
    &&& c.request_weights.index_price_klines != 0
    &&& c.request_weights.depth_default != 0
    &&& forall|i: int| 0 <= i < c.request_weights.depth_by_limit.entries().len() ==> #[trigger] c.request_weights.depth_by_limit.values()[i] != 0
    &&& c.operational.max_frame_bytes != 0
    &&& c.operational.default_recv_window_ms != 0
    &&& c.operational.max_signal_age_ms != 0
    &&& c.operational.listen_key_keepalive_interval_ms != 0
}

fn endpoints_present(e: &BinanceEndpoints) -> (r: bool)
    ensures
        r == endpoints_complete(*e),
{
    !trim(e.rest_base.as_str()).is_empty() && !trim(e.market_ws_base.as_str()).is_empty()
        && !trim(e.public_market_ws_base.as_str()).is_empty() && !trim(
        e.order_ws_base.as_str(),
    ).is_empty() && !trim(e.user_data_ws_base.as_str()).is_empty()
}

impl BinanceRuntimeConfig {
    /// Rejects configurations with a missing environment, an empty endpoint
    /// or a zero weight, interval or limit.
    pub fn validate(&self) -> (r: Result<(), &'static str>)
        ensures
            r is Ok <==> runtime_config_valid(*self),
    {
        if self.environments.len() != 2 {
            return Err("Binance runtime configuration contains missing or zero values");
        }
        let mut i: usize = 0;
        while i < self.environments.len()
            invariant
                i <= self.environments.entries().len(),
                forall|j: int| 0 <= j < i ==> endpoints_complete(#[trigger] self.environments.values()[j]),
            decreases self.environments.entries().len() - i,
        {
            if !endpoints_present(self.environments.value_at(i)) {
                assert(self.environments.values()[i as int] == self.environments.entries()[i as int].1);
                return Err("Binance runtime configuration contains missing or zero values");
            }
            assert(self.environments.values()[i as int] == self.environments.entries()[i as int].1);
            i = i + 1;
        }
        let mut j: usize = 0;
        while j < self.request_weights.depth_by_limit.len()
            invariant
                j <= self.request_weights.depth_by_limit.entries().len(),
                forall|k: int| 0 <= k < j ==> #[trigger] self.request_weights.depth_by_limit.values()[k] != 0,
            decreases self.request_weights.depth_by_limit.entries().len() - j,
        {
            if *self.request_weights.depth_by_limit.value_at(j) == 0 {
                assert(self.request_weights.depth_by_limit.values()[j as int] == self.request_weights.depth_by_limit.entries()[j as int].1);
                return Err("Binance runtime configuration contains missing or zero values");
            }
            assert(self.request_weights.depth_by_limit.values()[j as int] == self.request_weights.depth_by_limit.entries()[j as int].1);
            j = j + 1;
        }
        if self.request_weights.generic == 0 || self.request_weights.exchange_info == 0
            || self.request_weights.funding == 0 || self.request_weights.index_price_klines == 0
            || self.request_weights.depth_default == 0 || self.operational.max_frame_bytes == 0
            || self.operational.default_recv_window_ms == 0
            || self.operational.max_signal_age_ms == 0
            || self.operational.listen_key_keepalive_interval_ms == 0 {
            return Err("Binance runtime configuration contains missing or zero values");
        }
        Ok(())
    }
}

} // verus!
