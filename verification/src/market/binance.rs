//! Binance public market events, in exchange ticks.
use crate::model::{PriceTicks, Quantity};
use vstd::prelude::*;

verus! {

#[derive(Debug, Clone, PartialEq, Eq)]
pub struct BookTicker {
    pub symbol: String,
    pub event_time_ms: u64,
    pub transaction_time_ms: u64,
    pub update_id: u64,
    pub bid_price: PriceTicks,
    pub bid_quantity: Quantity,
    pub ask_price: PriceTicks,
    pub ask_quantity: Quantity,
}

#[derive(Debug, Clone, PartialEq, Eq)]
pub struct MarkPrice {
    pub symbol: String,
    pub event_time_ms: u64,
    pub mark_price: PriceTicks,
    pub index_price: PriceTicks,
    pub next_funding_time_ms: u64,
    pub latest_funding_rate_e8: Option<i64>,
}

#[derive(Debug, Clone, PartialEq, Eq)]
pub struct AggTrade {
    pub symbol: String,
    pub event_time_ms: u64,
    pub aggregate_trade_id: u64,
    pub price: PriceTicks,
    pub quantity: Quantity,
    pub trade_time_ms: u64,
    pub buyer_is_maker: bool,
}

#[derive(Debug, Clone, Copy, PartialEq, Eq, Structural)]
pub struct DepthLevel {
    pub price: PriceTicks,
    pub quantity: Quantity,
}

#[derive(Debug, Clone, PartialEq, Eq)]
pub struct DepthUpdate {
    pub symbol: String,
    pub event_time_ms: u64,
    pub transaction_time_ms: u64,
    pub first_update_id: u64,
    pub final_update_id: u64,
    pub previous_final_update_id: u64,
    pub bids: Vec<DepthLevel>,
    pub asks: Vec<DepthLevel>,
}

#[derive(Debug, Clone, PartialEq, Eq)]
pub enum BinanceMarketEvent {
    BookTicker(BookTicker),
    MarkPrice(MarkPrice),
    AggTrade(AggTrade),
    DepthUpdate(DepthUpdate),
}


impl BinanceMarketEvent {
    pub open spec fn symbol_spec(self) -> Seq<char> {
        match self {
            BinanceMarketEvent::BookTicker(v) => v.symbol@,
            BinanceMarketEvent::MarkPrice(v) => v.symbol@,
            BinanceMarketEvent::AggTrade(v) => v.symbol@,
            BinanceMarketEvent::DepthUpdate(v) => v.symbol@,
        }
    }

    pub open spec fn event_time_spec(self) -> u64 {
        match self {
            BinanceMarketEvent::BookTicker(v) => v.event_time_ms,
            BinanceMarketEvent::MarkPrice(v) => v.event_time_ms,
            BinanceMarketEvent::AggTrade(v) => v.event_time_ms,
            BinanceMarketEvent::DepthUpdate(v) => v.event_time_ms,
        }
    }

    /// The symbol the event is for.
    pub fn symbol(&self) -> (r: &str)
        ensures
            r@ == self.symbol_spec(),
    {
        match self {
            BinanceMarketEvent::BookTicker(v) => v.symbol.as_str(),
            BinanceMarketEvent::MarkPrice(v) => v.symbol.as_str(),
            BinanceMarketEvent::AggTrade(v) => v.symbol.as_str(),
            BinanceMarketEvent::DepthUpdate(v) => v.symbol.as_str(),
        }
    }

    /// The exchange time of the event.
    pub fn event_time_ms(&self) -> (r: u64)
        ensures
            r == self.event_time_spec(),
    {
        match self {
            BinanceMarketEvent::BookTicker(v) => v.event_time_ms,
            BinanceMarketEvent::MarkPrice(v) => v.event_time_ms,
            BinanceMarketEvent::AggTrade(v) => v.event_time_ms,
            BinanceMarketEvent::DepthUpdate(v) => v.event_time_ms,
        }
    }
}

} // verus!
