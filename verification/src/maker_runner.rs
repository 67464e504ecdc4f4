//! Decisions of the single-symbol maker runner: which configurations it
//! accepts, what its market state becomes on each event, when its resting
//! quote is replaced or withdrawn, which remote orders it refuses to live
//! beside, and what its session checkpoint and exit status are at the end.
//! The runner's loop performs the exchange calls these decisions ask for.
use crate::execution::environment::{environment_name, BinanceEnvironment};
use crate::execution::intent::Side;
use crate::decimal::{parse_position_ticks, position_ticks_spec, PositionParseError};
use crate::execution::rest::{symbol_spec, valid_symbol, BinanceOpenOrder, BinancePositionRisk};
use crate::execution::session_checkpoint::{abs_or_max, SessionCheckpoint, SESSION_CHECKPOINT_SCHEMA_VERSION};
use crate::text::upper_chars;
use crate::market::binance::{BinanceMarketEvent, BookTicker, MarkPrice};
use crate::num::abs_int;
use vstd::prelude::*;
use vstd::string::*;

verus! {

/// The runner's validated settings.
#[derive(Debug, Clone, PartialEq, Eq)]
pub struct RunnerConfig {
    pub symbol: String,
    pub anchor_ticks: i64,
    pub price_scale: u32,
    pub quantity_scale: u32,
    pub requested_quantity: i64,
    pub max_position: i64,
    pub entry_threshold_bps: i64,
    pub max_mark_index_gap_bps: i64,
    pub duration_secs: u64,
    pub poll_ms: u64,
    pub min_replace_ms: u64,
    pub recv_window_ms: u64,
    pub environment: BinanceEnvironment,
    pub send_orders: bool,
}

#[derive(Debug, Clone, Copy, PartialEq, Eq, Structural)]
pub enum RunnerConfigError {
    InvalidSymbol,
    InvalidConfiguration,
}

impl RunnerConfigError {
    pub fn message(&self) -> (r: &'static str)
        ensures
            *self == RunnerConfigError::InvalidSymbol ==> r@ == "symbol must be ASCII alphanumeric"@,
            *self == RunnerConfigError::InvalidConfiguration ==> r@
                == "invalid positive/scale/duration configuration"@,
    {
        match self {
            RunnerConfigError::InvalidSymbol => "symbol must be ASCII alphanumeric",
            RunnerConfigError::InvalidConfiguration => "invalid positive/scale/duration configuration",
        }
    }
}

/// The numeric settings the runner can work with.
pub open spec fn config_numbers_valid(c: RunnerConfig) -> bool {
    &&& c.anchor_ticks > 0
    &&& c.price_scale <= 18
    &&& c.quantity_scale <= 18
    &&& c.requested_quantity > 0
    &&& c.max_position > 0
    &&& c.entry_threshold_bps >= 0
    &&& c.max_mark_index_gap_bps >= 0
    &&& c.duration_secs != 0
    &&& c.poll_ms != 0
}

pub open spec fn config_outcome(c: RunnerConfig) -> Result<(), RunnerConfigError> {
    if !symbol_spec(c.symbol@) {
        Err(RunnerConfigError::InvalidSymbol)
    } else if !config_numbers_valid(c) {
        Err(RunnerConfigError::InvalidConfiguration)
    } else {
        Ok(())
    }
}

impl RunnerConfig {
    /// Accepts a non-empty ASCII alphanumeric symbol, a positive anchor,
    /// quantity and position limit, scales of at most 18, non-negative
    /// thresholds and a non-zero duration and poll period.
    pub fn validate(&self) -> (r: Result<(), RunnerConfigError>)
        ensures
            r == config_outcome(*self),
    {
        if !valid_symbol(self.symbol.as_str()) {
            return Err(RunnerConfigError::InvalidSymbol);
        }
        if self.anchor_ticks <= 0 || self.price_scale > 18 || self.quantity_scale > 18
            || self.requested_quantity <= 0 || self.max_position <= 0
            || self.entry_threshold_bps < 0 || self.max_mark_index_gap_bps < 0
            || self.duration_secs == 0 || self.poll_ms == 0 {
            return Err(RunnerConfigError::InvalidConfiguration);
        }
        Ok(())
    }
}

/// Exponentially weighted absolute return: the first positive sample is
/// taken as it is, later ones weigh three tenths against seven tenths of
/// the running value.
pub open spec fn ewma_spec(previous: i64, sample: i64) -> int {
    let s = if sample > 0 { sample as int } else { 0 };
    if previous <= 0 {
        s
    } else {
        (7 * previous + 3 * s) / 10
    }
}

pub fn ewma(previous: i64, sample: i64) -> (r: i64)
    ensures
        r == ewma_spec(previous, sample),
{
    let s: i64 = if sample > 0 { sample } else { 0 };
    if previous <= 0 {
        s
    } else {
        let v: i128 = (7 * (previous as i128) + 3 * (s as i128)) / 10;
        v as i64
    }
}

/// The absolute move from `previous` to `current` in basis points of
/// `previous`, at most `i64::MAX`.
pub open spec fn mark_change_bps_spec(previous: i64, current: i64) -> int {
    let v = abs_int(current - previous) * 10_000 / (previous as int);
    if v > i64::MAX {
        i64::MAX as int
    } else {
        v
    }
}

pub fn mark_change_bps(previous: i64, current: i64) -> (r: i64)
    requires
        previous > 0,
        current > 0,
    ensures
        r == mark_change_bps_spec(previous, current),
{
    let diff: u64 = if current >= previous {
        (current - previous) as u64
    } else {
        (previous - current) as u64
    };
    let v: u128 = (diff as u128) * 10_000 / (previous as u128);
    if v > 0x7FFF_FFFF_FFFF_FFFF {
        i64::MAX
    } else {
        v as i64
    }
}

/// How much more may be ordered on `side` without the position passing
/// `max_position` in either direction; never negative.
pub open spec fn max_order_quantity_spec(position: i64, side: Side, max_position: i64) -> int {
    let allowed = match side {
        Side::Buy => max_position - position,
        Side::Sell => max_position + position,
    };
    if allowed < 0 {
        0
    } else if allowed > i64::MAX {
        i64::MAX as int
    } else {
        allowed
    }
}

pub fn max_order_quantity(position: i64, side: Side, max_position: i64) -> (r: i64)
    ensures
        r == max_order_quantity_spec(position, side, max_position),
{
    let allowed: i128 = match side {
        Side::Buy => max_position as i128 - position as i128,
        Side::Sell => max_position as i128 + position as i128,
    };
    if allowed < 0 {
        0
    } else if allowed > 0x7FFF_FFFF_FFFF_FFFF {
        i64::MAX
    } else {
        allowed as i64
    }
}

/// An order status after which the exchange keeps nothing resting.
pub open spec fn terminal_status(status: Seq<char>) -> bool {
    status == "FILLED"@ || status == "CANCELED"@ || status == "EXPIRED"@ || status
        == "REJECTED"@ || status == "EXPIRED_IN_MATCH"@
}

pub fn is_terminal_status(status: &str) -> (r: bool)
    ensures
        r == terminal_status(status@),
{
    crate::text::str_eq(status, "FILLED") || crate::text::str_eq(status, "CANCELED")
        || crate::text::str_eq(status, "EXPIRED") || crate::text::str_eq(status, "REJECTED")
        || crate::text::str_eq(status, "EXPIRED_IN_MATCH")
}

/// 32-bit FNV-1a over the bytes of a symbol.
pub open spec fn fnv1a(b: Seq<u8>) -> u32
    decreases b.len(),
{
    if b.len() == 0 {
        2_166_136_261u32
    } else {
        (fnv1a(b.drop_last()) ^ (b.last() as u32)).wrapping_mul(16_777_619u32)
    }
}

/// A non-zero numeric id for a symbol: its FNV-1a hash, with 0 mapped to 1.
pub open spec fn symbol_id_spec(symbol: Seq<char>) -> u32 {
    let h = fnv1a(crate::text::utf8(symbol));
    if h == 0 {
        1
    } else {
        h
    }
}

pub fn stable_symbol_id(symbol: &str) -> (r: u32)
    ensures
        r == symbol_id_spec(symbol@),
        r != 0,
{
    let b = symbol.as_bytes();
    let mut hash: u32 = 2_166_136_261;
    let mut i: usize = 0;
    while i < b.len()
        invariant
            i <= b@.len(),
            hash == fnv1a(b@.subrange(0, i as int)),
        decreases b@.len() - i,
    {
        assert(b@.subrange(0, i + 1).drop_last() =~= b@.subrange(0, i as int));
        hash = (hash ^ (b[i] as u32)).wrapping_mul(16_777_619);
        i = i + 1;
    }
    assert(b@.subrange(0, b@.len() as int) =~= b@);
    if hash == 0 {
        1
    } else {
        hash
    }
}

/// A two-sided book with positive sizes, a positive index, and a mark
/// within `max_gap_bps` of the index.
pub open spec fn market_valid_spec(book: BookTicker, mark: MarkPrice, max_gap_bps: i64) -> bool {
    let bid = book.bid_price.0 as int;
    let ask = book.ask_price.0 as int;
    let index = mark.index_price.0 as int;
    &&& bid > 0
    &&& ask >= bid
    &&& book.bid_quantity.0 > 0
    &&& book.ask_quantity.0 > 0
    &&& index > 0
    &&& abs_int(mark.mark_price.0 - index) * 10_000 <= max_gap_bps * index
}

pub fn market_is_valid(book: &BookTicker, mark: &MarkPrice, max_gap_bps: i64) -> (r: bool)
    ensures
        r == market_valid_spec(*book, *mark, max_gap_bps),
{
    let bid = book.bid_price.0;
    let ask = book.ask_price.0;
    let index = mark.index_price.0;
    let m = mark.mark_price.0;
    if !(bid > 0 && ask >= bid && book.bid_quantity.0 > 0 && book.ask_quantity.0 > 0
        && index > 0) {
        return false;
    }
    let d: i128 = m as i128 - index as i128;
    let gap: i128 = if d < 0 { -d } else { d };
    let lhs: i128 = gap * 10_000;
    let g = max_gap_bps as i128;
    let x = index as i128;
    assert(-0x8000_0000_0000_0000_0000_0000_0000_0000 <= g * x <= 0x7FFF_FFFF_FFFF_FFFF_FFFF_FFFF_FFFF_FFFF)
        by (nonlinear_arith)
        requires
            -0x8000_0000_0000_0000 <= g <= 0x7FFF_FFFF_FFFF_FFFF,
            0 < x <= 0x7FFF_FFFF_FFFF_FFFF,
    ;
    lhs <= g * x
}


/// The order the runner believes is resting on the exchange.
#[derive(Debug, Clone, PartialEq, Eq)]
pub struct WorkingOrder {
    pub client_order_id: String,
    pub side: Side,
    pub price_ticks: i64,
    pub quantity_ticks: i64,
}

/// What the runner knows between events.
#[derive(Debug, Clone, PartialEq, Eq)]
pub struct RunnerState {
    pub book: Option<BookTicker>,
    pub mark: Option<MarkPrice>,
    pub last_mark_price_ticks: Option<i64>,
    pub ewma_abs_return_bps: i64,
    pub working: Option<WorkingOrder>,
    pub position_ticks: i64,
    pub last_action_ms: u64,
    pub next_order_id: u64,
    /// The last quote announced in dry-run mode: side, price and quantity.
    pub last_proposal: Option<(Side, i64, i64)>,
    pub halted: bool,
}

/// The running return estimate after a mark price: updated from the move
/// since the previous mark when both are positive.
pub open spec fn ewma_after_mark(s: RunnerState, mark: MarkPrice) -> i64 {
    match s.last_mark_price_ticks {
        Some(previous) => if previous > 0 && mark.mark_price.0 > 0 {
            ewma_spec(s.ewma_abs_return_bps, mark_change_bps_spec(previous, mark.mark_price.0) as i64) as i64
        } else {
            s.ewma_abs_return_bps
        },
        None => s.ewma_abs_return_bps,
    }
}

/// The state after a public market event: the latest book and mark are
/// kept, and a mark also advances the return estimate; trades and depth
/// leave the state as it was.
pub open spec fn market_step(s: RunnerState, event: BinanceMarketEvent) -> RunnerState {
    match event {
        BinanceMarketEvent::BookTicker(book) => RunnerState { book: Some(book), ..s },
        BinanceMarketEvent::MarkPrice(mark) => RunnerState {
            ewma_abs_return_bps: ewma_after_mark(s, mark),
            last_mark_price_ticks: Some(mark.mark_price.0),
            mark: Some(mark),
            ..s
        },
        _ => s,
    }
}

/// The state after the resting order is gone.
pub open spec fn withdrawn_step(s: RunnerState, now_ms: u64) -> RunnerState {
    RunnerState { working: None, last_action_ms: now_ms, ..s }
}

impl RunnerState {
    /// A fresh runner: no market, no order, flat, not halted.
    pub fn new() -> (r: Self)
        ensures
            r.book is None,
            r.mark is None,
            r.last_mark_price_ticks is None,
            r.ewma_abs_return_bps == 0,
            r.working is None,
            r.position_ticks == 0,
            r.last_action_ms == 0,
            r.next_order_id == 0,
            r.last_proposal is None,
            !r.halted,
    {
        RunnerState {
            book: None,
            mark: None,
            last_mark_price_ticks: None,
            ewma_abs_return_bps: 0,
            working: None,
            position_ticks: 0,
            last_action_ms: 0,
            next_order_id: 0,
            last_proposal: None,
            halted: false,
        }
    }

    pub fn apply_market_event(&mut self, event: BinanceMarketEvent)
        ensures
            *final(self) == market_step(*old(self), event),
    {
        match event {
            BinanceMarketEvent::BookTicker(book) => {
                self.book = Some(book);
            },
            BinanceMarketEvent::MarkPrice(mark) => {
                let price = mark.mark_price.0;
                match self.last_mark_price_ticks {
                    Some(previous) => {
                        if previous > 0 && price > 0 {
                            let change = mark_change_bps(previous, price);
                            self.ewma_abs_return_bps = ewma(self.ewma_abs_return_bps, change);
                        }
                    },
                    None => {},
                }
                self.last_mark_price_ticks = Some(price);
                self.mark = Some(mark);
            },
            BinanceMarketEvent::AggTrade(_) => {},
            BinanceMarketEvent::DepthUpdate(_) => {},
        }
    }

    /// Records that the resting order was cancelled at `now_ms`.
    pub fn on_withdrawn(&mut self, now_ms: u64)
        ensures
            *final(self) == withdrawn_step(*old(self), now_ms),
    {
        self.working = None;
        self.last_action_ms = now_ms;
    }

    /// Records an accepted placement: the order rests unless its status is
    /// already terminal.
    pub fn on_placed(&mut self, order: NewOrder, status: &str, now_ms: u64)
        ensures
            final(self).working == (if terminal_status(status@) {
                None::<WorkingOrder>
            } else {
                Some(
                    WorkingOrder {
                        client_order_id: order.client_order_id,
                        side: order.side,
                        price_ticks: order.price_ticks,
                        quantity_ticks: order.quantity_ticks,
                    },
                )
            }),
            final(self).last_action_ms == now_ms,
            *final(self) == (RunnerState {
                working: final(self).working,
                last_action_ms: now_ms,
                ..*old(self)
            }),
    {
        if is_terminal_status(status) {
            self.working = None;
        } else {
            self.working = Some(
                WorkingOrder {
                    client_order_id: order.client_order_id,
                    side: order.side,
                    price_ticks: order.price_ticks,
                    quantity_ticks: order.quantity_ticks,
                },
            );
        }
        self.last_action_ms = now_ms;
    }

    /// Records the status the exchange reports for the resting order: a
    /// terminal status clears it, any other keeps it under the reported
    /// client order id.
    pub fn on_order_status(&mut self, client_order_id: String, status: &str)
        ensures
            old(self).working is None ==> *final(self) == *old(self),
            old(self).working matches Some(w) ==> *final(self) == (RunnerState {
                working: if terminal_status(status@) {
                    None
                } else {
                    Some(WorkingOrder { client_order_id, ..w })
                },
                ..*old(self)
            }),
    {
        match &self.working {
            None => {},
            Some(w) => {
                let side = w.side;
                let price_ticks = w.price_ticks;
                let quantity_ticks = w.quantity_ticks;
                if is_terminal_status(status) {
                    self.working = None;
                } else {
                    self.working = Some(
                        WorkingOrder { client_order_id, side, price_ticks, quantity_ticks },
                    );
                }
            },
        }
    }
}

/// A maker order the runner asks to place.
#[derive(Debug, Clone, PartialEq, Eq)]
pub struct NewOrder {
    pub client_order_id: String,
    pub side: Side,
    pub price_ticks: i64,
    pub quantity_ticks: i64,
}


/// The quote the strategy asks for: side, price and quantity in ticks.
#[derive(Debug, Clone, Copy, PartialEq, Eq, Structural)]
pub struct MakerIntent {
    pub side: Side,
    pub price: i64,
    pub quantity: i64,
    pub post_only: bool,
}

/// Whether the market is fit to quote on.
#[derive(Debug, Clone, Copy, PartialEq, Eq, Structural)]
pub enum QuoteGate {
    /// No book or no mark has arrived yet.
    NoMarket,
    /// The book or the mark fails the validity checks.
    Invalid,
    /// Quotable; `market_at_ms` is the later of the two event times.
    Ready { market_at_ms: u64 },
}

pub open spec fn gate_spec(s: RunnerState, c: RunnerConfig) -> QuoteGate {
    match (s.book, s.mark) {
        (Some(book), Some(mark)) => if market_valid_spec(book, mark, c.max_mark_index_gap_bps) {
            QuoteGate::Ready {
                market_at_ms: if mark.event_time_ms >= book.event_time_ms {
                    mark.event_time_ms
                } else {
                    book.event_time_ms
                },
            }
        } else {
            QuoteGate::Invalid
        },
        _ => QuoteGate::NoMarket,
    }
}

/// What the runner does after a decision.
#[derive(Debug, Clone, PartialEq, Eq)]
pub enum RebalanceAction {
    /// Nothing.
    Hold,
    /// Cancel the resting order.
    Withdraw,
    /// Dry run: report the quote that would be placed.
    Announce { side: Side, price_ticks: i64, quantity_ticks: i64, post_only: bool },
    /// Cancel the resting order first when `cancel_first`, then place `order`.
    Replace { cancel_first: bool, order: NewOrder },
}

/// The decision without the client order id that a placement carries.
#[derive(Debug, Clone, Copy, PartialEq, Eq, Structural)]
pub enum RebalanceKind {
    Hold,
    Withdraw,
    Announce { side: Side, price_ticks: i64, quantity_ticks: i64, post_only: bool },
    Replace { cancel_first: bool, side: Side, price_ticks: i64, quantity_ticks: i64 },
}

impl RebalanceAction {
    pub open spec fn kind(self) -> RebalanceKind {
        match self {
            RebalanceAction::Hold => RebalanceKind::Hold,
            RebalanceAction::Withdraw => RebalanceKind::Withdraw,
            RebalanceAction::Announce { side, price_ticks, quantity_ticks, post_only } =>
                RebalanceKind::Announce { side, price_ticks, quantity_ticks, post_only },
            RebalanceAction::Replace { cancel_first, order } => RebalanceKind::Replace {
                cancel_first,
                side: order.side,
                price_ticks: order.price_ticks,
                quantity_ticks: order.quantity_ticks,
            },
        }
    }
}

/// Withdraw only what rests, and only when orders are being sent.
pub open spec fn withdraw_if_resting(s: RunnerState, c: RunnerConfig) -> RebalanceKind {
    if s.working is Some && c.send_orders {
        RebalanceKind::Withdraw
    } else {
        RebalanceKind::Hold
    }
}

/// The intent's quantity cut to what the position limit still allows.
pub open spec fn capped_quantity(s: RunnerState, c: RunnerConfig, intent: MakerIntent) -> int {
    let room = max_order_quantity_spec(s.position_ticks, intent.side, c.max_position);
    if intent.quantity <= room {
        intent.quantity as int
    } else {
        room
    }
}

pub open spec fn same_order(w: WorkingOrder, side: Side, price: i64, quantity: i64) -> bool {
    w.side == side && w.price_ticks == price && w.quantity_ticks == quantity
}

/// The rebalancing decision and the state it leaves: no market holds; an
/// invalid market, a missing intent or no room withdraws what rests (and
/// forgets the announced quote); a dry run announces each new quote once; a
/// halted runner, a quote equal to the resting order, or one within
/// `min_replace_ms` of the last action holds; otherwise the resting order
/// is replaced and the order counter advances.
pub open spec fn rebalance_spec(
    s: RunnerState,
    c: RunnerConfig,
    intent: Option<MakerIntent>,
    now_ms: u64,
) -> (RunnerState, RebalanceKind) {
    match gate_spec(s, c) {
        QuoteGate::NoMarket => (s, RebalanceKind::Hold),
        QuoteGate::Invalid => (s, withdraw_if_resting(s, c)),
        QuoteGate::Ready { .. } => match intent {
            None => (RunnerState { last_proposal: None, ..s }, withdraw_if_resting(s, c)),
            Some(i) => {
                let q = capped_quantity(s, c, i);
                if q <= 0 {
                    (RunnerState { last_proposal: None, ..s }, withdraw_if_resting(s, c))
                } else if !c.send_orders {
                    let p = (i.side, i.price, q as i64);
                    if s.last_proposal == Some(p) {
                        (s, RebalanceKind::Hold)
                    } else {
                        (
                            RunnerState { last_proposal: Some(p), ..s },
                            RebalanceKind::Announce {
                                side: i.side,
                                price_ticks: i.price,
                                quantity_ticks: q as i64,
                                post_only: i.post_only,
                            },
                        )
                    }
                } else if s.halted {
                    (s, RebalanceKind::Hold)
                } else if s.working matches Some(w) && same_order(w, i.side, i.price, q as i64) {
                    (s, RebalanceKind::Hold)
                } else if (if now_ms >= s.last_action_ms {
                    now_ms - s.last_action_ms
                } else {
                    0
                }) < c.min_replace_ms {
                    (s, RebalanceKind::Hold)
                } else {
                    (
                        RunnerState {
                            next_order_id: if s.next_order_id == u64::MAX {
                                u64::MAX
                            } else {
                                (s.next_order_id + 1) as u64
                            },
                            ..s
                        },
                        RebalanceKind::Replace {
                            cancel_first: s.working is Some,
                            side: i.side,
                            price_ticks: i.price,
                            quantity_ticks: q as i64,
                        },
                    )
                }
            },
        },
    }
}

/// `anchorbell-<now_ms>-<sequence>`, the client order id of a placement.
pub open spec fn client_order_id_for(now_ms: u64, sequence: u64) -> Seq<char> {
    "anchorbell-"@ + crate::text::dec_chars(now_ms as nat) + "-"@ + crate::text::dec_chars(
        sequence as nat,
    )
}

pub fn client_order_id(now_ms: u64, sequence: u64) -> (r: String)
    ensures
        r@ == client_order_id_for(now_ms, sequence),
{
    let mut s = crate::text::owned("anchorbell-");
    s.append(crate::text::u64_to_dec(now_ms).as_str());
    s.append("-");
    s.append(crate::text::u64_to_dec(sequence).as_str());
    s
}

impl RunnerState {
    pub fn quote_gate(&self, c: &RunnerConfig) -> (r: QuoteGate)
        ensures
            r == gate_spec(*self, *c),
    {
        match (&self.book, &self.mark) {
            (Some(book), Some(mark)) => {
                if market_is_valid(book, mark, c.max_mark_index_gap_bps) {
                    QuoteGate::Ready {
                        market_at_ms: if mark.event_time_ms >= book.event_time_ms {
                            mark.event_time_ms
                        } else {
                            book.event_time_ms
                        },
                    }
                } else {
                    QuoteGate::Invalid
                }
            },
            _ => QuoteGate::NoMarket,
        }
    }

    fn withdraw_if_resting(&self, c: &RunnerConfig) -> (r: RebalanceAction)
        ensures
            r.kind() == withdraw_if_resting(*self, *c),
    {
        if self.working.is_some() && c.send_orders {
            RebalanceAction::Withdraw
        } else {
            RebalanceAction::Hold
        }
    }

    /// Decides what to do with the strategy's `intent` at `now_ms` (the
    /// intent is ignored unless the market is quotable); a placement carries
    /// the client order id made of `now_ms` and the order counter.
    #[verifier::spinoff_prover]
    #[verifier::rlimit(40)]
    pub fn rebalance(&mut self, c: &RunnerConfig, intent: Option<MakerIntent>, now_ms: u64) -> (r:
        RebalanceAction)
        ensures
            (*final(self), r.kind()) == rebalance_spec(*old(self), *c, intent, now_ms),
            r matches RebalanceAction::Replace { order, .. } ==> order.client_order_id@
                == client_order_id_for(now_ms, old(self).next_order_id),
    {
        match self.quote_gate(c) {
            QuoteGate::NoMarket => RebalanceAction::Hold,
            QuoteGate::Invalid => self.withdraw_if_resting(c),
            QuoteGate::Ready { .. } => {
                match intent {
                    None => {
                        let r = self.withdraw_if_resting(c);
                        self.last_proposal = None;
                        r
                    },
                    Some(i) => {
                        let room = max_order_quantity(self.position_ticks, i.side, c.max_position);
                        let q = if i.quantity <= room { i.quantity } else { room };
                        if q <= 0 {
                            let r = self.withdraw_if_resting(c);
                            self.last_proposal = None;
                            return r;
                        }
                        if !c.send_orders {
                            let same = match self.last_proposal {
                                Some((side, price, quantity)) => side == i.side && price == i.price
                                    && quantity == q,
                                None => false,
                            };
                            if same {
                                return RebalanceAction::Hold;
                            }
                            self.last_proposal = Some((i.side, i.price, q));
                            return RebalanceAction::Announce {
                                side: i.side,
                                price_ticks: i.price,
                                quantity_ticks: q,
                                post_only: i.post_only,
                            };
                        }
                        if self.halted {
                            return RebalanceAction::Hold;
                        }
                        let unchanged = match &self.working {
                            Some(w) => w.side == i.side && w.price_ticks == i.price
                                && w.quantity_ticks == q,
                            None => false,
                        };
                        if unchanged {
                            return RebalanceAction::Hold;
                        }
                        let elapsed = if now_ms >= self.last_action_ms {
                            now_ms - self.last_action_ms
                        } else {
                            0
                        };
                        if elapsed < c.min_replace_ms {
                            return RebalanceAction::Hold;
                        }
                        let id = client_order_id(now_ms, self.next_order_id);
                        self.next_order_id = if self.next_order_id == u64::MAX {
                            u64::MAX
                        } else {
                            self.next_order_id + 1
                        };
                        RebalanceAction::Replace {
                            cancel_first: self.working.is_some(),
                            order: NewOrder {
                                client_order_id: id,
                                side: i.side,
                                price_ticks: i.price,
                                quantity_ticks: q,
                            },
                        }
                    },
                }
            },
        }
    }
}


/// Why the exchange's position report was refused.
#[derive(Debug, Clone, Copy, PartialEq, Eq, Structural)]
pub enum PositionRiskError {
    /// No leg of the runner's symbol was reported.
    MissingSymbol,
    /// The first leg's amount is not a position at the quantity scale.
    Parse(PositionParseError),
    /// More than one leg of the symbol was reported.
    MultipleLegs,
    /// The reported position is beyond the configured limit.
    ExceedsMax { position: i64, max_position: i64 },
}

/// Index of the first position leg of `symbol`, if any.
pub open spec fn first_leg(risks: Seq<BinancePositionRisk>, symbol: Seq<char>) -> Option<int>
    decreases risks.len(),
{
    if risks.len() == 0 {
        None
    } else {
        match first_leg(risks.drop_last(), symbol) {
            Some(i) => Some(i),
            None => if risks.last().symbol@ == symbol {
                Some(risks.len() - 1)
            } else {
                None
            },
        }
    }
}

pub open spec fn leg_after(risks: Seq<BinancePositionRisk>, symbol: Seq<char>, i: int) -> bool {
    exists|j: int| i < j < risks.len() && #[trigger] risks[j].symbol@ == symbol
}

/// The position the report gives, and whether it is accepted: the first
/// leg of the symbol is parsed; a second leg refuses the report; a position
/// beyond the limit is recorded and then refused.
pub open spec fn position_report(
    risks: Seq<BinancePositionRisk>,
    c: RunnerConfig,
    current: i64,
) -> (i64, Result<(), PositionRiskError>) {
    match first_leg(risks, c.symbol@) {
        None => (current, Err(PositionRiskError::MissingSymbol)),
        Some(i) => match position_ticks_spec(risks[i].position_amount@, c.quantity_scale as nat) {
            Err(e) => (current, Err(PositionRiskError::Parse(e))),
            Ok(total) => if leg_after(risks, c.symbol@, i) {
                (current, Err(PositionRiskError::MultipleLegs))
            } else if abs_or_max(total) > c.max_position {
                (
                    total,
                    Err(
                        PositionRiskError::ExceedsMax {
                            position: abs_or_max(total),
                            max_position: c.max_position,
                        },
                    ),
                )
            } else {
                (total, Ok(()))
            },
        },
    }
}

proof fn lemma_first_leg(risks: Seq<BinancePositionRisk>, symbol: Seq<char>, k: int)
    requires
        0 <= k <= risks.len(),
        forall|j: int| 0 <= j < k ==> #[trigger] risks[j].symbol@ != symbol,
        k == risks.len() || risks[k].symbol@ == symbol,
    ensures
        first_leg(risks, symbol) == (if k < risks.len() {
            Some(k)
        } else {
            None::<int>
        }),
    decreases risks.len(),
{
    if risks.len() > 0 {
        if k < risks.len() {
            if k < risks.len() - 1 {
                lemma_first_leg(risks.drop_last(), symbol, k);
            } else {
                lemma_first_leg(risks.drop_last(), symbol, k);
            }
        } else {
            lemma_first_leg(risks.drop_last(), symbol, k - 1);
        }
    }
}

/// Reported open orders that the runner does not track: those of its own
/// making are cancelled in the order they come, until one it cannot touch.
#[derive(Debug, Clone, PartialEq, Eq)]
pub struct ReconcilePlan {
    /// Client order ids to cancel, in order.
    pub cancels: Vec<String>,
    /// The order that stopped the walk, if one did.
    pub refusal: Option<ReconcileRefusal>,
}

#[derive(Debug, Clone, PartialEq, Eq)]
pub enum ReconcileRefusal {
    /// An open order that this runner did not make.
    Untracked(String),
    /// An orphan of this runner, found while orders may not be sent.
    ReadOnlyOrphan(String),
}

/// The bytes of `anchorbell-`.
pub open spec fn own_prefix() -> Seq<u8> {
    seq![97u8, 110, 99, 104, 111, 114, 98, 101, 108, 108, 45]
}

pub open spec fn own_order_id(id: Seq<char>) -> bool {
    crate::text::utf8(id).len() >= 11 && crate::text::utf8(id).subrange(0, 11) == own_prefix()
}

pub open spec fn is_tracked(s: RunnerState, id: Seq<char>) -> bool {
    s.working matches Some(w) && w.client_order_id@ == id
}

/// The reconciliation walk over `ids`: tracked orders are skipped, the
/// runner's orphans are cancelled when orders may be sent, and the first
/// foreign order (or orphan in read-only mode) stops the walk.
pub open spec fn reconcile_spec(s: RunnerState, c: RunnerConfig, ids: Seq<Seq<char>>) -> (
    Seq<Seq<char>>,
    Option<(bool, Seq<char>)>,
)
    decreases ids.len(),
{
    if ids.len() == 0 {
        (Seq::empty(), None)
    } else {
        let (cancels, refusal) = reconcile_spec(s, c, ids.drop_last());
        let id = ids.last();
        if refusal is Some || is_tracked(s, id) {
            (cancels, refusal)
        } else if !own_order_id(id) {
            (cancels, Some((true, id)))
        } else if !c.send_orders {
            (cancels, Some((false, id)))
        } else {
            (cancels.push(id), None)
        }
    }
}

pub open spec fn refusal_view(r: Option<ReconcileRefusal>) -> Option<(bool, Seq<char>)> {
    match r {
        None => None,
        Some(ReconcileRefusal::Untracked(id)) => Some((true, id@)),
        Some(ReconcileRefusal::ReadOnlyOrphan(id)) => Some((false, id@)),
    }
}

pub open spec fn order_ids(orders: Seq<BinanceOpenOrder>) -> Seq<Seq<char>> {
    orders.map_values(|o: BinanceOpenOrder| o.client_order_id@)
}

/// Once the walk has stopped, later orders change nothing.
proof fn lemma_reconcile_stops(s: RunnerState, c: RunnerConfig, ids: Seq<Seq<char>>, k: int)
    requires
        0 <= k <= ids.len(),
        reconcile_spec(s, c, ids.subrange(0, k)).1 is Some,
    ensures
        reconcile_spec(s, c, ids) == reconcile_spec(s, c, ids.subrange(0, k)),
    decreases ids.len() - k,
{
    if k == ids.len() {
        assert(ids.subrange(0, k) =~= ids);
    } else {
        assert(ids.subrange(0, ids.len() - 1).subrange(0, k) =~= ids.subrange(0, k));
        lemma_reconcile_stops(s, c, ids.subrange(0, ids.len() - 1), k);
        assert(ids.subrange(0, ids.len() - 1) =~= ids.drop_last());
    }
}

fn has_own_prefix(id: &str) -> (r: bool)
    ensures
        r == own_order_id(id@),
{
    let b = id.as_bytes();
    if b.len() < 11 {
        return false;
    }
    let ok = b[0] == 97 && b[1] == 110 && b[2] == 99 && b[3] == 104 && b[4] == 111 && b[5] == 114
        && b[6] == 98 && b[7] == 101 && b[8] == 108 && b[9] == 108 && b[10] == 45;
    proof {
        if ok {
            assert(b@.subrange(0, 11) =~= own_prefix());
        } else {
            assert(b@.subrange(0, 11) != own_prefix()) by {
                if b@.subrange(0, 11) == own_prefix() {
                    assert(b@.subrange(0, 11)[0] == b@[0]);
                    assert(b@.subrange(0, 11)[1] == b@[1]);
                    assert(b@.subrange(0, 11)[2] == b@[2]);
                    assert(b@.subrange(0, 11)[3] == b@[3]);
                    assert(b@.subrange(0, 11)[4] == b@[4]);
                    assert(b@.subrange(0, 11)[5] == b@[5]);
                    assert(b@.subrange(0, 11)[6] == b@[6]);
                    assert(b@.subrange(0, 11)[7] == b@[7]);
                    assert(b@.subrange(0, 11)[8] == b@[8]);
                    assert(b@.subrange(0, 11)[9] == b@[9]);
                    assert(b@.subrange(0, 11)[10] == b@[10]);
                }
            }
        }
    }
    ok
}

impl RunnerState {
    /// Applies the exchange's position report for the runner's symbol.
    #[verifier::spinoff_prover]
    #[verifier::rlimit(40)]
    pub fn apply_position_report(&mut self, c: &RunnerConfig, risks: &[BinancePositionRisk]) -> (r:
        Result<(), PositionRiskError>)
        ensures
            (final(self).position_ticks, r) == position_report(
                risks@,
                *c,
                old(self).position_ticks,
            ),
            *final(self) == (RunnerState { position_ticks: final(self).position_ticks, ..*old(self) }),
    {
        let n = risks.len();
        let mut i: usize = 0;
        while i < n && !crate::text::str_eq(risks[i].symbol.as_str(), c.symbol.as_str())
            invariant
                i <= n == risks@.len(),
                forall|j: int| 0 <= j < i ==> #[trigger] risks@[j].symbol@ != c.symbol@,
            decreases n - i,
        {
            i = i + 1;
        }
        proof {
            lemma_first_leg(risks@, c.symbol@, i as int);
        }
        if i == n {
            return Err(PositionRiskError::MissingSymbol);
        }
        let total = match parse_position_ticks(risks[i].position_amount.as_str(), c.quantity_scale) {
            Ok(v) => v,
            Err(e) => {
                return Err(PositionRiskError::Parse(e));
            },
        };
        let mut j: usize = i + 1;
        while j < n
            invariant
                i < j <= n == risks@.len(),
                forall|k: int| i < k < j ==> #[trigger] risks@[k].symbol@ != c.symbol@,
                first_leg(risks@, c.symbol@) == Some(i as int),
                position_ticks_spec(risks@[i as int].position_amount@, c.quantity_scale as nat) == Ok::<i64, PositionParseError>(total),
                *self == *old(self),
            decreases n - j,
        {
            if crate::text::str_eq(risks[j].symbol.as_str(), c.symbol.as_str()) {
                assert(leg_after(risks@, c.symbol@, i as int));
                return Err(PositionRiskError::MultipleLegs);
            }
            j = j + 1;
        }
        self.position_ticks = total;
        let magnitude = if total == i64::MIN {
            i64::MAX
        } else if total < 0 {
            -total
        } else {
            total
        };
        if magnitude > c.max_position {
            return Err(PositionRiskError::ExceedsMax { position: magnitude, max_position: c.max_position });
        }
        Ok(())
    }

    /// Walks the reported open orders and says which to cancel and which,
    /// if any, stops the runner.
    #[verifier::spinoff_prover]
    #[verifier::rlimit(40)]
    pub fn reconcile_open_orders(&self, c: &RunnerConfig, remote: &[BinanceOpenOrder]) -> (r:
        ReconcilePlan)
        ensures
            (r.cancels@.map_values(|id: String| id@), refusal_view(r.refusal)) == reconcile_spec(
                *self,
                *c,
                order_ids(remote@),
            ),
    {
        let mut cancels: Vec<String> = Vec::new();
        let mut i: usize = 0;
        let ghost ids = order_ids(remote@);
        while i < remote.len()
            invariant
                i <= remote@.len(),
                ids == order_ids(remote@),
                (cancels@.map_values(|id: String| id@), None::<(bool, Seq<char>)>) == reconcile_spec(
                    *self,
                    *c,
                    ids.subrange(0, i as int),
                ),
            decreases remote@.len() - i,
        {
            let id = &remote[i].client_order_id;
            proof {
                assert(ids.subrange(0, i + 1).drop_last() =~= ids.subrange(0, i as int));
                assert(ids.subrange(0, i + 1).last() == id@);
            }
            let tracked_here = match &self.working {
                Some(w) => crate::text::str_eq(w.client_order_id.as_str(), id.as_str()),
                None => false,
            };
            if !tracked_here {
                if !has_own_prefix(id.as_str()) {
                    let refusal = Some(ReconcileRefusal::Untracked(id.clone()));
                    proof {
                        lemma_reconcile_stops(*self, *c, ids, i as int + 1);
                    }
                    return ReconcilePlan { cancels, refusal };
                }
                if !c.send_orders {
                    let refusal = Some(ReconcileRefusal::ReadOnlyOrphan(id.clone()));
                    proof {
                        lemma_reconcile_stops(*self, *c, ids, i as int + 1);
                    }
                    return ReconcilePlan { cancels, refusal };
                }
                let ghost before = cancels@;
                cancels.push(id.clone());
                assert(cancels@.map_values(|id: String| id@) =~= before.map_values(
                    |id: String| id@,
                ).push(id@));
            }
            i = i + 1;
        }
        proof {
            assert(ids.subrange(0, remote@.len() as int) =~= ids);
        }
        ReconcilePlan { cancels, refusal: None }
    }
}


/// `<symbol>-<server_time_ms>`, the id of a runner session.
pub fn session_id(symbol: &str, server_time_ms: u64) -> (r: String)
    ensures
        r@ == symbol@ + "-"@ + crate::text::dec_chars(server_time_ms as nat),
{
    let mut s = crate::text::owned(symbol);
    s.append("-");
    s.append(crate::text::u64_to_dec(server_time_ms).as_str());
    s
}

/// A stored checkpoint may only resume a runner of the same symbol and
/// environment.
pub fn checkpoint_matches(c: &RunnerConfig, checkpoint: &SessionCheckpoint) -> (r: bool)
    ensures
        r == (checkpoint.symbol@ == c.symbol@ && checkpoint.environment@ == environment_name(
            c.environment,
        )),
{
    crate::text::str_eq(checkpoint.symbol.as_str(), c.symbol.as_str()) && crate::text::str_eq(
        checkpoint.environment.as_str(),
        c.environment.as_str(),
    )
}

impl RunnerState {
    /// The checkpoint the runner leaves: its net position (and that
    /// position's magnitude as gross) under the upper-cased symbol, the
    /// resting order's id, and a risk stop when halted or not flat.
    #[verifier::spinoff_prover]
    #[verifier::rlimit(40)]
    pub fn final_checkpoint(&self, c: &RunnerConfig, session_id: String) -> (r: SessionCheckpoint)
        ensures
            r.schema_version == SESSION_CHECKPOINT_SCHEMA_VERSION,
            r.session_id == session_id,
            r.environment@ == environment_name(c.environment),
            r.symbol@ == c.symbol@,
            r.last_event_at_ms == 0,
            r.position_ticks == self.position_ticks,
            r.gross_position_ticks == abs_or_max(self.position_ticks),
            r.portfolio_positions.wf(),
            r.portfolio_positions.as_map() == map![crate::text::utf8(upper_chars(c.symbol@)) => self.position_ticks],
            r.working_order_ids@.map_values(|id: String| id@) == (match self.working {
                Some(w) => seq![w.client_order_id@],
                None => Seq::empty(),
            }),
            r.risk_stopped == (self.halted || self.position_ticks != 0),
    {
        let mut checkpoint = SessionCheckpoint::new(
            session_id,
            crate::text::owned(c.environment.as_str()),
            c.symbol.clone(),
        );
        checkpoint.position_ticks = self.position_ticks;
        checkpoint.gross_position_ticks = if self.position_ticks == i64::MIN {
            i64::MAX
        } else if self.position_ticks < 0 {
            -self.position_ticks
        } else {
            self.position_ticks
        };
        let key = crate::text::to_upper(c.symbol.as_str());
        let ghost k = crate::text::utf8(upper_chars(c.symbol@));
        checkpoint.portfolio_positions.insert(key, self.position_ticks);
        proof {
            let m = checkpoint.portfolio_positions;
            assert(m.keys().to_set().contains(k));
            assert forall|x: Seq<u8>| m.contains_key(x) <==> x == k by {
                if m.contains_key(x) {
                    assert(m.keys().to_set().contains(x));
                }
                if x == k {
                    assert(m.keys().to_set().contains(x));
                }
            }
            assert(m.as_map() =~= map![k => self.position_ticks]);
        }
        let mut ids: Vec<String> = Vec::new();
        match &self.working {
            Some(w) => {
                ids.push(w.client_order_id.clone());
            },
            None => {},
        }
        assert(ids@.map_values(|id: String| id@) =~= (match self.working {
            Some(w) => seq![w.client_order_id@],
            None => Seq::<Seq<char>>::empty(),
        }));
        checkpoint.working_order_ids = ids;
        checkpoint.risk_stopped = self.halted || self.position_ticks != 0;
        checkpoint
    }

    /// The process exit status: 3 after a halt or when the runner ends with
    /// a position or a resting order, 0 otherwise.
    pub fn exit_code(&self) -> (r: i32)
        ensures
            r == (if self.halted || self.position_ticks != 0 || self.working is Some {
                3i32
            } else {
                0i32
            }),
    {
        if self.halted || self.position_ticks != 0 || self.working.is_some() {
            3
        } else {
            0
        }
    }
}


/// A dry run neither places nor cancels anything: every decision holds or
/// announces a quote.
pub proof fn law_dry_run_sends_nothing(
    s: RunnerState,
    c: RunnerConfig,
    intent: Option<MakerIntent>,
    now_ms: u64,
)
    requires
        !c.send_orders,
    ensures
        rebalance_spec(s, c, intent, now_ms).1 is Hold || rebalance_spec(s, c, intent, now_ms).1 is Announce,
{
}

/// A dry run announces a quote once: deciding again on the same intent,
/// with nothing else changed, holds.
pub proof fn law_quote_announced_once(
    s: RunnerState,
    c: RunnerConfig,
    intent: Option<MakerIntent>,
    now_ms: u64,
    later_ms: u64,
)
    requires
        rebalance_spec(s, c, intent, now_ms).1 is Announce,
    ensures
        rebalance_spec(rebalance_spec(s, c, intent, now_ms).0, c, intent, later_ms).1 is Hold,
{
}

/// A halted runner places nothing.
pub proof fn law_halted_runner_places_nothing(
    s: RunnerState,
    c: RunnerConfig,
    intent: Option<MakerIntent>,
    now_ms: u64,
)
    requires
        s.halted,
    ensures
        !(rebalance_spec(s, c, intent, now_ms).1 is Replace),
{
}

/// A placement never takes the position past the limit: a buy keeps it at
/// most `max_position`, a sell at least `-max_position`.
pub proof fn law_placements_respect_position_limit(
    s: RunnerState,
    c: RunnerConfig,
    intent: Option<MakerIntent>,
    now_ms: u64,
)
    ensures
        rebalance_spec(s, c, intent, now_ms).1 matches RebalanceKind::Replace {
            side,
            quantity_ticks,
            ..
        } ==> quantity_ticks > 0 && match side {
            Side::Buy => s.position_ticks + quantity_ticks <= c.max_position,
            Side::Sell => s.position_ticks - quantity_ticks >= -c.max_position,
        },
{
}

/// Every order the runner places carries an id that reconciliation
/// recognises as the runner's own.
pub proof fn law_placed_ids_are_own(now_ms: u64, sequence: u64)
    ensures
        own_order_id(client_order_id_for(now_ms, sequence)),
{
    let p = "anchorbell-"@;
    reveal_strlit("anchorbell-");
    assert(vstd::utf8::is_ascii_chars(p));
    vstd::utf8::is_ascii_chars_encode_utf8(p);
    let rest = crate::text::dec_chars(now_ms as nat) + "-"@ + crate::text::dec_chars(sequence as nat);
    assert(client_order_id_for(now_ms, sequence) =~= p + rest);
    crate::text::lemma_utf8_concat(p, rest);
    let full = crate::text::utf8(p + rest);
    assert(full.subrange(0, 11) =~= crate::text::utf8(p));
    assert(crate::text::utf8(p) =~= own_prefix());
}

/// An order the runner placed and no longer tracks is cancelled, not
/// refused, when orders are being sent.
pub proof fn law_own_orphans_are_cancelled(
    s: RunnerState,
    c: RunnerConfig,
    now_ms: u64,
    sequence: u64,
)
    requires
        c.send_orders,
        !is_tracked(s, client_order_id_for(now_ms, sequence)),
    ensures
        reconcile_spec(s, c, seq![client_order_id_for(now_ms, sequence)]) == (
            seq![client_order_id_for(now_ms, sequence)],
            None::<(bool, Seq<char>)>,
        ),
{
    law_placed_ids_are_own(now_ms, sequence);
    let ids = seq![client_order_id_for(now_ms, sequence)];
    assert(ids.drop_last() =~= Seq::<Seq<char>>::empty());
    assert(reconcile_spec(s, c, ids.drop_last()) == (Seq::<Seq<char>>::empty(), None::<(bool, Seq<char>)>));
    assert(Seq::<Seq<char>>::empty().push(client_order_id_for(now_ms, sequence)) =~= ids);
}

} // verus!
