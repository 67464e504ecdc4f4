//! Decisions of the multi-symbol live runner that do not wait on the
//! exchange: which configured symbols the instrument registry admits, how
//! each symbol's market state follows public events, and how user-data
//! events update positions and the orders believed to rest.
use crate::decimal::{parse_ticks, parse_ticks_spec};
use crate::execution::user_data::UserDataEvent;
use crate::keyed::SortedMap;
use crate::maker_runner::{ewma, ewma_spec, mark_change_bps, mark_change_bps_spec, WorkingOrder};
use crate::market::binance::{BinanceMarketEvent, BookTicker, MarkPrice};
use crate::market::instrument_registry::{
    by_symbol_spec, AssetClass, InstrumentClassification, InstrumentRegistryConfig,
};
use crate::text::{normalized_symbol, str_eq, utf8};
use vstd::prelude::*;

verus! {

/// The stage a symbol must be enabled for.
#[derive(Debug, Clone, Copy, PartialEq, Eq, Structural)]
pub enum InstrumentStage {
    Simulation,
    Live,
}

/// Why the registry refused a configured symbol.
#[derive(Debug, Clone, PartialEq, Eq)]
pub enum InstrumentGateError {
    /// The registry has no classification for the symbol.
    Missing(String),
    /// The symbol's asset class is not the profile's.
    AssetClassMismatch { symbol: String, profile: AssetClass, symbol_class: AssetClass },
    /// The symbol's asset class is unknown.
    UnknownAssetClass(String),
    /// The registry does not enable the symbol for the stage.
    NotEnabled(String),
}

pub enum GateErrorView {
    Missing(Seq<char>),
    AssetClassMismatch { symbol: Seq<char>, profile: AssetClass, symbol_class: AssetClass },
    UnknownAssetClass(Seq<char>),
    NotEnabled(Seq<char>),
}

pub open spec fn gate_error_view(e: InstrumentGateError) -> GateErrorView {
    match e {
        InstrumentGateError::Missing(s) => GateErrorView::Missing(s@),
        InstrumentGateError::AssetClassMismatch { symbol, profile, symbol_class } =>
            GateErrorView::AssetClassMismatch { symbol: symbol@, profile, symbol_class },
        InstrumentGateError::UnknownAssetClass(s) => GateErrorView::UnknownAssetClass(s@),
        InstrumentGateError::NotEnabled(s) => GateErrorView::NotEnabled(s@),
    }
}

pub open spec fn enabled_for(c: InstrumentClassification, stage: InstrumentStage) -> bool {
    match stage {
        InstrumentStage::Simulation => c.simulation_enabled,
        InstrumentStage::Live => c.live_enabled,
    }
}

/// One configured symbol, trimmed and upper-cased, against the registry.
pub open spec fn symbol_gate(
    m: Map<Seq<u8>, InstrumentClassification>,
    profile: AssetClass,
    symbol: Seq<char>,
    stage: InstrumentStage,
) -> Option<GateErrorView> {
    let n = normalized_symbol(symbol);
    if !m.dom().contains(utf8(n)) {
        Some(GateErrorView::Missing(n))
    } else {
        let c = m[utf8(n)];
        if c.asset_class != profile {
            Some(GateErrorView::AssetClassMismatch { symbol: n, profile, symbol_class: c.asset_class })
        } else if c.asset_class == AssetClass::Unknown {
            Some(GateErrorView::UnknownAssetClass(n))
        } else if !enabled_for(c, stage) {
            Some(GateErrorView::NotEnabled(n))
        } else {
            None
        }
    }
}

/// The first configured symbol the registry refuses, in order.
pub open spec fn instruments_gate(
    m: Map<Seq<u8>, InstrumentClassification>,
    profile: AssetClass,
    symbols: Seq<Seq<char>>,
    stage: InstrumentStage,
) -> Option<GateErrorView>
    decreases symbols.len(),
{
    if symbols.len() == 0 {
        None
    } else {
        match instruments_gate(m, profile, symbols.drop_last(), stage) {
            Some(e) => Some(e),
            None => symbol_gate(m, profile, symbols.last(), stage),
        }
    }
}

pub open spec fn symbol_views(symbols: Seq<String>) -> Seq<Seq<char>> {
    symbols.map_values(|s: String| s@)
}

/// Admits the configured symbols when each is classified, of the profile's
/// asset class, of a known class and enabled for `stage`.
pub fn validate_instruments(
    registry: &InstrumentRegistryConfig,
    profile: AssetClass,
    symbols: &[String],
    stage: InstrumentStage,
) -> (r: Result<(), InstrumentGateError>)
    ensures
        match r {
            Ok(()) => instruments_gate(by_symbol_spec(registry.instruments@), profile, symbol_views(symbols@), stage) is None,
            Err(e) => instruments_gate(by_symbol_spec(registry.instruments@), profile, symbol_views(symbols@), stage)
                == Some(gate_error_view(e)),
        },
{
    let classifications = registry.by_symbol();
    let ghost m = by_symbol_spec(registry.instruments@);
    let ghost sv = symbol_views(symbols@);
    let mut i: usize = 0;
    while i < symbols.len()
        invariant
            classifications.wf(),
            classifications.as_map() == m,
            m == by_symbol_spec(registry.instruments@),
            sv == symbol_views(symbols@),
            i <= symbols@.len(),
            instruments_gate(m, profile, sv.subrange(0, i as int), stage) is None,
        decreases symbols@.len() - i,
    {
        proof {
            assert(sv.subrange(0, i + 1).drop_last() =~= sv.subrange(0, i as int));
            assert(sv.subrange(0, i + 1).last() == symbols@[i as int]@);
        }
        let normalized = crate::text::normalize_symbol(symbols[i].as_str());
        let c = match classifications.get(normalized.as_str()) {
            Some(c) => c,
            None => {
                proof {
                    lemma_gate_stops(m, profile, sv, stage, i as int + 1);
                }
                return Err(InstrumentGateError::Missing(normalized));
            },
        };
        let failure = if c.asset_class != profile {
            Some(InstrumentGateError::AssetClassMismatch {
                symbol: normalized,
                profile,
                symbol_class: c.asset_class,
            })
        } else if c.asset_class == AssetClass::Unknown {
            Some(InstrumentGateError::UnknownAssetClass(normalized))
        } else if !(match stage {
            InstrumentStage::Simulation => c.simulation_enabled,
            InstrumentStage::Live => c.live_enabled,
        }) {
            Some(InstrumentGateError::NotEnabled(normalized))
        } else {
            None
        };
        match failure {
            Some(e) => {
                proof {
                    lemma_gate_stops(m, profile, sv, stage, i as int + 1);
                }
                return Err(e);
            },
            None => {},
        }
        i = i + 1;
    }
    assert(sv.subrange(0, symbols@.len() as int) =~= sv);
    Ok(())
}

/// Once a symbol has been refused, later symbols change nothing.
proof fn lemma_gate_stops(
    m: Map<Seq<u8>, InstrumentClassification>,
    profile: AssetClass,
    symbols: Seq<Seq<char>>,
    stage: InstrumentStage,
    k: int,
)
    requires
        0 <= k <= symbols.len(),
        instruments_gate(m, profile, symbols.subrange(0, k), stage) is Some,
    ensures
        instruments_gate(m, profile, symbols, stage) == instruments_gate(m, profile, symbols.subrange(0, k), stage),
    decreases symbols.len() - k,
{
    if k == symbols.len() {
        assert(symbols.subrange(0, k) =~= symbols);
    } else {
        let shorter = symbols.subrange(0, symbols.len() - 1);
        assert(shorter.subrange(0, k) =~= symbols.subrange(0, k));
        lemma_gate_stops(m, profile, shorter, stage, k);
        assert(shorter =~= symbols.drop_last());
    }
}

/// What the live runner knows of one symbol.
#[derive(Debug, Clone, PartialEq, Eq)]
pub struct LiveSymbolState {
    pub book: Option<BookTicker>,
    pub mark: Option<MarkPrice>,
    pub position_ticks: i64,
    pub last_mark_price_ticks: Option<i64>,
    pub ewma_abs_return_bps: i64,
    pub unrealized_profit: String,
}

fn copy_book(b: &BookTicker) -> (r: BookTicker)
    ensures
        r == *b,
{
    BookTicker {
        symbol: b.symbol.clone(),
        event_time_ms: b.event_time_ms,
        transaction_time_ms: b.transaction_time_ms,
        update_id: b.update_id,
        bid_price: b.bid_price,
        bid_quantity: b.bid_quantity,
        ask_price: b.ask_price,
        ask_quantity: b.ask_quantity,
    }
}

fn copy_mark(m: &MarkPrice) -> (r: MarkPrice)
    ensures
        r == *m,
{
    MarkPrice {
        symbol: m.symbol.clone(),
        event_time_ms: m.event_time_ms,
        mark_price: m.mark_price,
        index_price: m.index_price,
        next_funding_time_ms: m.next_funding_time_ms,
        latest_funding_rate_e8: m.latest_funding_rate_e8,
    }
}

impl LiveSymbolState {
    /// A symbol seen in no event yet, at the given reconciled position.
    pub fn new(position_ticks: i64, unrealized_profit: String) -> (r: Self)
        ensures
            r == (LiveSymbolState {
                book: None,
                mark: None,
                position_ticks,
                last_mark_price_ticks: None,
                ewma_abs_return_bps: 0,
                unrealized_profit,
            }),
    {
        LiveSymbolState {
            book: None,
            mark: None,
            position_ticks,
            last_mark_price_ticks: None,
            ewma_abs_return_bps: 0,
            unrealized_profit,
        }
    }

    fn duplicate(&self) -> (r: Self)
        ensures
            r == *self,
    {
        LiveSymbolState {
            book: match &self.book {
                Some(b) => Some(copy_book(b)),
                None => None,
            },
            mark: match &self.mark {
                Some(m) => Some(copy_mark(m)),
                None => None,
            },
            position_ticks: self.position_ticks,
            last_mark_price_ticks: self.last_mark_price_ticks,
            ewma_abs_return_bps: self.ewma_abs_return_bps,
            unrealized_profit: self.unrealized_profit.clone(),
        }
    }
}

/// A symbol's state after a book ticker or a mark price for it.
pub open spec fn live_market_step(s: LiveSymbolState, event: BinanceMarketEvent) -> LiveSymbolState {
    match event {
        BinanceMarketEvent::BookTicker(book) => LiveSymbolState { book: Some(book), ..s },
        BinanceMarketEvent::MarkPrice(mark) => LiveSymbolState {
            ewma_abs_return_bps: match s.last_mark_price_ticks {
                Some(previous) => if previous > 0 && mark.mark_price.0 > 0 {
                    ewma_spec(
                        s.ewma_abs_return_bps,
                        mark_change_bps_spec(previous, mark.mark_price.0) as i64,
                    ) as i64
                } else {
                    s.ewma_abs_return_bps
                },
                None => s.ewma_abs_return_bps,
            },
            last_mark_price_ticks: Some(mark.mark_price.0),
            mark: Some(mark),
            ..s
        },
        _ => s,
    }
}

/// The symbol a book ticker or mark price is for; other events update no
/// symbol's state.
pub open spec fn state_target(event: BinanceMarketEvent) -> Option<Seq<char>> {
    match event {
        BinanceMarketEvent::BookTicker(b) => Some(b.symbol@),
        BinanceMarketEvent::MarkPrice(m) => Some(m.symbol@),
        _ => None,
    }
}

/// Applies a public market event to the state of the symbol it is for,
/// when that symbol is tracked.
pub fn apply_market(states: &mut SortedMap<LiveSymbolState>, event: BinanceMarketEvent)
    requires
        old(states).wf(),
    ensures
        final(states).wf(),
        match state_target(event) {
            Some(symbol) => if old(states).as_map().dom().contains(utf8(symbol)) {
                final(states).as_map() == old(states).as_map().insert(
                    utf8(symbol),
                    live_market_step(old(states).as_map()[utf8(symbol)], event),
                )
            } else {
                final(states).as_map() == old(states).as_map()
            },
            None => final(states).as_map() == old(states).as_map(),
        },
{
    let symbol = match &event {
        BinanceMarketEvent::BookTicker(b) => b.symbol.clone(),
        BinanceMarketEvent::MarkPrice(m) => m.symbol.clone(),
        _ => {
            return;
        },
    };
    let i = match states.find(symbol.as_str()) {
        Some(i) => i,
        None => {
            return;
        },
    };
    let mut st = states.value_at(i).duplicate();
    match event {
        BinanceMarketEvent::BookTicker(book) => {
            st.book = Some(book);
        },
        BinanceMarketEvent::MarkPrice(mark) => {
            let price = mark.mark_price.0;
            match st.last_mark_price_ticks {
                Some(previous) => {
                    if previous > 0 && price > 0 {
                        let change = mark_change_bps(previous, price);
                        st.ewma_abs_return_bps = ewma(st.ewma_abs_return_bps, change);
                    }
                },
                None => {},
            }
            st.last_mark_price_ticks = Some(price);
            st.mark = Some(mark);
        },
        _ => {},
    }
    states.set_value(i, st);
}

/// A status after which a live order no longer rests.
pub open spec fn live_terminal_status(status: Seq<char>) -> bool {
    status == "FILLED"@ || status == "CANCELED"@ || status == "EXPIRED"@ || status == "REJECTED"@
}

/// A position line of an account update whose amount is not a position at
/// the quantity scale.
#[derive(Debug, Clone, PartialEq, Eq)]
pub struct AccountPrecisionError {
    pub symbol: String,
}

/// One position line: its amount must parse; a tracked symbol takes the
/// position and its unrealized profit.
pub open spec fn position_line_step(
    m: Map<Seq<u8>, LiveSymbolState>,
    p: crate::execution::user_data::PositionUpdate,
    quantity_scale: nat,
) -> (Map<Seq<u8>, LiveSymbolState>, Option<Seq<char>>) {
    match parse_ticks_spec(p.position_amount@, quantity_scale) {
        None => (m, Some(p.symbol@)),
        Some(v) => if m.dom().contains(utf8(p.symbol@)) {
            (
                m.insert(
                    utf8(p.symbol@),
                    LiveSymbolState {
                        position_ticks: v,
                        unrealized_profit: p.unrealized_profit,
                        ..m[utf8(p.symbol@)]
                    },
                ),
                None,
            )
        } else {
            (m, None)
        },
    }
}

/// The position lines in order, stopping at the first that does not parse
/// (the lines before it stay applied).
pub open spec fn position_lines(
    m: Map<Seq<u8>, LiveSymbolState>,
    lines: Seq<crate::execution::user_data::PositionUpdate>,
    quantity_scale: nat,
) -> (Map<Seq<u8>, LiveSymbolState>, Option<Seq<char>>)
    decreases lines.len(),
{
    if lines.len() == 0 {
        (m, None)
    } else {
        let (m1, e) = position_lines(m, lines.drop_last(), quantity_scale);
        if e is Some {
            (m1, e)
        } else {
            position_line_step(m1, lines.last(), quantity_scale)
        }
    }
}

proof fn lemma_position_lines_stop(
    m: Map<Seq<u8>, LiveSymbolState>,
    lines: Seq<crate::execution::user_data::PositionUpdate>,
    quantity_scale: nat,
    k: int,
)
    requires
        0 <= k <= lines.len(),
        position_lines(m, lines.subrange(0, k), quantity_scale).1 is Some,
    ensures
        position_lines(m, lines, quantity_scale) == position_lines(m, lines.subrange(0, k), quantity_scale),
    decreases lines.len() - k,
{
    if k == lines.len() {
        assert(lines.subrange(0, k) =~= lines);
    } else {
        let shorter = lines.subrange(0, lines.len() - 1);
        assert(shorter.subrange(0, k) =~= lines.subrange(0, k));
        lemma_position_lines_stop(m, shorter, quantity_scale, k);
        assert(shorter =~= lines.drop_last());
    }
}

/// Applies a user-data event: a terminal order update clears the symbol's
/// resting order; an account update sets the tracked symbols' positions,
/// refusing the first amount that does not parse; other events change
/// nothing.
#[verifier::spinoff_prover]
#[verifier::rlimit(40)]
pub fn apply_user(
    states: &mut SortedMap<LiveSymbolState>,
    working: &mut SortedMap<WorkingOrder>,
    event: &UserDataEvent,
    quantity_scale: u32,
) -> (r: Result<(), AccountPrecisionError>)
    requires
        old(states).wf(),
        old(working).wf(),
    ensures
        final(states).wf(),
        final(working).wf(),
        match event {
            UserDataEvent::OrderUpdate(u) => {
                &&& r is Ok
                &&& final(states).as_map() == old(states).as_map()
                &&& final(working).as_map() == if live_terminal_status(u.status@) {
                    old(working).as_map().remove(utf8(u.symbol@))
                } else {
                    old(working).as_map()
                }
            },
            UserDataEvent::AccountUpdate(a) => {
                let (m, e) = position_lines(old(states).as_map(), a.positions@, quantity_scale as nat);
                &&& final(states).as_map() == m
                &&& final(working).as_map() == old(working).as_map()
                &&& match r {
                    Ok(()) => e is None,
                    Err(err) => e == Some(err.symbol@),
                }
            },
            _ => {
                &&& r is Ok
                &&& final(states).as_map() == old(states).as_map()
                &&& final(working).as_map() == old(working).as_map()
            },
        },
{
    match event {
        UserDataEvent::OrderUpdate(u) => {
            let status = u.status.as_str();
            if str_eq(status, "FILLED") || str_eq(status, "CANCELED") || str_eq(status, "EXPIRED")
                || str_eq(status, "REJECTED") {
                working.remove(u.symbol.as_str());
            }
            Ok(())
        },
        UserDataEvent::AccountUpdate(a) => {
            let ghost m0 = states.as_map();
            let ghost lines = a.positions@;
            let mut i: usize = 0;
            while i < a.positions.len()
                invariant
                    states.wf(),
                    *event == UserDataEvent::AccountUpdate(*a),
                    m0 == old(states).as_map(),
                    lines == a.positions@,
                    i <= lines.len(),
                    position_lines(m0, lines.subrange(0, i as int), quantity_scale as nat) == (
                        states.as_map(),
                        None::<Seq<char>>,
                    ),
                    working.as_map() == old(working).as_map(),
                    working.wf(),
                decreases lines.len() - i,
            {
                let p = &a.positions[i];
                proof {
                    assert(lines.subrange(0, i + 1).drop_last() =~= lines.subrange(0, i as int));
                    assert(lines.subrange(0, i + 1).last() == *p);
                }
                let value = match parse_ticks(p.position_amount.as_str(), quantity_scale) {
                    Some(v) => v,
                    None => {
                        proof {
                            lemma_position_lines_stop(m0, lines, quantity_scale as nat, i + 1);
                        }
                        return Err(AccountPrecisionError { symbol: p.symbol.clone() });
                    },
                };
                match states.find(p.symbol.as_str()) {
                    Some(j) => {
                        let mut st = states.value_at(j).duplicate();
                        st.position_ticks = value;
                        st.unrealized_profit = p.unrealized_profit.clone();
                        states.set_value(j, st);
                    },
                    None => {},
                }
                i = i + 1;
            }
            assert(lines.subrange(0, lines.len() as int) =~= lines);
            Ok(())
        },
        _ => Ok(()),
    }
}

/// The event time of a user-data event (0 for an expired listen key).
pub fn user_event_time_ms(event: &UserDataEvent) -> (r: u64)
    ensures
        r == match event {
            UserDataEvent::OrderUpdate(u) => u.event_time_ms,
            UserDataEvent::AccountUpdate(a) => a.event_time_ms,
            UserDataEvent::ListenKeyExpired => 0,
            UserDataEvent::Unmodeled { event_time_ms, .. } => *event_time_ms,
        },
{
    match event {
        UserDataEvent::OrderUpdate(u) => u.event_time_ms,
        UserDataEvent::AccountUpdate(a) => a.event_time_ms,
        UserDataEvent::ListenKeyExpired => 0,
        UserDataEvent::Unmodeled { event_time_ms, .. } => *event_time_ms,
    }
}


/// Account updates never add or drop a tracked symbol: whatever the lines
/// say, the symbols with state stay those the runner started with.
pub proof fn law_account_updates_keep_universe(
    m: Map<Seq<u8>, LiveSymbolState>,
    lines: Seq<crate::execution::user_data::PositionUpdate>,
    quantity_scale: nat,
)
    ensures
        position_lines(m, lines, quantity_scale).0.dom() == m.dom(),
    decreases lines.len(),
{
    if lines.len() > 0 {
        law_account_updates_keep_universe(m, lines.drop_last(), quantity_scale);
        let m1 = position_lines(m, lines.drop_last(), quantity_scale).0;
        let p = lines.last();
        if m1.dom().contains(utf8(p.symbol@)) {
            assert(m1.insert(utf8(p.symbol@), m1[utf8(p.symbol@)]).dom() =~= m1.dom());
            assert(position_line_step(m1, p, quantity_scale).0.dom() =~= m1.dom());
        }
    }
}

/// A market event never adds or drops a tracked symbol either.
pub proof fn law_market_events_keep_universe(m: Map<Seq<u8>, LiveSymbolState>, event: BinanceMarketEvent)
    ensures
        match state_target(event) {
            Some(symbol) => m.dom().contains(utf8(symbol)) ==> m.insert(
                utf8(symbol),
                live_market_step(m[utf8(symbol)], event),
            ).dom() == m.dom(),
            None => true,
        },
{
    match state_target(event) {
        Some(symbol) => {
            if m.dom().contains(utf8(symbol)) {
                assert(m.insert(utf8(symbol), live_market_step(m[utf8(symbol)], event)).dom() =~= m.dom());
            }
        },
        None => {},
    }
}

} // verus!
