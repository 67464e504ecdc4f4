//! The execution supervisor: the session state machine that stops, halts or
//! flattens risk, and the admission rule every live order intent passes.
use crate::decimal::{parse_ticks, parse_ticks_spec};
use crate::execution::intent::{OrderIntent, Side};
use crate::execution::session_checkpoint::{
    abs_or_max, abs_values, checkpoint_error, saturating_sum, CheckpointError, SessionCheckpoint,
    SESSION_CHECKPOINT_SCHEMA_VERSION,
};
use crate::execution::user_data::{PositionUpdate, UserDataEvent};
use crate::keyed::{key_of, SortedMap, SortedStrings};
use crate::num::{abs_int, sat_u64};
use crate::observability::{DecisionAudit, DecisionGateAudit, DECISION_AUDIT_SCHEMA_VERSION};
use crate::text::{normalize_symbol, normalized_symbol, owned, trim_chars, utf8};
use vstd::prelude::*;

verus! {

#[derive(Debug, Clone, Copy, PartialEq, Eq, Structural)]
pub enum SupervisorState {
    Synchronizing,
    Healthy,
    RiskStopped,
    Flattening,
    Halted,
}

#[derive(Debug, Clone, Copy, PartialEq, Eq, Structural)]
pub enum GateReason {
    UnknownSymbol,
    NotHealthy,
    NonMakerIntent,
    InvalidIntent,
    MarketStale,
    FxStale,
    AnchorUnavailable,
    EquitySessionOpen,
    FundingUnknown,
    FundingWindow,
    PositionLimit,
    ResidualExposure,
    UnknownRemoteState,
}

#[derive(Debug, Clone, Copy, PartialEq, Eq, Structural)]
pub enum GateDecision {
    Allow,
    NoAction(GateReason),
    Halt(GateReason),
    Flatten(GateReason),
}

impl GateReason {
    pub open spec fn spec_label(self) -> Seq<char> {
        match self {
            GateReason::UnknownSymbol => "unknown_symbol"@,
            GateReason::NotHealthy => "not_healthy"@,
            GateReason::NonMakerIntent => "non_maker_intent"@,
            GateReason::InvalidIntent => "invalid_intent"@,
            GateReason::MarketStale => "market_stale"@,
            GateReason::FxStale => "fx_stale"@,
            GateReason::AnchorUnavailable => "anchor_unavailable"@,
            GateReason::EquitySessionOpen => "equity_session_open"@,
            GateReason::FundingUnknown => "funding_unknown"@,
            GateReason::FundingWindow => "funding_window"@,
            GateReason::PositionLimit => "position_limit"@,
            GateReason::ResidualExposure => "residual_exposure"@,
            GateReason::UnknownRemoteState => "unknown_remote_state"@,
        }
    }

    pub fn label(self) -> (r: &'static str)
        ensures
            r@ == self.spec_label(),
    {
        match self {
            GateReason::UnknownSymbol => "unknown_symbol",
            GateReason::NotHealthy => "not_healthy",
            GateReason::NonMakerIntent => "non_maker_intent",
            GateReason::InvalidIntent => "invalid_intent",
            GateReason::MarketStale => "market_stale",
            GateReason::FxStale => "fx_stale",
            GateReason::AnchorUnavailable => "anchor_unavailable",
            GateReason::EquitySessionOpen => "equity_session_open",
            GateReason::FundingUnknown => "funding_unknown",
            GateReason::FundingWindow => "funding_window",
            GateReason::PositionLimit => "position_limit",
            GateReason::ResidualExposure => "residual_exposure",
            GateReason::UnknownRemoteState => "unknown_remote_state",
        }
    }
}

#[derive(Debug, Clone, Copy, PartialEq, Eq, Structural)]
pub struct SupervisorConfig {
    pub max_market_age_ms: u64,
    pub max_fx_age_ms: u64,
    pub funding_lead_ms: u64,
    pub max_position: i64,
    pub quantity_scale: u32,
}

impl SupervisorConfig {
    pub open spec fn valid(self) -> bool {
        self.max_market_age_ms != 0 && self.max_fx_age_ms != 0 && self.max_position > 0
            && self.quantity_scale <= 18
    }
}

impl Default for SupervisorConfig {
    fn default() -> (r: Self)
        ensures
            r == (SupervisorConfig {
                max_market_age_ms: 5_000,
                max_fx_age_ms: 120_000,
                funding_lead_ms: 300_000,
                max_position: 100,
                quantity_scale: 8,
            }),
    {
        SupervisorConfig {
            max_market_age_ms: 5_000,
            max_fx_age_ms: 120_000,
            funding_lead_ms: 300_000,
            max_position: 100,
            quantity_scale: 8,
        }
    }
}

/// What the supervisor last observed of one symbol.
#[derive(Debug, Clone, Copy, PartialEq, Eq, Structural)]
pub struct SymbolState {
    pub market_at_ms: u64,
    pub fx_at_ms: u64,
    pub anchor_ready: bool,
    pub equity_closed: bool,
    pub funding_known: bool,
    pub next_funding_at_ms: u64,
    pub position: i64,
}

impl SymbolState {
    pub open spec fn initial() -> SymbolState {
        SymbolState {
            market_at_ms: 0,
            fx_at_ms: 0,
            anchor_ready: false,
            equity_closed: false,
            funding_known: false,
            next_funding_at_ms: 0,
            position: 0,
        }
    }

    pub open spec fn with_position(self, position: i64) -> SymbolState {
        SymbolState { position, ..self }
    }
}

/// The key under which a configured or requested symbol is stored: trimmed
/// and upper-cased, as bytes.
pub open spec fn symbol_key(symbol: Seq<char>) -> Seq<u8> {
    utf8(normalized_symbol(symbol))
}

pub open spec fn symbol_keys(symbols: Seq<String>) -> Seq<Seq<u8>> {
    symbols.map_values(|s: String| symbol_key(s@))
}

/// A symbol universe is accepted when it is not empty, no symbol normalizes
/// to the empty string, and no two symbols normalize to the same key.
pub open spec fn symbols_valid(symbols: Seq<String>) -> bool {
    &&& symbols.len() > 0
    &&& forall|i: int| 0 <= i < symbols.len() ==> normalized_symbol(#[trigger] symbols[i]@).len() > 0
    &&& forall|i: int, j: int|
        0 <= i < j < symbols.len() ==> #[trigger] symbol_key(symbols[i]@) != #[trigger] symbol_key(symbols[j]@)
}

/// The position an intent would leave behind.
pub open spec fn next_position(position: i64, intent: OrderIntent) -> int {
    match intent.side {
        Side::Buy => position + intent.quantity,
        Side::Sell => position - intent.quantity,
    }
}

/// Admission, in order: known symbol, healthy session, a well-formed
/// post-only intent, fresh market and FX, a ready anchor, a closed equity
/// session, known funding outside the flatten window, no unknown remote
/// state, and room under the position limit.
pub open spec fn gate_spec(
    state: SupervisorState,
    config: SupervisorConfig,
    symbol: Option<SymbolState>,
    unknown_remote: bool,
    intent: OrderIntent,
    now: u64,
) -> GateDecision {
    match symbol {
        None => GateDecision::Halt(GateReason::UnknownSymbol),
        Some(s) => {
            if state != SupervisorState::Healthy {
                GateDecision::Halt(GateReason::NotHealthy)
            } else if intent.symbol == 0 || intent.price <= 0 || intent.quantity <= 0 {
                GateDecision::Halt(GateReason::InvalidIntent)
            } else if !intent.post_only {
                GateDecision::Halt(GateReason::NonMakerIntent)
            } else if now < s.market_at_ms || now - s.market_at_ms > config.max_market_age_ms {
                GateDecision::Halt(GateReason::MarketStale)
            } else if now < s.fx_at_ms || now - s.fx_at_ms > config.max_fx_age_ms {
                GateDecision::Halt(GateReason::FxStale)
            } else if !s.anchor_ready {
                GateDecision::Halt(GateReason::AnchorUnavailable)
            } else if !s.equity_closed {
                GateDecision::NoAction(GateReason::EquitySessionOpen)
            } else if !s.funding_known || s.next_funding_at_ms == 0 {
                GateDecision::NoAction(GateReason::FundingUnknown)
            } else if sat_u64(now + config.funding_lead_ms) >= s.next_funding_at_ms {
                if s.position == 0 {
                    GateDecision::NoAction(GateReason::FundingWindow)
                } else {
                    GateDecision::Flatten(GateReason::FundingWindow)
                }
            } else if unknown_remote {
                GateDecision::Halt(GateReason::UnknownRemoteState)
            } else if abs_int(next_position(s.position, intent)) > config.max_position {
                GateDecision::NoAction(GateReason::PositionLimit)
            } else {
                GateDecision::Allow
            }
        },
    }
}

/// Applies the positions of an account update in order. The first position
/// on an unknown symbol, or with an amount that does not parse at `scale`,
/// stops the update with its reason; the positions before it stay applied.
pub open spec fn apply_positions(
    m: Map<Seq<u8>, SymbolState>,
    positions: Seq<PositionUpdate>,
    scale: u32,
) -> (Map<Seq<u8>, SymbolState>, Option<GateReason>)
    decreases positions.len(),
{
    if positions.len() == 0 {
        (m, None)
    } else {
        let p = positions[0];
        let k = utf8(p.symbol@);
        if !m.contains_key(k) {
            (m, Some(GateReason::UnknownSymbol))
        } else {
            match parse_ticks_spec(p.position_amount@, scale as nat) {
                None => (m, Some(GateReason::UnknownRemoteState)),
                Some(v) => apply_positions(m.insert(k, m[k].with_position(v)), positions.drop_first(), scale),
            }
        }
    }
}

pub open spec fn state_name(state: SupervisorState) -> Seq<char> {
    match state {
        SupervisorState::Synchronizing => "Synchronizing"@,
        SupervisorState::Healthy => "Healthy"@,
        SupervisorState::RiskStopped => "RiskStopped"@,
        SupervisorState::Flattening => "Flattening"@,
        SupervisorState::Halted => "Halted"@,
    }
}

pub open spec fn outcome_label(decision: GateDecision) -> Seq<char> {
    match decision {
        GateDecision::Allow => "admissible"@,
        GateDecision::NoAction(_) => "no_action"@,
        GateDecision::Halt(_) => "halt"@,
        GateDecision::Flatten(_) => "reduce_only"@,
    }
}

pub open spec fn final_gate_label(decision: GateDecision) -> Seq<char> {
    match decision {
        GateDecision::Allow => "allow"@,
        GateDecision::NoAction(reason) => reason.spec_label(),
        GateDecision::Halt(reason) => reason.spec_label(),
        GateDecision::Flatten(reason) => reason.spec_label(),
    }
}

pub open spec fn market_fresh(s: Option<SymbolState>, config: SupervisorConfig, now: u64) -> bool {
    s matches Some(x) && x.market_at_ms > 0 && now >= x.market_at_ms && now - x.market_at_ms <= config.max_market_age_ms
}

pub open spec fn fx_fresh(s: Option<SymbolState>, config: SupervisorConfig, now: u64) -> bool {
    s matches Some(x) && x.fx_at_ms > 0 && now >= x.fx_at_ms && now - x.fx_at_ms <= config.max_fx_age_ms
}

pub open spec fn funding_clear(s: Option<SymbolState>, now: u64) -> bool {
    s matches Some(x) && x.funding_known && x.next_funding_at_ms > now
}

pub open spec fn position_capacity(s: Option<SymbolState>, config: SupervisorConfig, intent: OrderIntent) -> bool {
    s matches Some(x) && abs_int(next_position(x.position, intent)) <= config.max_position
}

/// The checks an audit records, each as (name, passed, reason).
pub open spec fn gate_rows(
    decision: GateDecision,
    state: SupervisorState,
    config: SupervisorConfig,
    s: Option<SymbolState>,
    intent: OrderIntent,
    now: u64,
) -> Seq<(Seq<char>, bool, Seq<char>)> {
    let mf = market_fresh(s, config, now);
    let ff = fx_fresh(s, config, now);
    let anchor = s matches Some(x) && x.anchor_ready;
    let closed = s matches Some(x) && x.equity_closed;
    let funding = funding_clear(s, now);
    let capacity = position_capacity(s, config, intent);
    seq![
        ("supervisor_health"@, state == SupervisorState::Healthy, state_name(state)),
        ("intent_post_only"@, intent.post_only && intent.symbol > 0 && intent.price > 0 && intent.quantity > 0,
            if intent.post_only { "valid maker intent fields"@ } else { "live intent must be post-only"@ }),
        ("market_freshness"@, mf,
            if mf { "exchange market timestamp within configured age"@ } else { "market timestamp missing or stale"@ }),
        ("fx_freshness"@, ff,
            if ff { "exchange FX timestamp within configured age"@ } else { "FX timestamp missing or stale"@ }),
        ("anchor_ready"@, anchor, if anchor { "authoritative anchor ready"@ } else { "anchor unavailable"@ }),
        ("equity_session"@, closed, if closed { "equity market is closed"@ } else { "equity session open"@ }),
        ("funding"@, funding,
            if funding { "funding known and outside flatten window"@ } else { "funding unknown or inside flatten window"@ }),
        ("position_capacity"@, capacity,
            if capacity { "position remains within supervisor limit"@ } else { "position limit exceeded"@ }),
        ("terminal_decision"@, decision is Allow || decision is Flatten, final_gate_label(decision)),
    ]
}

/// The audit record of one gate decision.
pub open spec fn audit_of(
    a: DecisionAudit,
    decision: GateDecision,
    decision_id: u64,
    state: SupervisorState,
    config: SupervisorConfig,
    s: Option<SymbolState>,
    intent: OrderIntent,
    now: u64,
) -> bool {
    &&& a.schema_version == DECISION_AUDIT_SCHEMA_VERSION
    &&& a.decision_id == decision_id
    &&& a.exchange_event_time_ms == now
    &&& a.received_at_ms == now
    &&& a.outcome@ == outcome_label(decision)
    &&& a.final_gate@ == final_gate_label(decision)
    &&& a.gates@.map_values(|g: DecisionGateAudit| (g.name@, g.passed, g.reason@)) == gate_rows(decision, state, config, s, intent, now)
    &&& a.book_bid_ticks is None && a.book_ask_ticks is None
    &&& a.book_bid_quantity is None && a.book_ask_quantity is None
    &&& a.mark_ticks is None && a.index_ticks is None
    &&& a.anchor_ticks == 0
    &&& a.position == (match s { Some(x) => x.position, None => 0 })
    &&& a.mark_age_ms == (match s { Some(x) => Some(sat_u64(now - x.market_at_ms) as u64), None => None })
    &&& a.anchor_age_ms is None
    &&& a.threshold_status@ == "not_applicable_live_supervisor"@
    &&& a.threshold_pico_bps is None
    &&& a.fair_value_ticks is None
    &&& a.liquidity_ratio_bps is None
    &&& a.signal_abs_pico_bps is None
    &&& a.adaptive_relief_pico_bps == 0
}

#[derive(Debug)]
pub struct ExecutionSupervisor {
    state: SupervisorState,
    config: SupervisorConfig,
    symbols: SortedMap<SymbolState>,
    tracked_orders: SortedStrings,
    last_user_event_at_ms: u64,
    unknown_remote_state: bool,
    next_decision_id: u64,
}

impl ExecutionSupervisor {
    pub closed spec fn wf(&self) -> bool {
        self.symbols.wf() && self.tracked_orders.wf()
    }

    pub closed spec fn spec_state(&self) -> SupervisorState {
        self.state
    }

    pub closed spec fn spec_config(&self) -> SupervisorConfig {
        self.config
    }

    /// The observed state of each configured symbol, by key.
    pub closed spec fn symbol_map(&self) -> Map<Seq<u8>, SymbolState> {
        self.symbols.as_map()
    }

    /// The client order ids of the working orders, in ascending order.
    pub closed spec fn tracked_ids(&self) -> Seq<String> {
        self.tracked_orders.items()
    }

    pub closed spec fn tracked_keys(&self) -> Set<Seq<u8>> {
        self.tracked_orders.key_set()
    }

    pub closed spec fn last_user_event_at(&self) -> u64 {
        self.last_user_event_at_ms
    }

    pub closed spec fn unknown_remote(&self) -> bool {
        self.unknown_remote_state
    }

    pub closed spec fn spec_next_decision_id(&self) -> u64 {
        self.next_decision_id
    }

    pub open spec fn lookup(&self, key: Seq<u8>) -> Option<SymbolState> {
        if self.symbol_map().contains_key(key) {
            Some(self.symbol_map()[key])
        } else {
            None
        }
    }

    /// Everything but the session state and the remote-state flag is as in `other`.
    pub open spec fn same_books(&self, other: &ExecutionSupervisor) -> bool {
        &&& self.spec_config() == other.spec_config()
        &&& self.symbol_map() == other.symbol_map()
        &&& self.tracked_ids() == other.tracked_ids()
        &&& self.tracked_keys() == other.tracked_keys()
        &&& self.last_user_event_at() == other.last_user_event_at()
        &&& self.spec_next_decision_id() == other.spec_next_decision_id()
    }

    /// Builds a supervisor over a symbol universe; it starts synchronizing,
    /// with every symbol unobserved and flat.
    pub fn new(config: SupervisorConfig, symbols: Vec<String>) -> (r: Result<Self, GateReason>)
        ensures
            r is Ok <==> config.valid() && symbols_valid(symbols@),
            r matches Err(e) ==> e == GateReason::InvalidIntent,
            r matches Ok(s) ==> {
                &&& s.wf()
                &&& s.spec_state() == SupervisorState::Synchronizing
                &&& s.spec_config() == config
                &&& s.symbol_map().dom() == symbol_keys(symbols@).to_set()
                &&& forall|k: Seq<u8>| #[trigger] s.symbol_map().contains_key(k) ==> s.symbol_map()[k] == SymbolState::initial()
                &&& s.tracked_ids().len() == 0
                &&& s.tracked_keys() == Set::<Seq<u8>>::empty()
                &&& s.last_user_event_at() == 0
                &&& !s.unknown_remote()
                &&& s.spec_next_decision_id() == 1
            },
    {
        if config.max_market_age_ms == 0 || config.max_fx_age_ms == 0 || config.max_position <= 0
            || config.quantity_scale > 18 {
            return Err(GateReason::InvalidIntent);
        }
        let ghost keys = symbol_keys(symbols@);
        let mut map: SortedMap<SymbolState> = SortedMap::new();
        let mut i: usize = 0;
        while i < symbols.len()
            invariant
                map.wf(),
                i <= symbols@.len(),
                keys == symbol_keys(symbols@),
                forall|j: int| 0 <= j < i ==> normalized_symbol(#[trigger] symbols@[j]@).len() > 0,
                forall|a: int, b: int| 0 <= a < b < i ==> #[trigger] keys[a] != #[trigger] keys[b],
                map.keys().to_set() == keys.subrange(0, i as int).to_set(),
                forall|j: int| 0 <= j < map.entries().len() ==> (#[trigger] map.entries()[j]).1 == SymbolState::initial(),
            decreases symbols@.len() - i,
        {
            let symbol = normalize_symbol(symbols[i].as_str());
            if symbol.as_str().is_empty() {
                return Err(GateReason::InvalidIntent);
            }
            let ghost k = key_of(symbol);
            assert(k == keys[i as int]);
            let initial = SymbolState {
                market_at_ms: 0,
                fx_at_ms: 0,
                anchor_ready: false,
                equity_closed: false,
                funding_known: false,
                next_funding_at_ms: 0,
                position: 0,
            };
            let ghost before = map;
            let fresh = map.insert_new(symbol, initial);
            if !fresh {
                proof {
                    assert(before.keys().to_set().contains(k));
                    assert(keys.subrange(0, i as int).to_set().contains(k));
                    let a = choose|a: int| 0 <= a < i && #[trigger] keys.subrange(0, i as int)[a] == k;
                    assert(keys[a] == keys[i as int]);
                }
                return Err(GateReason::InvalidIntent);
            }
            proof {
                keys.subrange(0, i as int).lemma_push_to_set_commute(k);
                assert(keys.subrange(0, i + 1) =~= keys.subrange(0, i as int).push(k));
                assert forall|a: int| 0 <= a < i implies keys[a] != keys[i as int] by {
                    if keys[a] == keys[i as int] {
                        assert(keys.subrange(0, i as int)[a] == k);
                        assert(before.keys().to_set().contains(k));
                    }
                }
                let p = choose|p: int| 0 <= p <= before.entries().len() && map.entries() == before.entries().insert(p, (symbol, initial));
                assert forall|j: int| 0 <= j < map.entries().len() implies (#[trigger] map.entries()[j]).1 == SymbolState::initial() by {
                    if j < p {
                        assert(map.entries()[j] == before.entries()[j]);
                    } else if j > p {
                        assert(map.entries()[j] == before.entries()[j - 1]);
                    }
                }
            }
            i = i + 1;
        }
        proof {
            assert(keys.subrange(0, symbols@.len() as int) =~= keys);
            if symbols@.len() > 0 {
                assert(keys.to_set().contains(keys[0]));
                assert(map.keys().contains(keys[0]));
            }
        }
        if map.len() == 0 {
            return Err(GateReason::InvalidIntent);
        }
        proof {
            if symbols@.len() == 0 {
                assert(map.keys().to_set().contains(map.keys()[0]));
                assert(keys.to_set().contains(map.keys()[0]));
            }
            assert forall|a: int, b: int| 0 <= a < b < symbols@.len() implies #[trigger] symbol_key(symbols@[a]@) != #[trigger] symbol_key(symbols@[b]@) by {
                assert(keys[a] == symbol_key(symbols@[a]@));
                assert(keys[b] == symbol_key(symbols@[b]@));
            }
            assert(map.as_map().dom() =~= map.keys().to_set());
            assert forall|k: Seq<u8>| #[trigger] map.as_map().contains_key(k) implies map.as_map()[k] == SymbolState::initial() by {
                let j = choose|j: int| 0 <= j < map.keys().len() && map.keys()[j] == k;
                map.lemma_entry_in_map(j);
            }
            if symbols@.len() == 0 {
                assert(keys.len() == 0);
            } else {
                assert(map.keys().to_set().contains(keys[0]));
            }
        }
        let tracked_orders = SortedStrings::new();
        assert(tracked_orders.key_set() =~= Set::<Seq<u8>>::empty());
        Ok(ExecutionSupervisor {
            state: SupervisorState::Synchronizing,
            config,
            symbols: map,
            tracked_orders,
            last_user_event_at_ms: 0,
            unknown_remote_state: false,
            next_decision_id: 1,
        })
    }

    pub fn state(&self) -> (r: SupervisorState)
        ensures
            r == self.spec_state(),
    {
        self.state
    }

    /// The number of distinct working orders.
    pub fn tracked_order_count(&self) -> (r: usize)
        requires
            self.wf(),
        ensures
            r == self.tracked_keys().len(),
            r == self.tracked_ids().len(),
    {
        proof {
            self.tracked_orders.lemma_len_is_set_len();
        }
        self.tracked_orders.len()
    }

    fn find_symbol(&self, symbol: &str) -> (r: Option<usize>)
        requires
            self.wf(),
        ensures
            r is None <==> !self.symbol_map().contains_key(utf8(symbol@)),
            r matches Some(i) ==> i < self.symbols.entries().len()
                && self.symbols.keys()[i as int] == utf8(symbol@)
                && self.symbol_map()[utf8(symbol@)] == self.symbols.entries()[i as int].1,
    {
        let r = self.symbols.find(symbol);
        proof {
            if let Some(i) = r {
                self.symbols.lemma_entry_in_map(i as int);
            }
        }
        r
    }

    /// The session fields, other than the symbol states, are as in `other`.
    pub open spec fn same_session(&self, other: &ExecutionSupervisor) -> bool {
        &&& self.spec_state() == other.spec_state()
        &&& self.spec_config() == other.spec_config()
        &&& self.tracked_ids() == other.tracked_ids()
        &&& self.tracked_keys() == other.tracked_keys()
        &&& self.last_user_event_at() == other.last_user_event_at()
        &&& self.unknown_remote() == other.unknown_remote()
        &&& self.spec_next_decision_id() == other.spec_next_decision_id()
    }

    /// Some configured symbol holds a position.
    pub open spec fn has_exposure(&self) -> bool {
        exists|k: Seq<u8>| #[trigger] self.symbol_map().contains_key(k) && self.symbol_map()[k].position != 0
    }

    /// `c` is the checkpoint of this supervisor for the symbol stored under `key`.
    pub open spec fn checkpoint_of(&self, c: SessionCheckpoint, key: Seq<u8>) -> bool {
        &&& utf8(c.symbol@) == key
        &&& c.schema_version == SESSION_CHECKPOINT_SCHEMA_VERSION
        &&& c.position_ticks == self.symbol_map()[key].position
        &&& c.gross_position_ticks == abs_or_max(c.position_ticks)
        &&& c.portfolio_positions.wf()
        &&& c.portfolio_positions.entries() == seq![(c.symbol, c.position_ticks)]
        &&& c.working_order_ids@ == self.tracked_ids()
        &&& c.risk_stopped == (self.spec_state() != SupervisorState::Healthy)
    }

    /// This supervisor is `old` after restoring the checkpoint `c`: the
    /// position and working orders are the checkpoint's, and risk is stopped
    /// until the remote state has been reconciled.
    pub open spec fn restored_from(&self, old: &ExecutionSupervisor, c: SessionCheckpoint) -> bool {
        let k = utf8(c.symbol@);
        &&& self.symbol_map() == old.symbol_map().insert(k, old.symbol_map()[k].with_position(c.position_ticks))
        &&& self.tracked_keys() == c.working_order_ids@.map_values(|s: String| key_of(s)).to_set()
        &&& self.last_user_event_at() == c.last_event_at_ms
        &&& !self.unknown_remote()
        &&& self.spec_state() == SupervisorState::RiskStopped
        &&& self.spec_config() == old.spec_config()
        &&& self.spec_next_decision_id() == old.spec_next_decision_id()
    }

    /// A gap in the event stream stops risk until it is resolved.
    pub fn observe_event_gap(&mut self)
        requires
            old(self).wf(),
        ensures
            final(self).wf(),
            final(self).spec_state() == SupervisorState::RiskStopped,
            !final(self).unknown_remote(),
            final(self).same_books(&*old(self)),
    {
        self.unknown_remote_state = false;
        self.state = SupervisorState::RiskStopped;
    }

    fn set_symbol(&mut self, i: usize, value: SymbolState)
        requires
            old(self).wf(),
            i < old(self).symbols.entries().len(),
        ensures
            final(self).wf(),
            final(self).same_session(&*old(self)),
            final(self).symbol_map() == old(self).symbol_map().insert(old(self).symbols.keys()[i as int], value),
            final(self).symbols.keys() == old(self).symbols.keys(),
    {
        self.symbols.set_value(i, value);
    }

    /// Adopts the exchange's position for a configured symbol.
    pub fn adopt_remote_position(&mut self, symbol: &str, position: i64) -> (r: Result<(), GateReason>)
        requires
            old(self).wf(),
        ensures
            final(self).wf(),
            r is Err <==> !old(self).symbol_map().contains_key(symbol_key(symbol@)),
            r is Err ==> r == Err::<(), GateReason>(GateReason::UnknownSymbol) && *final(self) == *old(self),
            r is Ok ==> final(self).same_session(&*old(self)) && final(self).symbol_map() == old(self).symbol_map().insert(
                symbol_key(symbol@),
                old(self).symbol_map()[symbol_key(symbol@)].with_position(position),
            ),
    {
        let key = normalize_symbol(symbol);
        match self.find_symbol(key.as_str()) {
            None => Err(GateReason::UnknownSymbol),
            Some(i) => {
                let mut st = *self.symbols.value_at(i);
                st.position = position;
                self.set_symbol(i, st);
                Ok(())
            },
        }
    }

    /// Records everything admission reads of one symbol.
    pub fn observe_symbol(
        &mut self,
        symbol: &str,
        market_at_ms: u64,
        fx_at_ms: u64,
        anchor_ready: bool,
        equity_closed: bool,
        funding_known: bool,
        next_funding_at_ms: u64,
        position: i64,
    ) -> (r: Result<(), GateReason>)
        requires
            old(self).wf(),
        ensures
            final(self).wf(),
            r is Err <==> !old(self).symbol_map().contains_key(symbol_key(symbol@)),
            r is Err ==> r == Err::<(), GateReason>(GateReason::UnknownSymbol) && *final(self) == *old(self),
            r is Ok ==> final(self).same_session(&*old(self)) && final(self).symbol_map() == old(self).symbol_map().insert(
                symbol_key(symbol@),
                SymbolState {
                    market_at_ms,
                    fx_at_ms,
                    anchor_ready,
                    equity_closed,
                    funding_known,
                    next_funding_at_ms,
                    position,
                },
            ),
    {
        let key = normalize_symbol(symbol);
        match self.find_symbol(key.as_str()) {
            None => Err(GateReason::UnknownSymbol),
            Some(i) => {
                let st = SymbolState {
                    market_at_ms,
                    fx_at_ms,
                    anchor_ready,
                    equity_closed,
                    funding_known,
                    next_funding_at_ms,
                    position,
                };
                self.set_symbol(i, st);
                Ok(())
            },
        }
    }

    /// A checkpoint of the session for one symbol: its position, the working
    /// orders and whether risk is stopped.
    pub fn checkpoint(
        &self,
        session_id: String,
        environment: String,
        symbol: &str,
        last_event_at_ms: u64,
    ) -> (r: Result<SessionCheckpoint, GateReason>)
        requires
            self.wf(),
        ensures
            r is Err <==> !self.symbol_map().contains_key(symbol_key(symbol@)),
            r is Err ==> r == Err::<SessionCheckpoint, GateReason>(GateReason::UnknownSymbol),
            r matches Ok(c) ==> {
                &&& c.session_id == session_id
                &&& c.environment == environment
                &&& c.symbol@ == normalized_symbol(symbol@)
                &&& c.last_event_at_ms == last_event_at_ms
                &&& self.checkpoint_of(c, symbol_key(symbol@))
                &&& (checkpoint_error(c) is None <==> trim_chars(session_id@).len() > 0)
                &&& (trim_chars(session_id@).len() == 0 ==> checkpoint_error(c) == Some(CheckpointError::EmptySessionId))
            },
    {
        let key = normalize_symbol(symbol);
        let i = match self.find_symbol(key.as_str()) {
            None => {
                return Err(GateReason::UnknownSymbol);
            },
            Some(i) => i,
        };
        let position = self.symbols.value_at(i).position;
        let mut c = SessionCheckpoint::new(session_id, environment, key.clone());
        c.last_event_at_ms = last_event_at_ms;
        c.position_ticks = position;
        c.gross_position_ticks = if position == i64::MIN {
            i64::MAX
        } else if position < 0 {
            -position
        } else {
            position
        };
        c.portfolio_positions.insert_new(key, position);
        c.working_order_ids = self.tracked_orders.to_vec();
        c.risk_stopped = self.state != SupervisorState::Healthy;
        proof {
            assert(c.portfolio_positions.entries() =~= seq![(c.symbol, position)]);
            let vals = c.portfolio_positions.values();
            assert(vals =~= seq![position]);
            assert(vals.drop_last() =~= Seq::<i64>::empty());
            assert(saturating_sum(vals.drop_last()) == 0);
            assert(saturating_sum(vals) == position);
            assert(abs_values(vals) =~= seq![abs_or_max(position)]);
            assert(abs_values(vals).drop_last() =~= Seq::<i64>::empty());
            assert(saturating_sum(abs_values(vals).drop_last()) == 0);
            assert(saturating_sum(abs_values(vals)) == abs_or_max(position));
        }
        Ok(c)
    }

    /// Restores a validated checkpoint. The session stays risk-stopped: a
    /// checkpoint is never proof of the exchange's state.
    pub fn restore_checkpoint(&mut self, checkpoint: &SessionCheckpoint) -> (r: Result<(), GateReason>)
        requires
            old(self).wf(),
        ensures
            final(self).wf(),
            checkpoint_error(*checkpoint) is Some ==> r == Err::<(), GateReason>(GateReason::UnknownRemoteState)
                && *final(self) == *old(self),
            checkpoint_error(*checkpoint) is None && !old(self).symbol_map().contains_key(utf8(checkpoint.symbol@)) ==> {
                &&& r == Err::<(), GateReason>(GateReason::UnknownSymbol)
                &&& final(self).spec_state() == SupervisorState::Halted
                &&& final(self).same_books(&*old(self))
                &&& final(self).unknown_remote() == old(self).unknown_remote()
            },
            checkpoint_error(*checkpoint) is None && old(self).symbol_map().contains_key(utf8(checkpoint.symbol@)) ==> {
                &&& r is Ok
                &&& final(self).restored_from(&*old(self), *checkpoint)
            },
    {
        if checkpoint.validate().is_err() {
            return Err(GateReason::UnknownRemoteState);
        }
        let i = match self.find_symbol(checkpoint.symbol.as_str()) {
            None => {
                self.state = SupervisorState::Halted;
                return Err(GateReason::UnknownSymbol);
            },
            Some(i) => i,
        };
        let mut st = *self.symbols.value_at(i);
        st.position = checkpoint.position_ticks;
        self.set_symbol(i, st);
        self.tracked_orders = SortedStrings::from_items(&checkpoint.working_order_ids);
        self.last_user_event_at_ms = checkpoint.last_event_at_ms;
        self.unknown_remote_state = false;
        self.state = SupervisorState::RiskStopped;
        Ok(())
    }

    /// A lost connection stops risk.
    pub fn on_disconnect(&mut self)
        requires
            old(self).wf(),
        ensures
            final(self).wf(),
            final(self).spec_state() == SupervisorState::RiskStopped,
            final(self).same_books(&*old(self)),
            final(self).unknown_remote() == old(self).unknown_remote(),
    {
        self.state = SupervisorState::RiskStopped;
    }

    /// A reconnection moves a risk-stopped session back to synchronizing.
    pub fn on_reconnect(&mut self) -> (r: Result<(), GateReason>)
        requires
            old(self).wf(),
        ensures
            final(self).wf(),
            old(self).spec_state() != SupervisorState::RiskStopped ==> r == Err::<(), GateReason>(GateReason::NotHealthy)
                && *final(self) == *old(self),
            old(self).spec_state() == SupervisorState::RiskStopped ==> r is Ok
                && final(self).spec_state() == SupervisorState::Synchronizing
                && final(self).same_books(&*old(self))
                && final(self).unknown_remote() == old(self).unknown_remote(),
    {
        if self.state != SupervisorState::RiskStopped {
            return Err(GateReason::NotHealthy);
        }
        self.state = SupervisorState::Synchronizing;
        Ok(())
    }

    /// The authoritative snapshot has been applied while synchronizing.
    pub fn mark_snapshot_loaded(&mut self, snapshot_at_ms: u64) -> (r: Result<(), GateReason>)
        requires
            old(self).wf(),
        ensures
            final(self).wf(),
            old(self).spec_state() != SupervisorState::Synchronizing ==> r == Err::<(), GateReason>(GateReason::NotHealthy)
                && *final(self) == *old(self),
            old(self).spec_state() == SupervisorState::Synchronizing ==> r is Ok
                && final(self).spec_state() == SupervisorState::Synchronizing
                && final(self).same_books(&*old(self))
                && !final(self).unknown_remote(),
    {
        if self.state != SupervisorState::Synchronizing {
            return Err(GateReason::NotHealthy);
        }
        self.unknown_remote_state = false;
        Ok(())
    }

    /// A clean reconciliation makes a synchronizing session healthy; any
    /// other state, or remote state still unknown, halts it.
    pub fn reconciliation_clean(&mut self) -> (r: Result<(), GateReason>)
        requires
            old(self).wf(),
        ensures
            final(self).wf(),
            final(self).same_books(&*old(self)),
            final(self).unknown_remote() == old(self).unknown_remote(),
            old(self).spec_state() == SupervisorState::Synchronizing && !old(self).unknown_remote() ==> r is Ok
                && final(self).spec_state() == SupervisorState::Healthy,
            !(old(self).spec_state() == SupervisorState::Synchronizing && !old(self).unknown_remote()) ==> r
                == Err::<(), GateReason>(GateReason::UnknownRemoteState) && final(self).spec_state() == SupervisorState::Halted,
    {
        if self.state != SupervisorState::Synchronizing || self.unknown_remote_state {
            self.state = SupervisorState::Halted;
            return Err(GateReason::UnknownRemoteState);
        }
        self.state = SupervisorState::Healthy;
        Ok(())
    }

    /// Starts flattening, unless the session is halted.
    pub fn begin_flatten(&mut self) -> (r: Result<(), GateReason>)
        requires
            old(self).wf(),
        ensures
            final(self).wf(),
            old(self).spec_state() == SupervisorState::Halted ==> r == Err::<(), GateReason>(GateReason::NotHealthy)
                && *final(self) == *old(self),
            old(self).spec_state() != SupervisorState::Halted ==> r is Ok
                && final(self).spec_state() == SupervisorState::Flattening
                && final(self).same_books(&*old(self))
                && final(self).unknown_remote() == old(self).unknown_remote(),
    {
        if self.state == SupervisorState::Halted {
            return Err(GateReason::NotHealthy);
        }
        self.state = SupervisorState::Flattening;
        Ok(())
    }

    /// A flattening session with no position left is healthy again; any
    /// residual exposure halts it.
    pub fn confirm_flattened(&mut self) -> (r: Result<(), GateReason>)
        requires
            old(self).wf(),
        ensures
            final(self).wf(),
            final(self).same_books(&*old(self)),
            final(self).unknown_remote() == old(self).unknown_remote(),
            old(self).spec_state() == SupervisorState::Flattening && !old(self).has_exposure() ==> r is Ok
                && final(self).spec_state() == SupervisorState::Healthy,
            !(old(self).spec_state() == SupervisorState::Flattening && !old(self).has_exposure()) ==> r
                == Err::<(), GateReason>(GateReason::ResidualExposure) && final(self).spec_state() == SupervisorState::Halted,
    {
        let mut exposed = false;
        let n = self.symbols.len();
        let mut i: usize = 0;
        while i < n
            invariant
                self.wf(),
                n == self.symbols.entries().len(),
                i <= n,
                !exposed ==> forall|j: int| 0 <= j < i ==> (#[trigger] self.symbols.entries()[j]).1.position == 0,
                exposed ==> self.has_exposure(),
            decreases n - i,
        {
            if self.symbols.value_at(i).position != 0 {
                proof {
                    self.symbols.lemma_entry_in_map(i as int);
                    let k = self.symbols.keys()[i as int];
                    assert(self.symbol_map().contains_key(k));
                }
                exposed = true;
            }
            i = i + 1;
        }
        proof {
            if !exposed {
                assert forall|k: Seq<u8>| #[trigger] self.symbol_map().contains_key(k) implies self.symbol_map()[k].position == 0 by {
                    let j = choose|j: int| 0 <= j < self.symbols.keys().len() && self.symbols.keys()[j] == k;
                    self.symbols.lemma_entry_in_map(j);
                }
            }
        }
        if self.state != SupervisorState::Flattening || exposed {
            self.state = SupervisorState::Halted;
            return Err(GateReason::ResidualExposure);
        }
        self.state = SupervisorState::Healthy;
        Ok(())
    }

    /// What an exchange user-data event does to the session.
    pub open spec fn user_data_effect(&self, old: &ExecutionSupervisor, event: UserDataEvent, r: Result<(), GateReason>) -> bool {
        match event {
            UserDataEvent::ListenKeyExpired => {
                &&& r == Err::<(), GateReason>(GateReason::UnknownRemoteState)
                &&& self.unknown_remote()
                &&& self.spec_state() == SupervisorState::RiskStopped
                &&& self.same_books(old)
            },
            UserDataEvent::OrderUpdate(u) => {
                let k = utf8(u.symbol@);
                if !old.symbol_map().contains_key(k) {
                    &&& r == Err::<(), GateReason>(GateReason::UnknownSymbol)
                    &&& self.unknown_remote()
                    &&& self.spec_state() == SupervisorState::Halted
                    &&& self.same_books(old)
                } else if u.order_type@ != "LIMIT"@ || u.time_in_force@ != "GTX"@ {
                    &&& r == Err::<(), GateReason>(GateReason::NonMakerIntent)
                    &&& self.unknown_remote()
                    &&& self.spec_state() == SupervisorState::Halted
                    &&& self.same_books(old)
                } else {
                    &&& r is Ok
                    &&& self.spec_state() == old.spec_state()
                    &&& self.unknown_remote() == old.unknown_remote()
                    &&& self.spec_config() == old.spec_config()
                    &&& self.symbol_map() == old.symbol_map()
                    &&& self.tracked_keys() == old.tracked_keys().insert(key_of(u.client_order_id))
                    &&& self.last_user_event_at() == u.event_time_ms
                    &&& self.spec_next_decision_id() == old.spec_next_decision_id()
                }
            },
            UserDataEvent::AccountUpdate(u) => {
                let (m, failure) = apply_positions(old.symbol_map(), u.positions@, old.spec_config().quantity_scale);
                &&& self.symbol_map() == m
                &&& self.spec_config() == old.spec_config()
                &&& self.tracked_ids() == old.tracked_ids()
                &&& self.tracked_keys() == old.tracked_keys()
                &&& self.spec_next_decision_id() == old.spec_next_decision_id()
                &&& match failure {
                    Some(reason) => {
                        &&& r == Err::<(), GateReason>(reason)
                        &&& self.unknown_remote()
                        &&& self.spec_state() == SupervisorState::Halted
                        &&& self.last_user_event_at() == old.last_user_event_at()
                    },
                    None => {
                        &&& r is Ok
                        &&& self.unknown_remote() == old.unknown_remote()
                        &&& self.spec_state() == old.spec_state()
                        &&& self.last_user_event_at() == u.event_time_ms
                    },
                }
            },
            UserDataEvent::Unmodeled { .. } => r is Ok && *self == *old,
        }
    }

    fn fail_remote(&mut self, halted: bool)
        requires
            old(self).wf(),
        ensures
            final(self).wf(),
            final(self).same_books(&*old(self)),
            final(self).unknown_remote(),
            final(self).spec_state() == (if halted { SupervisorState::Halted } else { SupervisorState::RiskStopped }),
    {
        self.unknown_remote_state = true;
        self.state = if halted { SupervisorState::Halted } else { SupervisorState::RiskStopped };
    }

    /// Applies an exchange user-data event. An expired listen key stops
    /// risk; an order or position on an unknown symbol, a non-maker order,
    /// or a position that does not parse halts the session.
    pub fn on_user_data(&mut self, event: UserDataEvent) -> (r: Result<(), GateReason>)
        requires
            old(self).wf(),
        ensures
            final(self).wf(),
            final(self).user_data_effect(&*old(self), event, r),
    {
        match event {
            UserDataEvent::ListenKeyExpired => {
                self.fail_remote(false);
                Err(GateReason::UnknownRemoteState)
            },
            UserDataEvent::OrderUpdate(u) => {
                if self.find_symbol(u.symbol.as_str()).is_none() {
                    self.fail_remote(true);
                    return Err(GateReason::UnknownSymbol);
                }
                if !crate::text::str_eq(u.order_type.as_str(), "LIMIT") || !crate::text::str_eq(
                    u.time_in_force.as_str(),
                    "GTX",
                ) {
                    self.fail_remote(true);
                    return Err(GateReason::NonMakerIntent);
                }
                self.tracked_orders.insert(u.client_order_id.clone());
                self.last_user_event_at_ms = u.event_time_ms;
                Ok(())
            },
            UserDataEvent::AccountUpdate(u) => {
                let scale = self.config.quantity_scale;
                let ghost start = self.symbol_map();
                let ghost target = apply_positions(start, u.positions@, scale);
                let ghost before = *self;
                let n = u.positions.len();
                let mut i: usize = 0;
                assert(u.positions@.skip(0) =~= u.positions@);
                while i < n
                    invariant
                        self.wf(),
                        n == u.positions@.len(),
                        i <= n,
                        scale == self.spec_config().quantity_scale,
                        self.same_session(&before),
                        before == *old(self),
                        start == before.symbol_map(),
                        event == UserDataEvent::AccountUpdate(u),
                        target == apply_positions(start, u.positions@, scale),
                        apply_positions(self.symbol_map(), u.positions@.skip(i as int), scale) == target,
                    decreases n - i,
                {
                    let p = &u.positions[i];
                    proof {
                        assert(u.positions@.skip(i as int)[0] == u.positions@[i as int]);
                        assert(u.positions@.skip(i as int).drop_first() =~= u.positions@.skip(i + 1));
                    }
                    let j = match self.find_symbol(p.symbol.as_str()) {
                        None => {
                            assert(apply_positions(self.symbol_map(), u.positions@.skip(i as int), scale) == (
                            self.symbol_map(), Some(GateReason::UnknownSymbol)));
                            self.fail_remote(true);
                            return Err(GateReason::UnknownSymbol);
                        },
                        Some(j) => j,
                    };
                    let parsed = parse_ticks(p.position_amount.as_str(), scale);
                    match parsed {
                        None => {
                            assert(apply_positions(self.symbol_map(), u.positions@.skip(i as int), scale) == (
                            self.symbol_map(), Some(GateReason::UnknownRemoteState)));
                            self.fail_remote(true);
                            return Err(GateReason::UnknownRemoteState);
                        },
                        Some(v) => {
                            let mut st = *self.symbols.value_at(j);
                            st.position = v;
                            self.set_symbol(j, st);
                        },
                    }
                    i = i + 1;
                }
                proof {
                    assert(u.positions@.skip(n as int).len() == 0);
                }
                self.last_user_event_at_ms = u.event_time_ms;
                Ok(())
            },
            UserDataEvent::Unmodeled { .. } => Ok(()),
        }
    }

    /// Evaluates an intent and records the versioned audit of the decision,
    /// under the next decision id.
    pub fn evaluate_with_audit(&mut self, symbol: &str, intent: OrderIntent, now_ms: u64) -> (r: (GateDecision, DecisionAudit))
        requires
            old(self).wf(),
        ensures
            final(self).wf(),
            final(self).spec_next_decision_id() == sat_u64(old(self).spec_next_decision_id() + 1),
            final(self).spec_state() == old(self).spec_state(),
            final(self).spec_config() == old(self).spec_config(),
            final(self).symbol_map() == old(self).symbol_map(),
            final(self).tracked_ids() == old(self).tracked_ids(),
            final(self).tracked_keys() == old(self).tracked_keys(),
            final(self).last_user_event_at() == old(self).last_user_event_at(),
            final(self).unknown_remote() == old(self).unknown_remote(),
            r.0 == gate_spec(
                old(self).spec_state(),
                old(self).spec_config(),
                old(self).lookup(symbol_key(symbol@)),
                old(self).unknown_remote(),
                intent,
                now_ms,
            ),
            audit_of(
                r.1,
                r.0,
                old(self).spec_next_decision_id(),
                old(self).spec_state(),
                old(self).spec_config(),
                old(self).lookup(symbol_key(symbol@)),
                intent,
                now_ms,
            ),
    {
        let decision_id = self.next_decision_id;
        self.next_decision_id = crate::num::sat_add_u64(self.next_decision_id, 1);
        let decision = self.evaluate(symbol, intent, now_ms);
        let key = normalize_symbol(symbol);
        let found: Option<SymbolState> = match self.find_symbol(key.as_str()) {
            Some(i) => Some(*self.symbols.value_at(i)),
            None => None,
        };
        let audit = build_audit(decision, decision_id, self.state, self.config, found, intent, now_ms);
        (decision, audit)
    }

    /// The admission decision for `intent` on `symbol` at `now_ms`.
    pub fn evaluate(&self, symbol: &str, intent: OrderIntent, now_ms: u64) -> (r: GateDecision)
        requires
            self.wf(),
        ensures
            r == gate_spec(
                self.spec_state(),
                self.spec_config(),
                self.lookup(symbol_key(symbol@)),
                self.unknown_remote(),
                intent,
                now_ms,
            ),
    {
        let key = normalize_symbol(symbol);
        let idx = self.find_symbol(key.as_str());
        let i = match idx {
            None => {
                return GateDecision::Halt(GateReason::UnknownSymbol);
            },
            Some(i) => i,
        };
        let s = *self.symbols.value_at(i);
        if self.state != SupervisorState::Healthy {
            return GateDecision::Halt(GateReason::NotHealthy);
        }
        if intent.symbol == 0 || intent.price <= 0 || intent.quantity <= 0 {
            return GateDecision::Halt(GateReason::InvalidIntent);
        }
        if !intent.post_only {
            return GateDecision::Halt(GateReason::NonMakerIntent);
        }
        if now_ms < s.market_at_ms || now_ms - s.market_at_ms > self.config.max_market_age_ms {
            return GateDecision::Halt(GateReason::MarketStale);
        }
        if now_ms < s.fx_at_ms || now_ms - s.fx_at_ms > self.config.max_fx_age_ms {
            return GateDecision::Halt(GateReason::FxStale);
        }
        if !s.anchor_ready {
            return GateDecision::Halt(GateReason::AnchorUnavailable);
        }
        if !s.equity_closed {
            return GateDecision::NoAction(GateReason::EquitySessionOpen);
        }
        if !s.funding_known || s.next_funding_at_ms == 0 {
            return GateDecision::NoAction(GateReason::FundingUnknown);
        }
        if crate::num::sat_add_u64(now_ms, self.config.funding_lead_ms) >= s.next_funding_at_ms {
            return if s.position == 0 {
                GateDecision::NoAction(GateReason::FundingWindow)
            } else {
                GateDecision::Flatten(GateReason::FundingWindow)
            };
        }
        if self.unknown_remote_state {
            return GateDecision::Halt(GateReason::UnknownRemoteState);
        }
        if exceeds_limit(s.position, intent, self.config.max_position) {
            return GateDecision::NoAction(GateReason::PositionLimit);
        }
        GateDecision::Allow
    }
}

fn gate_audit(name: &str, passed: bool, reason: &str) -> (r: DecisionGateAudit)
    ensures
        r.name@ == name@,
        r.passed == passed,
        r.reason@ == reason@,
{
    DecisionGateAudit { name: owned(name), passed, reason: owned(reason) }
}

fn state_label(state: SupervisorState) -> (r: &'static str)
    ensures
        r@ == state_name(state),
{
    match state {
        SupervisorState::Synchronizing => "Synchronizing",
        SupervisorState::Healthy => "Healthy",
        SupervisorState::RiskStopped => "RiskStopped",
        SupervisorState::Flattening => "Flattening",
        SupervisorState::Halted => "Halted",
    }
}

fn outcome_labels(decision: GateDecision) -> (r: (&'static str, &'static str))
    ensures
        r.0@ == outcome_label(decision),
        r.1@ == final_gate_label(decision),
{
    match decision {
        GateDecision::Allow => ("admissible", "allow"),
        GateDecision::NoAction(reason) => ("no_action", reason.label()),
        GateDecision::Halt(reason) => ("halt", reason.label()),
        GateDecision::Flatten(reason) => ("reduce_only", reason.label()),
    }
}

#[verifier::rlimit(40)]
fn build_audit(
    decision: GateDecision,
    decision_id: u64,
    state: SupervisorState,
    config: SupervisorConfig,
    s: Option<SymbolState>,
    intent: OrderIntent,
    now_ms: u64,
) -> (r: DecisionAudit)
    ensures
        audit_of(r, decision, decision_id, state, config, s, intent, now_ms),
{
    let (outcome, final_gate) = outcome_labels(decision);
    let market_fresh = match s {
        Some(x) => x.market_at_ms > 0 && now_ms >= x.market_at_ms && now_ms - x.market_at_ms <= config.max_market_age_ms,
        None => false,
    };
    let fx_fresh = match s {
        Some(x) => x.fx_at_ms > 0 && now_ms >= x.fx_at_ms && now_ms - x.fx_at_ms <= config.max_fx_age_ms,
        None => false,
    };
    let anchor_ready = match s {
        Some(x) => x.anchor_ready,
        None => false,
    };
    let equity_closed = match s {
        Some(x) => x.equity_closed,
        None => false,
    };
    let funding_known = match s {
        Some(x) => x.funding_known && x.next_funding_at_ms > now_ms,
        None => false,
    };
    let capacity = match s {
        Some(x) => !exceeds_limit(x.position, intent, config.max_position),
        None => false,
    };
    let mut gates: Vec<DecisionGateAudit> = Vec::new();
    gates.push(gate_audit("supervisor_health", state == SupervisorState::Healthy, state_label(state)));
    gates.push(gate_audit(
        "intent_post_only",
        intent.post_only && intent.symbol > 0 && intent.price > 0 && intent.quantity > 0,
        if intent.post_only { "valid maker intent fields" } else { "live intent must be post-only" },
    ));
    gates.push(gate_audit(
        "market_freshness",
        market_fresh,
        if market_fresh { "exchange market timestamp within configured age" } else { "market timestamp missing or stale" },
    ));
    gates.push(gate_audit(
        "fx_freshness",
        fx_fresh,
        if fx_fresh { "exchange FX timestamp within configured age" } else { "FX timestamp missing or stale" },
    ));
    gates.push(gate_audit(
        "anchor_ready",
        anchor_ready,
        if anchor_ready { "authoritative anchor ready" } else { "anchor unavailable" },
    ));
    gates.push(gate_audit(
        "equity_session",
        equity_closed,
        if equity_closed { "equity market is closed" } else { "equity session open" },
    ));
    gates.push(gate_audit(
        "funding",
        funding_known,
        if funding_known { "funding known and outside flatten window" } else { "funding unknown or inside flatten window" },
    ));
    gates.push(gate_audit(
        "position_capacity",
        capacity,
        if capacity { "position remains within supervisor limit" } else { "position limit exceeded" },
    ));
    let terminal = match decision {
        GateDecision::Allow => true,
        GateDecision::Flatten(_) => true,
        _ => false,
    };
    gates.push(gate_audit("terminal_decision", terminal, final_gate));
    proof {
        assert(gates@.map_values(|g: DecisionGateAudit| (g.name@, g.passed, g.reason@)) =~= gate_rows(
            decision,
            state,
            config,
            s,
            intent,
            now_ms,
        ));
    }
    let position: i64 = match s {
        Some(x) => x.position,
        None => 0,
    };
    let mark_age_ms: Option<u64> = match s {
        Some(x) => Some(crate::num::sat_sub_u64(now_ms, x.market_at_ms)),
        None => None,
    };
    DecisionAudit {
        schema_version: DECISION_AUDIT_SCHEMA_VERSION,
        decision_id,
        exchange_event_time_ms: now_ms,
        received_at_ms: now_ms,
        outcome: owned(outcome),
        final_gate: owned(final_gate),
        gates,
        book_bid_ticks: None,
        book_ask_ticks: None,
        book_bid_quantity: None,
        book_ask_quantity: None,
        mark_ticks: None,
        index_ticks: None,
        anchor_ticks: 0,
        position,
        mark_age_ms,
        anchor_age_ms: None,
        threshold_status: owned("not_applicable_live_supervisor"),
        threshold_pico_bps: None,
        fair_value_ticks: None,
        liquidity_ratio_bps: None,
        signal_abs_pico_bps: None,
        adaptive_relief_pico_bps: 0,
    }
}

/// Whether the position left by `intent` is beyond `max_position` in size.
fn exceeds_limit(position: i64, intent: OrderIntent, max_position: i64) -> (r: bool)
    ensures
        r == (abs_int(next_position(position, intent)) > max_position),
{
    let p = position as i128;
    let q = intent.quantity as i128;
    let next: i128 = match intent.side {
        Side::Buy => p + q,
        Side::Sell => p - q,
    };
    let magnitude: i128 = if next < 0 { -next } else { next };
    magnitude > max_position as i128
}

/// Only a healthy session lets an intent through, and only a well-formed
/// post-only intent on a known symbol whose market and FX data are fresh,
/// whose anchor is ready, whose equity session is closed, whose funding is
/// known and not imminent, with no unknown remote state, and that stays
/// within the position limit.
pub proof fn law_allow_requires_every_gate(
    state: SupervisorState,
    config: SupervisorConfig,
    symbol: Option<SymbolState>,
    unknown_remote: bool,
    intent: OrderIntent,
    now: u64,
)
    requires
        gate_spec(state, config, symbol, unknown_remote, intent, now) == GateDecision::Allow,
    ensures
        state == SupervisorState::Healthy,
        !unknown_remote,
        intent.post_only && intent.admissible_shape(),
        symbol matches Some(s) && {
            &&& s.market_at_ms <= now && now - s.market_at_ms <= config.max_market_age_ms
            &&& s.fx_at_ms <= now && now - s.fx_at_ms <= config.max_fx_age_ms
            &&& s.anchor_ready && s.equity_closed && s.funding_known
            &&& now + config.funding_lead_ms < s.next_funding_at_ms
            &&& intent.side == Side::Buy ==> abs_int(s.position + intent.quantity) <= config.max_position
            &&& intent.side == Side::Sell ==> abs_int(s.position - intent.quantity) <= config.max_position
        },
{
}

/// The position limit refuses exactly the intents whose fill would leave
/// the position (the held one plus a buy, less a sell) beyond the limit in
/// size.
pub proof fn law_position_limit_refuses_only_overshoot(
    state: SupervisorState,
    config: SupervisorConfig,
    symbol: Option<SymbolState>,
    unknown_remote: bool,
    intent: OrderIntent,
    now: u64,
)
    requires
        gate_spec(state, config, symbol, unknown_remote, intent, now) == GateDecision::NoAction(GateReason::PositionLimit),
    ensures
        symbol matches Some(s) && {
            &&& intent.side == Side::Buy ==> abs_int(s.position + intent.quantity) > config.max_position
            &&& intent.side == Side::Sell ==> abs_int(s.position - intent.quantity) > config.max_position
        },
{
}

/// A non-healthy session never lets an intent through.
pub proof fn law_unhealthy_never_allows(
    state: SupervisorState,
    config: SupervisorConfig,
    symbol: Option<SymbolState>,
    unknown_remote: bool,
    intent: OrderIntent,
    now: u64,
)
    requires
        state != SupervisorState::Healthy,
    ensures
        gate_spec(state, config, symbol, unknown_remote, intent, now) != GateDecision::Allow,
{
}

/// Restoring a valid checkpoint of a supervisor into one that knows the
/// symbol gives back the checkpointed position and working orders, and
/// leaves the session risk-stopped, so that no intent is allowed before a
/// reconciliation.
pub proof fn law_checkpoint_restore_round_trip(
    a: ExecutionSupervisor,
    key: Seq<u8>,
    c: SessionCheckpoint,
    b: ExecutionSupervisor,
    b2: ExecutionSupervisor,
)
    requires
        a.wf(),
        a.symbol_map().contains_key(key),
        a.checkpoint_of(c, key),
        checkpoint_error(c) is None,
        b.symbol_map().contains_key(key),
        b2.restored_from(&b, c),
    ensures
        b2.symbol_map()[key].position == a.symbol_map()[key].position,
        b2.tracked_keys() == a.tracked_keys(),
        b2.spec_state() == SupervisorState::RiskStopped,
        forall|intent: OrderIntent, now: u64|
            gate_spec(b2.spec_state(), b2.spec_config(), b2.lookup(key), b2.unknown_remote(), intent, now)
                != GateDecision::Allow,
{
    assert(a.tracked_keys() == a.tracked_ids().map_values(|s: String| key_of(s)).to_set());
}

/// Parses an exchange position amount into ticks at `scale`.
pub fn parse_quantity_ticks(value: &str, scale: u32) -> (r: Option<i64>)
    ensures
        r == parse_ticks_spec(value@, scale as nat),
{
    parse_ticks(value, scale)
}

} // verus!
