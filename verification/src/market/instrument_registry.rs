//! Exchange-backed instrument registry. Unknown classifications fail closed.
use crate::execution::rest::{symbol_spec, valid_symbol};
use crate::keyed::{key_of, strictly_sorted, SortedMap, SortedStrings};
use crate::market::metadata::BinanceSymbolMetadata;
use crate::text::{
    compare_bytes, lemma_lex_asymmetric, lemma_lex_irreflexive, lemma_lex_total, lemma_lex_transitive, lex_lt,
    normalize_symbol, normalized_symbol, owned, str_eq, trim, trim_chars, utf8,
};
use vstd::prelude::*;

verus! {

pub const INSTRUMENT_REGISTRY_SCHEMA_VERSION: u16 = 1;

#[derive(Debug, Clone, Copy, PartialEq, Eq, Structural, PartialOrd, Ord)]
pub enum MarketRegion {
    China,
    HongKong,
    Korea,
    Taiwan,
    Japan,
    UnitedStates,
    Global,
    Unknown,
}

#[derive(Debug, Clone, Copy, PartialEq, Eq, Structural, PartialOrd, Ord)]
pub enum AssetClass {
    OrdinaryEquity,
    Adr,
    Etf,
    LeveragedEtf,
    Index,
    Commodity,
    PreMarketEquity,
    Unknown,
}

impl AssetClass {
    pub open spec fn equity_like(self) -> bool {
        matches!(self, AssetClass::OrdinaryEquity | AssetClass::Adr | AssetClass::Etf | AssetClass::LeveragedEtf | AssetClass::Index)
    }

    /// Ordinary equities, ADRs, ETFs (leveraged too) and indices.
    pub fn is_equity_like(self) -> (r: bool)
        ensures
            r == self.equity_like(),
    {
        matches!(self, AssetClass::OrdinaryEquity | AssetClass::Adr | AssetClass::Etf | AssetClass::LeveragedEtf | AssetClass::Index)
    }

    pub fn is_plain_ordinary_equity(self) -> (r: bool)
        ensures
            r == (self == AssetClass::OrdinaryEquity),
    {
        matches!(self, AssetClass::OrdinaryEquity)
    }
}

#[derive(Debug, Clone, PartialEq, Eq)]
pub struct InstrumentClassification {
    pub symbol: String,
    pub market_region: MarketRegion,
    pub reference_venue: String,
    pub asset_class: AssetClass,
    pub management_profile: String,
    pub source: Option<String>,
    pub simulation_enabled: bool,
    pub live_enabled: bool,
}

#[derive(Debug, Clone, PartialEq, Eq)]
pub struct InstrumentRegistryConfig {
    pub schema_version: u16,
    pub source: String,
    pub instruments: Vec<InstrumentClassification>,
}

#[derive(Debug, Clone, PartialEq, Eq)]
pub enum InstrumentRegistryError {
    Io(String),
    Decode(String),
    UnsupportedSchema(u16),
    DuplicateSymbol(String),
    InvalidSymbol(String),
    MissingVenue(String),
}

fn copy_text(s: &Option<String>) -> (r: Option<String>)
    ensures
        r == *s,
{
    match s {
        Some(t) => Some(t.clone()),
        None => None,
    }
}

impl InstrumentClassification {
    /// An exact copy.
    pub fn copy(&self) -> (r: Self)
        ensures
            r == *self,
    {
        InstrumentClassification {
            symbol: self.symbol.clone(),
            market_region: self.market_region,
            reference_venue: self.reference_venue.clone(),
            asset_class: self.asset_class,
            management_profile: self.management_profile.clone(),
            source: copy_text(&self.source),
            simulation_enabled: self.simulation_enabled,
            live_enabled: self.live_enabled,
        }
    }
}

/// Why an entry is refused: its normalised symbol is not letters and
/// digits, repeats an earlier one, or it names no venue.
#[derive(Debug, Clone, Copy, PartialEq, Eq, Structural)]
pub enum EntryFault {
    InvalidSymbol,
    DuplicateSymbol,
    MissingVenue,
}

/// The fault of entry `j` of `entries`, judged against the entries before it.
pub open spec fn entry_fault(entries: Seq<InstrumentClassification>, j: int) -> Option<EntryFault> {
    let symbol = normalized_symbol(entries[j].symbol@);
    if !symbol_spec(symbol) {
        Some(EntryFault::InvalidSymbol)
    } else if exists|k: int| 0 <= k < j && normalized_symbol((#[trigger] entries[k]).symbol@) == symbol {
        Some(EntryFault::DuplicateSymbol)
    } else if trim_chars(entries[j].reference_venue@).len() == 0 {
        Some(EntryFault::MissingVenue)
    } else {
        None
    }
}

/// The first `j` entries are all accepted.
pub open spec fn entries_ok_upto(entries: Seq<InstrumentClassification>, j: int) -> bool {
    forall|k: int| 0 <= k < j ==> #[trigger] entry_fault(entries, k) is None
}

/// The source note as kept: trimmed, and dropped when nothing is left.
pub open spec fn normalized_source(source: Option<String>) -> Option<Seq<char>> {
    match source {
        Some(s) => if trim_chars(s@).len() > 0 {
            Some(trim_chars(s@))
        } else {
            None
        },
        None => None,
    }
}

/// `after` is `before` normalised: upper-case trimmed symbol, trimmed venue,
/// profile and source, everything else as it was.
pub open spec fn normalized_entry(after: InstrumentClassification, before: InstrumentClassification) -> bool {
    &&& after.symbol@ == normalized_symbol(before.symbol@)
    &&& after.reference_venue@ == trim_chars(before.reference_venue@)
    &&& after.management_profile@ == trim_chars(before.management_profile@)
    &&& match after.source {
        Some(s) => normalized_source(before.source) == Some(s@),
        None => normalized_source(before.source) is None,
    }
    &&& after.market_region == before.market_region
    &&& after.asset_class == before.asset_class
    &&& after.simulation_enabled == before.simulation_enabled
    &&& after.live_enabled == before.live_enabled
}

/// The classifications by key of symbol; a later entry replaces an earlier
/// one with the same symbol.
pub open spec fn by_symbol_spec(entries: Seq<InstrumentClassification>) -> Map<Seq<u8>, InstrumentClassification>
    decreases entries.len(),
{
    if entries.len() == 0 {
        Map::empty()
    } else {
        by_symbol_spec(entries.drop_last()).insert(key_of(entries.last().symbol), entries.last())
    }
}

fn normalized_one(entry: &InstrumentClassification) -> (r: InstrumentClassification)
    ensures
        normalized_entry(r, *entry),
{
    let source = match &entry.source {
        Some(s) => {
            let t = trim(s.as_str());
            if t.is_empty() {
                None
            } else {
                Some(owned(t))
            }
        },
        None => None,
    };
    InstrumentClassification {
        symbol: normalize_symbol(entry.symbol.as_str()),
        market_region: entry.market_region,
        reference_venue: owned(trim(entry.reference_venue.as_str())),
        asset_class: entry.asset_class,
        management_profile: owned(trim(entry.management_profile.as_str())),
        source,
        simulation_enabled: entry.simulation_enabled,
        live_enabled: entry.live_enabled,
    }
}

proof fn lemma_first_fault(entries: Seq<InstrumentClassification>, i: int)
    requires
        0 <= i < entries.len(),
        entries_ok_upto(entries, i),
        entry_fault(entries, i) is Some,
    ensures
        forall|j: int|
            0 <= j < entries.len() && entries_ok_upto(entries, j) && (#[trigger] entry_fault(entries, j)) is Some
                ==> j == i,
{
    assert forall|j: int|
        0 <= j < entries.len() && entries_ok_upto(entries, j) && (#[trigger] entry_fault(entries, j)) is Some implies j
        == i by {
        if j < i {
            assert(entry_fault(entries, j) is None);
        } else if j > i {
            assert(entry_fault(entries, i) is None);
        }
    }
}

impl InstrumentRegistryConfig {
    /// Checks a decoded registry: the schema version must be current; each
    /// entry, in order, needs a symbol of letters and digits (trimmed and
    /// upper-cased) not seen before and a venue. Text fields come back
    /// trimmed, and an empty source note is dropped.
    pub fn validated(self) -> (r: Result<Self, InstrumentRegistryError>)
        ensures
            self.schema_version != INSTRUMENT_REGISTRY_SCHEMA_VERSION ==> r == Err::<Self, InstrumentRegistryError>(
                InstrumentRegistryError::UnsupportedSchema(self.schema_version),
            ),
            self.schema_version == INSTRUMENT_REGISTRY_SCHEMA_VERSION ==> forall|j: int|
                0 <= j < self.instruments@.len() && entries_ok_upto(self.instruments@, j) && (#[trigger] entry_fault(
                    self.instruments@,
                    j,
                )) is Some ==> match entry_fault(self.instruments@, j)->0 {
                    EntryFault::InvalidSymbol => r matches Err(InstrumentRegistryError::InvalidSymbol(s)) && s@
                        == normalized_symbol(self.instruments@[j].symbol@),
                    EntryFault::DuplicateSymbol => r matches Err(InstrumentRegistryError::DuplicateSymbol(s)) && s@
                        == normalized_symbol(self.instruments@[j].symbol@),
                    EntryFault::MissingVenue => r matches Err(InstrumentRegistryError::MissingVenue(s)) && s@
                        == normalized_symbol(self.instruments@[j].symbol@),
                },
            self.schema_version == INSTRUMENT_REGISTRY_SCHEMA_VERSION && entries_ok_upto(
                self.instruments@,
                self.instruments@.len() as int,
            ) ==> (r matches Ok(c) && c.schema_version == self.schema_version && c.source == self.source
                && c.instruments@.len() == self.instruments@.len() && forall|k: int|
                0 <= k < c.instruments@.len() ==> normalized_entry(
                #[trigger] c.instruments@[k],
                self.instruments@[k],
            )),
    {
        if self.schema_version != INSTRUMENT_REGISTRY_SCHEMA_VERSION {
            return Err(InstrumentRegistryError::UnsupportedSchema(self.schema_version));
        }
        let ghost entries = self.instruments@;
        let mut seen = SortedStrings::new();
        let mut out: Vec<InstrumentClassification> = Vec::new();
        let mut i: usize = 0;
        while i < self.instruments.len()
            invariant
                entries == self.instruments@,
                self.schema_version == INSTRUMENT_REGISTRY_SCHEMA_VERSION,
                i <= entries.len(),
                seen.wf(),
                entries_ok_upto(entries, i as int),
                out@.len() == i,
                forall|k: int| 0 <= k < i ==> normalized_entry(#[trigger] out@[k], entries[k]),
                forall|x: Seq<u8>| seen.key_set().contains(x) <==> exists|k: int|
                    0 <= k < i && x == utf8(normalized_symbol((#[trigger] entries[k]).symbol@)),
            decreases entries.len() - i,
        {
            let entry = normalized_one(&self.instruments[i]);
            let ghost symbol = normalized_symbol(entries[i as int].symbol@);
            if !valid_symbol(entry.symbol.as_str()) {
                proof {
                    assert(entry_fault(entries, i as int) == Some(EntryFault::InvalidSymbol));
                    lemma_first_fault(entries, i as int);
                }
                return Err(InstrumentRegistryError::InvalidSymbol(entry.symbol));
            }
            let ghost seen_before = seen;
            let fresh = seen.insert(entry.symbol.clone());
            if !fresh {
                proof {
                    assert(seen_before.key_set().contains(utf8(symbol)));
                    let k = choose|k: int| 0 <= k < i && utf8(symbol) == utf8(normalized_symbol((#[trigger] entries[k]).symbol@));
                    crate::text::lemma_utf8_injective(symbol, normalized_symbol(entries[k].symbol@));
                    assert(entry_fault(entries, i as int) == Some(EntryFault::DuplicateSymbol));
                    lemma_first_fault(entries, i as int);
                }
                return Err(InstrumentRegistryError::DuplicateSymbol(entry.symbol));
            }
            if entry.reference_venue.as_str().is_empty() {
                proof {
                    assert forall|k: int| 0 <= k < i implies normalized_symbol((#[trigger] entries[k]).symbol@) != symbol by {
                        if normalized_symbol(entries[k].symbol@) == symbol {
                            assert(seen_before.key_set().contains(utf8(symbol)));
                        }
                    }
                    assert(entry_fault(entries, i as int) == Some(EntryFault::MissingVenue));
                    lemma_first_fault(entries, i as int);
                }
                return Err(InstrumentRegistryError::MissingVenue(entry.symbol));
            }
            proof {
                assert forall|k: int| 0 <= k < i implies normalized_symbol((#[trigger] entries[k]).symbol@) != symbol by {
                    if normalized_symbol(entries[k].symbol@) == symbol {
                        assert(seen_before.key_set().contains(utf8(symbol)));
                    }
                }
                assert(entry_fault(entries, i as int) is None);
                assert forall|x: Seq<u8>| seen.key_set().contains(x) <==> exists|k: int|
                    0 <= k < i + 1 && x == utf8(normalized_symbol((#[trigger] entries[k]).symbol@)) by {
                    if seen.key_set().contains(x) && x != utf8(symbol) {
                        assert(seen_before.key_set().contains(x));
                    }
                    if x == utf8(symbol) {
                        assert(x == utf8(normalized_symbol(entries[i as int].symbol@)));
                    }
                }
            }
            out.push(entry);
            i = i + 1;
        }
        Ok(InstrumentRegistryConfig { schema_version: self.schema_version, source: self.source, instruments: out })
    }
}

impl InstrumentRegistryConfig {
    /// The classifications by symbol; a later entry replaces an earlier one
    /// with the same symbol.
    pub fn by_symbol(&self) -> (r: SortedMap<InstrumentClassification>)
        ensures
            r.wf(),
            r.as_map() == by_symbol_spec(self.instruments@),
    {
        let mut map: SortedMap<InstrumentClassification> = SortedMap::new();
        let mut i: usize = 0;
        while i < self.instruments.len()
            invariant
                i <= self.instruments@.len(),
                map.wf(),
                map.as_map() == by_symbol_spec(self.instruments@.subrange(0, i as int)),
            decreases self.instruments@.len() - i,
        {
            let entry = self.instruments[i].copy();
            map.insert(entry.symbol.clone(), entry);
            proof {
                let prefix = self.instruments@.subrange(0, i + 1);
                assert(prefix.drop_last() =~= self.instruments@.subrange(0, i as int));
                assert(prefix.last() == self.instruments@[i as int]);
            }
            i = i + 1;
        }
        assert(self.instruments@.subrange(0, self.instruments@.len() as int) =~= self.instruments@);
        map
    }
}

#[derive(Debug, Clone, PartialEq, Eq)]
pub struct ManagedInstrument {
    pub symbol: String,
    pub exchange_status: String,
    pub contract_type: String,
    pub underlying_type: Option<String>,
    pub market_region: MarketRegion,
    pub reference_venue: Option<String>,
    pub asset_class: AssetClass,
    pub management_profile: Option<String>,
    pub simulation_enabled: bool,
    pub live_enabled: bool,
    pub strategy_eligible: bool,
    pub eligibility_reason: String,
    pub price_precision: u32,
    pub quantity_precision: u32,
    pub onboard_date_ms: u64,
    pub delivery_date_ms: u64,
}

#[derive(Debug, Clone, PartialEq, Eq)]
pub struct InstrumentRegistrySnapshot {
    pub schema_version: u16,
    pub instruments: Vec<ManagedInstrument>,
    pub configured_missing_from_exchange: Vec<String>,
}

impl ManagedInstrument {
    /// An exact copy.
    pub fn copy(&self) -> (r: Self)
        ensures
            r == *self,
    {
        ManagedInstrument {
            symbol: self.symbol.clone(),
            exchange_status: self.exchange_status.clone(),
            contract_type: self.contract_type.clone(),
            underlying_type: copy_text(&self.underlying_type),
            market_region: self.market_region,
            reference_venue: copy_text(&self.reference_venue),
            asset_class: self.asset_class,
            management_profile: copy_text(&self.management_profile),
            simulation_enabled: self.simulation_enabled,
            live_enabled: self.live_enabled,
            strategy_eligible: self.strategy_eligible,
            eligibility_reason: self.eligibility_reason.clone(),
            price_precision: self.price_precision,
            quantity_precision: self.quantity_precision,
            onboard_date_ms: self.onboard_date_ms,
            delivery_date_ms: self.delivery_date_ms,
        }
    }
}

/// The keys of a sequence of strings.
pub open spec fn string_keys(s: Seq<String>) -> Seq<Seq<u8>> {
    s.map_values(|x: String| key_of(x))
}

pub open spec fn is_tradfi_perpetual(m: BinanceSymbolMetadata) -> bool {
    m.contract_type@ == "TRADIFI_PERPETUAL"@
}

/// The TradFi perpetual contracts among the symbols, in their order.
pub open spec fn tradfi_perpetuals(s: Seq<BinanceSymbolMetadata>) -> Seq<BinanceSymbolMetadata>
    decreases s.len(),
{
    if s.len() == 0 {
        Seq::empty()
    } else if is_tradfi_perpetual(s.last()) {
        tradfi_perpetuals(s.drop_last()).push(s.last())
    } else {
        tradfi_perpetuals(s.drop_last())
    }
}

pub open spec fn classification_of(
    map: Map<Seq<u8>, InstrumentClassification>,
    symbol: String,
) -> Option<InstrumentClassification> {
    if map.contains_key(key_of(symbol)) {
        Some(map[key_of(symbol)])
    } else {
        None
    }
}

/// Why an instrument is, or is not, open to strategies.
pub open spec fn eligibility_reason_spec(trading: bool, class: AssetClass, simulation: bool, live: bool) -> Seq<
    char,
> {
    if !trading {
        "exchange_status_not_trading"@
    } else if class == AssetClass::Unknown {
        "missing_external_asset_classification"@
    } else if !simulation && !live {
        "management_only_until_strategy_is_enabled"@
    } else if live {
        "explicitly_enabled_for_live_and_simulation"@
    } else {
        "explicitly_enabled_for_simulation_only"@
    }
}

/// `mi` is the managed view of the exchange symbol `m` under the
/// classification `c`: without one, the region and class are unknown and
/// no strategy may use the symbol.
pub open spec fn managed_from(mi: ManagedInstrument, m: BinanceSymbolMetadata, c: Option<InstrumentClassification>) -> bool {
    &&& mi.symbol == m.symbol
    &&& mi.exchange_status == m.status
    &&& mi.contract_type == m.contract_type
    &&& mi.underlying_type == m.underlying_type
    &&& match c {
        Some(c) => {
            &&& mi.market_region == c.market_region
            &&& mi.reference_venue == Some(c.reference_venue)
            &&& mi.asset_class == c.asset_class
            &&& mi.management_profile == Some(c.management_profile)
            &&& mi.simulation_enabled == c.simulation_enabled
            &&& mi.live_enabled == c.live_enabled
        },
        None => {
            &&& mi.market_region == MarketRegion::Unknown
            &&& mi.reference_venue is None
            &&& mi.asset_class == AssetClass::Unknown
            &&& mi.management_profile is None
            &&& !mi.simulation_enabled
            &&& !mi.live_enabled
        },
    }
    &&& mi.strategy_eligible == (m.status@ == "TRADING"@ && mi.asset_class != AssetClass::Unknown
        && mi.simulation_enabled)
    &&& mi.eligibility_reason@ == eligibility_reason_spec(
        m.status@ == "TRADING"@,
        mi.asset_class,
        mi.simulation_enabled,
        mi.live_enabled,
    )
    &&& mi.price_precision == m.price_precision
    &&& mi.quantity_precision == m.quantity_precision
    &&& mi.onboard_date_ms == m.onboard_date_ms
    &&& mi.delivery_date_ms == m.delivery_date_ms
}

pub open spec fn instrument_key(mi: ManagedInstrument) -> Seq<u8> {
    utf8(mi.symbol@)
}

/// Where `x` goes in `sorted` to keep it in symbol order: after every
/// instrument whose symbol is not greater.
pub open spec fn insertion_point(sorted: Seq<ManagedInstrument>, x: ManagedInstrument) -> int
    decreases sorted.len(),
{
    if sorted.len() == 0 {
        0
    } else if lex_lt(instrument_key(x), instrument_key(sorted.last())) {
        insertion_point(sorted.drop_last(), x)
    } else {
        sorted.len() as int
    }
}

/// The instruments stably sorted by symbol: equal symbols keep their order.
pub open spec fn stable_sorted(s: Seq<ManagedInstrument>) -> Seq<ManagedInstrument>
    decreases s.len(),
{
    if s.len() == 0 {
        s
    } else {
        let r = stable_sorted(s.drop_last());
        r.insert(insertion_point(r, s.last()), s.last())
    }
}

pub open spec fn sorted_by_symbol(s: Seq<ManagedInstrument>) -> bool {
    forall|i: int, j: int| 0 <= i < j < s.len() ==> !lex_lt(instrument_key(#[trigger] s[j]), instrument_key(#[trigger] s[i]))
}

proof fn lemma_insertion_point(r: Seq<ManagedInstrument>, x: ManagedInstrument)
    requires
        sorted_by_symbol(r),
    ensures
        0 <= insertion_point(r, x) <= r.len(),
        forall|k: int| 0 <= k < insertion_point(r, x) ==> !lex_lt(instrument_key(x), instrument_key(#[trigger] r[k])),
        forall|k: int| insertion_point(r, x) <= k < r.len() ==> lex_lt(instrument_key(x), instrument_key(#[trigger] r[k])),
    decreases r.len(),
{
    if r.len() > 0 {
        let last = r.last();
        if lex_lt(instrument_key(x), instrument_key(last)) {
            let d = r.drop_last();
            assert forall|i: int, j: int| 0 <= i < j < d.len() implies !lex_lt(instrument_key(#[trigger] d[j]), instrument_key(#[trigger] d[i])) by {
                assert(d[i] == r[i] && d[j] == r[j]);
            }
            lemma_insertion_point(d, x);
            assert forall|k: int| 0 <= k < insertion_point(r, x) implies !lex_lt(instrument_key(x), instrument_key(#[trigger] r[k])) by {
                assert(r[k] == d[k]);
            }
            assert forall|k: int| insertion_point(r, x) <= k < r.len() implies lex_lt(instrument_key(x), instrument_key(#[trigger] r[k])) by {
                if k < r.len() - 1 {
                    assert(r[k] == d[k]);
                }
            }
        } else {
            assert forall|k: int| 0 <= k < insertion_point(r, x) implies !lex_lt(instrument_key(x), instrument_key(#[trigger] r[k])) by {
                let a = instrument_key(r[k]);
                let b = instrument_key(last);
                let c = instrument_key(x);
                if k < r.len() - 1 {
                    assert(!lex_lt(b, a));
                    if lex_lt(c, a) {
                        lemma_lex_total(b, c);
                        if b == c {
                        } else if lex_lt(b, c) {
                            lemma_lex_transitive(b, c, a);
                        }
                    }
                }
            }
        }
    }
}

/// Stable sorting by symbol leaves the instruments in ascending symbol order.
pub proof fn lemma_stable_sorted_is_sorted(s: Seq<ManagedInstrument>)
    ensures
        sorted_by_symbol(stable_sorted(s)),
        stable_sorted(s).len() == s.len(),
    decreases s.len(),
{
    if s.len() > 0 {
        let r = stable_sorted(s.drop_last());
        lemma_stable_sorted_is_sorted(s.drop_last());
        let x = s.last();
        lemma_insertion_point(r, x);
        let p = insertion_point(r, x);
        let n = r.insert(p, x);
        assert forall|i: int, j: int| 0 <= i < j < n.len() implies !lex_lt(instrument_key(#[trigger] n[j]), instrument_key(#[trigger] n[i])) by {
            if j < p {
                assert(n[i] == r[i] && n[j] == r[j]);
            } else if j == p {
                assert(n[i] == r[i]);
            } else if i == p {
                assert(n[j] == r[j - 1]);
                lemma_lex_asymmetric(instrument_key(x), instrument_key(r[j - 1]));
            } else if i < p {
                assert(n[i] == r[i] && n[j] == r[j - 1]);
            } else {
                assert(n[i] == r[i - 1] && n[j] == r[j - 1]);
            }
        }
    }
}

fn symbol_before(a: &ManagedInstrument, b: &ManagedInstrument) -> (r: bool)
    ensures
        r == lex_lt(instrument_key(*a), instrument_key(*b)),
{
    compare_bytes(a.symbol.as_str().as_bytes(), b.symbol.as_str().as_bytes()) < 0
}

fn insert_by_symbol(out: &mut Vec<ManagedInstrument>, x: ManagedInstrument)
    ensures
        final(out)@ == old(out)@.insert(insertion_point(old(out)@, x), x),
{
    let mut j = out.len();
    assert(out@.subrange(0, j as int) =~= out@);
    while j > 0 && symbol_before(&x, &out[j - 1])
        invariant
            j <= out@.len(),
            out@ == old(out)@,
            insertion_point(out@, x) == insertion_point(out@.subrange(0, j as int), x),
        decreases j,
    {
        proof {
            let sub = out@.subrange(0, j as int);
            assert(sub.drop_last() =~= out@.subrange(0, j - 1));
            assert(sub.last() == out@[j - 1]);
        }
        j = j - 1;
    }
    proof {
        let sub = out@.subrange(0, j as int);
        if j > 0 {
            assert(sub.last() == out@[j - 1]);
        }
    }
    out.insert(j, x);
}

impl InstrumentRegistrySnapshot {
    /// The managed view of the exchange's TradFi perpetuals, in symbol
    /// order: each classified by the registry, or failing closed as unknown
    /// when the registry does not name it; and the registry's symbols that
    /// the exchange no longer lists, in ascending order.
    pub fn from_exchange_info(exchange_info: Vec<BinanceSymbolMetadata>, config: &InstrumentRegistryConfig) -> (r: Self)
        ensures
            r.schema_version == INSTRUMENT_REGISTRY_SCHEMA_VERSION,
            exists|unsorted: Seq<ManagedInstrument>|
                {
                    &&& unsorted.len() == tradfi_perpetuals(exchange_info@).len()
                    &&& forall|i: int|
                        0 <= i < unsorted.len() ==> managed_from(
                            #[trigger] unsorted[i],
                            tradfi_perpetuals(exchange_info@)[i],
                            classification_of(
                                by_symbol_spec(config.instruments@),
                                tradfi_perpetuals(exchange_info@)[i].symbol,
                            ),
                        )
                    &&& r.instruments@ == stable_sorted(unsorted)
                },
            strictly_sorted(string_keys(r.configured_missing_from_exchange@)),
            forall|k: Seq<u8>|
                #[trigger] string_keys(r.configured_missing_from_exchange@).contains(k) <==> (
                by_symbol_spec(config.instruments@).contains_key(k) && !exists|i: int|
                    0 <= i < tradfi_perpetuals(exchange_info@).len() && key_of(
                        (#[trigger] tradfi_perpetuals(exchange_info@)[i]).symbol,
                    ) == k),
    {
        let classifications = config.by_symbol();
        let ghost map = by_symbol_spec(config.instruments@);
        let ghost input = exchange_info@;
        let n = exchange_info.len();
        let mut rest = exchange_info;
        let mut observed = SortedStrings::new();
        let mut instruments: Vec<ManagedInstrument> = Vec::new();
        let ghost mut unsorted: Seq<ManagedInstrument> = Seq::empty();
        let mut i: usize = 0;
        while i < n
            invariant
                n == input.len(),
                i <= n,
                rest@ == input.subrange(i as int, n as int),
                classifications.wf(),
                classifications.as_map() == map,
                observed.wf(),
                unsorted.len() == tradfi_perpetuals(input.subrange(0, i as int)).len(),
                forall|k: int|
                    0 <= k < unsorted.len() ==> managed_from(
                        #[trigger] unsorted[k],
                        tradfi_perpetuals(input.subrange(0, i as int))[k],
                        classification_of(map, tradfi_perpetuals(input.subrange(0, i as int))[k].symbol),
                    ),
                instruments@ == stable_sorted(unsorted),
                forall|x: Seq<u8>| observed.key_set().contains(x) <==> exists|k: int|
                    0 <= k < tradfi_perpetuals(input.subrange(0, i as int)).len() && key_of(
                        (#[trigger] tradfi_perpetuals(input.subrange(0, i as int))[k]).symbol,
                    ) == x,
            decreases n - i,
        {
            let metadata = rest.remove(0);
            let ghost before = input.subrange(0, i as int);
            let ghost after = input.subrange(0, i + 1);
            proof {
                assert(metadata == input[i as int]);
                assert(after.drop_last() =~= before);
                assert(after.last() == metadata);
            }
            if str_eq(metadata.contract_type.as_str(), "TRADIFI_PERPETUAL") {
                let c = classifications.get(metadata.symbol.as_str());
                let (region, venue, class, profile, simulation_enabled, live_enabled) = match c {
                    Some(c) => (
                        c.market_region,
                        Some(c.reference_venue.clone()),
                        c.asset_class,
                        Some(c.management_profile.clone()),
                        c.simulation_enabled,
                        c.live_enabled,
                    ),
                    None => (MarketRegion::Unknown, None, AssetClass::Unknown, None, false, false),
                };
                let trading = str_eq(metadata.status.as_str(), "TRADING");
                let strategy_eligible = trading && class != AssetClass::Unknown && simulation_enabled;
                let reason = if !trading {
                    "exchange_status_not_trading"
                } else if class == AssetClass::Unknown {
                    "missing_external_asset_classification"
                } else if !simulation_enabled && !live_enabled {
                    "management_only_until_strategy_is_enabled"
                } else if live_enabled {
                    "explicitly_enabled_for_live_and_simulation"
                } else {
                    "explicitly_enabled_for_simulation_only"
                };
                let ghost before_observed = observed;
                observed.insert(metadata.symbol.clone());
                let instrument = ManagedInstrument {
                    symbol: metadata.symbol,
                    exchange_status: metadata.status,
                    contract_type: metadata.contract_type,
                    underlying_type: metadata.underlying_type,
                    market_region: region,
                    reference_venue: venue,
                    asset_class: class,
                    management_profile: profile,
                    simulation_enabled,
                    live_enabled,
                    strategy_eligible,
                    eligibility_reason: owned(reason),
                    price_precision: metadata.price_precision,
                    quantity_precision: metadata.quantity_precision,
                    onboard_date_ms: metadata.onboard_date_ms,
                    delivery_date_ms: metadata.delivery_date_ms,
                };
                proof {
                    let t = tradfi_perpetuals(after);
                    assert(t == tradfi_perpetuals(before).push(input[i as int]));
                    assert(classification_of(map, input[i as int].symbol) == match c {
                        Some(v) => Some(*v),
                        None => None::<InstrumentClassification>,
                    });
                    assert(managed_from(instrument, input[i as int], classification_of(map, input[i as int].symbol)));
                    assert(stable_sorted(unsorted.push(instrument)) == instruments@.insert(
                        insertion_point(instruments@, instrument),
                        instrument,
                    )) by {
                        assert(unsorted.push(instrument).drop_last() =~= unsorted);
                    }
                    assert forall|x: Seq<u8>| observed.key_set().contains(x) <==> exists|k: int|
                        0 <= k < t.len() && key_of((#[trigger] t[k]).symbol) == x by {
                        if observed.key_set().contains(x) {
                            if x == key_of(input[i as int].symbol) {
                                assert(t[t.len() - 1] == input[i as int]);
                            } else {
                                assert(before_observed.key_set().contains(x));
                                let k = choose|k: int| 0 <= k < tradfi_perpetuals(before).len() && key_of(
                                    (#[trigger] tradfi_perpetuals(before)[k]).symbol,
                                ) == x;
                                assert(t[k] == tradfi_perpetuals(before)[k]);
                            }
                        }
                        if exists|k: int| 0 <= k < t.len() && key_of((#[trigger] t[k]).symbol) == x {
                            let k = choose|k: int| 0 <= k < t.len() && key_of((#[trigger] t[k]).symbol) == x;
                            if k < t.len() - 1 {
                                assert(t[k] == tradfi_perpetuals(before)[k]);
                                assert(before_observed.key_set().contains(x));
                            }
                        }
                    }
                    assert forall|k: int|
                        0 <= k < unsorted.len() + 1 implies managed_from(
                        #[trigger] unsorted.push(instrument)[k],
                        t[k],
                        classification_of(map, t[k].symbol),
                    ) by {
                        if k < unsorted.len() {
                            assert(unsorted.push(instrument)[k] == unsorted[k]);
                            assert(t[k] == tradfi_perpetuals(before)[k]);
                        }
                    }
                }
                insert_by_symbol(&mut instruments, instrument);
                proof {
                    unsorted = unsorted.push(instrument);
                }
            } else {
                proof {
                    assert(tradfi_perpetuals(after) == tradfi_perpetuals(before));
                }
            }
            i = i + 1;
        }
        proof {
            assert(input.subrange(0, n as int) =~= input);
        }
        let ghost observed_set = observed.key_set();
        let mut missing: Vec<String> = Vec::new();
        let count = classifications.len();
        let mut j: usize = 0;
        while j < count
            invariant
                count == classifications.entries().len(),
                j <= count,
                classifications.wf(),
                observed.wf(),
                observed.key_set() == observed_set,
                forall|x: Seq<u8>| #[trigger] string_keys(missing@).contains(x) <==> (
                    classifications.keys().subrange(0, j as int).contains(x) && !observed_set.contains(x)),
                strictly_sorted(string_keys(missing@)),
                forall|a: int, b: int| 0 <= a < missing@.len() && j <= b < count ==> lex_lt(
                    key_of(#[trigger] missing@[a]),
                    #[trigger] classifications.keys()[b],
                ),
            decreases count - j,
        {
            let key = classifications.key_at(j);
            let ghost keys_before = string_keys(missing@);
            let ghost ks = classifications.keys();
            proof {
                assert(ks[j as int] == key_of(*key));
            }
            let pushed = !observed.contains(key.as_str());
            if pushed {
                missing.push(key.clone());
                proof {
                    assert(string_keys(missing@) =~= keys_before.push(ks[j as int]));
                    assert forall|a: int, b: int| 0 <= a < missing@.len() && j + 1 <= b < count implies lex_lt(
                        key_of(#[trigger] missing@[a]),
                        #[trigger] classifications.keys()[b],
                    ) by {
                        if a == missing@.len() - 1 {
                            assert(key_of(missing@[a]) == ks[j as int]);
                            assert(lex_lt(ks[j as int], ks[b]));
                        }
                    }
                }
            } else {
                proof {
                    assert(string_keys(missing@) =~= keys_before);
                }
            }
            proof {
                let upto = ks.subrange(0, j + 1);
                let below = ks.subrange(0, j as int);
                assert(upto =~= below.push(ks[j as int]));
                assert forall|x: Seq<u8>| #[trigger] string_keys(missing@).contains(x) <==> (upto.contains(x)
                    && !observed_set.contains(x)) by {
                    let m = string_keys(missing@);
                    if m.contains(x) {
                        let p = choose|p: int| 0 <= p < m.len() && m[p] == x;
                        if p < keys_before.len() {
                            assert(keys_before[p] == x);
                            assert(keys_before.contains(x));
                            assert(below.contains(x) && !observed_set.contains(x));
                            let q = choose|q: int| 0 <= q < below.len() && below[q] == x;
                            assert(upto[q] == x);
                        } else {
                            assert(pushed);
                            assert(x == ks[j as int]);
                            assert(upto[j as int] == x);
                        }
                    }
                    if upto.contains(x) && !observed_set.contains(x) {
                        let p = choose|p: int| 0 <= p < upto.len() && upto[p] == x;
                        if p < j {
                            assert(below[p] == x);
                            assert(below.contains(x));
                            assert(keys_before.contains(x));
                            let q = choose|q: int| 0 <= q < keys_before.len() && keys_before[q] == x;
                            assert(m[q] == x);
                        } else {
                            assert(x == ks[j as int]);
                            assert(pushed);
                            assert(m[m.len() - 1] == x);
                        }
                    }
                }
            }
            j = j + 1;
        }
        proof {
            let ks = classifications.keys();
            assert(ks.subrange(0, count as int) =~= ks);
            assert forall|x: Seq<u8>| ks.contains(x) <==> map.contains_key(x) by {}
        }
        InstrumentRegistrySnapshot {
            schema_version: INSTRUMENT_REGISTRY_SCHEMA_VERSION,
            instruments,
            configured_missing_from_exchange: missing,
        }
    }

    /// The instruments of one asset class, in snapshot order.
    pub fn by_asset_class(&self, class: AssetClass) -> (r: Vec<ManagedInstrument>)
        ensures
            r@ == self.instruments@.filter(|i: ManagedInstrument| i.asset_class == class),
    {
        let mut out: Vec<ManagedInstrument> = Vec::new();
        let mut i: usize = 0;
        while i < self.instruments.len()
            invariant
                i <= self.instruments@.len(),
                out@ == self.instruments@.subrange(0, i as int).filter(|m: ManagedInstrument| m.asset_class == class),
            decreases self.instruments@.len() - i,
        {
            let ghost prefix = self.instruments@.subrange(0, i + 1);
            proof {
                assert(prefix.drop_last() =~= self.instruments@.subrange(0, i as int));
                reveal(Seq::filter);
            }
            if self.instruments[i].asset_class == class {
                out.push(self.instruments[i].copy());
            }
            i = i + 1;
        }
        assert(self.instruments@.subrange(0, self.instruments@.len() as int) =~= self.instruments@);
        out
    }
}

/// The snapshot lists its instruments in ascending symbol order.
pub proof fn law_snapshot_instruments_are_sorted(unsorted: Seq<ManagedInstrument>)
    ensures
        sorted_by_symbol(stable_sorted(unsorted)),
{
    lemma_stable_sorted_is_sorted(unsorted);
}

} // verus!
