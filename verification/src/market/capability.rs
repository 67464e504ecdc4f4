//! The capability gate: a declared universe of symbols that is ready only
//! while every one of them has a valid, fresh public snapshot.
use crate::execution::supervisor::symbol_key;
use crate::keyed::{key_of, SortedMap, SortedStrings};
use crate::market::metadata::{runtime_result, BinanceSymbolSnapshot, PublicMetadataError};
use crate::text::{normalize_symbol, normalized_symbol, owned, to_upper, upper_chars, utf8};
use vstd::prelude::*;
use vstd::set_lib::{lemma_len_subset, lemma_subset_equality};

verus! {

#[derive(Debug, PartialEq, Eq)]
pub enum CapabilityGateError {
    EmptyUniverse,
    EmptySymbol,
    DuplicateSymbol(String),
    UnexpectedSymbol(String),
    InvalidSnapshot { symbol: String, source: PublicMetadataError },
}

#[derive(Debug, Clone, PartialEq, Eq)]
pub struct MarketCapabilityGate {
    required_symbols: SortedStrings,
    ready_snapshots: SortedMap<BinanceSymbolSnapshot>,
}

/// Reading a universe in order: the set of normalized keys so far, or the
/// first symbol that is empty (`true`) or repeated (`false`) once normalized.
pub open spec fn universe_outcome(symbols: Seq<Seq<char>>) -> Result<Set<Seq<u8>>, (bool, Seq<char>)>
    decreases symbols.len(),
{
    if symbols.len() == 0 {
        Ok(Set::empty())
    } else {
        match universe_outcome(symbols.drop_last()) {
            Err(e) => Err(e),
            Ok(keys) => {
                let s = normalized_symbol(symbols.last());
                if s.len() == 0 {
                    Err((true, s))
                } else if keys.contains(utf8(s)) {
                    Err((false, s))
                } else {
                    Ok(keys.insert(utf8(s)))
                }
            },
        }
    }
}

/// A snapshot passes the runtime data-quality rule at `now_ms`.
pub open spec fn runtime_valid(s: BinanceSymbolSnapshot, now_ms: u64) -> bool {
    runtime_result(s, now_ms, Ok(()))
}

/// The required symbols, in order, that have no ready snapshot.
pub open spec fn missing_views(items: Seq<String>, ready: Map<Seq<u8>, BinanceSymbolSnapshot>) -> Seq<Seq<char>>
    decreases items.len(),
{
    if items.len() == 0 {
        Seq::empty()
    } else {
        let rest = missing_views(items.drop_last(), ready);
        if ready.contains_key(key_of(items.last())) {
            rest
        } else {
            rest.push(items.last()@)
        }
    }
}

impl MarketCapabilityGate {
    pub closed spec fn required_keys(&self) -> Set<Seq<u8>> {
        self.required_symbols.key_set()
    }

    /// The required symbols in ascending order.
    pub closed spec fn required_items(&self) -> Seq<String> {
        self.required_symbols.items()
    }

    /// The ready snapshots, by symbol key.
    pub closed spec fn ready_map(&self) -> Map<Seq<u8>, BinanceSymbolSnapshot> {
        self.ready_snapshots.as_map()
    }

    pub closed spec fn wf(&self) -> bool {
        &&& self.required_symbols.wf()
        &&& self.ready_snapshots.wf()
        &&& self.ready_snapshots.as_map().dom().subset_of(self.required_symbols.key_set())
    }

    /// Every ready snapshot is valid at `now_ms`, and every required symbol
    /// has one.
    pub open spec fn ready_at(&self, now_ms: u64) -> bool {
        &&& self.ready_map().dom().len() == self.required_keys().len()
        &&& forall|k: Seq<u8>| #[trigger] self.ready_map().contains_key(k) ==> runtime_valid(self.ready_map()[k], now_ms)
    }

    /// A gate over a non-empty universe of distinct symbols, each trimmed
    /// and upper-cased; nothing is ready yet.
    pub fn new(symbols: Vec<&str>) -> (r: Result<Self, CapabilityGateError>)
        ensures
            match universe_outcome(symbols@.map_values(|s: &str| s@)) {
                Err((true, _)) => r == Err::<MarketCapabilityGate, CapabilityGateError>(CapabilityGateError::EmptySymbol),
                Err((false, s)) => r matches Err(CapabilityGateError::DuplicateSymbol(x)) && x@ == s,
                Ok(keys) => if symbols@.len() == 0 {
                    r == Err::<MarketCapabilityGate, CapabilityGateError>(CapabilityGateError::EmptyUniverse)
                } else {
                    r matches Ok(g) && g.wf() && g.required_keys() == keys && g.ready_map() == Map::<
                        Seq<u8>,
                        BinanceSymbolSnapshot,
                    >::empty()
                },
            },
    {
        let ghost views = symbols@.map_values(|s: &str| s@);
        let mut required = SortedStrings::new();
        proof {
            assert(views.subrange(0, 0) =~= Seq::<Seq<char>>::empty());
            assert(required.key_set() =~= Set::<Seq<u8>>::empty());
        }
        let mut i: usize = 0;
        while i < symbols.len()
            invariant
                i <= symbols@.len(),
                views == symbols@.map_values(|s: &str| s@),
                required.wf(),
                universe_outcome(views.subrange(0, i as int)) == Ok::<Set<Seq<u8>>, (bool, Seq<char>)>(required.key_set()),
                required.items().len() == i,
            decreases symbols@.len() - i,
        {
            let symbol = normalize_symbol(symbols[i]);
            proof {
                assert(views.subrange(0, i + 1).drop_last() =~= views.subrange(0, i as int));
                assert(views.subrange(0, i + 1).last() == symbols@[i as int]@);
            }
            if symbol.as_str().is_empty() {
                proof {
                    lemma_universe_error_sticky(views, i + 1);
                }
                return Err(CapabilityGateError::EmptySymbol);
            }
            let copy = owned(symbol.as_str());
            if !required.insert(symbol) {
                proof {
                    lemma_universe_error_sticky(views, i + 1);
                }
                return Err(CapabilityGateError::DuplicateSymbol(copy));
            }
            i = i + 1;
        }
        assert(views.subrange(0, symbols@.len() as int) =~= views);
        if required.len() == 0 {
            return Err(CapabilityGateError::EmptyUniverse);
        }
        let ready_snapshots: SortedMap<BinanceSymbolSnapshot> = SortedMap::new();
        Ok(MarketCapabilityGate { required_symbols: required, ready_snapshots })
    }

    /// Takes a snapshot for a required symbol. Any previous snapshot of the
    /// symbol is dropped first, so a refused refresh leaves the symbol not
    /// ready.
    pub fn accept(&mut self, snapshot: BinanceSymbolSnapshot, now_ms: u64) -> (r: Result<(), CapabilityGateError>)
        requires
            old(self).wf(),
        ensures
            final(self).wf(),
            final(self).required_keys() == old(self).required_keys(),
            final(self).required_items() == old(self).required_items(),
            ({
                let k = utf8(upper_chars(snapshot.metadata.symbol@));
                if !old(self).required_keys().contains(k) {
                    &&& r matches Err(CapabilityGateError::UnexpectedSymbol(s)) && s@ == upper_chars(snapshot.metadata.symbol@)
                    &&& final(self).ready_map() == old(self).ready_map()
                } else if !runtime_valid(snapshot, now_ms) {
                    &&& r matches Err(CapabilityGateError::InvalidSnapshot { symbol, source }) && symbol@ == upper_chars(
                        snapshot.metadata.symbol@,
                    ) && runtime_result(snapshot, now_ms, Err(source))
                    &&& final(self).ready_map() == old(self).ready_map().remove(k)
                } else {
                    &&& r is Ok
                    &&& final(self).ready_map() == old(self).ready_map().insert(k, snapshot)
                }
            }),
    {
        let symbol = to_upper(snapshot.metadata.symbol.as_str());
        if !self.required_symbols.contains(symbol.as_str()) {
            return Err(CapabilityGateError::UnexpectedSymbol(symbol));
        }
        let ghost before = self.ready_snapshots.as_map();
        self.ready_snapshots.remove(symbol.as_str());
        match snapshot.validate_for_runtime(now_ms) {
            Err(source) => {
                proof {
                    lemma_runtime_failure(snapshot, now_ms, Err(source));
                    assert(self.ready_snapshots.as_map().dom() =~= before.remove(utf8(symbol@)).dom());
                }
                return Err(CapabilityGateError::InvalidSnapshot { symbol, source });
            },
            Ok(()) => {},
        }
        let key = owned(symbol.as_str());
        self.ready_snapshots.insert(key, snapshot);
        Ok(())
    }

    /// Ready when every required symbol has a snapshot valid at `now_ms`.
    pub fn is_ready_at(&self, now_ms: u64) -> (r: bool)
        requires
            self.wf(),
        ensures
            r == self.ready_at(now_ms),
    {
        proof {
            self.ready_snapshots.lemma_len_is_set_len();
            self.required_symbols.lemma_len_is_set_len();
            assert(self.ready_snapshots.as_map().dom() =~= self.ready_snapshots.keys().to_set());
        }
        if self.ready_snapshots.len() != self.required_symbols.len() {
            return false;
        }
        let n = self.ready_snapshots.len();
        let mut i: usize = 0;
        while i < n
            invariant
                self.wf(),
                n == self.ready_snapshots.entries().len(),
                i <= n,
                forall|j: int| 0 <= j < i ==> runtime_valid(#[trigger] self.ready_snapshots.entries()[j].1, now_ms),
            decreases n - i,
        {
            let checked = self.ready_snapshots.value_at(i).validate_for_runtime(now_ms);
            if checked.is_err() {
                proof {
                    self.ready_snapshots.lemma_entry_in_map(i as int);
                    let k = self.ready_snapshots.keys()[i as int];
                    assert(self.ready_map().contains_key(k));
                    lemma_runtime_failure(self.ready_snapshots.entries()[i as int].1, now_ms, checked);
                }
                return false;
            }
            i = i + 1;
        }
        proof {
            assert forall|k: Seq<u8>| #[trigger] self.ready_map().contains_key(k) implies runtime_valid(self.ready_map()[k], now_ms) by {
                let j = choose|j: int| 0 <= j < self.ready_snapshots.keys().len() && self.ready_snapshots.keys()[j] == k;
                self.ready_snapshots.lemma_entry_in_map(j);
            }
        }
        true
    }

    /// The required symbols, in ascending order.
    pub fn required_symbols(&self) -> (r: Vec<String>)
        ensures
            r@ == self.required_items(),
    {
        self.required_symbols.to_vec()
    }

    /// The required symbols that have no ready snapshot, in ascending order.
    pub fn missing_symbols(&self) -> (r: Vec<String>)
        requires
            self.wf(),
        ensures
            r@.map_values(|s: String| s@) == missing_views(self.required_items(), self.ready_map()),
    {
        let items = self.required_symbols.to_vec();
        let mut out: Vec<String> = Vec::new();
        let mut i: usize = 0;
        while i < items.len()
            invariant
                self.wf(),
                items@ == self.required_items(),
                i <= items@.len(),
                out@.map_values(|s: String| s@) == missing_views(items@.subrange(0, i as int), self.ready_map()),
            decreases items@.len() - i,
        {
            proof {
                assert(items@.subrange(0, i + 1).drop_last() =~= items@.subrange(0, i as int));
                assert(items@.subrange(0, i + 1).last() == items@[i as int]);
            }
            let present = self.ready_snapshots.get(items[i].as_str()).is_some();
            if !present {
                let ghost before = out@;
                out.push(owned(items[i].as_str()));
                proof {
                    assert(out@.map_values(|s: String| s@) =~= before.map_values(|s: String| s@).push(items@[i as int]@));
                }
            }
            i = i + 1;
        }
        assert(items@.subrange(0, items@.len() as int) =~= items@);
        out
    }

    /// The ready snapshot of a symbol, trimmed and upper-cased.
    pub fn snapshot(&self, symbol: &str) -> (r: Option<&BinanceSymbolSnapshot>)
        requires
            self.wf(),
        ensures
            r is None <==> !self.ready_map().contains_key(symbol_key(symbol@)),
            r matches Some(s) ==> *s == self.ready_map()[symbol_key(symbol@)],
    {
        let key = normalize_symbol(symbol);
        self.ready_snapshots.get(key.as_str())
    }
}

proof fn lemma_universe_error_sticky(views: Seq<Seq<char>>, k: int)
    requires
        0 <= k <= views.len(),
        universe_outcome(views.subrange(0, k)) is Err,
    ensures
        universe_outcome(views) == universe_outcome(views.subrange(0, k)),
    decreases views.len() - k,
{
    if k < views.len() {
        assert(views.subrange(0, k + 1).drop_last() =~= views.subrange(0, k));
        lemma_universe_error_sticky(views, k + 1);
    } else {
        assert(views.subrange(0, k) =~= views);
    }
}

/// A check that failed means the snapshot is not valid.
proof fn lemma_runtime_failure(s: BinanceSymbolSnapshot, now_ms: u64, a: Result<(), PublicMetadataError>)
    requires
        runtime_result(s, now_ms, a),
        a is Err,
    ensures
        !runtime_valid(s, now_ms),
{
}

/// A ready gate has a valid snapshot for every required symbol.
pub proof fn law_ready_gate_covers_universe(g: MarketCapabilityGate, now_ms: u64)
    requires
        g.wf(),
        g.ready_at(now_ms),
    ensures
        forall|k: Seq<u8>| #[trigger] g.required_keys().contains(k) ==> g.ready_map().contains_key(k) && runtime_valid(
            g.ready_map()[k],
            now_ms,
        ),
{
    let ready = g.ready_map().dom();
    let required = g.required_keys();
    g.required_symbols.lemma_len_is_set_len();
    assert(required =~= g.required_symbols.keys().to_set());
    vstd::seq_lib::seq_to_set_is_finite(g.required_symbols.keys());
    lemma_len_subset(ready, required);
    lemma_subset_equality(ready, required);
}

} // verus!
