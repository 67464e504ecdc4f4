//! The shared public-market data plane's book: the latest public snapshot of
//! each symbol. One public feed may serve many tenant runtimes; private
//! account state is never stored here. Locking and fan-out to subscribers
//! live with the caller.
use crate::keyed::{strictly_sorted, SortedMap};
use crate::text::{to_upper, upper_chars, utf8};
use vstd::prelude::*;

verus! {

#[derive(Debug, Clone, PartialEq, Eq)]
pub struct MarketSnapshot {
    pub symbol: String,
    pub observed_at_ms: u64,
    pub event_time_ms: u64,
    pub bid_price: String,
    pub ask_price: String,
    pub bid_quantity: String,
    pub ask_quantity: String,
    pub mark_price: Option<String>,
    pub index_price: Option<String>,
    pub funding_rate: Option<String>,
    pub next_funding_time_ms: Option<u64>,
}

fn copy_text(s: &Option<String>) -> (r: Option<String>)
    ensures
        r == *s,
{
    match s {
        Some(t) => Some(t.clone()),
        None => None,
    }
}

impl MarketSnapshot {
    /// An exact copy.
    pub fn copy(&self) -> (r: Self)
        ensures
            r == *self,
    {
        MarketSnapshot {
            symbol: self.symbol.clone(),
            observed_at_ms: self.observed_at_ms,
            event_time_ms: self.event_time_ms,
            bid_price: self.bid_price.clone(),
            ask_price: self.ask_price.clone(),
            bid_quantity: self.bid_quantity.clone(),
            ask_quantity: self.ask_quantity.clone(),
            mark_price: copy_text(&self.mark_price),
            index_price: copy_text(&self.index_price),
            funding_rate: copy_text(&self.funding_rate),
            next_funding_time_ms: self.next_funding_time_ms,
        }
    }
}

/// The key a symbol is filed under: its upper-case bytes.
pub open spec fn book_key(symbol: Seq<char>) -> Seq<u8> {
    utf8(upper_chars(symbol))
}

/// The latest snapshot of each symbol, symbols compared without case.
pub struct MarketSnapshotBook {
    snapshots: SortedMap<MarketSnapshot>,
}

impl MarketSnapshotBook {
    /// The snapshots by key.
    pub closed spec fn view_map(&self) -> Map<Seq<u8>, MarketSnapshot> {
        self.snapshots.as_map()
    }

    pub closed spec fn wf(&self) -> bool {
        self.snapshots.wf()
    }

    pub fn new() -> (r: Self)
        ensures
            r.wf(),
            r.view_map() == Map::<Seq<u8>, MarketSnapshot>::empty(),
    {
        MarketSnapshotBook { snapshots: SortedMap::new() }
    }

    /// Files a snapshot under its symbol, replacing the one before.
    pub fn publish(&mut self, snapshot: MarketSnapshot)
        requires
            old(self).wf(),
        ensures
            final(self).wf(),
            final(self).view_map() == old(self).view_map().insert(book_key(snapshot.symbol@), snapshot),
    {
        let key = to_upper(snapshot.symbol.as_str());
        self.snapshots.insert(key, snapshot);
    }

    /// The latest snapshot of a symbol, in any case.
    pub fn snapshot(&self, symbol: &str) -> (r: Option<MarketSnapshot>)
        requires
            self.wf(),
        ensures
            self.view_map().contains_key(book_key(symbol@)) ==> r == Some(self.view_map()[book_key(symbol@)]),
            !self.view_map().contains_key(book_key(symbol@)) ==> r is None,
    {
        let key = to_upper(symbol);
        match self.snapshots.get(key.as_str()) {
            Some(s) => Some(s.copy()),
            None => None,
        }
    }

    /// Every snapshot, in ascending key order.
    pub fn all(&self) -> (r: Vec<MarketSnapshot>)
        requires
            self.wf(),
        ensures
            r@.len() == self.view_map().dom().len(),
            forall|k: Seq<u8>| #[trigger] self.view_map().contains_key(k) ==> r@.contains(self.view_map()[k]),
            forall|i: int| 0 <= i < r@.len() ==> self.view_map().values().contains(#[trigger] r@[i]),
            exists|keys: Seq<Seq<u8>>|
                #[trigger] strictly_sorted(keys) && keys.to_set() == self.view_map().dom() && keys.len() == r@.len()
                    && forall|i: int| 0 <= i < keys.len() ==> r@[i] == self.view_map()[#[trigger] keys[i]],
    {
        let mut out: Vec<MarketSnapshot> = Vec::new();
        let n = self.snapshots.len();
        let mut i: usize = 0;
        while i < n
            invariant
                n == self.snapshots.entries().len(),
                self.snapshots.wf(),
                i <= n,
                out@.len() == i,
                forall|j: int| 0 <= j < i ==> out@[j] == self.snapshots.entries()[j].1,
            decreases n - i,
        {
            out.push(self.snapshots.value_at(i).copy());
            i = i + 1;
        }
        proof {
            let m = self.snapshots;
            m.lemma_len_is_set_len();
            assert(m.as_map().dom() =~= m.keys().to_set());
            assert forall|k: Seq<u8>| #[trigger] m.as_map().contains_key(k) implies out@.contains(m.as_map()[k]) by {
                let j = choose|j: int| 0 <= j < m.keys().len() && m.keys()[j] == k;
                m.lemma_entry_in_map(j);
                assert(out@[j] == m.as_map()[k]);
            }
            assert forall|i: int| 0 <= i < m.keys().len() implies out@[i] == self.view_map()[#[trigger] m.keys()[i]] by {
                m.lemma_entry_in_map(i);
            }
            assert(strictly_sorted(m.keys()));
            assert forall|i: int| 0 <= i < out@.len() implies self.view_map().values().contains(#[trigger] out@[i]) by {
                m.lemma_entry_in_map(i);
                let k = m.keys()[i];
                assert(out@[i] == m.entries()[i].1);
                assert(self.view_map().contains_key(k) && out@[i] == self.view_map()[k]);
            }
        }
        out
    }
}

} // verus!
