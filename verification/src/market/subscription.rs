//! Market-data subscriptions: which streams of which symbol, and how a
//! symbol universe is split into bounded, independently supervised shards.
use crate::execution::rest::{symbol_spec, valid_symbol};
use crate::keyed::{key_of, strictly_sorted, SortedMap};
use crate::text::{lex_lt, lower_chars, owned, to_lower, utf8};
use vstd::prelude::*;

verus! {

#[derive(Debug, Clone, Copy, PartialEq, Eq, Structural)]
pub enum SubscriptionError {
    EmptySymbol,
    InvalidSymbol,
    NoStreams,
}

#[derive(Debug, Clone, PartialEq, Eq)]
pub enum SubscriptionPlanError {
    EmptyUniverse,
    ZeroShardSize,
    DuplicateSymbol(String),
}

/// The streams wanted for one symbol. The symbol is kept in lower case, as
/// the stream names spell it.
#[derive(Debug, Clone, PartialEq, Eq)]
pub struct BinanceSubscription {
    pub symbol: String,
    pub book_ticker: bool,
    pub mark_price: bool,
    pub agg_trade: bool,
}

/// The stream names of a subscription, in the order book ticker, mark price
/// (one-second), aggregate trades.
pub open spec fn stream_names_spec(s: BinanceSubscription) -> Seq<Seq<char>> {
    (if s.book_ticker {
        seq![s.symbol@ + "@bookTicker"@]
    } else {
        Seq::empty()
    }) + (if s.mark_price {
        seq![s.symbol@ + "@markPrice@1s"@]
    } else {
        Seq::empty()
    }) + (if s.agg_trade {
        seq![s.symbol@ + "@aggTrade"@]
    } else {
        Seq::empty()
    })
}

pub open spec fn has_streams(s: BinanceSubscription) -> bool {
    s.book_ticker || s.mark_price || s.agg_trade
}

impl BinanceSubscription {
    /// A subscription to the book ticker and the mark price of a symbol,
    /// which must be non-empty ASCII letters and digits.
    pub fn new(symbol: &str) -> (r: Result<Self, SubscriptionError>)
        ensures
            symbol@.len() == 0 ==> r == Err::<Self, SubscriptionError>(SubscriptionError::EmptySymbol),
            symbol@.len() > 0 && !symbol_spec(symbol@) ==> r == Err::<Self, SubscriptionError>(
                SubscriptionError::InvalidSymbol,
            ),
            symbol_spec(symbol@) ==> (r matches Ok(s) && s.symbol@ == lower_chars(symbol@) && s.book_ticker
                && s.mark_price && !s.agg_trade),
    {
        if symbol.is_empty() {
            return Err(SubscriptionError::EmptySymbol);
        }
        if !valid_symbol(symbol) {
            return Err(SubscriptionError::InvalidSymbol);
        }
        Ok(BinanceSubscription { symbol: to_lower(symbol), book_ticker: true, mark_price: true, agg_trade: false })
    }

    /// The same symbol, book ticker only.
    pub fn book_ticker_only(self) -> (r: Self)
        ensures
            r == (BinanceSubscription { book_ticker: true, mark_price: false, agg_trade: false, ..self }),
    {
        BinanceSubscription { book_ticker: true, mark_price: false, agg_trade: false, ..self }
    }

    /// The same symbol, mark price and aggregate trades.
    pub fn market_reference_and_trades(self) -> (r: Self)
        ensures
            r == (BinanceSubscription { book_ticker: false, mark_price: true, agg_trade: true, ..self }),
    {
        BinanceSubscription { book_ticker: false, mark_price: true, agg_trade: true, ..self }
    }

    /// The stream names; a subscription to nothing is refused.
    pub fn stream_names(&self) -> (r: Result<Vec<String>, SubscriptionError>)
        ensures
            !has_streams(*self) ==> r == Err::<Vec<String>, SubscriptionError>(SubscriptionError::NoStreams),
            has_streams(*self) ==> (r matches Ok(names) && names@.map_values(|n: String| n@)
                == stream_names_spec(*self)),
    {
        if !self.book_ticker && !self.mark_price && !self.agg_trade {
            return Err(SubscriptionError::NoStreams);
        }
        let mut names: Vec<String> = Vec::new();
        if self.book_ticker {
            let mut n = owned(self.symbol.as_str());
            n.append("@bookTicker");
            names.push(n);
        }
        let ghost after_book = names@.map_values(|n: String| n@);
        if self.mark_price {
            let mut n = owned(self.symbol.as_str());
            n.append("@markPrice@1s");
            names.push(n);
        }
        let ghost after_mark = names@.map_values(|n: String| n@);
        if self.agg_trade {
            let mut n = owned(self.symbol.as_str());
            n.append("@aggTrade");
            names.push(n);
        }
        proof {
            let b: Seq<Seq<char>> = if self.book_ticker {
                seq![self.symbol@ + "@bookTicker"@]
            } else {
                Seq::empty()
            };
            let m: Seq<Seq<char>> = if self.mark_price {
                seq![self.symbol@ + "@markPrice@1s"@]
            } else {
                Seq::empty()
            };
            let a: Seq<Seq<char>> = if self.agg_trade {
                seq![self.symbol@ + "@aggTrade"@]
            } else {
                Seq::empty()
            };
            assert(after_book =~= b);
            assert(after_mark =~= b + m);
            assert(names@.map_values(|n: String| n@) =~= b + m + a);
        }
        Ok(names)
    }

    /// An exact copy.
    pub fn copy(&self) -> (r: Self)
        ensures
            r == *self,
    {
        BinanceSubscription {
            symbol: self.symbol.clone(),
            book_ticker: self.book_ticker,
            mark_price: self.mark_price,
            agg_trade: self.agg_trade,
        }
    }
}

/// The subscriptions of all shards, one shard after another.
pub open spec fn flatten(shards: Seq<Seq<BinanceSubscription>>) -> Seq<BinanceSubscription>
    decreases shards.len(),
{
    if shards.len() == 0 {
        Seq::empty()
    } else {
        flatten(shards.drop_last()) + shards.last()
    }
}

pub open spec fn symbol_key(s: BinanceSubscription) -> Seq<u8> {
    utf8(s.symbol@)
}

/// No symbol occurs twice.
pub open spec fn distinct_symbols(s: Seq<BinanceSubscription>) -> bool {
    forall|i: int, j: int| 0 <= i < j < s.len() ==> (#[trigger] s[i]).symbol@ != (#[trigger] s[j]).symbol@
}

/// Symbols strictly ascending in byte order.
pub open spec fn ascending_symbols(s: Seq<BinanceSubscription>) -> bool {
    forall|i: int, j: int| 0 <= i < j < s.len() ==> lex_lt(symbol_key(#[trigger] s[i]), symbol_key(#[trigger] s[j]))
}

pub open spec fn min_int(a: int, b: int) -> int {
    if a <= b {
        a
    } else {
        b
    }
}

/// `shards` is the plan of `subs` with at most `max` per shard: the
/// subscriptions in ascending symbol order, cut into consecutive runs of
/// `max`, the last run holding the rest.
pub open spec fn is_plan_of(shards: Seq<Seq<BinanceSubscription>>, subs: Seq<BinanceSubscription>, max: nat) -> bool {
    let flat = flatten(shards);
    &&& flat.to_multiset() == subs.to_multiset()
    &&& ascending_symbols(flat)
    &&& shards.len() > 0
    &&& (shards.len() - 1) * max < subs.len() <= shards.len() * max
    &&& forall|k: int|
        0 <= k < shards.len() ==> #[trigger] shards[k] == flat.subrange(k * max, min_int(k * max + max, flat.len() as int))
}

/// Why a universe cannot be planned with at most `max` per shard, short of
/// a repeated symbol.
pub open spec fn plan_refusal(subs: Seq<BinanceSubscription>, max: usize) -> Option<SubscriptionPlanError> {
    if subs.len() == 0 {
        Some(SubscriptionPlanError::EmptyUniverse)
    } else if max == 0 {
        Some(SubscriptionPlanError::ZeroShardSize)
    } else {
        None
    }
}

/// `d` names the first repeated symbol: the symbol at the first position
/// whose symbol already occurred.
pub open spec fn first_repeat(subs: Seq<BinanceSubscription>, d: Seq<char>) -> bool {
    exists|j: int|
        0 < j < subs.len() && distinct_symbols(subs.subrange(0, j)) && !distinct_symbols(
            #[trigger] subs.subrange(0, j + 1),
        ) && d == subs[j].symbol@
}

/// A symbol universe split into shards of bounded size.
#[derive(Debug, Clone, PartialEq, Eq)]
pub struct SubscriptionPlan {
    shards: Vec<Vec<BinanceSubscription>>,
}

pub open spec fn shard_views(shards: Seq<Vec<BinanceSubscription>>) -> Seq<Seq<BinanceSubscription>> {
    shards.map_values(|v: Vec<BinanceSubscription>| v@)
}

proof fn lemma_flatten_push(shards: Seq<Seq<BinanceSubscription>>, s: Seq<BinanceSubscription>)
    ensures
        flatten(shards.push(s)) == flatten(shards) + s,
{
    assert(shards.push(s).drop_last() =~= shards);
}

proof fn lemma_utf8_symbols(a: BinanceSubscription, b: BinanceSubscription)
    ensures
        (symbol_key(a) == symbol_key(b)) <==> (a.symbol@ == b.symbol@),
{
    if symbol_key(a) == symbol_key(b) {
        crate::text::lemma_utf8_injective(a.symbol@, b.symbol@);
    }
}

impl SubscriptionPlan {
    pub closed spec fn shard_seq(&self) -> Seq<Seq<BinanceSubscription>> {
        shard_views(self.shards@)
    }

    pub fn shards(&self) -> (r: &[Vec<BinanceSubscription>])
        ensures
            shard_views(r@) == self.shard_seq(),
    {
        self.shards.as_slice()
    }

    /// The shards, handed over.
    pub fn into_shard_vecs(self) -> (r: Vec<Vec<BinanceSubscription>>)
        ensures
            shard_views(r@) == self.shard_seq(),
    {
        self.shards
    }

    /// Sorts the universe by symbol and cuts it into shards of at most
    /// `max_per_shard`. An empty universe, a zero shard size and a repeated
    /// symbol are refused, in that order.
    pub fn new(subscriptions: Vec<BinanceSubscription>, max_per_shard: usize) -> (r: Result<
        Self,
        SubscriptionPlanError,
    >)
        ensures
            match plan_refusal(subscriptions@, max_per_shard) {
                Some(e) => r == Err::<Self, SubscriptionPlanError>(e),
                None => if distinct_symbols(subscriptions@) {
                    r matches Ok(plan) && is_plan_of(plan.shard_seq(), subscriptions@, max_per_shard as nat)
                } else {
                    r matches Err(SubscriptionPlanError::DuplicateSymbol(d)) && first_repeat(
                        subscriptions@,
                        d@,
                    )
                },
            },
    {
        if subscriptions.len() == 0 {
            return Err(SubscriptionPlanError::EmptyUniverse);
        }
        if max_per_shard == 0 {
            return Err(SubscriptionPlanError::ZeroShardSize);
        }
        let ghost input = subscriptions@;
        let n = subscriptions.len();
        let mut rest = subscriptions;
        let mut sorted: SortedMap<BinanceSubscription> = SortedMap::new();
        let mut i: usize = 0;
        proof {
            assert(sorted.values() =~= input.subrange(0, 0));
        }
        while i < n
            invariant
                n == input.len(),
                input == subscriptions@,
                max_per_shard > 0,
                i <= n,
                rest@ == input.subrange(i as int, n as int),
                sorted.wf(),
                sorted.values().to_multiset() == input.subrange(0, i as int).to_multiset(),
                sorted.values().len() == i,
                forall|k: int| 0 <= k < sorted.entries().len() ==> (#[trigger] sorted.entries()[k]).0@
                    == sorted.entries()[k].1.symbol@,
                distinct_symbols(input.subrange(0, i as int)),
            decreases n - i,
        {
            let sub = rest.remove(0);
            let key = owned(sub.symbol.as_str());
            let ghost before = sorted;
            let ghost prefix = input.subrange(0, i as int);
            let ghost next = input.subrange(0, i + 1);
            proof {
                assert(sub == input[i as int]);
                assert(next =~= prefix.push(sub));
            }
            if let Some(j) = sorted.find(key.as_str()) {
                proof {
                    let j = j as int;
                    let e = before.entries()[j];
                    assert(before.keys()[j] == key_of(e.0));
                    assert(e.0@ == e.1.symbol@);
                    crate::text::lemma_utf8_injective(e.0@, key@);
                    assert(before.values()[j] == e.1);
                    before.values().to_multiset_ensures();
                    prefix.to_multiset_ensures();
                    assert(before.values().contains(e.1));
                    assert(prefix.to_multiset().count(e.1) > 0);
                    assert(prefix.contains(e.1));
                    let p = choose|p: int| 0 <= p < prefix.len() && prefix[p] == e.1;
                    assert(next[p] == e.1 && next[i as int] == sub);
                    assert(!distinct_symbols(next));
                    assert(input[p] == next[p] && input[i as int] == next[i as int]);
                    assert(p < i);
                    assert(!distinct_symbols(input));
                    assert(first_repeat(input, key@));
                }
                return Err(SubscriptionPlanError::DuplicateSymbol(key));
            }
            let ghost sym = sub.symbol@;
            let fresh = sorted.insert_new(key, sub);
            proof {
                assert(fresh);
                let pos = choose|p: int| 0 <= p <= before.entries().len() && sorted.entries() == before.entries().insert(
                    p,
                    (key, sub),
                );
                assert(sorted.values() =~= before.values().insert(pos, sub));
                vstd::seq_lib::to_multiset_insert(before.values(), pos, sub);
                vstd::seq_lib::to_multiset_build(prefix, sub);
                assert forall|k: int| 0 <= k < sorted.entries().len() implies (#[trigger] sorted.entries()[k]).0@
                    == sorted.entries()[k].1.symbol@ by {
                    if k < pos {
                        assert(sorted.entries()[k] == before.entries()[k]);
                    } else if k > pos {
                        assert(sorted.entries()[k] == before.entries()[k - 1]);
                    }
                }
                assert forall|a: int, b: int| 0 <= a < b < next.len() implies (#[trigger] next[a]).symbol@
                    != (#[trigger] next[b]).symbol@ by {
                    if b == i {
                        if next[a].symbol@ == sub.symbol@ {
                            assert(prefix.contains(next[a]));
                            before.values().to_multiset_ensures();
                            prefix.to_multiset_ensures();
                            assert(before.values().to_multiset().count(next[a]) > 0);
                            assert(before.values().contains(next[a]));
                            let q = choose|q: int| 0 <= q < before.values().len() && before.values()[q] == next[a];
                            assert(before.entries()[q].0@ == next[a].symbol@);
                            assert(before.keys()[q] == key_of(before.entries()[q].0));
                            assert(before.contains_key(key_of(key)));
                        }
                    } else {
                        assert(next[a] == prefix[a] && next[b] == prefix[b]);
                    }
                }
            }
            i = i + 1;
        }
        proof {
            assert(input.subrange(0, n as int) =~= input);
        }
        let ghost flat = sorted.values();
        proof {
            assert forall|a: int, b: int| 0 <= a < b < flat.len() implies lex_lt(
                symbol_key(#[trigger] flat[a]),
                symbol_key(#[trigger] flat[b]),
            ) by {
                assert(lex_lt(sorted.keys()[a], sorted.keys()[b]));
                assert(sorted.keys()[a] == key_of(sorted.entries()[a].0));
                assert(sorted.keys()[b] == key_of(sorted.entries()[b].0));
            }
        }
        let shards = chunk(sorted, max_per_shard);
        let plan = SubscriptionPlan { shards };
        proof {
            assert(flat.len() == input.len());
        }
        Ok(plan)
    }
}

/// Cuts the values of the map, in key order, into runs of `max`.
fn chunk(sorted: SortedMap<BinanceSubscription>, max: usize) -> (r: Vec<Vec<BinanceSubscription>>)
    requires
        max > 0,
        sorted.values().len() > 0,
    ensures
        flatten(shard_views(r@)) == sorted.values(),
        r@.len() > 0,
        (r@.len() - 1) * max < sorted.values().len() <= r@.len() * max,
        forall|k: int|
            0 <= k < r@.len() ==> #[trigger] shard_views(r@)[k] == sorted.values().subrange(
                k * max,
                min_int(k * max + max, sorted.values().len() as int),
            ),
{
    let ghost flat = sorted.values();
    let n = sorted.len();
    let mut out: Vec<Vec<BinanceSubscription>> = Vec::new();
    let mut current: Vec<BinanceSubscription> = Vec::new();
    let mut i: usize = 0;
    proof {
        assert(out@.len() * max == 0) by (nonlinear_arith)
            requires
                out@.len() == 0,
        ;
        assert(shard_views(out@) =~= Seq::<Seq<BinanceSubscription>>::empty());
        assert(flat.subrange(0, 0) =~= Seq::<BinanceSubscription>::empty());
        assert(current@ =~= flat.subrange(0, 0));
    }
    while i < n
        invariant
            n == flat.len(),
            flat == sorted.values(),
            max > 0,
            i <= n,
            out@.len() * max + current@.len() == i,
            current@.len() < max,
            flatten(shard_views(out@)) == flat.subrange(0, out@.len() * max),
            current@ == flat.subrange(out@.len() * max, i as int),
            forall|k: int|
                0 <= k < out@.len() ==> #[trigger] shard_views(out@)[k] == flat.subrange(
                    k * max,
                    min_int(k * max + max, flat.len() as int),
                ),
        decreases n - i,
    {
        let ghost chunks = out@.len();
        proof {
            assert(flat[i as int] == sorted.entries()[i as int].1);
        }
        current.push(sorted.value_at(i).copy());
        proof {
            assert(current@ =~= flat.subrange(chunks * max, i + 1));
        }
        i = i + 1;
        if current.len() == max {
            let ghost shards_before = shard_views(out@);
            let full = current;
            current = Vec::new();
            out.push(full);
            proof {
                assert(shard_views(out@) =~= shards_before.push(full@));
                lemma_flatten_push(shards_before, full@);
                assert((chunks + 1) * max == chunks * max + max) by (nonlinear_arith);
                assert(flat.subrange(0, chunks * max) + full@ =~= flat.subrange(0, (chunks + 1) * max));
                assert(chunks * max + max <= flat.len());
                assert(min_int(chunks * max + max, flat.len() as int) == chunks * max + max);
                assert forall|k: int|
                    0 <= k < out@.len() implies #[trigger] shard_views(out@)[k] == flat.subrange(
                        k * max,
                        min_int(k * max + max, flat.len() as int),
                    ) by {
                    if k < chunks {
                        assert(shard_views(out@)[k] == shards_before[k]);
                    }
                }
                assert(current@ =~= flat.subrange(out@.len() * max, i as int));
            }
        }
    }
    if current.len() > 0 {
        let ghost chunks = out@.len();
        let ghost shards_before = shard_views(out@);
        let last = current;
        out.push(last);
        proof {
            assert(shard_views(out@) =~= shards_before.push(last@));
            lemma_flatten_push(shards_before, last@);
            assert(flat.subrange(0, chunks * max) + last@ =~= flat);
            assert((chunks + 1) * max == chunks * max + max) by (nonlinear_arith);
            assert(min_int(chunks * max + max, flat.len() as int) == flat.len());
            assert forall|k: int|
                0 <= k < out@.len() implies #[trigger] shard_views(out@)[k] == flat.subrange(
                    k * max,
                    min_int(k * max + max, flat.len() as int),
                ) by {
                if k < chunks {
                    assert(shard_views(out@)[k] == shards_before[k]);
                }
            }
        }
    } else {
        proof {
            assert(flat.subrange(0, out@.len() * max) =~= flat);
            assert(out@.len() > 0) by {
                if out@.len() == 0 {
                    assert(i == 0);
                }
            }
            assert((out@.len() - 1) * max == out@.len() * max - max) by (nonlinear_arith);
        }
    }
    out
}

} // verus!
