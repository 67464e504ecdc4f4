//! Live market-stream configuration: the combined stream URL of a shard,
//! the explicit subscription request, and the split of a symbol universe
//! into shards. The socket loop itself runs with the caller.
use crate::market::subscription::{
    ascending_symbols, distinct_symbols, first_repeat, flatten, has_streams, is_plan_of, plan_refusal,
    stream_names_spec, BinanceSubscription, SubscriptionError, SubscriptionPlan, SubscriptionPlanError,
};
use crate::execution::rest::symbol_spec;
use crate::text::{lower_chars, owned, trim_end_char, trim_trailing, utf8};
use vstd::prelude::*;

verus! {

#[derive(Debug, Clone, PartialEq, Eq)]
pub enum MarketStreamError {
    NoSubscriptions,
    InvalidSubscription(SubscriptionError),
    InvalidSubscriptionPlan(SubscriptionPlanError),
    WebSocket(String),
    ConnectTimeout,
    Dns(String),
    Tcp(String),
    Proxy(String),
    FrameTooLarge,
    Parse(String),
}

/// How often a dropped stream is reconnected: `None` without limit.
#[derive(Debug, Clone, Copy, PartialEq, Eq, Structural)]
pub struct ReconnectPolicy {
    pub max_attempts: Option<u32>,
}

impl Default for ReconnectPolicy {
    fn default() -> (r: Self)
        ensures
            r.max_attempts is None,
    {
        ReconnectPolicy { max_attempts: None }
    }
}

#[derive(Debug, Clone, PartialEq, Eq)]
pub struct BinanceMarketConfig {
    pub market_ws_base: String,
    pub subscriptions: Vec<BinanceSubscription>,
    pub price_scale: u32,
    pub quantity_scale: u32,
    pub max_frame_bytes: usize,
    pub connect_timeout_ms: u64,
    /// Maximum silence tolerated before the shard is recycled.
    pub read_timeout_ms: u64,
    pub http_proxy: Option<String>,
    pub reconnect: ReconnectPolicy,
}

#[derive(Debug, Clone, Copy, PartialEq, Eq, Structural)]
pub enum BinanceMarketFeed {
    BookTicker,
    ReferenceAndTrades,
}

/// The explicit `SUBSCRIBE` request of a stream.
#[derive(Debug, Clone, PartialEq, Eq)]
pub struct SubscribeRequest {
    pub method: String,
    pub params: Vec<String>,
    pub id: String,
}

/// The transport of a configuration: every field but the subscriptions.
pub type Transport = (String, u32, u32, usize, u64, u64, Option<String>, ReconnectPolicy);

pub open spec fn transport(c: BinanceMarketConfig) -> Transport {
    (
        c.market_ws_base,
        c.price_scale,
        c.quantity_scale,
        c.max_frame_bytes,
        c.connect_timeout_ms,
        c.read_timeout_ms,
        c.http_proxy,
        c.reconnect,
    )
}

/// All stream names of the subscriptions, in their order.
pub open spec fn all_stream_names(subs: Seq<BinanceSubscription>) -> Seq<Seq<char>>
    decreases subs.len(),
{
    if subs.len() == 0 {
        Seq::empty()
    } else {
        all_stream_names(subs.drop_last()) + stream_names_spec(subs.last())
    }
}

/// The names joined by `/`.
pub open spec fn slash_joined(names: Seq<Seq<char>>) -> Seq<char>
    decreases names.len(),
{
    if names.len() == 0 {
        Seq::empty()
    } else if names.len() == 1 {
        names[0]
    } else {
        slash_joined(names.drop_last()) + "/"@ + names.last()
    }
}

/// `sorted` is the universe in ascending symbol order.
pub open spec fn sorted_universe(sorted: Seq<BinanceSubscription>, subs: Seq<BinanceSubscription>) -> bool {
    sorted.to_multiset() == subs.to_multiset() && ascending_symbols(sorted)
}

/// The stream base with trailing slashes removed.
pub open spec fn stream_base(base: Seq<char>) -> Seq<char> {
    trim_trailing(base, '/')
}

/// What `combined_stream_url` gives for a universe and a base.
pub open spec fn combined_url_outcome(
    subs: Seq<BinanceSubscription>,
    base: Seq<char>,
    r: Result<String, MarketStreamError>,
) -> bool {
    if subs.len() == 0 {
        r == Err::<String, MarketStreamError>(MarketStreamError::NoSubscriptions)
    } else if !distinct_symbols(subs) {
        r matches Err(MarketStreamError::InvalidSubscriptionPlan(SubscriptionPlanError::DuplicateSymbol(d)))
            && first_repeat(subs, d@)
    } else if exists|k: int| 0 <= k < subs.len() && !has_streams(#[trigger] subs[k]) {
        r == Err::<String, MarketStreamError>(MarketStreamError::InvalidSubscription(SubscriptionError::NoStreams))
    } else {
        exists|sorted: Seq<BinanceSubscription>|
            #[trigger] sorted_universe(sorted, subs) && (r matches Ok(url) && url@ == stream_base(base)
                + "/stream?streams="@ + slash_joined(all_stream_names(sorted)))
    }
}

/// What `into_shards` gives: the plan's refusal, or one configuration per
/// shard of the plan, each with the transport of `base`.
pub open spec fn shard_outcome(
    base: Transport,
    subs: Seq<BinanceSubscription>,
    max: usize,
    r: Result<Vec<BinanceMarketConfig>, MarketStreamError>,
) -> bool {
    match plan_refusal(subs, max) {
        Some(e) => r == Err::<Vec<BinanceMarketConfig>, MarketStreamError>(MarketStreamError::InvalidSubscriptionPlan(e)),
        None => if distinct_symbols(subs) {
            r matches Ok(configs) && is_plan_of(
                configs@.map_values(|c: BinanceMarketConfig| c.subscriptions@),
                subs,
                max as nat,
            ) && forall|k: int| 0 <= k < configs@.len() ==> transport(#[trigger] configs@[k]) == base
        } else {
            r matches Err(
                MarketStreamError::InvalidSubscriptionPlan(SubscriptionPlanError::DuplicateSymbol(d)),
            ) && first_repeat(subs, d@)
        },
    }
}

/// The subscription a symbol gets on a feed.
pub open spec fn feed_subscription(s: BinanceSubscription, symbol: Seq<char>, feed: BinanceMarketFeed) -> bool {
    &&& s.symbol@ == lower_chars(symbol)
    &&& match feed {
        BinanceMarketFeed::BookTicker => s.book_ticker && !s.mark_price && !s.agg_trade,
        BinanceMarketFeed::ReferenceAndTrades => !s.book_ticker && s.mark_price && s.agg_trade,
    }
}

pub open spec fn symbol_error(symbol: Seq<char>) -> SubscriptionError {
    if symbol.len() == 0 {
        SubscriptionError::EmptySymbol
    } else {
        SubscriptionError::InvalidSymbol
    }
}

proof fn lemma_permutation_contains(a: Seq<BinanceSubscription>, b: Seq<BinanceSubscription>, x: BinanceSubscription)
    requires
        a.to_multiset() == b.to_multiset(),
        a.contains(x),
    ensures
        b.contains(x),
{
    a.to_multiset_ensures();
    b.to_multiset_ensures();
    assert(a.to_multiset().count(x) > 0);
    assert(b.to_multiset().count(x) > 0);
}

fn copy_subscriptions(subs: &Vec<BinanceSubscription>) -> (r: Vec<BinanceSubscription>)
    ensures
        r@ == subs@,
{
    let mut out: Vec<BinanceSubscription> = Vec::new();
    let mut i: usize = 0;
    while i < subs.len()
        invariant
            i <= subs@.len(),
            out@ == subs@.subrange(0, i as int),
        decreases subs@.len() - i,
    {
        out.push(subs[i].copy());
        proof {
            assert(out@ =~= subs@.subrange(0, i + 1));
        }
        i = i + 1;
    }
    assert(subs@.subrange(0, subs@.len() as int) =~= subs@);
    out
}

fn copy_proxy(p: &Option<String>) -> (r: Option<String>)
    ensures
        r == *p,
{
    match p {
        Some(s) => Some(s.clone()),
        None => None,
    }
}

proof fn lemma_single_shard(shards: Seq<Seq<BinanceSubscription>>, subs: Seq<BinanceSubscription>)
    requires
        subs.len() > 0,
        is_plan_of(shards, subs, subs.len()),
    ensures
        shards.len() == 1,
        sorted_universe(shards[0], subs),
{
    let n = subs.len() as int;
    let m = shards.len() as int;
    assert((m - 1) * n < n);
    assert(m - 1 < 1) by (nonlinear_arith)
        requires
            (m - 1) * n < n,
            n > 0,
    ;
    assert(m == 1);
    let flat = flatten(shards);
    assert(shards[0] == flat.subrange(0 * n, crate::market::subscription::min_int(0 * n + n, flat.len() as int)));
    flat.to_multiset_ensures();
    subs.to_multiset_ensures();
    assert(flat.len() == n);
    assert(flat.subrange(0, n) =~= flat);
}

proof fn lemma_all_stream_names_push(subs: Seq<BinanceSubscription>, s: BinanceSubscription)
    ensures
        all_stream_names(subs.push(s)) == all_stream_names(subs) + stream_names_spec(s),
{
    assert(subs.push(s).drop_last() =~= subs);
}

proof fn lemma_slash_joined_push(names: Seq<Seq<char>>, n: Seq<char>)
    ensures
        slash_joined(names.push(n)) == if names.len() == 0 {
            n
        } else {
            slash_joined(names) + "/"@ + n
        },
{
    assert(names.push(n).drop_last() =~= names);
}

/// Appends names to a text that already holds `slash_joined(prefix)`;
/// `started` tells whether any name has been written.
fn append_names(out: &mut String, started: &mut bool, names: &Vec<String>, Ghost(prefix): Ghost<Seq<Seq<char>>>)
    requires
        old(out)@ == slash_joined(prefix),
        *old(started) == (prefix.len() > 0),
    ensures
        final(out)@ == slash_joined(prefix + names@.map_values(|n: String| n@)),
        *final(started) == (prefix.len() + names@.len() > 0),
{
    let mut i: usize = 0;
    while i < names.len()
        invariant
            i <= names@.len(),
            out@ == slash_joined(prefix + names@.subrange(0, i as int).map_values(|n: String| n@)),
            *started == (prefix.len() + i > 0),
        decreases names@.len() - i,
    {
        let ghost done = prefix + names@.subrange(0, i as int).map_values(|n: String| n@);
        if *started {
            out.append("/");
        }
        out.append(names[i].as_str());
        proof {
            lemma_slash_joined_push(done, names@[i as int]@);
            assert(prefix + names@.subrange(0, i + 1).map_values(|n: String| n@) =~= done.push(names@[i as int]@));
        }
        *started = true;
        i = i + 1;
    }
    assert(names@.subrange(0, names@.len() as int) =~= names@);
}

impl BinanceMarketConfig {
    /// The subscriptions of one shard holding the whole universe: the
    /// universe in ascending symbol order.
    fn validated_subscriptions(&self) -> (r: Result<Vec<BinanceSubscription>, MarketStreamError>)
        ensures
            self.subscriptions@.len() == 0 ==> r == Err::<Vec<BinanceSubscription>, MarketStreamError>(
                MarketStreamError::NoSubscriptions,
            ),
            self.subscriptions@.len() > 0 && !distinct_symbols(self.subscriptions@) ==> (r matches Err(
                MarketStreamError::InvalidSubscriptionPlan(SubscriptionPlanError::DuplicateSymbol(d)),
            ) && first_repeat(self.subscriptions@, d@)),
            self.subscriptions@.len() > 0 && distinct_symbols(self.subscriptions@) ==> (r matches Ok(sorted)
                && sorted_universe(sorted@, self.subscriptions@)),
    {
        if self.subscriptions.len() == 0 {
            return Err(MarketStreamError::NoSubscriptions);
        }
        let n = self.subscriptions.len();
        let plan = match SubscriptionPlan::new(copy_subscriptions(&self.subscriptions), n) {
            Ok(plan) => plan,
            Err(e) => {
                return Err(MarketStreamError::InvalidSubscriptionPlan(e));
            },
        };
        let ghost shards = plan.shard_seq();
        let mut vecs = plan.into_shard_vecs();
        proof {
            lemma_single_shard(shards, self.subscriptions@);
            assert(vecs@.len() == 1);
            assert(vecs@[0]@ == shards[0]);
        }
        let first = vecs.remove(0);
        Ok(first)
    }

    /// `<base>/stream?streams=<name>/<name>/...`, the names of every
    /// subscription in ascending symbol order; the base loses any trailing
    /// slash.
    pub fn combined_stream_url(&self) -> (r: Result<String, MarketStreamError>)
        ensures
            combined_url_outcome(self.subscriptions@, self.market_ws_base@, r),
    {
        let subs = match self.validated_subscriptions() {
            Ok(subs) => subs,
            Err(e) => {
                return Err(e);
            },
        };
        let ghost sorted = subs@;
        let mut url = owned(trim_end_char(self.market_ws_base.as_str(), '/'));
        url.append("/stream?streams=");
        let mut joined = String::new();
        let mut started = false;
        let mut i: usize = 0;
        while i < subs.len()
            invariant
                i <= sorted.len(),
                sorted == subs@,
                sorted_universe(sorted, self.subscriptions@),
                distinct_symbols(self.subscriptions@),
                forall|k: int| 0 <= k < i ==> has_streams(#[trigger] sorted[k]),
                joined@ == slash_joined(all_stream_names(sorted.subrange(0, i as int))),
                started == (all_stream_names(sorted.subrange(0, i as int)).len() > 0),
            decreases sorted.len() - i,
        {
            let names = match subs[i].stream_names() {
                Ok(names) => names,
                Err(e) => {
                    proof {
                        assert(!has_streams(sorted[i as int]));
                        assert(sorted.contains(sorted[i as int]));
                        lemma_permutation_contains(sorted, self.subscriptions@, sorted[i as int]);
                        let k = choose|k: int| 0 <= k < self.subscriptions@.len() && self.subscriptions@[k] == sorted[i as int];
                        assert(!has_streams(self.subscriptions@[k]));
                    }
                    return Err(MarketStreamError::InvalidSubscription(e));
                },
            };
            let ghost before = all_stream_names(sorted.subrange(0, i as int));
            append_names(&mut joined, &mut started, &names, Ghost(before));
            proof {
                assert(sorted.subrange(0, i + 1) =~= sorted.subrange(0, i as int).push(sorted[i as int]));
                lemma_all_stream_names_push(sorted.subrange(0, i as int), sorted[i as int]);
            }
            i = i + 1;
        }
        url.append(joined.as_str());
        proof {
            assert(sorted.subrange(0, sorted.len() as int) =~= sorted);
            assert forall|k: int| 0 <= k < self.subscriptions@.len() implies has_streams(
                #[trigger] self.subscriptions@[k],
            ) by {
                assert(self.subscriptions@.contains(self.subscriptions@[k]));
                lemma_permutation_contains(self.subscriptions@, sorted, self.subscriptions@[k]);
                let j = choose|j: int| 0 <= j < sorted.len() && sorted[j] == self.subscriptions@[k];
            }
        }
        Ok(url)
    }

    /// `<base>/stream`, for a stream that subscribes explicitly.
    pub fn subscription_endpoint(&self) -> (r: Result<String, MarketStreamError>)
        ensures
            self.subscriptions@.len() == 0 ==> r == Err::<String, MarketStreamError>(MarketStreamError::NoSubscriptions),
            self.subscriptions@.len() > 0 ==> (r matches Ok(url) && url@ == stream_base(self.market_ws_base@)
                + "/stream"@),
    {
        if self.subscriptions.len() == 0 {
            return Err(MarketStreamError::NoSubscriptions);
        }
        let mut url = owned(trim_end_char(self.market_ws_base.as_str(), '/'));
        url.append("/stream");
        Ok(url)
    }

    /// The `SUBSCRIBE` request for every stream of the universe, in
    /// ascending symbol order.
    pub fn subscription_request(&self) -> (r: Result<SubscribeRequest, MarketStreamError>)
        ensures
            self.subscriptions@.len() == 0 ==> r == Err::<SubscribeRequest, MarketStreamError>(
                MarketStreamError::NoSubscriptions,
            ),
            self.subscriptions@.len() > 0 && !distinct_symbols(self.subscriptions@) ==> (r matches Err(
                MarketStreamError::InvalidSubscriptionPlan(SubscriptionPlanError::DuplicateSymbol(d)),
            ) && first_repeat(self.subscriptions@, d@)),
            self.subscriptions@.len() > 0 && distinct_symbols(self.subscriptions@) && (exists|k: int|
                0 <= k < self.subscriptions@.len() && !has_streams(#[trigger] self.subscriptions@[k]))
                ==> r == Err::<SubscribeRequest, MarketStreamError>(
                MarketStreamError::InvalidSubscription(SubscriptionError::NoStreams),
            ),
            self.subscriptions@.len() > 0 && distinct_symbols(self.subscriptions@) && (forall|k: int|
                0 <= k < self.subscriptions@.len() ==> has_streams(#[trigger] self.subscriptions@[k]))
                ==> (r matches Ok(req) && req.method@ == "SUBSCRIBE"@ && req.id@ == "anchorbell-market-1"@
                && exists|sorted: Seq<BinanceSubscription>|
                #[trigger] sorted_universe(sorted, self.subscriptions@) && req.params@.map_values(
                |n: String| n@,
            ) == all_stream_names(sorted)),
    {
        let subs = match self.validated_subscriptions() {
            Ok(subs) => subs,
            Err(e) => {
                return Err(e);
            },
        };
        let ghost sorted = subs@;
        let mut params: Vec<String> = Vec::new();
        let mut i: usize = 0;
        while i < subs.len()
            invariant
                i <= sorted.len(),
                sorted == subs@,
                sorted_universe(sorted, self.subscriptions@),
                self.subscriptions@.len() > 0,
                distinct_symbols(self.subscriptions@),
                forall|k: int| 0 <= k < i ==> has_streams(#[trigger] sorted[k]),
                params@.map_values(|n: String| n@) == all_stream_names(sorted.subrange(0, i as int)),
            decreases sorted.len() - i,
        {
            let mut names = match subs[i].stream_names() {
                Ok(names) => names,
                Err(e) => {
                    proof {
                        assert(!has_streams(sorted[i as int]));
                        assert(sorted.contains(sorted[i as int]));
                        lemma_permutation_contains(sorted, self.subscriptions@, sorted[i as int]);
                        let k = choose|k: int| 0 <= k < self.subscriptions@.len() && self.subscriptions@[k] == sorted[i as int];
                        assert(!has_streams(self.subscriptions@[k]));
                    }
                    return Err(MarketStreamError::InvalidSubscription(e));
                },
            };
            let ghost before = params@;
            let ghost added = names@;
            params.append(&mut names);
            proof {
                assert(params@ == before + added);
                assert(params@.map_values(|n: String| n@) =~= before.map_values(|n: String| n@) + added.map_values(
                    |n: String| n@,
                ));
                assert(sorted.subrange(0, i + 1) =~= sorted.subrange(0, i as int).push(sorted[i as int]));
                lemma_all_stream_names_push(sorted.subrange(0, i as int), sorted[i as int]);
            }
            i = i + 1;
        }
        proof {
            assert(sorted.subrange(0, sorted.len() as int) =~= sorted);
            assert forall|k: int| 0 <= k < self.subscriptions@.len() implies has_streams(
                #[trigger] self.subscriptions@[k],
            ) by {
                assert(self.subscriptions@.contains(self.subscriptions@[k]));
                lemma_permutation_contains(self.subscriptions@, sorted, self.subscriptions@[k]);
                let j = choose|j: int| 0 <= j < sorted.len() && sorted[j] == self.subscriptions@[k];
            }
        }
        Ok(SubscribeRequest { method: owned("SUBSCRIBE"), params, id: owned("anchorbell-market-1") })
    }

    /// Splits the universe into shards of at most
    /// `max_subscriptions_per_shard`, each an independently supervised
    /// connection with this configuration's transport. Each shard is bounded
    /// before any socket is opened.
    pub fn into_shards(&self, max_subscriptions_per_shard: usize) -> (r: Result<Vec<Self>, MarketStreamError>)
        ensures
            shard_outcome(transport(*self), self.subscriptions@, max_subscriptions_per_shard, r),
    {
        let plan = match SubscriptionPlan::new(copy_subscriptions(&self.subscriptions), max_subscriptions_per_shard) {
            Ok(plan) => plan,
            Err(e) => {
                return Err(MarketStreamError::InvalidSubscriptionPlan(e));
            },
        };
        let ghost shards = plan.shard_seq();
        let mut rest = plan.into_shard_vecs();
        let n = rest.len();
        let mut configs: Vec<Self> = Vec::new();
        let mut i: usize = 0;
        while i < n
            invariant
                n == shards.len(),
                i <= n,
                shards.len() == crate::market::subscription::shard_views(rest@).len() + i,
                forall|k: int| 0 <= k < rest@.len() ==> (#[trigger] rest@[k])@ == shards[i + k],
                configs@.len() == i,
                forall|k: int| 0 <= k < i ==> (#[trigger] configs@[k]).subscriptions@ == shards[k],
                forall|k: int| 0 <= k < i ==> transport(#[trigger] configs@[k]) == transport(*self),
            decreases n - i,
        {
            let shard = rest.remove(0);
            proof {
                assert(shard@ == shards[i as int]);
            }
            configs.push(
                BinanceMarketConfig {
                    market_ws_base: self.market_ws_base.clone(),
                    subscriptions: shard,
                    price_scale: self.price_scale,
                    quantity_scale: self.quantity_scale,
                    max_frame_bytes: self.max_frame_bytes,
                    connect_timeout_ms: self.connect_timeout_ms,
                    read_timeout_ms: self.read_timeout_ms,
                    http_proxy: copy_proxy(&self.http_proxy),
                    reconnect: self.reconnect,
                },
            );
            i = i + 1;
        }
        proof {
            assert(configs@.map_values(|c: BinanceMarketConfig| c.subscriptions@) =~= shards);
        }
        Ok(configs)
    }

    /// One configuration per shard of the symbols, all subscribed to `feed`.
    /// An invalid symbol is refused before any shard is planned.
    pub fn for_symbols(
        market_ws_base: String,
        symbols: &[&str],
        feed: BinanceMarketFeed,
        price_scale: u32,
        quantity_scale: u32,
        max_frame_bytes: usize,
        connect_timeout_ms: u64,
        read_timeout_ms: u64,
        http_proxy: Option<String>,
        reconnect: ReconnectPolicy,
        max_subscriptions_per_shard: usize,
    ) -> (r: Result<Vec<Self>, MarketStreamError>)
        ensures
            forall|j: int| 0 <= j < symbols@.len() && !symbol_spec((#[trigger] symbols@[j])@) && (forall|i: int|
                0 <= i < j ==> symbol_spec(symbols@[i]@)) ==> r == Err::<Vec<Self>, MarketStreamError>(
                MarketStreamError::InvalidSubscription(symbol_error(symbols@[j]@)),
            ),
            (forall|i: int| 0 <= i < symbols@.len() ==> symbol_spec((#[trigger] symbols@[i])@)) ==> exists|
                subs: Seq<BinanceSubscription>,
            |
                {
                    &&& subs.len() == symbols@.len()
                    &&& forall|i: int|
                        0 <= i < subs.len() ==> feed_subscription(#[trigger] subs[i], symbols@[i]@, feed)
                    &&& shard_outcome(
                        (
                            market_ws_base,
                            price_scale,
                            quantity_scale,
                            max_frame_bytes,
                            connect_timeout_ms,
                            read_timeout_ms,
                            http_proxy,
                            reconnect,
                        ),
                        subs,
                        max_subscriptions_per_shard,
                        r,
                    )
                },
    {
        let mut subscriptions: Vec<BinanceSubscription> = Vec::new();
        let mut i: usize = 0;
        while i < symbols.len()
            invariant
                i <= symbols@.len(),
                subscriptions@.len() == i,
                forall|k: int| 0 <= k < i ==> symbol_spec((#[trigger] symbols@[k])@),
                forall|k: int|
                    0 <= k < i ==> feed_subscription(#[trigger] subscriptions@[k], symbols@[k]@, feed),
            decreases symbols@.len() - i,
        {
            let subscription = match BinanceSubscription::new(symbols[i]) {
                Ok(s) => s,
                Err(e) => {
                    proof {
                        assert(!symbol_spec(symbols@[i as int]@));
                        assert(e == symbol_error(symbols@[i as int]@));
                        assert forall|j: int| 0 <= j < symbols@.len() && !symbol_spec((#[trigger] symbols@[j])@)
                            && (forall|k: int| 0 <= k < j ==> symbol_spec(symbols@[k]@)) implies j == i by {
                            if j < i {
                            } else if j > i {
                                assert(symbol_spec(symbols@[i as int]@));
                            }
                        }
                    }
                    return Err(MarketStreamError::InvalidSubscription(e));
                },
            };
            let subscription = match feed {
                BinanceMarketFeed::BookTicker => subscription.book_ticker_only(),
                BinanceMarketFeed::ReferenceAndTrades => subscription.market_reference_and_trades(),
            };
            subscriptions.push(subscription);
            i = i + 1;
        }
        let ghost subs = subscriptions@;
        let config = BinanceMarketConfig {
            market_ws_base,
            subscriptions,
            price_scale,
            quantity_scale,
            max_frame_bytes,
            connect_timeout_ms,
            read_timeout_ms,
            http_proxy,
            reconnect,
        };
        let r = config.into_shards(max_subscriptions_per_shard);
        proof {
            assert(transport(config) == (
                market_ws_base,
                price_scale,
                quantity_scale,
                max_frame_bytes,
                connect_timeout_ms,
                read_timeout_ms,
                http_proxy,
                reconnect,
            ));
        }
        r
    }
}

/// What a market stream does with one data frame.
#[derive(Debug, Clone, Copy, PartialEq, Eq, Structural)]
pub enum FrameStep {
    /// The frame exceeds the configured limit; the stream fails.
    TooLarge,
    /// A text frame answering a subscription request; it is skipped.
    Acknowledgement,
    /// A market event, to be parsed and delivered.
    Event,
}

/// `needle` occurs in `haystack` at some position.
pub open spec fn occurs_in(haystack: Seq<u8>, needle: Seq<u8>) -> bool {
    exists|i: int| 0 <= i && i + needle.len() <= haystack.len() && #[trigger] haystack.subrange(i, i + needle.len()) == needle
}

fn bytes_occur(haystack: &[u8], needle: &[u8]) -> (r: bool)
    ensures
        r == occurs_in(haystack@, needle@),
{
    if needle.len() == 0 {
        assert(haystack@.subrange(0, 0int + needle@.len()) =~= needle@);
        return true;
    }
    let h = haystack.len();
    let mut i: usize = 0;
    while i <= haystack.len() && haystack.len() - i >= needle.len()
        invariant
            needle@.len() >= 1,
            h == haystack@.len(),
            i <= haystack@.len(),
            forall|k: int| 0 <= k < i ==> #[trigger] haystack@.subrange(k, k + needle@.len()) != needle@,
        decreases haystack@.len() - i,
    {
        let mut j: usize = 0;
        let mut same = true;
        while j < needle.len()
            invariant
                i + needle@.len() <= haystack@.len(),
                h == haystack@.len(),
                j <= needle@.len(),
                same == (forall|t: int| 0 <= t < j ==> haystack@[i + t] == needle@[t]),
            decreases needle@.len() - j,
        {
            if haystack[i + j] != needle[j] {
                same = false;
            }
            j = j + 1;
        }
        if same {
            assert(haystack@.subrange(i as int, i + needle@.len()) =~= needle@);
            return true;
        }
        proof {
            let t = choose|t: int| 0 <= t < needle@.len() && haystack@[i + t] != needle@[t];
            assert(haystack@.subrange(i as int, i + needle@.len())[t] != needle@[t]);
        }
        i = i + 1;
    }
    proof {
        assert forall|k: int| 0 <= k && k + needle@.len() <= haystack@.len() implies #[trigger] haystack@.subrange(
            k,
            k + needle@.len(),
        ) != needle@ by {
            assert(k < i);
        }
    }
    false
}

/// Whether a frame of this text is an acknowledgement: it mentions both an
/// `"id"` and a `"result"` key.
pub open spec fn acknowledgement(payload: Seq<u8>) -> bool {
    occurs_in(payload, utf8("\"id\""@)) && occurs_in(payload, utf8("\"result\""@))
}

/// Classifies one data frame: over the limit it fails the stream; a text
/// frame naming both `"id"` and `"result"` answers a subscription and is
/// skipped; anything else is a market event.
pub fn classify_frame(payload: &[u8], is_text: bool, max_frame_bytes: usize) -> (r: FrameStep)
    ensures
        payload@.len() > max_frame_bytes ==> r == FrameStep::TooLarge,
        payload@.len() <= max_frame_bytes && is_text && acknowledgement(payload@) ==> r == FrameStep::Acknowledgement,
        payload@.len() <= max_frame_bytes && !(is_text && acknowledgement(payload@)) ==> r == FrameStep::Event,
{
    if payload.len() > max_frame_bytes {
        return FrameStep::TooLarge;
    }
    if is_text && bytes_occur(payload, "\"id\"".as_bytes()) && bytes_occur(payload, "\"result\"".as_bytes()) {
        FrameStep::Acknowledgement
    } else {
        FrameStep::Event
    }
}

/// One outcome of waiting for the next frame on a market stream.
#[derive(Debug, Clone, Copy, PartialEq, Eq, Structural)]
pub enum StreamRead {
    /// Nothing arrived within the read timeout.
    TimedOut,
    /// The stream ended.
    Ended,
    /// Reading failed.
    Failed,
    /// A text frame.
    Text,
    /// A binary frame.
    Binary,
    /// A ping, with its payload.
    Ping,
    /// The peer closed the connection.
    Close,
    /// Any other frame (a pong, a raw frame).
    Other,
}

/// What the stream does with a read.
#[derive(Debug, Clone, Copy, PartialEq, Eq, Structural)]
pub enum StreamStep {
    /// Parse the payload and deliver the market event.
    Deliver,
    /// Read the next frame.
    Skip,
    /// Answer the ping with a pong of the same payload.
    Pong,
    /// The connection is gone; ask the connection supervisor what next.
    Disconnected,
    /// The stream fails: a frame exceeds the limit.
    FailTooLarge,
}

pub open spec fn stream_read_spec(read: StreamRead, payload: Seq<u8>, max_frame_bytes: usize) -> StreamStep {
    match read {
        StreamRead::TimedOut | StreamRead::Ended | StreamRead::Failed | StreamRead::Close => StreamStep::Disconnected,
        StreamRead::Text | StreamRead::Binary => if payload.len() > max_frame_bytes {
            StreamStep::FailTooLarge
        } else if read == StreamRead::Text && acknowledgement(payload) {
            StreamStep::Skip
        } else {
            StreamStep::Deliver
        },
        StreamRead::Ping => StreamStep::Pong,
        StreamRead::Other => StreamStep::Skip,
    }
}

/// A timeout, the end of the stream, a read error or a close drop the
/// connection; a data frame over the limit fails the stream; a text frame
/// answering a subscription is skipped; other data frames are delivered;
/// pings are answered; anything else is ignored.
pub fn stream_read_step(read: StreamRead, payload: &[u8], max_frame_bytes: usize) -> (r: StreamStep)
    ensures
        r == stream_read_spec(read, payload@, max_frame_bytes),
{
    match read {
        StreamRead::TimedOut | StreamRead::Ended | StreamRead::Failed | StreamRead::Close => StreamStep::Disconnected,
        StreamRead::Text | StreamRead::Binary => {
            let is_text = match read {
                StreamRead::Text => true,
                _ => false,
            };
            match classify_frame(payload, is_text, max_frame_bytes) {
                FrameStep::TooLarge => StreamStep::FailTooLarge,
                FrameStep::Acknowledgement => StreamStep::Skip,
                FrameStep::Event => StreamStep::Deliver,
            }
        },
        StreamRead::Ping => StreamStep::Pong,
        StreamRead::Other => StreamStep::Skip,
    }
}

/// The connection supervisor's answer to a dropped or failed connection.
#[derive(Debug, Clone, Copy, PartialEq, Eq, Structural)]
pub enum SupervisorAnswer {
    /// Reconnect after the given delay.
    Reconnect { delay_ms: u64 },
    /// Give up.
    GiveUp,
}

/// What the stream does after losing or failing to open its connection.
#[derive(Debug, Clone, Copy, PartialEq, Eq, Structural)]
pub enum StreamAfterDrop {
    /// Wait, then connect again.
    ReconnectAfter { delay_ms: u64 },
    /// End normally: an established stream was given up.
    End,
    /// End with the connection error: a connection that could not be
    /// opened was given up.
    EndWithConnectError,
}

pub open spec fn after_drop_spec(was_connected: bool, answer: SupervisorAnswer) -> StreamAfterDrop {
    match answer {
        SupervisorAnswer::Reconnect { delay_ms } => StreamAfterDrop::ReconnectAfter { delay_ms },
        SupervisorAnswer::GiveUp => if was_connected {
            StreamAfterDrop::End
        } else {
            StreamAfterDrop::EndWithConnectError
        },
    }
}

/// The supervisor's reconnect answer is followed; when it gives up, a
/// stream that had been open ends normally and one that never opened ends
/// with its connection error.
pub fn after_drop(was_connected: bool, answer: SupervisorAnswer) -> (r: StreamAfterDrop)
    ensures
        r == after_drop_spec(was_connected, answer),
{
    match answer {
        SupervisorAnswer::Reconnect { delay_ms } => StreamAfterDrop::ReconnectAfter { delay_ms },
        SupervisorAnswer::GiveUp => if was_connected {
            StreamAfterDrop::End
        } else {
            StreamAfterDrop::EndWithConnectError
        },
    }
}

} // verus!
