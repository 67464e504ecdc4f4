//! Binance public symbol metadata, book ticker and premium index snapshots,
//! and the data-quality rule a snapshot meets before a live decision uses it.
use crate::decimal::{
    is_positive_decimal, is_signed_decimal, lemma_pow10_fits_i128, parse_ticks, parse_ticks_spec, positive_decimal_spec,
    pow10, pow10_u128, signed_decimal_spec,
};
use crate::market::freshness::{freshness_spec, FreshnessClass, FreshnessPolicy, FreshnessState};
use crate::num::{div_trunc, max_int, min_int, rem_trunc_i64, sat_add_i64, sat_i64, trunc_div, trunc_rem};
use crate::text::{owned, str_eq, trim, trim_chars};
use vstd::prelude::*;

verus! {

#[derive(Debug, Clone, PartialEq, Eq)]
pub enum PublicMetadataError {
    InvalidProxy,
    ClientBuild,
    Transport,
    HttpStatus { status: u16 },
    Decode,
    InvalidIndexPriceKline,
    SymbolNotFound(String),
    SymbolMismatch,
    NotTradingTradFiPerpetual,
    MissingExchangeFilter(&'static str),
    InvalidExchangeFilter { filter: &'static str, field: &'static str },
    IncompleteQuote,
    NonPositiveMarketValue,
    InvalidFundingRate,
    ExpiredFundingTime,
    StaleSnapshot,
}

#[derive(Debug, Clone, PartialEq, Eq)]
pub struct BinanceSymbolFilter {
    pub filter_type: String,
    pub min_price: Option<String>,
    pub max_price: Option<String>,
    pub tick_size: Option<String>,
    pub min_quantity: Option<String>,
    pub max_quantity: Option<String>,
    pub step_size: Option<String>,
    pub notional: Option<String>,
    pub multiplier_up: Option<String>,
    pub multiplier_down: Option<String>,
}

#[derive(Debug, Clone, PartialEq, Eq)]
pub struct BinanceExecutionFilters {
    pub min_price: String,
    pub max_price: String,
    pub price_tick: String,
    pub min_quantity: String,
    pub max_quantity: String,
    pub quantity_step: String,
    pub min_notional: String,
    pub multiplier_up: String,
    pub multiplier_down: String,
}

#[derive(Debug, Clone, PartialEq, Eq)]
pub struct BinanceSymbolMetadata {
    pub symbol: String,
    pub status: String,
    pub contract_type: String,
    pub underlying_type: Option<String>,
    pub base_asset: String,
    pub quote_asset: String,
    pub margin_asset: String,
    pub price_precision: u32,
    pub quantity_precision: u32,
    pub onboard_date_ms: u64,
    pub delivery_date_ms: u64,
    pub filters: Vec<BinanceSymbolFilter>,
}

#[derive(Debug, Clone, PartialEq, Eq)]
pub struct BinanceBookTickerSnapshot {
    pub symbol: String,
    pub bid_price: String,
    pub bid_quantity: String,
    pub ask_price: String,
    pub ask_quantity: String,
}

#[derive(Debug, Clone, PartialEq, Eq)]
pub struct BinancePremiumIndexSnapshot {
    pub symbol: String,
    pub mark_price: String,
    pub index_price: String,
    pub last_funding_rate: String,
    pub next_funding_time_ms: u64,
    /// Binance exchange-side observation time, not local receipt time.
    pub time: u64,
}

#[derive(Debug, Clone, PartialEq, Eq)]
pub struct BinanceSymbolSnapshot {
    pub metadata: BinanceSymbolMetadata,
    pub book_ticker: BinanceBookTickerSnapshot,
    pub premium_index: BinancePremiumIndexSnapshot,
    pub observed_at_ms: u64,
}

pub const PUBLIC_SNAPSHOT_MAX_AGE_MS: u64 = 5_000;

pub open spec fn public_snapshot_policy_spec() -> FreshnessPolicy {
    FreshnessPolicy { class: FreshnessClass::Quote, fresh_within_ms: 1_000, max_age_ms: PUBLIC_SNAPSHOT_MAX_AGE_MS }
}

/// Public snapshots are quotes: fresh for a second, usable for five.
pub fn public_snapshot_policy() -> (r: FreshnessPolicy)
    ensures
        r == public_snapshot_policy_spec(),
{
    FreshnessPolicy::new(FreshnessClass::Quote, 1_000, PUBLIC_SNAPSHOT_MAX_AGE_MS)
}

/// The names of the four filters a passive order needs, by index.
pub open spec fn filter_type_name(fi: int) -> Seq<char> {
    if fi == 0 {
        "PRICE_FILTER"@
    } else if fi == 1 {
        "LOT_SIZE"@
    } else if fi == 2 {
        "MIN_NOTIONAL"@
    } else {
        "PERCENT_PRICE"@
    }
}

/// The filter each of the nine required fields belongs to.
pub open spec fn field_filter(k: int) -> int {
    if k < 3 {
        0
    } else if k < 6 {
        1
    } else if k == 6 {
        2
    } else {
        3
    }
}

pub open spec fn field_name(k: int) -> Seq<char> {
    if k == 0 {
        "minPrice"@
    } else if k == 1 {
        "maxPrice"@
    } else if k == 2 {
        "tickSize"@
    } else if k == 3 {
        "minQty"@
    } else if k == 4 {
        "maxQty"@
    } else if k == 5 {
        "stepSize"@
    } else if k == 6 {
        "notional"@
    } else if k == 7 {
        "multiplierUp"@
    } else {
        "multiplierDown"@
    }
}

pub open spec fn field_of(f: BinanceSymbolFilter, k: int) -> Option<String> {
    if k == 0 {
        f.min_price
    } else if k == 1 {
        f.max_price
    } else if k == 2 {
        f.tick_size
    } else if k == 3 {
        f.min_quantity
    } else if k == 4 {
        f.max_quantity
    } else if k == 5 {
        f.step_size
    } else if k == 6 {
        f.notional
    } else if k == 7 {
        f.multiplier_up
    } else {
        f.multiplier_down
    }
}

/// The first filter of the given type.
pub open spec fn find_filter(filters: Seq<BinanceSymbolFilter>, filter_type: Seq<char>) -> Option<BinanceSymbolFilter>
    decreases filters.len(),
{
    if filters.len() == 0 {
        None
    } else if filters[0].filter_type@ == filter_type {
        Some(filters[0])
    } else {
        find_filter(filters.drop_first(), filter_type)
    }
}

pub open spec fn required(m: BinanceSymbolMetadata, fi: int) -> BinanceSymbolFilter {
    find_filter(m.filters@, filter_type_name(fi)).get_Some_0()
}

/// The first required field, from `k` on, that is absent.
pub open spec fn first_absent_field(m: BinanceSymbolMetadata, k: int) -> Option<int>
    decreases 9 - k,
{
    if k >= 9 || k < 0 {
        None
    } else if field_of(required(m, field_filter(k)), k) is None {
        Some(k)
    } else {
        first_absent_field(m, k + 1)
    }
}

/// The first required field, from `k` on, that is not a positive decimal.
pub open spec fn first_nonpositive_field(m: BinanceSymbolMetadata, k: int) -> Option<int>
    decreases 9 - k,
{
    if k >= 9 || k < 0 {
        None
    } else if !positive_decimal_spec(field_of(required(m, field_filter(k)), k).get_Some_0()@) {
        Some(k)
    } else {
        first_nonpositive_field(m, k + 1)
    }
}

/// `value` is the text of required field `k`.
pub open spec fn field_matches(m: BinanceSymbolMetadata, k: int, value: String) -> bool {
    field_of(required(m, field_filter(k)), k) is Some && value@ == field_of(required(m, field_filter(k)), k).get_Some_0()@
}

/// What is wrong with the execution filters, first problem first: a missing
/// filter (by index), or an absent or non-positive field (by index).
pub open spec fn filters_problem(m: BinanceSymbolMetadata) -> Option<(bool, int)> {
    if find_filter(m.filters@, filter_type_name(0)) is None {
        Some((true, 0))
    } else if find_filter(m.filters@, filter_type_name(1)) is None {
        Some((true, 1))
    } else if find_filter(m.filters@, filter_type_name(2)) is None {
        Some((true, 2))
    } else if find_filter(m.filters@, filter_type_name(3)) is None {
        Some((true, 3))
    } else {
        match first_absent_field(m, 0) {
            Some(k) => Some((false, k)),
            None => match first_nonpositive_field(m, 0) {
                Some(k) => Some((false, k)),
                None => None,
            },
        }
    }
}

/// `e` is the error reporting filter problem `p`.
pub open spec fn filter_error_is(e: PublicMetadataError, p: (bool, int)) -> bool {
    if p.0 {
        e matches PublicMetadataError::MissingExchangeFilter(name) && name@ == filter_type_name(p.1)
    } else {
        e matches PublicMetadataError::InvalidExchangeFilter { filter, field } && filter@ == filter_type_name(
            field_filter(p.1),
        ) && field@ == field_name(p.1)
    }
}

fn filter_type_text(fi: usize) -> (r: &'static str)
    requires
        fi < 4,
    ensures
        r@ == filter_type_name(fi as int),
{
    if fi == 0 {
        "PRICE_FILTER"
    } else if fi == 1 {
        "LOT_SIZE"
    } else if fi == 2 {
        "MIN_NOTIONAL"
    } else {
        "PERCENT_PRICE"
    }
}

fn field_text(k: usize) -> (r: &'static str)
    requires
        k < 9,
    ensures
        r@ == field_name(k as int),
{
    if k == 0 {
        "minPrice"
    } else if k == 1 {
        "maxPrice"
    } else if k == 2 {
        "tickSize"
    } else if k == 3 {
        "minQty"
    } else if k == 4 {
        "maxQty"
    } else if k == 5 {
        "stepSize"
    } else if k == 6 {
        "notional"
    } else if k == 7 {
        "multiplierUp"
    } else {
        "multiplierDown"
    }
}

fn field_filter_exec(k: usize) -> (r: usize)
    requires
        k < 9,
    ensures
        r == field_filter(k as int),
        r < 4,
{
    if k < 3 {
        0
    } else if k < 6 {
        1
    } else if k == 6 {
        2
    } else {
        3
    }
}

fn field_ref(f: &BinanceSymbolFilter, k: usize) -> (r: &Option<String>)
    ensures
        *r == field_of(*f, k as int),
{
    if k == 0 {
        &f.min_price
    } else if k == 1 {
        &f.max_price
    } else if k == 2 {
        &f.tick_size
    } else if k == 3 {
        &f.min_quantity
    } else if k == 4 {
        &f.max_quantity
    } else if k == 5 {
        &f.step_size
    } else if k == 6 {
        &f.notional
    } else if k == 7 {
        &f.multiplier_up
    } else {
        &f.multiplier_down
    }
}

fn find_filter_exec<'a>(filters: &'a Vec<BinanceSymbolFilter>, filter_type: &str) -> (r: Option<&'a BinanceSymbolFilter>)
    ensures
        match find_filter(filters@, filter_type@) {
            None => r is None,
            Some(f) => r matches Some(x) && *x == f,
        },
{
    let mut i: usize = 0;
    assert(filters@.skip(0) =~= filters@);
    while i < filters.len()
        invariant
            i <= filters@.len(),
            find_filter(filters@, filter_type@) == find_filter(filters@.skip(i as int), filter_type@),
        decreases filters@.len() - i,
    {
        proof {
            assert(filters@.skip(i as int)[0] == filters@[i as int]);
            assert(filters@.skip(i as int).drop_first() =~= filters@.skip(i + 1));
        }
        if str_eq(filters[i].filter_type.as_str(), filter_type) {
            return Some(&filters[i]);
        }
        i = i + 1;
    }
    None
}

impl BinanceSymbolMetadata {
    pub open spec fn trading_tradifi_perpetual(&self) -> bool {
        self.status@ == "TRADING"@ && self.contract_type@ == "TRADIFI_PERPETUAL"@
    }

    pub fn is_trading_tradifi_perpetual(&self) -> (r: bool)
        ensures
            r == self.trading_tradifi_perpetual(),
    {
        str_eq(self.status.as_str(), "TRADING") && str_eq(self.contract_type.as_str(), "TRADIFI_PERPETUAL")
    }

    /// Extracts the filters required for a passive limit order. The
    /// exchange's precision fields are display hints; these filters are the
    /// authoritative order-admission contract.
    pub fn execution_filters(&self) -> (r: Result<BinanceExecutionFilters, PublicMetadataError>)
        ensures
            match filters_problem(*self) {
                Some(p) => r matches Err(e) && filter_error_is(e, p),
                None => r matches Ok(v) && {
                    &&& v.min_price@ == field_of(required(*self, 0), 0).get_Some_0()@
                    &&& v.max_price@ == field_of(required(*self, 0), 1).get_Some_0()@
                    &&& v.price_tick@ == field_of(required(*self, 0), 2).get_Some_0()@
                    &&& v.min_quantity@ == field_of(required(*self, 1), 3).get_Some_0()@
                    &&& v.max_quantity@ == field_of(required(*self, 1), 4).get_Some_0()@
                    &&& v.quantity_step@ == field_of(required(*self, 1), 5).get_Some_0()@
                    &&& v.min_notional@ == field_of(required(*self, 2), 6).get_Some_0()@
                    &&& v.multiplier_up@ == field_of(required(*self, 3), 7).get_Some_0()@
                    &&& v.multiplier_down@ == field_of(required(*self, 3), 8).get_Some_0()@
                },
            },
    {
        let mut found: Vec<&BinanceSymbolFilter> = Vec::new();
        let mut fi: usize = 0;
        while fi < 4
            invariant
                fi <= 4,
                found@.len() == fi,
                forall|j: int| 0 <= j < fi ==> find_filter(self.filters@, filter_type_name(j)) == Some(*(#[trigger] found@[j])),
                forall|j: int| 0 <= j < fi ==> find_filter(self.filters@, filter_type_name(j)) is Some,
            decreases 4 - fi,
        {
            match find_filter_exec(&self.filters, filter_type_text(fi)) {
                None => {
                    return Err(PublicMetadataError::MissingExchangeFilter(filter_type_text(fi)));
                },
                Some(f) => {
                    found.push(f);
                },
            }
            fi = fi + 1;
        }
        let mut values: Vec<String> = Vec::new();
        let mut k: usize = 0;
        while k < 9
            invariant
                k <= 9,
                found@.len() == 4,
                forall|j: int| 0 <= j < 4 ==> find_filter(self.filters@, filter_type_name(j)) == Some(*(#[trigger] found@[j])),
                forall|j: int| 0 <= j < 4 ==> find_filter(self.filters@, filter_type_name(j)) is Some,
                first_absent_field(*self, 0) == first_absent_field(*self, k as int),
                values@.len() == k,
                forall|j: int| 0 <= j < k ==> #[trigger] field_matches(*self, j, values@[j]),
            decreases 9 - k,
        {
            let fi = field_filter_exec(k);
            assert(find_filter(self.filters@, filter_type_name(fi as int)) == Some(*found@[fi as int]));
            match field_ref(found[fi], k) {
                None => {
                    return Err(
                        PublicMetadataError::InvalidExchangeFilter { filter: filter_type_text(fi), field: field_text(k) },
                    );
                },
                Some(v) => {
                    let ghost old_vals = values@;
                    values.push(owned(v.as_str()));
                    proof {
                        assert(find_filter(self.filters@, filter_type_name(fi as int)) == Some(*found@[fi as int]));
                        assert(required(*self, field_filter(k as int)) == *found@[fi as int]);
                        assert(values@[k as int]@ == v@);
                        assert(field_matches(*self, k as int, values@[k as int]));
                        assert forall|j: int| 0 <= j < k implies #[trigger] field_matches(*self, j, values@[j]) by {
                            assert(values@[j] == old_vals[j]);
                            assert(field_matches(*self, j, old_vals[j]));
                        }
                    }
                },
            }
            k = k + 1;
        }
        let mut k: usize = 0;
        while k < 9
            invariant
                k <= 9,
                values@.len() == 9,
                forall|j: int| 0 <= j < 4 ==> find_filter(self.filters@, filter_type_name(j)) is Some,
                first_absent_field(*self, 0) is None,
                first_nonpositive_field(*self, 0) == first_nonpositive_field(*self, k as int),
                forall|j: int| 0 <= j < 9 ==> #[trigger] field_matches(*self, j, values@[j]),
            decreases 9 - k,
        {
            assert(field_matches(*self, k as int, values@[k as int]));
            assert(find_filter(self.filters@, filter_type_name(0)) is Some);
            assert(find_filter(self.filters@, filter_type_name(1)) is Some);
            assert(find_filter(self.filters@, filter_type_name(2)) is Some);
            assert(find_filter(self.filters@, filter_type_name(3)) is Some);
            if !is_positive_decimal(values[k].as_str()) {
                let fi = field_filter_exec(k);
                return Err(PublicMetadataError::InvalidExchangeFilter { filter: filter_type_text(fi), field: field_text(k) });
            }
            k = k + 1;
        }
        proof {
            assert(find_filter(self.filters@, filter_type_name(0)) is Some);
            assert(find_filter(self.filters@, filter_type_name(1)) is Some);
            assert(find_filter(self.filters@, filter_type_name(2)) is Some);
            assert(find_filter(self.filters@, filter_type_name(3)) is Some);
            assert(field_matches(*self, 0, values@[0]));
            assert(field_matches(*self, 1, values@[1]));
            assert(field_matches(*self, 2, values@[2]));
            assert(field_matches(*self, 3, values@[3]));
            assert(field_matches(*self, 4, values@[4]));
            assert(field_matches(*self, 5, values@[5]));
            assert(field_matches(*self, 6, values@[6]));
            assert(field_matches(*self, 7, values@[7]));
            assert(field_matches(*self, 8, values@[8]));
        }
        Ok(
            BinanceExecutionFilters {
                min_price: owned(values[0].as_str()),
                max_price: owned(values[1].as_str()),
                price_tick: owned(values[2].as_str()),
                min_quantity: owned(values[3].as_str()),
                max_quantity: owned(values[4].as_str()),
                quantity_step: owned(values[5].as_str()),
                min_notional: owned(values[6].as_str()),
                multiplier_up: owned(values[7].as_str()),
                multiplier_down: owned(values[8].as_str()),
            },
        )
    }
}

impl BinanceBookTickerSnapshot {
    pub open spec fn two_sided(&self) -> bool {
        self.bid_price@.len() > 0 && self.ask_price@.len() > 0 && self.bid_quantity@.len() > 0
            && self.ask_quantity@.len() > 0
    }

    pub fn has_two_sided_quote(&self) -> (r: bool)
        ensures
            r == self.two_sided(),
    {
        !self.bid_price.as_str().is_empty() && !self.ask_price.as_str().is_empty()
            && !self.bid_quantity.as_str().is_empty() && !self.ask_quantity.as_str().is_empty()
    }
}

/// The snapshot's quote and index values are all positive decimals.
pub open spec fn market_values_positive(s: BinanceSymbolSnapshot) -> bool {
    &&& positive_decimal_spec(s.book_ticker.bid_price@)
    &&& positive_decimal_spec(s.book_ticker.ask_price@)
    &&& positive_decimal_spec(s.book_ticker.bid_quantity@)
    &&& positive_decimal_spec(s.book_ticker.ask_quantity@)
    &&& positive_decimal_spec(s.premium_index.mark_price@)
    &&& positive_decimal_spec(s.premium_index.index_price@)
}

pub open spec fn snapshot_stale(s: BinanceSymbolSnapshot, now_ms: u64) -> bool {
    s.observed_at_ms != 0 && (freshness_spec(public_snapshot_policy_spec(), s.observed_at_ms, now_ms)
        == FreshnessState::Expired || freshness_spec(public_snapshot_policy_spec(), s.observed_at_ms, now_ms)
        == FreshnessState::Invalid)
}

/// Whether `r` is what checking `s` at `now_ms` gives: staleness, symbol
/// agreement, a trading TradFi perpetual, complete execution filters, a
/// complete positive quote, a well-formed funding rate and a funding time
/// still ahead, in that order.
pub open spec fn runtime_result(s: BinanceSymbolSnapshot, now_ms: u64, r: Result<(), PublicMetadataError>) -> bool {
    if snapshot_stale(s, now_ms) {
        r == Err::<(), PublicMetadataError>(PublicMetadataError::StaleSnapshot)
    } else if s.metadata.symbol@ != s.book_ticker.symbol@ || s.metadata.symbol@ != s.premium_index.symbol@ {
        r == Err::<(), PublicMetadataError>(PublicMetadataError::SymbolMismatch)
    } else if !s.metadata.trading_tradifi_perpetual() {
        r == Err::<(), PublicMetadataError>(PublicMetadataError::NotTradingTradFiPerpetual)
    } else if filters_problem(s.metadata) is Some {
        r matches Err(e) && filter_error_is(e, filters_problem(s.metadata).get_Some_0())
    } else if !s.book_ticker.two_sided() || !market_values_positive(s) {
        r == Err::<(), PublicMetadataError>(
            if s.book_ticker.two_sided() {
                PublicMetadataError::NonPositiveMarketValue
            } else {
                PublicMetadataError::IncompleteQuote
            },
        )
    } else if !signed_decimal_spec(s.premium_index.last_funding_rate@) {
        r == Err::<(), PublicMetadataError>(PublicMetadataError::InvalidFundingRate)
    } else if s.premium_index.next_funding_time_ms != 0 && s.premium_index.next_funding_time_ms <= now_ms {
        r == Err::<(), PublicMetadataError>(PublicMetadataError::ExpiredFundingTime)
    } else {
        r is Ok
    }
}

impl BinanceSymbolSnapshot {
    /// Validates the public snapshot before it can enter a live decision
    /// path. This is a data-quality gate, not a profitability signal.
    pub fn validate_for_runtime(&self, now_ms: u64) -> (r: Result<(), PublicMetadataError>)
        ensures
            runtime_result(*self, now_ms, r),
    {
        if self.observed_at_ms != 0 {
            let state = public_snapshot_policy().validate(self.observed_at_ms, now_ms);
            if state == FreshnessState::Expired || state == FreshnessState::Invalid {
                return Err(PublicMetadataError::StaleSnapshot);
            }
        }
        if !str_eq(self.metadata.symbol.as_str(), self.book_ticker.symbol.as_str()) || !str_eq(
            self.metadata.symbol.as_str(),
            self.premium_index.symbol.as_str(),
        ) {
            return Err(PublicMetadataError::SymbolMismatch);
        }
        if !self.metadata.is_trading_tradifi_perpetual() {
            return Err(PublicMetadataError::NotTradingTradFiPerpetual);
        }
        match self.metadata.execution_filters() {
            Err(e) => {
                return Err(e);
            },
            Ok(_) => {},
        }
        if !self.book_ticker.has_two_sided_quote() || !is_positive_decimal(self.book_ticker.bid_price.as_str())
            || !is_positive_decimal(self.book_ticker.ask_price.as_str()) || !is_positive_decimal(
            self.book_ticker.bid_quantity.as_str(),
        ) || !is_positive_decimal(self.book_ticker.ask_quantity.as_str()) || !is_positive_decimal(
            self.premium_index.mark_price.as_str(),
        ) || !is_positive_decimal(self.premium_index.index_price.as_str()) {
            return Err(
                if self.book_ticker.has_two_sided_quote() {
                    PublicMetadataError::NonPositiveMarketValue
                } else {
                    PublicMetadataError::IncompleteQuote
                },
            );
        }
        if !is_signed_decimal(self.premium_index.last_funding_rate.as_str()) {
            return Err(PublicMetadataError::InvalidFundingRate);
        }
        if self.premium_index.next_funding_time_ms != 0 && self.premium_index.next_funding_time_ms <= now_ms {
            return Err(PublicMetadataError::ExpiredFundingTime);
        }
        Ok(())
    }
}

/// `r` is the outcome `s` describes, an error taken by the view of its text.
pub open spec fn outcome_matches<T>(r: Result<T, &'static str>, s: Result<T, Seq<char>>) -> bool {
    match r {
        Ok(a) => s == Ok::<T, Seq<char>>(a),
        Err(m) => s is Err && m@ == s->Err_0,
    }
}

/// The execution filters as integers: prices in ticks at the price scale,
/// quantities in units at the quantity scale, multipliers in parts per
/// million.
#[derive(Debug, Clone, Copy, PartialEq, Eq)]
pub struct BinanceScaledExecutionFilters {
    pub min_price_ticks: i64,
    pub max_price_ticks: i64,
    pub price_tick: i64,
    pub min_quantity_units: i64,
    pub max_quantity_units: i64,
    pub quantity_step: i64,
    pub min_notional_price_ticks: i64,
    pub multiplier_up_ppm: i64,
    pub multiplier_down_ppm: i64,
}

/// The text that scaled field `k` (in declaration order) is read from.
pub open spec fn scaled_source(f: BinanceExecutionFilters, k: int) -> Seq<char> {
    if k == 0 {
        f.min_price@
    } else if k == 1 {
        f.max_price@
    } else if k == 2 {
        f.price_tick@
    } else if k == 3 {
        f.min_quantity@
    } else if k == 4 {
        f.max_quantity@
    } else if k == 5 {
        f.quantity_step@
    } else if k == 6 {
        f.min_notional@
    } else if k == 7 {
        f.multiplier_up@
    } else {
        f.multiplier_down@
    }
}

/// Prices and the minimum notional are read at the price scale,
/// quantities at the quantity scale, multipliers at six decimals.
pub open spec fn scaled_scale(k: int, price_scale: nat, quantity_scale: nat) -> nat {
    if k < 3 || k == 6 {
        price_scale
    } else if k < 6 {
        quantity_scale
    } else {
        6
    }
}

/// The filter named when scaled field `k` cannot be read: the price parse
/// reports `PRICE_FILTER`, the quantity parse `LOT_SIZE`, the multiplier
/// parse `PERCENT_PRICE`.
pub open spec fn scaled_filter(k: int) -> int {
    if k < 3 || k == 6 {
        0
    } else if k < 6 {
        1
    } else {
        3
    }
}

pub open spec fn scaled_value(f: BinanceExecutionFilters, k: int, price_scale: nat, quantity_scale: nat) -> Option<i64> {
    parse_ticks_spec(scaled_source(f, k), scaled_scale(k, price_scale, quantity_scale))
}

/// The first scaled field, from `k` on, whose text does not parse.
pub open spec fn first_unscaled(f: BinanceExecutionFilters, price_scale: nat, quantity_scale: nat, k: int) -> Option<int>
    decreases 9 - k,
{
    if k >= 9 || k < 0 {
        None
    } else if scaled_value(f, k, price_scale, quantity_scale) is None {
        Some(k)
    } else {
        first_unscaled(f, price_scale, quantity_scale, k + 1)
    }
}

pub open spec fn scaled_field(s: BinanceScaledExecutionFilters, k: int) -> i64 {
    if k == 0 {
        s.min_price_ticks
    } else if k == 1 {
        s.max_price_ticks
    } else if k == 2 {
        s.price_tick
    } else if k == 3 {
        s.min_quantity_units
    } else if k == 4 {
        s.max_quantity_units
    } else if k == 5 {
        s.quantity_step
    } else if k == 6 {
        s.min_notional_price_ticks
    } else if k == 7 {
        s.multiplier_up_ppm
    } else {
        s.multiplier_down_ppm
    }
}

proof fn lemma_first_unscaled_at(f: BinanceExecutionFilters, ps: nat, qs: nat, i: int, k: int)
    requires
        0 <= i <= k < 9,
        forall|j: int| i <= j < k ==> (#[trigger] scaled_value(f, j, ps, qs)) is Some,
        scaled_value(f, k, ps, qs) is None,
    ensures
        first_unscaled(f, ps, qs, i) == Some(k),
    decreases k - i,
{
    if i < k {
        assert(scaled_value(f, i, ps, qs) is Some);
        lemma_first_unscaled_at(f, ps, qs, i + 1, k);
    }
}

proof fn lemma_none_unscaled(f: BinanceExecutionFilters, ps: nat, qs: nat, i: int)
    requires
        0 <= i <= 9,
        forall|j: int| i <= j < 9 ==> (#[trigger] scaled_value(f, j, ps, qs)) is Some,
    ensures
        first_unscaled(f, ps, qs, i) is None,
    decreases 9 - i,
{
    if i < 9 {
        assert(scaled_value(f, i, ps, qs) is Some);
        lemma_none_unscaled(f, ps, qs, i + 1);
    }
}

impl BinanceExecutionFilters {
    fn scaled_source_text(&self, k: usize) -> (r: &str)
        requires
            k < 9,
        ensures
            r@ == scaled_source(*self, k as int),
    {
        if k == 0 {
            self.min_price.as_str()
        } else if k == 1 {
            self.max_price.as_str()
        } else if k == 2 {
            self.price_tick.as_str()
        } else if k == 3 {
            self.min_quantity.as_str()
        } else if k == 4 {
            self.max_quantity.as_str()
        } else if k == 5 {
            self.quantity_step.as_str()
        } else if k == 6 {
            self.min_notional.as_str()
        } else if k == 7 {
            self.multiplier_up.as_str()
        } else {
            self.multiplier_down.as_str()
        }
    }

    /// Reads every filter value as an integer at its scale; the first value
    /// that does not parse is reported against its filter.
    pub fn scaled(&self, price_scale: u32, quantity_scale: u32) -> (r: Result<BinanceScaledExecutionFilters, PublicMetadataError>)
        ensures
            match r {
                Ok(s) => first_unscaled(*self, price_scale as nat, quantity_scale as nat, 0) is None && forall|k: int|
                    0 <= k < 9 ==> scaled_value(*self, k, price_scale as nat, quantity_scale as nat) == Some(
                        #[trigger] scaled_field(s, k),
                    ),
                Err(e) => first_unscaled(*self, price_scale as nat, quantity_scale as nat, 0) matches Some(k)
                    && e matches PublicMetadataError::InvalidExchangeFilter { filter, field } && filter@
                    == filter_type_name(scaled_filter(k)) && field@ == "scaled_value"@,
            },
    {
        let ghost ps = price_scale as nat;
        let ghost qs = quantity_scale as nat;
        let mut values: Vec<i64> = Vec::new();
        let mut k: usize = 0;
        while k < 9
            invariant
                k <= 9,
                ps == price_scale as nat,
                qs == quantity_scale as nat,
                values.len() == k,
                forall|j: int| 0 <= j < k ==> #[trigger] scaled_value(*self, j, ps, qs) == Some(values@[j]),
            decreases 9 - k,
        {
            let scale: u32 = if k < 3 || k == 6 {
                price_scale
            } else if k < 6 {
                quantity_scale
            } else {
                6
            };
            assert(scale as nat == scaled_scale(k as int, ps, qs));
            let parsed = parse_ticks(self.scaled_source_text(k), scale);
            assert(parsed == scaled_value(*self, k as int, ps, qs));
            match parsed {
                Some(v) => {
                    values.push(v);
                },
                None => {
                    proof {
                        lemma_first_unscaled_at(*self, ps, qs, 0, k as int);
                    }
                    let fi: usize = if k < 3 || k == 6 {
                        0
                    } else if k < 6 {
                        1
                    } else {
                        3
                    };
                    return Err(
                        PublicMetadataError::InvalidExchangeFilter { filter: filter_type_text(fi), field: "scaled_value" },
                    );
                },
            }
            k += 1;
        }
        proof {
            lemma_none_unscaled(*self, ps, qs, 0);
        }
        let s = BinanceScaledExecutionFilters {
            min_price_ticks: values[0],
            max_price_ticks: values[1],
            price_tick: values[2],
            min_quantity_units: values[3],
            max_quantity_units: values[4],
            quantity_step: values[5],
            min_notional_price_ticks: values[6],
            multiplier_up_ppm: values[7],
            multiplier_down_ppm: values[8],
        };
        assert forall|k: int| 0 <= k < 9 implies scaled_value(*self, k, ps, qs) == Some(#[trigger] scaled_field(s, k)) by {
            assert(scaled_value(*self, k, ps, qs) == Some(values@[k]));
        }
        Ok(s)
    }
}

/// The tick-aligned price for a request: exact prices stay, a passive buy
/// or an aggressive sell rounds down, a passive sell or an aggressive buy
/// rounds up (saturating at `i64::MAX`), and the result must lie within
/// the price filter.
pub open spec fn normalize_price_spec(f: BinanceScaledExecutionFilters, requested: int, is_buy: bool, post_only: bool) -> Result<i64, Seq<char>> {
    if requested <= 0 || f.price_tick <= 0 {
        Err("exchange_price_rule_invalid"@)
    } else {
        let remainder = requested % (f.price_tick as int);
        let price = if remainder == 0 {
            requested
        } else if post_only == is_buy {
            requested - remainder
        } else {
            sat_i64(requested + (f.price_tick - remainder))
        };
        if price < f.min_price_ticks {
            Err("exchange_price_below_min"@)
        } else if price > f.max_price_ticks {
            Err("exchange_price_above_max"@)
        } else {
            Ok(price as i64)
        }
    }
}

/// The admissible quantity for a request: capped by the caller's maximum
/// and `LOT_SIZE`, stepped down, floored at the minimum, raised to the
/// minimum notional at `price_ticks`, stepped up, floored again, and refused
/// when that exceeds either cap.
pub open spec fn normalize_quantity_spec(
    f: BinanceScaledExecutionFilters,
    requested: int,
    price_ticks: int,
    maximum: int,
    quantity_scale: nat,
) -> Result<i64, Seq<char>> {
    if requested <= 0 || price_ticks <= 0 || maximum <= 0 {
        Err("exchange_quantity_non_positive"@)
    } else if f.quantity_step <= 0 || f.min_quantity_units <= 0 {
        Err("exchange_quantity_rule_invalid"@)
    } else if pow10(quantity_scale) > i128::MAX {
        Err("exchange_quantity_scale"@)
    } else {
        let cap = min_int(maximum, f.max_quantity_units as int);
        let wanted = min_int(requested, cap);
        let stepped = wanted - trunc_rem(wanted, f.quantity_step as int);
        let floored = max_int(stepped, f.min_quantity_units as int);
        let notional = f.min_notional_price_ticks * pow10(quantity_scale);
        if notional < i128::MIN || notional > i128::MAX {
            Err("exchange_notional_overflow"@)
        } else {
            let numerator = min_int(notional + (price_ticks - 1), i128::MAX as int);
            let required = trunc_div(numerator, price_ticks);
            if required < i64::MIN || required > i64::MAX {
                Err("exchange_min_notional_overflow"@)
            } else {
                let raised = max_int(floored, required);
                let remainder = trunc_rem(raised, f.quantity_step as int);
                if remainder != 0 && raised + (f.quantity_step - remainder) > i64::MAX {
                    Err("exchange_quantity_overflow"@)
                } else {
                    let aligned = if remainder != 0 {
                        raised + (f.quantity_step - remainder)
                    } else {
                        raised
                    };
                    let result = max_int(aligned, f.min_quantity_units as int);
                    if result > cap || result > f.max_quantity_units {
                        Err("exchange_min_notional_exceeds_risk_capacity"@)
                    } else {
                        Ok(result as i64)
                    }
                }
            }
        }
    }
}

/// The exchange's admission rules for one limit order, first failure first.
pub open spec fn validate_order_spec(
    f: BinanceScaledExecutionFilters,
    price: int,
    quantity: int,
    mark: int,
    is_buy: bool,
    quantity_scale: nat,
) -> Result<(), Seq<char>> {
    if price <= 0 || quantity <= 0 || mark <= 0 {
        Err("exchange_order_non_positive"@)
    } else if price < f.min_price_ticks {
        Err("exchange_price_below_min"@)
    } else if price > f.max_price_ticks {
        Err("exchange_price_above_max"@)
    } else if f.price_tick <= 0 || price % (f.price_tick as int) != 0 {
        Err("exchange_price_tick"@)
    } else if quantity < f.min_quantity_units {
        Err("exchange_quantity_below_min"@)
    } else if quantity > f.max_quantity_units {
        Err("exchange_quantity_above_max"@)
    } else if f.quantity_step <= 0 || quantity % (f.quantity_step as int) != 0 {
        Err("exchange_quantity_step"@)
    } else if pow10(quantity_scale) > i128::MAX {
        Err("exchange_quantity_scale"@)
    } else if f.min_notional_price_ticks * pow10(quantity_scale) < i128::MIN || f.min_notional_price_ticks * pow10(
        quantity_scale,
    ) > i128::MAX {
        Err("exchange_notional_overflow"@)
    } else if price * quantity < f.min_notional_price_ticks * pow10(quantity_scale) {
        Err("exchange_min_notional"@)
    } else if (is_buy && price * 1_000_000 > mark * f.multiplier_up_ppm) || (!is_buy && price * 1_000_000 < mark
        * f.multiplier_down_ppm) {
        Err("exchange_percent_price"@)
    } else {
        Ok(())
    }
}

impl BinanceScaledExecutionFilters {
    /// Normalize a limit price to the exchange tick in a direction that
    /// keeps the order's execution intent intact: passive orders are
    /// rounded away from the opposite side, aggressive ones toward it.
    pub fn normalize_price(self, requested_price_ticks: i64, is_buy: bool, post_only: bool) -> (r: Result<i64, &'static str>)
        ensures
            outcome_matches(r, normalize_price_spec(self, requested_price_ticks as int, is_buy, post_only)),
    {
        if requested_price_ticks <= 0 || self.price_tick <= 0 {
            return Err("exchange_price_rule_invalid");
        }
        let remainder = requested_price_ticks % self.price_tick;
        let price = if remainder == 0 {
            requested_price_ticks
        } else if post_only == is_buy {
            requested_price_ticks - remainder
        } else {
            sat_add_i64(requested_price_ticks, self.price_tick - remainder)
        };
        if price < self.min_price_ticks {
            return Err("exchange_price_below_min");
        }
        if price > self.max_price_ticks {
            return Err("exchange_price_above_max");
        }
        Ok(price)
    }

    /// The exchange-admissible quantity closest to the request without
    /// exceeding the caller's risk capacity; a quantity below the minimum
    /// notional is raised only when the capacity allows it.
    pub fn normalize_quantity(self, requested_quantity: i64, price_ticks: i64, maximum_quantity: i64, quantity_scale: u32) -> (r: Result<i64, &'static str>)
        ensures
            outcome_matches(
                r,
                normalize_quantity_spec(
                    self,
                    requested_quantity as int,
                    price_ticks as int,
                    maximum_quantity as int,
                    quantity_scale as nat,
                ),
            ),
    {
        if requested_quantity <= 0 || price_ticks <= 0 || maximum_quantity <= 0 {
            return Err("exchange_quantity_non_positive");
        }
        let cap = if maximum_quantity <= self.max_quantity_units {
            maximum_quantity
        } else {
            self.max_quantity_units
        };
        if self.quantity_step <= 0 || self.min_quantity_units <= 0 {
            return Err("exchange_quantity_rule_invalid");
        }
        let mut quantity = if requested_quantity <= cap {
            requested_quantity
        } else {
            cap
        };
        quantity = quantity - rem_trunc_i64(quantity, self.quantity_step);
        if quantity < self.min_quantity_units {
            quantity = self.min_quantity_units;
        }
        proof {
            lemma_pow10_fits_i128(quantity_scale as nat);
        }
        if quantity_scale > 38 {
            return Err("exchange_quantity_scale");
        }
        let factor = pow10_u128(quantity_scale) as i128;
        let notional = match (self.min_notional_price_ticks as i128).checked_mul(factor) {
            Some(v) => v,
            None => {
                return Err("exchange_notional_overflow");
            },
        };
        let step_up = (price_ticks as i128) - 1;
        let numerator = if notional > i128::MAX - step_up {
            i128::MAX
        } else {
            notional + step_up
        };
        let required = div_trunc(numerator, price_ticks as i128);
        if required < i64::MIN as i128 || required > i64::MAX as i128 {
            return Err("exchange_min_notional_overflow");
        }
        if quantity < required as i64 {
            quantity = required as i64;
        }
        let remainder = rem_trunc_i64(quantity, self.quantity_step);
        if remainder != 0 {
            let lift = self.quantity_step - remainder;
            if quantity > i64::MAX - lift {
                return Err("exchange_quantity_overflow");
            }
            quantity = quantity + lift;
        }
        if quantity < self.min_quantity_units {
            quantity = self.min_quantity_units;
        }
        if quantity > cap || quantity > self.max_quantity_units {
            return Err("exchange_min_notional_exceeds_risk_capacity");
        }
        Ok(quantity)
    }

    /// Checks one limit order against every exchange filter.
    pub fn validate_order(self, price_ticks: i64, quantity_units: i64, mark_price_ticks: i64, is_buy: bool, quantity_scale: u32) -> (r: Result<(), &'static str>)
        ensures
            outcome_matches(
                r,
                validate_order_spec(
                    self,
                    price_ticks as int,
                    quantity_units as int,
                    mark_price_ticks as int,
                    is_buy,
                    quantity_scale as nat,
                ),
            ),
    {
        if price_ticks <= 0 || quantity_units <= 0 || mark_price_ticks <= 0 {
            return Err("exchange_order_non_positive");
        }
        if price_ticks < self.min_price_ticks {
            return Err("exchange_price_below_min");
        }
        if price_ticks > self.max_price_ticks {
            return Err("exchange_price_above_max");
        }
        if self.price_tick <= 0 || price_ticks % self.price_tick != 0 {
            return Err("exchange_price_tick");
        }
        if quantity_units < self.min_quantity_units {
            return Err("exchange_quantity_below_min");
        }
        if quantity_units > self.max_quantity_units {
            return Err("exchange_quantity_above_max");
        }
        if self.quantity_step <= 0 || quantity_units % self.quantity_step != 0 {
            return Err("exchange_quantity_step");
        }
        proof {
            lemma_pow10_fits_i128(quantity_scale as nat);
        }
        if quantity_scale > 38 {
            return Err("exchange_quantity_scale");
        }
        let factor = pow10_u128(quantity_scale) as i128;
        assert(0 < (price_ticks as int) * (quantity_units as int) <= 0x4000_0000_0000_0000_0000_0000_0000_0000) by (nonlinear_arith)
            requires
                0 < price_ticks <= i64::MAX,
                0 < quantity_units <= i64::MAX,
        ;
        let notional = (price_ticks as i128) * (quantity_units as i128);
        let minimum = match (self.min_notional_price_ticks as i128).checked_mul(factor) {
            Some(v) => v,
            None => {
                return Err("exchange_notional_overflow");
            },
        };
        if notional < minimum {
            return Err("exchange_min_notional");
        }
        let price_factor = (price_ticks as i128) * 1_000_000;
        let multiplier = if is_buy {
            self.multiplier_up_ppm
        } else {
            self.multiplier_down_ppm
        };
        assert(-0x4000_0000_0000_0000_0000_0000_0000_0000 <= (mark_price_ticks as int) * (multiplier as int)
            <= 0x4000_0000_0000_0000_0000_0000_0000_0000) by (nonlinear_arith)
            requires
                0 < mark_price_ticks <= i64::MAX,
                i64::MIN <= multiplier <= i64::MAX,
        ;
        let mark_limit = (mark_price_ticks as i128) * (multiplier as i128);
        if (is_buy && price_factor > mark_limit) || (!is_buy && price_factor < mark_limit) {
            return Err("exchange_percent_price");
        }
        Ok(())
    }
}

/// A normalized price lies on the tick and within the price filter, and
/// moves less than one tick in the direction the order's intent allows:
/// down for a passive buy or an aggressive sell, up otherwise (where the
/// step up does not reach past `i64::MAX`).
pub proof fn law_normalized_price_keeps_intent(
    f: BinanceScaledExecutionFilters,
    requested: i64,
    is_buy: bool,
    post_only: bool,
)
    requires
        normalize_price_spec(f, requested as int, is_buy, post_only) is Ok,
        requested + f.price_tick <= i64::MAX,
    ensures
        ({
            let p = normalize_price_spec(f, requested as int, is_buy, post_only)->Ok_0 as int;
            &&& p % (f.price_tick as int) == 0
            &&& f.min_price_ticks <= p <= f.max_price_ticks
            &&& post_only == is_buy ==> requested - f.price_tick < p <= requested
            &&& post_only != is_buy ==> requested <= p < requested + f.price_tick
        }),
{
    let t = f.price_tick as int;
    let q = (requested as int) / t;
    let rem = (requested as int) % t;
    vstd::arithmetic::div_mod::lemma_fundamental_div_mod(requested as int, t);
    vstd::arithmetic::div_mod::lemma_mod_pos_bound(requested as int, t);
    vstd::arithmetic::div_mod::lemma_mod_multiples_basic(q, t);
    vstd::arithmetic::div_mod::lemma_mod_multiples_basic(q + 1, t);
    assert(t * q == q * t) by (nonlinear_arith);
    assert(t * (q + 1) == (q + 1) * t) by (nonlinear_arith);
    assert(t * (q + 1) == t * q + t) by (nonlinear_arith);
}

/// A quantity that normalization accepts respects both caps and the
/// quantity minimum, and meets the minimum notional at the given price.
pub proof fn law_normalized_quantity_admissible(
    f: BinanceScaledExecutionFilters,
    requested: i64,
    price_ticks: i64,
    maximum: i64,
    quantity_scale: nat,
)
    requires
        normalize_quantity_spec(f, requested as int, price_ticks as int, maximum as int, quantity_scale) is Ok,
    ensures
        ({
            let q = normalize_quantity_spec(
                f,
                requested as int,
                price_ticks as int,
                maximum as int,
                quantity_scale,
            )->Ok_0 as int;
            &&& f.min_quantity_units <= q
            &&& q <= maximum
            &&& q <= f.max_quantity_units
            &&& q * price_ticks >= f.min_notional_price_ticks * pow10(quantity_scale)
        }),
{
    let step = f.quantity_step as int;
    let pt = price_ticks as int;
    let cap = min_int(maximum as int, f.max_quantity_units as int);
    let wanted = min_int(requested as int, cap);
    let stepped = wanted - trunc_rem(wanted, step);
    let floored = max_int(stepped, f.min_quantity_units as int);
    let notional = f.min_notional_price_ticks * pow10(quantity_scale);
    let numerator = min_int(notional + (pt - 1), i128::MAX as int);
    let required = trunc_div(numerator, pt);
    let raised = max_int(floored, required);
    let remainder = trunc_rem(raised, step);
    let aligned = if remainder != 0 {
        raised + (step - remainder)
    } else {
        raised
    };
    let q = max_int(aligned, f.min_quantity_units as int);
    assert(raised > 0);
    // The remainder of a positive quantity is the Euclidean one.
    vstd::arithmetic::div_mod::lemma_fundamental_div_mod(raised, step);
    vstd::arithmetic::div_mod::lemma_mod_pos_bound(raised, step);
    assert(trunc_div(raised, step) == raised / step);
    assert(0 <= remainder < step);
    assert(q >= required);
    // The numerator never saturates on an accepted request.
    if notional + (pt - 1) > i128::MAX {
        assert(numerator == i128::MAX);
        assert(required == (i128::MAX as int) / pt);
        assert((i128::MAX as int) / pt > i64::MAX) by (nonlinear_arith)
            requires
                0 < pt <= i64::MAX,
        ;
        assert(false);
    }
    if numerator >= 0 {
        vstd::arithmetic::div_mod::lemma_fundamental_div_mod(numerator, pt);
        vstd::arithmetic::div_mod::lemma_mod_pos_bound(numerator, pt);
        assert(required == numerator / pt);
        assert(required * pt >= notional) by (nonlinear_arith)
            requires
                numerator == pt * (numerator / pt) + numerator % pt,
                numerator % pt < pt,
                required == numerator / pt,
                numerator == notional + (pt - 1),
        ;
        assert(q * pt >= required * pt) by (nonlinear_arith)
            requires
                q >= required,
                pt > 0,
        ;
    } else {
        assert(q * pt > 0) by (nonlinear_arith)
            requires
                q > 0,
                pt > 0,
        ;
    }
}

/// An order book snapshot: price and quantity text per level.
#[derive(Debug, Clone, PartialEq, Eq)]
pub struct BinanceDepthSnapshot {
    pub last_update_id: u64,
    pub bids: Vec<[String; 2]>,
    pub asks: Vec<[String; 2]>,
}

/// A premium index snapshot with the local time it was observed.
#[derive(Debug, Clone, PartialEq, Eq)]
pub struct BinanceTimedPremiumIndexSnapshot {
    pub snapshot: BinancePremiumIndexSnapshot,
    pub observed_at_ms: u64,
}

#[derive(Debug, Clone, PartialEq, Eq)]
pub struct BinanceIndexPriceKline {
    pub open_time_ms: u64,
    pub close_price: String,
    pub close_time_ms: u64,
}

/// Funding history returned by the USD-M funding rate endpoint;
/// `rate_type` is `Regular` when the exchange omits it.
#[derive(Debug, Clone, PartialEq, Eq)]
pub struct BinanceFundingRateSnapshot {
    pub symbol: String,
    pub funding_rate: String,
    pub funding_time_ms: u64,
    pub mark_price: String,
    pub rate_type: String,
}

/// The rate type the exchange means when it names none.
pub fn default_funding_rate_type() -> (r: String)
    ensures
        r@ == "Regular"@,
{
    owned("Regular")
}

/// Contract-level funding bounds and interval.
#[derive(Debug, Clone, PartialEq, Eq)]
pub struct BinanceFundingInfo {
    pub symbol: String,
    pub adjusted_funding_rate_cap: String,
    pub adjusted_funding_rate_floor: String,
    pub funding_interval_hours: u32,
}

impl BinanceFundingInfo {
    pub open spec fn well_formed(&self) -> bool {
        &&& trim_chars(self.symbol@).len() > 0
        &&& self.funding_interval_hours != 0
        &&& positive_decimal_spec(self.adjusted_funding_rate_cap@)
        &&& signed_decimal_spec(self.adjusted_funding_rate_floor@)
    }

    /// A named symbol, a non-zero interval, a positive cap and a signed
    /// decimal floor; anything else is an invalid funding rate.
    pub fn validate(&self) -> (r: Result<(), PublicMetadataError>)
        ensures
            self.well_formed() ==> r is Ok,
            !self.well_formed() ==> r == Err::<(), PublicMetadataError>(PublicMetadataError::InvalidFundingRate),
    {
        if trim(self.symbol.as_str()).is_empty() || self.funding_interval_hours == 0 || !is_positive_decimal(
            self.adjusted_funding_rate_cap.as_str(),
        ) || !is_signed_decimal(self.adjusted_funding_rate_floor.as_str()) {
            return Err(PublicMetadataError::InvalidFundingRate);
        }
        Ok(())
    }
}

/// What checking the price observations of an anchor gives: an observation
/// from the future is stale, and mark and index must be positive.
pub open spec fn anchor_price_result(p: BinancePremiumIndexSnapshot, observed_at_ms: u64, now_ms: u64) -> Result<(), PublicMetadataError> {
    if observed_at_ms > now_ms {
        Err(PublicMetadataError::StaleSnapshot)
    } else if !positive_decimal_spec(p.mark_price@) || !positive_decimal_spec(p.index_price@) {
        Err(PublicMetadataError::NonPositiveMarketValue)
    } else {
        Ok(())
    }
}

/// The price checks, then a well-formed funding rate and a funding time
/// still ahead (zero meaning none is scheduled).
pub open spec fn anchor_result(p: BinancePremiumIndexSnapshot, observed_at_ms: u64, now_ms: u64) -> Result<(), PublicMetadataError> {
    if anchor_price_result(p, observed_at_ms, now_ms) is Err {
        anchor_price_result(p, observed_at_ms, now_ms)
    } else if !signed_decimal_spec(p.last_funding_rate@) {
        Err(PublicMetadataError::InvalidFundingRate)
    } else if p.next_funding_time_ms != 0 && p.next_funding_time_ms <= now_ms {
        Err(PublicMetadataError::ExpiredFundingTime)
    } else {
        Ok(())
    }
}

impl BinancePremiumIndexSnapshot {
    /// Validates a snapshot for an equity anchor; its lifetime follows the
    /// session and refresh events, not a short market-data age limit.
    pub fn validate_for_anchor(&self, observed_at_ms: u64, now_ms: u64) -> (r: Result<(), PublicMetadataError>)
        ensures
            r == anchor_result(*self, observed_at_ms, now_ms),
    {
        match self.validate_for_anchor_price(observed_at_ms, now_ms) {
            Err(e) => {
                return Err(e);
            },
            Ok(()) => {},
        }
        if !is_signed_decimal(self.last_funding_rate.as_str()) {
            return Err(PublicMetadataError::InvalidFundingRate);
        }
        if self.next_funding_time_ms != 0 && self.next_funding_time_ms <= now_ms {
            return Err(PublicMetadataError::ExpiredFundingTime);
        }
        Ok(())
    }

    /// Validates only the price observations an equity anchor needs; the
    /// funding schedule is left out so that it cannot make a usable anchor
    /// unavailable.
    pub fn validate_for_anchor_price(&self, observed_at_ms: u64, now_ms: u64) -> (r: Result<(), PublicMetadataError>)
        ensures
            r == anchor_price_result(*self, observed_at_ms, now_ms),
    {
        if observed_at_ms > now_ms {
            return Err(PublicMetadataError::StaleSnapshot);
        }
        if !is_positive_decimal(self.mark_price.as_str()) || !is_positive_decimal(self.index_price.as_str()) {
            return Err(PublicMetadataError::NonPositiveMarketValue);
        }
        Ok(())
    }
}

/// An order the filters admit meets each of them: a positive price on the
/// tick within the price band, a positive quantity on the step within the
/// lot band, a notional (price ticks times quantity units) of at least the
/// minimum notional scaled to the quantity scale, and a price within the
/// percent band of the mark on its side.
pub proof fn law_validated_order_meets_every_filter(
    f: BinanceScaledExecutionFilters,
    price: i64,
    quantity: i64,
    mark: i64,
    is_buy: bool,
    quantity_scale: nat,
)
    requires
        validate_order_spec(f, price as int, quantity as int, mark as int, is_buy, quantity_scale) is Ok,
    ensures
        price > 0 && quantity > 0 && mark > 0,
        f.min_price_ticks <= price <= f.max_price_ticks,
        f.price_tick > 0 && price % f.price_tick == 0,
        f.min_quantity_units <= quantity <= f.max_quantity_units,
        f.quantity_step > 0 && quantity % f.quantity_step == 0,
        price * quantity >= f.min_notional_price_ticks * pow10(quantity_scale),
        is_buy ==> price * 1_000_000 <= mark * f.multiplier_up_ppm,
        !is_buy ==> price * 1_000_000 >= mark * f.multiplier_down_ppm,
{
}

} // verus!
