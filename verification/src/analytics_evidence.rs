//! Observational evidence on anchor residuals: how far the traded price sits
//! from its reference anchor, and whether that residual converges over fixed
//! horizons.
use crate::analytics_validation::EvidenceState;
use crate::keyed::{key_of, SortedMap};
use crate::market::binance::{BinanceMarketEvent, BookTicker, MarkPrice};
use crate::num::{
    abs_i64_checked, sat_add_i64,
    abs_int, clamp_to_i64, div_trunc, max_u64, sat_add_u64, sat_i64, sat_sub_i64, sat_u64, signum, signum_i64, trunc_div,
};
use crate::simulation::AnchorSnapshot;
use crate::text::{owned, to_upper, u64_to_dec, upper_chars, utf8};
use vstd::prelude::*;

verus! {

#[derive(Debug, Clone, PartialEq, Eq)]
pub struct EvidenceConfig {
    pub horizons_ms: Vec<u64>,
    pub min_abs_residual_bps: i64,
    pub max_pending_points_per_symbol: usize,
}

impl Default for EvidenceConfig {
    fn default() -> (r: Self)
        ensures
            r.horizons_ms@ == seq![1_000u64, 5_000u64, 30_000u64, 300_000u64],
            r.min_abs_residual_bps == 2,
            r.max_pending_points_per_symbol == 10_000,
    {
        EvidenceConfig {
            horizons_ms: vec![1_000, 5_000, 30_000, 300_000],
            min_abs_residual_bps: 2,
            max_pending_points_per_symbol: 10_000,
        }
    }
}

#[derive(Debug, Clone, Copy, PartialEq, Eq, Structural)]
pub struct EvidenceHorizonSummary {
    pub horizon_ms: u64,
    pub samples: u64,
    pub improved: u64,
    pub mean_signed_improvement_bps: i64,
    pub mean_price_index_change_bps: i64,
    pub mean_index_anchor_change_bps: i64,
}

#[derive(Debug, Clone, PartialEq, Eq)]
pub struct EvidenceSummary {
    pub evidence_id: String,
    pub methodology_id: String,
    pub evidence_state: EvidenceState,
    pub anchor_authority_passed: bool,
    pub status: String,
    pub anchor_semantics: String,
    pub price_semantics: String,
    pub index_semantics: String,
    pub mark_semantics: String,
    pub observations: u64,
    pub eligible_observations: u64,
    pub anchor_integrity_violations: u64,
    pub horizons: Vec<EvidenceHorizonSummary>,
    pub price_discovery_status: String,
    pub economic_edge_status: String,
    pub survival_status: String,
}

#[derive(Debug, Clone, PartialEq, Eq)]
pub struct EvidenceRecord {
    pub symbol: String,
    pub episode_id: String,
    pub start_event_time_ms: u64,
    pub end_event_time_ms: u64,
    pub horizon_ms: u64,
    pub residual_start_bps: i64,
    pub residual_end_bps: i64,
    pub signed_improvement_bps: i64,
    pub price_index_change_bps: i64,
    pub index_anchor_change_bps: i64,
}

/// The gap of `value` over `reference` in basis points, rounded toward zero
/// and saturated into `i64`; zero without a positive reference.
pub open spec fn basis_spec(value: int, reference: int) -> int {
    if reference <= 0 {
        0
    } else {
        sat_i64(trunc_div((value - reference) * 10_000, reference))
    }
}

/// A sum over a count, rounded toward zero and saturated into `i64`; zero
/// for no samples.
pub open spec fn mean_spec(sum: int, count: int) -> int {
    if count == 0 {
        0
    } else {
        sat_i64(trunc_div(sum, count))
    }
}

pub fn basis_bps(value: i64, reference: i64) -> (r: i64)
    ensures
        r == basis_spec(value as int, reference as int),
{
    if reference <= 0 {
        return 0;
    }
    let gap: i128 = (value as i128 - reference as i128) * 10_000;
    clamp_to_i64(div_trunc(gap, reference as i128))
}

fn mean_i128(sum: i128, count: u64) -> (r: i64)
    ensures
        r == mean_spec(sum as int, count as int),
{
    if count == 0 {
        0
    } else {
        clamp_to_i64(div_trunc(sum, count as i128))
    }
}

pub open spec fn strictly_increasing(s: Seq<u64>) -> bool {
    forall|i: int, j: int| 0 <= i < j < s.len() ==> s[i] < s[j]
}

/// The horizons an accumulator works with: the configured ones, ascending
/// and without repeats, or one second when none are configured.
pub open spec fn normalized_horizons(h: Seq<u64>, configured: Seq<u64>) -> bool {
    &&& strictly_increasing(h)
    &&& if configured.len() == 0 {
        h == seq![1_000u64]
    } else {
        h.to_set() == configured.to_set()
    }
}

proof fn lemma_push_to_set(s: Seq<u64>, h: u64)
    ensures
        s.push(h).to_set() == s.to_set().insert(h),
{
    let p = s.push(h);
    assert forall|x: u64| p.to_set().contains(x) <==> s.to_set().insert(h).contains(x) by {
        if p.to_set().contains(x) {
            let k = choose|k: int| 0 <= k < p.len() && p[k] == x;
            if k < s.len() {
                assert(s[k] == x);
                assert(s.to_set().contains(x));
            }
        }
        if s.to_set().contains(x) {
            let k = choose|k: int| 0 <= k < s.len() && s[k] == x;
            assert(p[k] == x);
        }
        if x == h {
            assert(p[s.len() as int] == h);
        }
    }
    assert(p.to_set() =~= s.to_set().insert(h));
}

fn normalize_horizons(configured: &Vec<u64>) -> (r: Vec<u64>)
    ensures
        normalized_horizons(r@, configured@),
{
    let mut out: Vec<u64> = Vec::new();
    let mut i: usize = 0;
    while i < configured.len()
        invariant
            i <= configured@.len(),
            strictly_increasing(out@),
            out@.to_set() == configured@.subrange(0, i as int).to_set(),
        decreases configured@.len() - i,
    {
        let h = configured[i];
        let mut j: usize = 0;
        while j < out.len() && out[j] < h
            invariant
                j <= out@.len(),
                forall|k: int| 0 <= k < j ==> out@[k] < h,
            decreases out@.len() - j,
        {
            j = j + 1;
        }
        let ghost before = out@;
        proof {
            assert(configured@.subrange(0, i + 1) =~= configured@.subrange(0, i as int).push(h));
            lemma_push_to_set(configured@.subrange(0, i as int), h);
        }
        if j < out.len() && out[j] == h {
            proof {
                assert(before.to_set().contains(h));
                assert(configured@.subrange(0, i + 1).to_set() =~= before.to_set().insert(h));
            }
        } else {
            out.insert(j, h);
            proof {
                assert(out@ =~= before.insert(j as int, h));
                assert forall|a: int, b: int| 0 <= a < b < out@.len() implies out@[a] < out@[b] by {
                    if b < j {
                    } else if a < j && b == j {
                    } else if a < j {
                        assert(out@[b] == before[b - 1]);
                        assert(before[j as int] > h);
                        if b - 1 > j {
                            assert(before[j as int] < before[b - 1]);
                        }
                    } else if a == j {
                        assert(out@[b] == before[b - 1]);
                        assert(before[j as int] >= h);
                        if before[j as int] == h {
                        }
                        if b - 1 > j {
                            assert(before[j as int] < before[b - 1]);
                        }
                    } else {
                        assert(out@[a] == before[a - 1] && out@[b] == before[b - 1]);
                    }
                }
                assert forall|x: u64| out@.to_set().contains(x) <==> before.to_set().insert(h).contains(x) by {
                    if out@.to_set().contains(x) {
                        let k = choose|k: int| 0 <= k < out@.len() && out@[k] == x;
                        if k < j {
                            assert(before[k] == x);
                        } else if k > j {
                            assert(before[k - 1] == x);
                        }
                    }
                    if before.to_set().contains(x) && x != h {
                        let k = choose|k: int| 0 <= k < before.len() && before[k] == x;
                        if k < j {
                            assert(out@[k] == x);
                        } else {
                            assert(out@[k + 1] == x);
                        }
                    }
                    if x == h {
                        assert(out@[j as int] == h);
                    }
                }
                assert(out@.to_set() =~= before.to_set().insert(h));
                assert(configured@.subrange(0, i + 1).to_set() =~= before.to_set().insert(h));
            }
        }
        i = i + 1;
    }
    assert(configured@.subrange(0, configured@.len() as int) =~= configured@);
    if out.len() == 0 {
        out.push(1_000);
        proof {
            assert(out@ =~= seq![1_000u64]);
            assert(configured@.len() == 0) by {
                if configured@.len() > 0 {
                    assert(configured@.to_set().contains(configured@[0]));
                }
            }
        }
    } else {
        proof {
            assert(out@.to_set() == configured@.to_set());
            if configured@.len() == 0 {
                assert(configured@.to_set() =~= Set::<u64>::empty());
                assert(out@.to_set().contains(out@[0]));
            }
        }
    }
    out
}

/// One eligible observation waiting for its horizons to pass.
#[derive(Debug, Clone, PartialEq, Eq)]
pub struct EvidencePoint {
    pub event_time_ms: u64,
    pub episode_id: String,
    pub anchor_ticks: i64,
    pub price_ticks: i64,
    pub index_ticks: i64,
    pub residual_bps: i64,
    pub done: Vec<u64>,
}

/// The latest quote of a symbol: best bid and ask, the index price of the
/// latest mark price, and the latest event time seen.
#[derive(Debug, Clone, Copy, PartialEq, Eq, Structural)]
pub struct QuoteState {
    pub bid: Option<i64>,
    pub ask: Option<i64>,
    pub index: Option<i64>,
    pub event_time_ms: u64,
}

/// Samples, improved samples, and the sums of signed improvement, price
/// over index change and index over anchor change, of one horizon.
pub type HorizonStats = (u64, u64, i128, i128, i128);

/// What a point holds, as values.
pub struct PointView {
    pub event_time_ms: u64,
    pub episode_id: Seq<char>,
    pub anchor_ticks: i64,
    pub price_ticks: i64,
    pub index_ticks: i64,
    pub residual_bps: i64,
    pub done: Seq<u64>,
}

/// What a record holds, as values.
pub struct RecordView {
    pub symbol: Seq<char>,
    pub episode_id: Seq<char>,
    pub start_event_time_ms: u64,
    pub end_event_time_ms: u64,
    pub horizon_ms: u64,
    pub residual_start_bps: i64,
    pub residual_end_bps: i64,
    pub signed_improvement_bps: i64,
    pub price_index_change_bps: i64,
    pub index_anchor_change_bps: i64,
}

impl EvidencePoint {
    pub open spec fn view(&self) -> PointView {
        PointView {
            event_time_ms: self.event_time_ms,
            episode_id: self.episode_id@,
            anchor_ticks: self.anchor_ticks,
            price_ticks: self.price_ticks,
            index_ticks: self.index_ticks,
            residual_bps: self.residual_bps,
            done: self.done@,
        }
    }
}

impl EvidenceRecord {
    pub open spec fn view(&self) -> RecordView {
        RecordView {
            symbol: self.symbol@,
            episode_id: self.episode_id@,
            start_event_time_ms: self.start_event_time_ms,
            end_event_time_ms: self.end_event_time_ms,
            horizon_ms: self.horizon_ms,
            residual_start_bps: self.residual_start_bps,
            residual_end_bps: self.residual_end_bps,
            signed_improvement_bps: self.signed_improvement_bps,
            price_index_change_bps: self.price_index_change_bps,
            index_anchor_change_bps: self.index_anchor_change_bps,
        }
    }
}

pub open spec fn points_view(q: Seq<EvidencePoint>) -> Seq<PointView> {
    q.map_values(|p: EvidencePoint| p.view())
}

pub open spec fn records_view(r: Seq<EvidenceRecord>) -> Seq<RecordView> {
    r.map_values(|x: EvidenceRecord| x.view())
}

/// Horizon `h` of point `p` is due at `now`: not yet reported, and passed.
pub open spec fn due(p: PointView, h: u64, now: u64) -> bool {
    !p.done.contains(h) && now >= sat_u64(p.event_time_ms + h)
}

/// The horizons of `hs` due for `p`, in order.
pub open spec fn due_horizons(p: PointView, hs: Seq<u64>, now: u64) -> Seq<u64>
    decreases hs.len(),
{
    if hs.len() == 0 {
        Seq::empty()
    } else if due(p, hs.last(), now) {
        due_horizons(p, hs.drop_last(), now).push(hs.last())
    } else {
        due_horizons(p, hs.drop_last(), now)
    }
}

/// The record of horizon `h` of point `p` of `symbol`, closed at `now` at
/// the given price and index.
pub open spec fn record_spec(symbol: Seq<char>, p: PointView, h: u64, now: u64, price: i64, index: i64) -> RecordView {
    let end = basis_spec(price as int, p.anchor_ticks as int);
    RecordView {
        symbol,
        episode_id: p.episode_id,
        start_event_time_ms: p.event_time_ms,
        end_event_time_ms: now,
        horizon_ms: h,
        residual_start_bps: p.residual_bps,
        residual_end_bps: end as i64,
        signed_improvement_bps: (-signum(p.residual_bps as int) * (end - p.residual_bps)) as i64,
        price_index_change_bps: sat_i64(
            basis_spec(price as int, index as int) - basis_spec(p.price_ticks as int, p.index_ticks as int),
        ) as i64,
        index_anchor_change_bps: sat_i64(
            basis_spec(index as int, p.anchor_ticks as int) - basis_spec(p.index_ticks as int, p.anchor_ticks as int),
        ) as i64,
    }
}

pub open spec fn records_of_horizons(symbol: Seq<char>, p: PointView, hs: Seq<u64>, now: u64, price: i64, index: i64) -> Seq<
    RecordView,
>
    decreases hs.len(),
{
    if hs.len() == 0 {
        Seq::empty()
    } else {
        records_of_horizons(symbol, p, hs.drop_last(), now, price, index).push(
            record_spec(symbol, p, hs.last(), now, price, index),
        )
    }
}

/// The records a flush reports: each point in queue order, each of its due
/// horizons in ascending order.
pub open spec fn queue_records(symbol: Seq<char>, q: Seq<PointView>, hs: Seq<u64>, now: u64, price: i64, index: i64) -> Seq<
    RecordView,
>
    decreases q.len(),
{
    if q.len() == 0 {
        Seq::empty()
    } else {
        queue_records(symbol, q.drop_last(), hs, now, price, index) + records_of_horizons(
            symbol,
            q.last(),
            due_horizons(q.last(), hs, now),
            now,
            price,
            index,
        )
    }
}

/// A point once its due horizons are reported.
pub open spec fn advanced(p: PointView, hs: Seq<u64>, now: u64) -> PointView {
    PointView { done: p.done + due_horizons(p, hs, now), ..p }
}

pub open spec fn advanced_all(q: Seq<PointView>, hs: Seq<u64>, now: u64) -> Seq<PointView> {
    q.map_values(|p: PointView| advanced(p, hs, now))
}

/// The queue without its leading points that have every horizon reported.
pub open spec fn drop_finished(q: Seq<PointView>, horizons: nat) -> Seq<PointView>
    decreases q.len(),
{
    if q.len() > 0 && q[0].done.len() == horizons {
        drop_finished(q.drop_first(), horizons)
    } else {
        q
    }
}

/// One record added into the statistics of its horizon.
pub open spec fn apply_record(st: Seq<HorizonStats>, hs: Seq<u64>, r: RecordView) -> Seq<HorizonStats> {
    let k = hs.index_of(r.horizon_ms);
    let e = st[k];
    st.update(
        k,
        (
            sat_u64(e.0 + 1) as u64,
            if r.signed_improvement_bps > 0 {
                sat_u64(e.1 + 1) as u64
            } else {
                e.1
            },
            (e.2 + r.signed_improvement_bps) as i128,
            (e.3 + r.price_index_change_bps) as i128,
            (e.4 + r.index_anchor_change_bps) as i128,
        ),
    )
}

pub open spec fn apply_records(st: Seq<HorizonStats>, hs: Seq<u64>, rs: Seq<RecordView>) -> Seq<HorizonStats>
    decreases rs.len(),
{
    if rs.len() == 0 {
        st
    } else {
        apply_record(apply_records(st, hs, rs.drop_last()), hs, rs.last())
    }
}

/// The signed improvement of a point whose residual moves to `end` is an
/// `i64` computation that does not overflow.
pub open spec fn improvement_fits(residual: i64, end: int) -> bool {
    &&& i64::MIN <= end - residual <= i64::MAX
    &&& !(residual > 0 && end - residual == i64::MIN)
}

/// Every sum of the statistics has room for `n` more `i64` terms.
pub open spec fn sums_have_room(st: Seq<HorizonStats>, n: int) -> bool {
    forall|k: int|
        0 <= k < st.len() ==> abs_int((#[trigger] st[k]).2 as int) + n * 0x8000_0000_0000_0000 <= i128::MAX
            && abs_int(st[k].3 as int) + n * 0x8000_0000_0000_0000 <= i128::MAX && abs_int(st[k].4 as int) + n
            * 0x8000_0000_0000_0000 <= i128::MAX
}

/// A flush of `q` computes every record without overflow.
pub open spec fn flush_fits(q: Seq<PointView>, hs: Seq<u64>, now: u64, price: i64, st: Seq<HorizonStats>) -> bool {
    &&& forall|i: int|
        0 <= i < q.len() ==> improvement_fits(
            (#[trigger] q[i]).residual_bps,
            basis_spec(price as int, q[i].anchor_ticks as int),
        )
    &&& sums_have_room(st, (q.len() * hs.len()) as int)
}

fn copy_u64s(v: &Vec<u64>) -> (r: Vec<u64>)
    ensures
        r@ == v@,
{
    let mut out: Vec<u64> = Vec::new();
    let mut i: usize = 0;
    while i < v.len()
        invariant
            i <= v@.len(),
            out@ == v@.subrange(0, i as int),
        decreases v@.len() - i,
    {
        out.push(v[i]);
        assert(out@ =~= v@.subrange(0, i + 1));
        i = i + 1;
    }
    assert(v@.subrange(0, v@.len() as int) =~= v@);
    out
}

fn contains_u64(v: &Vec<u64>, x: u64) -> (r: bool)
    ensures
        r == v@.contains(x),
{
    let mut i: usize = 0;
    while i < v.len()
        invariant
            i <= v@.len(),
            forall|k: int| 0 <= k < i ==> v@[k] != x,
        decreases v@.len() - i,
    {
        if v[i] == x {
            assert(v@[i as int] == x);
            return true;
        }
        i = i + 1;
    }
    false
}

impl EvidencePoint {
    /// An exact copy.
    pub fn copy(&self) -> (r: Self)
        ensures
            r.view() == self.view(),
    {
        EvidencePoint {
            event_time_ms: self.event_time_ms,
            episode_id: self.episode_id.clone(),
            anchor_ticks: self.anchor_ticks,
            price_ticks: self.price_ticks,
            index_ticks: self.index_ticks,
            residual_bps: self.residual_bps,
            done: copy_u64s(&self.done),
        }
    }
}

proof fn lemma_signed_improvement(r: i64, end: int)
    ensures
        -signum(r as int) * (end - r) == if r > 0 {
            -(end - r)
        } else if r < 0 {
            end - r
        } else {
            0
        },
{
    if r < 0 {
        assert(-signum(r as int) == 1);
        assert(1 * (end - r) == end - r) by (nonlinear_arith);
    } else if r > 0 {
        assert(-signum(r as int) == -1);
        assert(-1 * (end - r) == -(end - r)) by (nonlinear_arith);
    } else {
        assert(0 * (end - r) == 0) by (nonlinear_arith);
    }
}

proof fn lemma_index_of_increasing(hs: Seq<u64>, j: int)
    requires
        strictly_increasing(hs),
        0 <= j < hs.len(),
    ensures
        hs.index_of(hs[j]) == j,
{
    assert(hs.contains(hs[j]));
    let i = hs.index_of(hs[j]);
    assert(0 <= i < hs.len() && hs[i] == hs[j]);
    if i < j {
        assert(hs[i] < hs[j]);
    } else if i > j {
        assert(hs[j] < hs[i]);
    }
}

proof fn lemma_due_step(p: PointView, hs: Seq<u64>, j: int, now: u64)
    requires
        0 <= j < hs.len(),
    ensures
        due_horizons(p, hs.subrange(0, j + 1), now) == if due(p, hs[j], now) {
            due_horizons(p, hs.subrange(0, j), now).push(hs[j])
        } else {
            due_horizons(p, hs.subrange(0, j), now)
        },
{
    assert(hs.subrange(0, j + 1).drop_last() =~= hs.subrange(0, j));
}

proof fn lemma_records_push(symbol: Seq<char>, p: PointView, hs: Seq<u64>, x: u64, now: u64, price: i64, index: i64)
    ensures
        records_of_horizons(symbol, p, hs.push(x), now, price, index) == records_of_horizons(
            symbol,
            p,
            hs,
            now,
            price,
            index,
        ).push(record_spec(symbol, p, x, now, price, index)),
{
    assert(hs.push(x).drop_last() =~= hs);
}

proof fn lemma_queue_step(symbol: Seq<char>, q: Seq<PointView>, i: int, hs: Seq<u64>, now: u64, price: i64, index: i64)
    requires
        0 <= i < q.len(),
    ensures
        queue_records(symbol, q.subrange(0, i + 1), hs, now, price, index) == queue_records(
            symbol,
            q.subrange(0, i),
            hs,
            now,
            price,
            index,
        ) + records_of_horizons(symbol, q[i], due_horizons(q[i], hs, now), now, price, index),
        advanced_all(q.subrange(0, i + 1), hs, now) == advanced_all(q.subrange(0, i), hs, now).push(advanced(q[i], hs, now)),
{
    assert(q.subrange(0, i + 1).drop_last() =~= q.subrange(0, i));
    assert(advanced_all(q.subrange(0, i + 1), hs, now) =~= advanced_all(q.subrange(0, i), hs, now).push(advanced(q[i], hs, now)));
}

proof fn lemma_apply_push(st: Seq<HorizonStats>, hs: Seq<u64>, rs: Seq<RecordView>, r: RecordView)
    ensures
        apply_records(st, hs, rs.push(r)) == apply_record(apply_records(st, hs, rs), hs, r),
{
    assert(rs.push(r).drop_last() =~= rs);
}

proof fn lemma_room_step(st: Seq<HorizonStats>, m: int, k: int, e: HorizonStats, a: i64, b: i64, c: i64)
    requires
        sums_have_room(st, m),
        m >= 1,
        0 <= k < st.len(),
        e == st[k],
    ensures
        i128::MIN <= e.2 + a <= i128::MAX,
        i128::MIN <= e.3 + b <= i128::MAX,
        i128::MIN <= e.4 + c <= i128::MAX,
        sums_have_room(
            st.update(
                k,
                (0u64, 0u64, (e.2 + a) as i128, (e.3 + b) as i128, (e.4 + c) as i128),
            ),
            m - 1,
        ),
{
    let n = st.update(k, (0u64, 0u64, (e.2 + a) as i128, (e.3 + b) as i128, (e.4 + c) as i128));
    assert(abs_int(e.2 as int) + m * 0x8000_0000_0000_0000 <= i128::MAX);
    assert forall|t: int| 0 <= t < n.len() implies abs_int((#[trigger] n[t]).2 as int) + (m - 1) * 0x8000_0000_0000_0000
        <= i128::MAX && abs_int(n[t].3 as int) + (m - 1) * 0x8000_0000_0000_0000 <= i128::MAX && abs_int(
        n[t].4 as int,
    ) + (m - 1) * 0x8000_0000_0000_0000 <= i128::MAX by {
        assert(abs_int(st[t].2 as int) + m * 0x8000_0000_0000_0000 <= i128::MAX);
        assert(abs_int(st[t].3 as int) + m * 0x8000_0000_0000_0000 <= i128::MAX);
        assert(abs_int(st[t].4 as int) + m * 0x8000_0000_0000_0000 <= i128::MAX);
    }
}

/// The room statement depends only on the sums.
proof fn lemma_room_sums(a: Seq<HorizonStats>, b: Seq<HorizonStats>, m: int)
    requires
        sums_have_room(a, m),
        a.len() == b.len(),
        forall|t: int| 0 <= t < a.len() ==> (#[trigger] a[t]).2 == b[t].2 && a[t].3 == b[t].3 && a[t].4 == b[t].4,
    ensures
        sums_have_room(b, m),
{
    assert forall|t: int| 0 <= t < b.len() implies abs_int((#[trigger] b[t]).2 as int) + m * 0x8000_0000_0000_0000 <= i128::MAX
        && abs_int(b[t].3 as int) + m * 0x8000_0000_0000_0000 <= i128::MAX && abs_int(b[t].4 as int) + m
        * 0x8000_0000_0000_0000 <= i128::MAX by {
        assert(a[t].2 == b[t].2);
    }
}

proof fn lemma_room_weaker(st: Seq<HorizonStats>, m: int, n: int)
    requires
        sums_have_room(st, m),
        0 <= n <= m,
    ensures
        sums_have_room(st, n),
{
    assert forall|t: int| 0 <= t < st.len() implies abs_int((#[trigger] st[t]).2 as int) + n * 0x8000_0000_0000_0000 <= i128::MAX
        && abs_int(st[t].3 as int) + n * 0x8000_0000_0000_0000 <= i128::MAX && abs_int(st[t].4 as int) + n
        * 0x8000_0000_0000_0000 <= i128::MAX by {
        assert(abs_int(st[t].2 as int) + m * 0x8000_0000_0000_0000 <= i128::MAX);
        assert(abs_int(st[t].3 as int) + m * 0x8000_0000_0000_0000 <= i128::MAX);
        assert(abs_int(st[t].4 as int) + m * 0x8000_0000_0000_0000 <= i128::MAX);
    }
}

/// Reports every due horizon of every point of a queue, in queue order and
/// ascending horizon order, adds the records into the statistics, and
/// returns the queue without its leading fully reported points.
fn flush_queue(
    q: &Vec<EvidencePoint>,
    hs: &Vec<u64>,
    symbol: &str,
    now: u64,
    price: i64,
    index: i64,
    stats: &mut Vec<HorizonStats>,
) -> (r: (Vec<EvidencePoint>, Vec<EvidenceRecord>))
    requires
        strictly_increasing(hs@),
        old(stats)@.len() == hs@.len(),
        flush_fits(points_view(q@), hs@, now, price, old(stats)@),
    ensures
        points_view(r.0@) == drop_finished(advanced_all(points_view(q@), hs@, now), hs@.len()),
        records_view(r.1@) == queue_records(symbol@, points_view(q@), hs@, now, price, index),
        final(stats)@ == apply_records(old(stats)@, hs@, records_view(r.1@)),
        final(stats)@.len() == old(stats)@.len(),
{
    let ghost pv = points_view(q@);
    let ghost h = hs@;
    let n = q.len();
    let hn = hs.len();
    let mut advanced_q: Vec<EvidencePoint> = Vec::new();
    let mut records: Vec<EvidenceRecord> = Vec::new();
    let mut i: usize = 0;
    proof {
        assert(pv.subrange(0, 0) =~= Seq::<PointView>::empty());
        assert(points_view(advanced_q@) =~= advanced_all(pv.subrange(0, 0), h, now));
        assert(records_view(records@) =~= Seq::<RecordView>::empty());
        assert(n * hn == pv.len() * h.len());
    }
    while i < n
        invariant
            n == q@.len(),
            hn == h.len(),
            pv == points_view(q@),
            h == hs@,
            strictly_increasing(h),
            i <= n,
            stats@.len() == hn,
            points_view(advanced_q@) == advanced_all(pv.subrange(0, i as int), h, now),
            records_view(records@) == queue_records(symbol@, pv.subrange(0, i as int), h, now, price, index),
            stats@ == apply_records(old(stats)@, h, records_view(records@)),
            sums_have_room(stats@, (n - i) * hn),
            forall|k: int|
                0 <= k < n ==> improvement_fits(
                    (#[trigger] pv[k]).residual_bps,
                    basis_spec(price as int, pv[k].anchor_ticks as int),
                ),
        decreases n - i,
    {
        let p = &q[i];
        let ghost pvi = pv[i as int];
        proof {
            assert(pvi == p.view());
            assert((n - i) * hn == (n - i - 1) * hn + hn) by (nonlinear_arith);
        }
        let end = basis_bps(price, p.anchor_ticks);
        let mut done = copy_u64s(&p.done);
        let ghost records_before = records_view(records@);
        let mut j: usize = 0;
        proof {
            assert(h.subrange(0, 0) =~= Seq::<u64>::empty());
            assert(done@ =~= pvi.done + due_horizons(pvi, h.subrange(0, 0), now));
            assert(records_view(records@) =~= records_before + records_of_horizons(
                symbol@,
                pvi,
                due_horizons(pvi, h.subrange(0, 0), now),
                now,
                price,
                index,
            ));
        }
        while j < hn
            invariant
                n == q@.len(),
                hn == h.len(),
                pv == points_view(q@),
                h == hs@,
                strictly_increasing(h),
                i < n,
                j <= hn,
                pvi == pv[i as int],
                pvi == p.view(),
                end == basis_spec(price as int, pvi.anchor_ticks as int),
                improvement_fits(pvi.residual_bps, end as int),
                stats@.len() == hn,
                done@ == pvi.done + due_horizons(pvi, h.subrange(0, j as int), now),
                records_view(records@) == records_before + records_of_horizons(
                    symbol@,
                    pvi,
                    due_horizons(pvi, h.subrange(0, j as int), now),
                    now,
                    price,
                    index,
                ),
                stats@ == apply_records(old(stats)@, h, records_view(records@)),
                sums_have_room(stats@, (n - i - 1) * hn + (hn - j)),
            decreases hn - j,
        {
            let hz = hs[j];
            proof {
                lemma_due_step(pvi, h, j as int, now);
            }
            if !contains_u64(&p.done, hz) && now >= sat_add_u64(p.event_time_ms, hz) {
                let delta = end - p.residual_bps;
                let signed = if p.residual_bps > 0 {
                    -delta
                } else if p.residual_bps < 0 {
                    delta
                } else {
                    0
                };
                let pi = sat_sub_i64(basis_bps(price, index), basis_bps(p.price_ticks, p.index_ticks));
                let ia = sat_sub_i64(basis_bps(index, p.anchor_ticks), basis_bps(p.index_ticks, p.anchor_ticks));
                let record = EvidenceRecord {
                    symbol: owned(symbol),
                    episode_id: p.episode_id.clone(),
                    start_event_time_ms: p.event_time_ms,
                    end_event_time_ms: now,
                    horizon_ms: hz,
                    residual_start_bps: p.residual_bps,
                    residual_end_bps: end,
                    signed_improvement_bps: signed,
                    price_index_change_bps: pi,
                    index_anchor_change_bps: ia,
                };
                proof {
                    let spec_record = record_spec(symbol@, pvi, hz, now, price, index);
                    lemma_signed_improvement(pvi.residual_bps, end as int);
                    assert(record.view().signed_improvement_bps == spec_record.signed_improvement_bps);
                    assert(record.view().symbol == spec_record.symbol);
                    assert(record.view().episode_id == spec_record.episode_id);
                    assert(record.view().price_index_change_bps == spec_record.price_index_change_bps);
                    assert(record.view().index_anchor_change_bps == spec_record.index_anchor_change_bps);
                    assert(record.view() == spec_record);
                    lemma_index_of_increasing(h, j as int);
                    lemma_room_step(stats@, (n - i - 1) * hn + (hn - j), j as int, stats@[j as int], signed, pi, ia);
                }
                let e = stats[j];
                let updated: HorizonStats = (
                    sat_add_u64(e.0, 1),
                    if signed > 0 {
                        sat_add_u64(e.1, 1)
                    } else {
                        e.1
                    },
                    e.2 + signed as i128,
                    e.3 + pi as i128,
                    e.4 + ia as i128,
                );
                let ghost stats_before = stats@;
                stats.set(j, updated);
                let ghost recs_before = records_view(records@);
                records.push(record);
                done.push(hz);
                proof {
                    assert(records_view(records@) =~= recs_before.push(record.view()));
                    lemma_apply_push(old(stats)@, h, recs_before, record.view());
                    assert(stats@ =~= apply_record(stats_before, h, record.view()));
                    lemma_records_push(symbol@, pvi, due_horizons(pvi, h.subrange(0, j as int), now), hz, now, price, index);
                    lemma_room_sums(
                        stats_before.update(
                            j as int,
                            (0u64, 0u64, (e.2 + signed) as i128, (e.3 + pi) as i128, (e.4 + ia) as i128),
                        ),
                        stats@,
                        (n - i - 1) * hn + (hn - j) - 1,
                    );
                }
            } else {
                proof {
                    lemma_room_weaker(stats@, (n - i - 1) * hn + (hn - j), (n - i - 1) * hn + (hn - j) - 1);
                }
            }
            j = j + 1;
        }
        proof {
            assert(h.subrange(0, hn as int) =~= h);
            lemma_queue_step(symbol@, pv, i as int, h, now, price, index);
        }
        let point = EvidencePoint {
            event_time_ms: p.event_time_ms,
            episode_id: p.episode_id.clone(),
            anchor_ticks: p.anchor_ticks,
            price_ticks: p.price_ticks,
            index_ticks: p.index_ticks,
            residual_bps: p.residual_bps,
            done,
        };
        let ghost adv_before = points_view(advanced_q@);
        advanced_q.push(point);
        proof {
            assert(point.view() == advanced(pvi, h, now));
            assert(points_view(advanced_q@) =~= adv_before.push(point.view()));
        }
        i = i + 1;
    }
    proof {
        assert(pv.subrange(0, n as int) =~= pv);
    }
    let ghost full = points_view(advanced_q@);
    let mut start: usize = 0;
    assert(full.subrange(0, full.len() as int) =~= full);
    while start < advanced_q.len() && advanced_q[start].done.len() == hn
        invariant
            start <= advanced_q@.len(),
            full == points_view(advanced_q@),
            hn == h.len(),
            drop_finished(full, hn as nat) == drop_finished(full.subrange(start as int, full.len() as int), hn as nat),
        decreases advanced_q@.len() - start,
    {
        proof {
            let rest = full.subrange(start as int, full.len() as int);
            assert(rest[0] == full[start as int]);
            assert(rest.drop_first() =~= full.subrange(start + 1, full.len() as int));
        }
        start = start + 1;
    }
    proof {
        let rest = full.subrange(start as int, full.len() as int);
        if start < full.len() {
            assert(rest[0] == full[start as int]);
        }
    }
    let mut t: usize = 0;
    while t < start
        invariant
            t <= start,
            start <= full.len(),
            advanced_q@.len() == full.len() - t,
            points_view(advanced_q@) == full.subrange(t as int, full.len() as int),
        decreases start - t,
    {
        let ghost before = advanced_q@;
        advanced_q.remove(0);
        proof {
            assert(advanced_q@ =~= before.subrange(1, before.len() as int));
            assert(points_view(before) == full.subrange(t as int, full.len() as int));
            assert forall|k: int| 0 <= k < advanced_q@.len() implies points_view(advanced_q@)[k] == full.subrange(
                t + 1,
                full.len() as int,
            )[k] by {
                assert(advanced_q@[k] == before[k + 1]);
                assert(points_view(before)[k + 1] == full[t + 1 + k]);
            }
            assert(points_view(advanced_q@) =~= full.subrange(t + 1, full.len() as int));
        }
        t = t + 1;
    }
    (advanced_q, records)
}

/// What an accumulator holds, as values.
pub struct EvidenceView {
    pub anchor_authority_passed: bool,
    pub horizons: Seq<u64>,
    pub min_abs_residual_bps: i64,
    pub max_pending_points_per_symbol: usize,
    pub quotes: Map<Seq<u8>, QuoteState>,
    pub pending: Map<Seq<u8>, Seq<PointView>>,
    pub last_anchors: Map<Seq<u8>, AnchorSnapshot>,
    pub observations: u64,
    pub eligible_observations: u64,
    pub anchor_integrity_violations: u64,
    pub stats: Seq<HorizonStats>,
}

/// Accumulates residual-convergence evidence from book tickers and mark
/// prices against the symbols' anchors.
pub struct EvidenceAccumulator {
    anchor_authority_passed: bool,
    config: EvidenceConfig,
    quotes: SortedMap<QuoteState>,
    pending: SortedMap<Vec<EvidencePoint>>,
    last_anchors: SortedMap<AnchorSnapshot>,
    observations: u64,
    eligible_observations: u64,
    anchor_integrity_violations: u64,
    stats: Vec<HorizonStats>,
}

pub open spec fn no_quote() -> QuoteState {
    QuoteState { bid: None, ask: None, index: None, event_time_ms: 0 }
}

/// The quote of a symbol once a book ticker or mark price of it is seen.
pub open spec fn quote_after(q: QuoteState, event: BinanceMarketEvent) -> QuoteState {
    match event {
        BinanceMarketEvent::BookTicker(b) => QuoteState {
            bid: Some(b.bid_price.0),
            ask: Some(b.ask_price.0),
            index: q.index,
            event_time_ms: if q.event_time_ms >= b.event_time_ms {
                q.event_time_ms
            } else {
                b.event_time_ms
            },
        },
        BinanceMarketEvent::MarkPrice(m) => QuoteState {
            bid: q.bid,
            ask: q.ask,
            index: Some(m.index_price.0),
            event_time_ms: if q.event_time_ms >= m.event_time_ms {
                q.event_time_ms
            } else {
                m.event_time_ms
            },
        },
        _ => q,
    }
}

/// The symbol and event time of a book ticker or mark price.
pub open spec fn quoted(event: BinanceMarketEvent) -> Option<(Seq<char>, u64)> {
    match event {
        BinanceMarketEvent::BookTicker(b) => Some((b.symbol@, b.event_time_ms)),
        BinanceMarketEvent::MarkPrice(m) => Some((m.symbol@, m.event_time_ms)),
        _ => None,
    }
}

/// The state once a flush of `key` has run.
pub open spec fn flush_spec(a: EvidenceView, key: Seq<u8>, symbol: Seq<char>, now: u64, price: i64, index: i64) -> (
    EvidenceView,
    Seq<RecordView>,
) {
    if !a.pending.contains_key(key) {
        (a, Seq::empty())
    } else {
        let q = a.pending[key];
        let recs = queue_records(symbol, q, a.horizons, now, price, index);
        (
            EvidenceView {
                pending: a.pending.insert(key, drop_finished(advanced_all(q, a.horizons, now), a.horizons.len())),
                stats: apply_records(a.stats, a.horizons, recs),
                ..a
            },
            recs,
        )
    }
}

/// Everything an observation does before its flush, and the flush it
/// ends with (symbol key, symbol, time, price and index), if any.
pub open spec fn observe_stage(
    a: EvidenceView,
    event: BinanceMarketEvent,
    received_at_ms: u64,
    anchors: Map<Seq<u8>, AnchorSnapshot>,
) -> (EvidenceView, Option<(Seq<u8>, Seq<char>, u64, i64, i64)>) {
    match quoted(event) {
        None => (a, None),
        Some((raw_symbol, event_time)) => {
            let symbol = upper_chars(raw_symbol);
            let key = utf8(symbol);
            let q0 = if a.quotes.contains_key(key) {
                a.quotes[key]
            } else {
                no_quote()
            };
            let q1 = quote_after(q0, event);
            let now = if event_time > 0 {
                event_time
            } else {
                received_at_ms
            };
            let a1 = EvidenceView {
                quotes: a.quotes.insert(key, q1),
                observations: sat_u64(a.observations + 1) as u64,
                ..a
            };
            if !anchors.contains_key(key) {
                (a1, None)
            } else {
                let anchor = anchors[key];
                let violation = a.last_anchors.contains_key(key) && a.last_anchors[key].observed_at_ms
                    == anchor.observed_at_ms && a.last_anchors[key].close_price_ticks != anchor.close_price_ticks;
                let a2 = EvidenceView {
                    last_anchors: a1.last_anchors.insert(key, anchor),
                    anchor_integrity_violations: if violation {
                        sat_u64(a1.anchor_integrity_violations + 1) as u64
                    } else {
                        a1.anchor_integrity_violations
                    },
                    ..a1
                };
                match (q1.bid, q1.ask, q1.index) {
                    (Some(bid), Some(ask), Some(index)) => {
                        let price = trunc_div(sat_i64(bid + ask), 2) as i64;
                        if price <= 0 || anchor.close_price_ticks <= 0 || index <= 0 {
                            (a2, None)
                        } else {
                            let residual = basis_spec(price as int, anchor.close_price_ticks as int) as i64;
                            if abs_int(residual as int) < a.min_abs_residual_bps {
                                (a2, Some((key, symbol, now, price, index)))
                            } else {
                                let point = PointView {
                                    event_time_ms: now,
                                    episode_id: symbol + ":"@ + crate::text::dec_chars(anchor.observed_at_ms as nat),
                                    anchor_ticks: anchor.close_price_ticks,
                                    price_ticks: price,
                                    index_ticks: index,
                                    residual_bps: residual,
                                    done: Seq::empty(),
                                };
                                let old_q = if a2.pending.contains_key(key) {
                                    a2.pending[key]
                                } else {
                                    Seq::empty()
                                };
                                let pushed = old_q.push(point);
                                let cap: int = if a.max_pending_points_per_symbol >= 1 {
                                    a.max_pending_points_per_symbol as int
                                } else {
                                    1
                                };
                                let kept = if pushed.len() > cap {
                                    pushed.subrange(pushed.len() - cap, pushed.len() as int)
                                } else {
                                    pushed
                                };
                                let a3 = EvidenceView {
                                    pending: a2.pending.insert(key, kept),
                                    eligible_observations: sat_u64(a2.eligible_observations + 1) as u64,
                                    ..a2
                                };
                                (a3, Some((key, symbol, now, price, index)))
                            }
                        }
                    },
                    _ => (a2, None),
                }
            }
        },
    }
}

/// The state after an observation, and the records it reports.
pub open spec fn observe_spec(
    a: EvidenceView,
    event: BinanceMarketEvent,
    received_at_ms: u64,
    anchors: Map<Seq<u8>, AnchorSnapshot>,
) -> (EvidenceView, Seq<RecordView>) {
    let (b, f) = observe_stage(a, event, received_at_ms, anchors);
    match f {
        None => (b, Seq::empty()),
        Some((key, symbol, now, price, index)) => flush_spec(b, key, symbol, now, price, index),
    }
}

/// The observation's flush computes without overflow.
pub open spec fn observe_fits(
    a: EvidenceView,
    event: BinanceMarketEvent,
    received_at_ms: u64,
    anchors: Map<Seq<u8>, AnchorSnapshot>,
) -> bool {
    let (b, f) = observe_stage(a, event, received_at_ms, anchors);
    match f {
        None => true,
        Some((key, symbol, now, price, index)) => b.pending.contains_key(key) ==> flush_fits(
            b.pending[key],
            b.horizons,
            now,
            price,
            b.stats,
        ),
    }
}

pub open spec fn pending_view(m: Map<Seq<u8>, Vec<EvidencePoint>>) -> Map<Seq<u8>, Seq<PointView>> {
    m.map_values(|q: Vec<EvidencePoint>| points_view(q@))
}

fn copy_points(q: &Vec<EvidencePoint>) -> (r: Vec<EvidencePoint>)
    ensures
        points_view(r@) == points_view(q@),
{
    let mut out: Vec<EvidencePoint> = Vec::new();
    let mut i: usize = 0;
    while i < q.len()
        invariant
            i <= q@.len(),
            points_view(out@) == points_view(q@.subrange(0, i as int)),
        decreases q@.len() - i,
    {
        let ghost before = points_view(out@);
        out.push(q[i].copy());
        proof {
            assert(points_view(out@) =~= before.push(q@[i as int].view()));
            assert(points_view(q@.subrange(0, i + 1)) =~= points_view(q@.subrange(0, i as int)).push(q@[i as int].view()));
        }
        i = i + 1;
    }
    assert(q@.subrange(0, q@.len() as int) =~= q@);
    out
}

impl EvidenceAccumulator {
    pub closed spec fn view(&self) -> EvidenceView {
        EvidenceView {
            anchor_authority_passed: self.anchor_authority_passed,
            horizons: self.config.horizons_ms@,
            min_abs_residual_bps: self.config.min_abs_residual_bps,
            max_pending_points_per_symbol: self.config.max_pending_points_per_symbol,
            quotes: self.quotes.as_map(),
            pending: pending_view(self.pending.as_map()),
            last_anchors: self.last_anchors.as_map(),
            observations: self.observations,
            eligible_observations: self.eligible_observations,
            anchor_integrity_violations: self.anchor_integrity_violations,
            stats: self.stats@,
        }
    }

    /// The horizons are ascending, non-empty, one statistic each.
    pub closed spec fn wf(&self) -> bool {
        &&& self.quotes.wf()
        &&& self.pending.wf()
        &&& self.last_anchors.wf()
        &&& strictly_increasing(self.config.horizons_ms@)
        &&& self.config.horizons_ms@.len() > 0
        &&& self.stats@.len() == self.config.horizons_ms@.len()
    }

    /// A fresh accumulator: no authority yet, nothing observed, the
    /// configured horizons ascending without repeats (one second when none
    /// are configured).
    pub fn new(config: EvidenceConfig) -> (r: Self)
        ensures
            r.wf(),
            !r.view().anchor_authority_passed,
            normalized_horizons(r.view().horizons, config.horizons_ms@),
            r.view().min_abs_residual_bps == config.min_abs_residual_bps,
            r.view().max_pending_points_per_symbol == config.max_pending_points_per_symbol,
            r.view().quotes == Map::<Seq<u8>, QuoteState>::empty(),
            r.view().pending == Map::<Seq<u8>, Seq<PointView>>::empty(),
            r.view().last_anchors == Map::<Seq<u8>, AnchorSnapshot>::empty(),
            r.view().observations == 0,
            r.view().eligible_observations == 0,
            r.view().anchor_integrity_violations == 0,
            r.view().stats == Seq::new(r.view().horizons.len(), |k: int| (0u64, 0u64, 0i128, 0i128, 0i128)),
    {
        let horizons = normalize_horizons(&config.horizons_ms);
        let mut stats: Vec<HorizonStats> = Vec::new();
        let mut k: usize = 0;
        while k < horizons.len()
            invariant
                k <= horizons@.len(),
                stats@ == Seq::new(k as nat, |t: int| (0u64, 0u64, 0i128, 0i128, 0i128)),
            decreases horizons@.len() - k,
        {
            stats.push((0, 0, 0, 0, 0));
            proof {
                assert(stats@ =~= Seq::new((k + 1) as nat, |t: int| (0u64, 0u64, 0i128, 0i128, 0i128)));
            }
            k = k + 1;
        }
        proof {
            if horizons@.len() == 0 {
                if config.horizons_ms@.len() > 0 {
                    assert(config.horizons_ms@.to_set().contains(config.horizons_ms@[0]));
                    assert(horizons@.to_set().contains(config.horizons_ms@[0]));
                }
            }
        }
        let empty_pending: SortedMap<Vec<EvidencePoint>> = SortedMap::new();
        proof {
            assert(pending_view(empty_pending.as_map()) =~= Map::<Seq<u8>, Seq<PointView>>::empty());
        }
        EvidenceAccumulator {
            anchor_authority_passed: false,
            config: EvidenceConfig {
                horizons_ms: horizons,
                min_abs_residual_bps: config.min_abs_residual_bps,
                max_pending_points_per_symbol: config.max_pending_points_per_symbol,
            },
            quotes: SortedMap::new(),
            pending: empty_pending,
            last_anchors: SortedMap::new(),
            observations: 0,
            eligible_observations: 0,
            anchor_integrity_violations: 0,
            stats,
        }
    }

    /// Records whether the anchors have passed their authority check.
    pub fn set_anchor_authority(&mut self, passed: bool)
        requires
            old(self).wf(),
        ensures
            final(self).wf(),
            final(self).view() == (EvidenceView { anchor_authority_passed: passed, ..old(self).view() }),
    {
        self.anchor_authority_passed = passed;
    }

    pub fn evidence_id(&self) -> (r: String)
        ensures
            r@ == "anchorbell-evidence-v1"@,
    {
        owned("anchorbell-evidence-v1")
    }

    /// Runs the flush of one symbol's queue.
    fn flush_due(&mut self, symbol: &String, now: u64, price: i64, index: i64) -> (r: Vec<EvidenceRecord>)
        requires
            old(self).wf(),
            old(self).view().pending.contains_key(utf8(symbol@)) ==> flush_fits(
                old(self).view().pending[utf8(symbol@)],
                old(self).view().horizons,
                now,
                price,
                old(self).view().stats,
            ),
        ensures
            final(self).wf(),
            (final(self).view(), records_view(r@)) == flush_spec(old(self).view(), utf8(symbol@), symbol@, now, price, index),
    {
        match self.pending.find(symbol.as_str()) {
            None => {
                let none: Vec<EvidenceRecord> = Vec::new();
                proof {
                    assert(!self.view().pending.contains_key(utf8(symbol@)));
                    assert(records_view(none@) =~= Seq::<RecordView>::empty());
                }
                none
            },
            Some(i) => {
                let ghost key = utf8(symbol@);
                let ghost before = self.view();
                proof {
                    self.pending.lemma_entry_in_map(i as int);
                    assert(self.pending.as_map()[key] == self.pending.entries()[i as int].1);
                    assert(before.pending.contains_key(key));
                    assert(before.pending[key] == points_view(self.pending.entries()[i as int].1@));
                }
                let (queue, records) = flush_queue(
                    self.pending.value_at(i),
                    &self.config.horizons_ms,
                    symbol.as_str(),
                    now,
                    price,
                    index,
                    &mut self.stats,
                );
                let ghost old_map = self.pending.as_map();
                self.pending.set_value(i, queue);
                proof {
                    assert(pending_view(self.pending.as_map()) =~= pending_view(old_map).insert(key, points_view(queue@)));
                }
                records
            },
        }
    }
}

fn quote_with(q0: QuoteState, event: &BinanceMarketEvent) -> (r: QuoteState)
    ensures
        r == quote_after(q0, *event),
{
    match event {
        BinanceMarketEvent::BookTicker(b) => QuoteState {
            bid: Some(b.bid_price.0),
            ask: Some(b.ask_price.0),
            index: q0.index,
            event_time_ms: max_u64(q0.event_time_ms, b.event_time_ms),
        },
        BinanceMarketEvent::MarkPrice(m) => QuoteState {
            bid: q0.bid,
            ask: q0.ask,
            index: Some(m.index_price.0),
            event_time_ms: max_u64(q0.event_time_ms, m.event_time_ms),
        },
        _ => q0,
    }
}

impl EvidenceAccumulator {
    /// Takes in one market event. A book ticker or mark price updates its
    /// symbol's quote and counts as an observation; with an anchor for the
    /// symbol and a complete, positive quote, a residual at least the
    /// configured minimum starts a new episode point, and every pending
    /// horizon of the symbol that has passed is reported.
    pub fn observe(
        &mut self,
        event: &BinanceMarketEvent,
        received_at_ms: u64,
        anchors: &SortedMap<AnchorSnapshot>,
    ) -> (r: Vec<EvidenceRecord>)
        requires
            old(self).wf(),
            anchors.wf(),
            observe_fits(old(self).view(), *event, received_at_ms, anchors.as_map()),
        ensures
            final(self).wf(),
            (final(self).view(), records_view(r@)) == observe_spec(
                old(self).view(),
                *event,
                received_at_ms,
                anchors.as_map(),
            ),
    {
        let ghost a = self.view();
        let ghost amap = anchors.as_map();
        let (symbol, event_time) = match event {
            BinanceMarketEvent::BookTicker(b) => (to_upper(b.symbol.as_str()), b.event_time_ms),
            BinanceMarketEvent::MarkPrice(m) => (to_upper(m.symbol.as_str()), m.event_time_ms),
            _ => {
                let none: Vec<EvidenceRecord> = Vec::new();
                assert(records_view(none@) =~= Seq::<RecordView>::empty());
                return none;
            },
        };
        let ghost key = utf8(symbol@);
        let ghost parts = quoted(*event)->0;
        let ghost raw = parts.0;
        proof {
            assert(symbol@ == upper_chars(raw));
        }
        let q0 = match self.quotes.get(symbol.as_str()) {
            Some(q) => *q,
            None => QuoteState { bid: None, ask: None, index: None, event_time_ms: 0 },
        };
        proof {
            assert(q0 == if a.quotes.contains_key(key) {
                a.quotes[key]
            } else {
                no_quote()
            });
        }
        let q1 = quote_with(q0, event);
        self.quotes.insert(symbol.clone(), q1);
        let now = if event_time > 0 {
            event_time
        } else {
            received_at_ms
        };
        self.observations = sat_add_u64(self.observations, 1);
        let ghost a1 = self.view();
        proof {
            assert(a1 == EvidenceView {
                quotes: a.quotes.insert(key, q1),
                observations: sat_u64(a.observations + 1) as u64,
                ..a
            });
        }
        let anchor = match anchors.get(symbol.as_str()) {
            Some(found) => *found,
            None => {
                let none: Vec<EvidenceRecord> = Vec::new();
                proof {
                    assert(!amap.contains_key(key));
                    assert(records_view(none@) =~= Seq::<RecordView>::empty());
                    assert(self.view() == observe_stage(a, *event, received_at_ms, amap).0);
                }
                return none;
            },
        };
        let violation = match self.last_anchors.get(symbol.as_str()) {
            Some(previous) => previous.observed_at_ms == anchor.observed_at_ms && previous.close_price_ticks
                != anchor.close_price_ticks,
            None => false,
        };
        if violation {
            self.anchor_integrity_violations = sat_add_u64(self.anchor_integrity_violations, 1);
        }
        self.last_anchors.insert(symbol.clone(), anchor);
        let ghost a2 = self.view();
        proof {
            assert(amap.contains_key(key) && amap[key] == anchor);
            assert(a2 == EvidenceView {
                last_anchors: a1.last_anchors.insert(key, anchor),
                anchor_integrity_violations: if violation {
                    sat_u64(a1.anchor_integrity_violations + 1) as u64
                } else {
                    a1.anchor_integrity_violations
                },
                ..a1
            });
        }
        let (bid, ask, index) = match (q1.bid, q1.ask, q1.index) {
            (Some(b), Some(k), Some(x)) => (b, k, x),
            _ => {
                let none: Vec<EvidenceRecord> = Vec::new();
                proof {
                    assert(records_view(none@) =~= Seq::<RecordView>::empty());
                    assert(self.view() == observe_stage(a, *event, received_at_ms, amap).0);
                }
                return none;
            },
        };
        let price = div_trunc(sat_add_i64(bid, ask) as i128, 2) as i64;
        if price <= 0 || anchor.close_price_ticks <= 0 || index <= 0 {
            let none: Vec<EvidenceRecord> = Vec::new();
            proof {
                assert(records_view(none@) =~= Seq::<RecordView>::empty());
                assert(self.view() == observe_stage(a, *event, received_at_ms, amap).0);
            }
            return none;
        }
        let residual = basis_bps(price, anchor.close_price_ticks);
        let small = match abs_i64_checked(residual) {
            Some(v) => v < self.config.min_abs_residual_bps,
            None => false,
        };
        if !small {
            self.eligible_observations = sat_add_u64(self.eligible_observations, 1);
            let mut episode_id = owned(symbol.as_str());
            episode_id.append(":");
            episode_id.append(u64_to_dec(anchor.observed_at_ms).as_str());
            let mut queue = match self.pending.get(symbol.as_str()) {
                Some(q) => copy_points(q),
                None => Vec::new(),
            };
            let point = EvidencePoint {
                event_time_ms: now,
                episode_id,
                anchor_ticks: anchor.close_price_ticks,
                price_ticks: price,
                index_ticks: index,
                residual_bps: residual,
                done: Vec::new(),
            };
            proof {
                let old_q: Seq<PointView> = if a2.pending.contains_key(key) {
                    a2.pending[key]
                } else {
                    Seq::empty()
                };
                assert(points_view(queue@) == old_q) by {
                    if a2.pending.contains_key(key) {
                        assert(self.pending.as_map().contains_key(key));
                        assert(a2.pending[key] == points_view(self.pending.as_map()[key]@));
                    } else {
                        assert(points_view(queue@) =~= Seq::<PointView>::empty());
                    }
                }
                assert(point.view() == PointView {
                    event_time_ms: now,
                    episode_id: symbol@ + ":"@ + crate::text::dec_chars(anchor.observed_at_ms as nat),
                    anchor_ticks: anchor.close_price_ticks,
                    price_ticks: price,
                    index_ticks: index,
                    residual_bps: residual,
                    done: Seq::empty(),
                });
            }
            let ghost pushed = points_view(queue@).push(point.view());
            queue.push(point);
            proof {
                assert(points_view(queue@) =~= pushed);
            }
            let cap = if self.config.max_pending_points_per_symbol >= 1 {
                self.config.max_pending_points_per_symbol
            } else {
                1
            };
            let ghost full_len = queue@.len();
            while queue.len() > cap
                invariant
                    cap >= 1,
                    full_len == pushed.len(),
                    full_len > cap ==> queue@.len() >= cap,
                    full_len <= cap ==> queue@.len() == full_len,
                    queue@.len() <= full_len,
                    points_view(queue@) == pushed.subrange(full_len - queue@.len(), full_len as int),
                decreases queue@.len(),
            {
                let ghost before = queue@;
                queue.remove(0);
                proof {
                    assert(queue@ =~= before.subrange(1, before.len() as int));
                    assert forall|k: int| 0 <= k < queue@.len() implies points_view(queue@)[k] == pushed.subrange(
                        full_len - queue@.len(),
                        full_len as int,
                    )[k] by {
                        assert(queue@[k] == before[k + 1]);
                        assert(points_view(before)[k + 1] == pushed[full_len - before.len() + k + 1]);
                    }
                    assert(points_view(queue@) =~= pushed.subrange(full_len - queue@.len(), full_len as int));
                }
            }
            let ghost old_map = self.pending.as_map();
            self.pending.insert(symbol.clone(), queue);
            proof {
                assert(pending_view(self.pending.as_map()) =~= pending_view(old_map).insert(key, points_view(queue@)));
                if pushed.len() <= cap {
                    assert(pushed.subrange(0, pushed.len() as int) =~= pushed);
                }
                let kept = if pushed.len() > cap as int {
                    pushed.subrange(pushed.len() - cap as int, pushed.len() as int)
                } else {
                    pushed
                };
                assert(points_view(queue@) == kept);
                assert(self.view() == EvidenceView {
                    pending: a2.pending.insert(key, kept),
                    eligible_observations: sat_u64(a2.eligible_observations + 1) as u64,
                    ..a2
                });
            }
        }
        proof {
            assert(price == trunc_div(sat_i64(bid + ask), 2) as i64);
            assert(residual == basis_spec(price as int, anchor.close_price_ticks as int) as i64);
            assert(small == (abs_int(residual as int) < a.min_abs_residual_bps));
            assert(observe_stage(a, *event, received_at_ms, amap).1 == Some((key, symbol@, now, price, index)));
            assert(observe_stage(a, *event, received_at_ms, amap).0 == self.view());
        }
        self.flush_due(&symbol, now, price, index)
    }
}

/// The evidence level an accumulator has reached: nothing observed, only
/// observed, or eligible observations.
pub open spec fn evidence_state_of(a: EvidenceView) -> EvidenceState {
    if a.observations == 0 {
        EvidenceState::X0NoData
    } else if a.eligible_observations == 0 {
        EvidenceState::X1Observed
    } else {
        EvidenceState::X2Eligible
    }
}

/// The status: an invalid reference until the anchors' authority passes,
/// then insufficient data until an eligible observation, then
/// observational.
pub open spec fn status_of(a: EvidenceView) -> Seq<char> {
    if !a.anchor_authority_passed {
        "invalid_reference"@
    } else if a.eligible_observations == 0 {
        "insufficient_data"@
    } else {
        "observational"@
    }
}

pub open spec fn horizon_summary(h: u64, st: HorizonStats) -> EvidenceHorizonSummary {
    EvidenceHorizonSummary {
        horizon_ms: h,
        samples: st.0,
        improved: st.1,
        mean_signed_improvement_bps: mean_spec(st.2 as int, st.0 as int) as i64,
        mean_price_index_change_bps: mean_spec(st.3 as int, st.0 as int) as i64,
        mean_index_anchor_change_bps: mean_spec(st.4 as int, st.0 as int) as i64,
    }
}

impl EvidenceAccumulator {
    /// The evidence so far: its level and status, the counts, and for each
    /// horizon its samples, improved samples and mean changes.
    pub fn summary(&self) -> (r: EvidenceSummary)
        requires
            self.wf(),
        ensures
            r.evidence_id@ == "anchorbell-evidence-v1"@,
            r.methodology_id@ == "anchorbell-analytics-methods-v1"@,
            r.evidence_state == evidence_state_of(self.view()),
            r.anchor_authority_passed == self.view().anchor_authority_passed,
            r.status@ == status_of(self.view()),
            r.anchor_semantics@ == "configured AnchorSnapshot; external-close transformation is caller-owned"@,
            r.price_semantics@ == "best_bid_ask_mid (not last trade)"@,
            r.index_semantics@ == "Binance MarkPrice.index_price"@,
            r.mark_semantics@ == "Binance MarkPrice.mark_price (used for feed state, not substituted for index)"@,
            r.observations == self.view().observations,
            r.eligible_observations == self.view().eligible_observations,
            r.anchor_integrity_violations == self.view().anchor_integrity_violations,
            r.horizons@ == Seq::new(
                self.view().horizons.len(),
                |k: int| horizon_summary(self.view().horizons[k], self.view().stats[k]),
            ),
            r.price_discovery_status@ == "not_available_in_live_simulation"@,
            r.economic_edge_status@ == "evaluated_per_ledger"@,
            r.survival_status@ == "evaluated_per_ledger"@,
    {
        let hs = &self.config.horizons_ms;
        let mut horizons: Vec<EvidenceHorizonSummary> = Vec::new();
        let mut k: usize = 0;
        while k < hs.len()
            invariant
                hs@ == self.view().horizons,
                self.stats@.len() == hs@.len(),
                k <= hs@.len(),
                horizons@ == Seq::new(k as nat, |t: int| horizon_summary(hs@[t], self.stats@[t])),
            decreases hs@.len() - k,
        {
            let st = self.stats[k];
            horizons.push(
                EvidenceHorizonSummary {
                    horizon_ms: hs[k],
                    samples: st.0,
                    improved: st.1,
                    mean_signed_improvement_bps: mean_i128(st.2, st.0),
                    mean_price_index_change_bps: mean_i128(st.3, st.0),
                    mean_index_anchor_change_bps: mean_i128(st.4, st.0),
                },
            );
            proof {
                assert(horizons@ =~= Seq::new((k + 1) as nat, |t: int| horizon_summary(hs@[t], self.stats@[t])));
            }
            k = k + 1;
        }
        let evidence_state = if self.observations == 0 {
            EvidenceState::X0NoData
        } else if self.eligible_observations == 0 {
            EvidenceState::X1Observed
        } else {
            EvidenceState::X2Eligible
        };
        let status = if !self.anchor_authority_passed {
            "invalid_reference"
        } else if self.eligible_observations == 0 {
            "insufficient_data"
        } else {
            "observational"
        };
        EvidenceSummary {
            evidence_id: self.evidence_id(),
            methodology_id: owned("anchorbell-analytics-methods-v1"),
            evidence_state,
            anchor_authority_passed: self.anchor_authority_passed,
            status: owned(status),
            anchor_semantics: owned("configured AnchorSnapshot; external-close transformation is caller-owned"),
            price_semantics: owned("best_bid_ask_mid (not last trade)"),
            index_semantics: owned("Binance MarkPrice.index_price"),
            mark_semantics: owned("Binance MarkPrice.mark_price (used for feed state, not substituted for index)"),
            observations: self.observations,
            eligible_observations: self.eligible_observations,
            anchor_integrity_violations: self.anchor_integrity_violations,
            horizons,
            price_discovery_status: owned("not_available_in_live_simulation"),
            economic_edge_status: owned("evaluated_per_ledger"),
            survival_status: owned("evaluated_per_ledger"),
        }
    }
}

/// No status claims observational evidence before the anchors' authority
/// has passed.
pub proof fn law_no_observational_claim_without_authority(a: EvidenceView)
    requires
        !a.anchor_authority_passed,
    ensures
        status_of(a) == "invalid_reference"@,
{
}

/// A horizon reported for a point is never due for it again: each horizon
/// of each episode point is reported at most once.
pub proof fn law_horizons_are_reported_once(p: PointView, hs: Seq<u64>, now: u64, later: u64, h: u64)
    requires
        due_horizons(p, hs, now).contains(h),
    ensures
        !due(advanced(p, hs, now), h, later),
{
    let d = due_horizons(p, hs, now);
    let k = choose|k: int| 0 <= k < d.len() && d[k] == h;
    assert(advanced(p, hs, now).done[p.done.len() + k] == h);
}

/// A record reported at `now` for `symbol`: it names the symbol and one of
/// the horizons, ends at `now`, once that horizon has elapsed since its
/// start, and its improvement is the residual's move toward zero.
pub open spec fn reported_well(r: RecordView, symbol: Seq<char>, hs: Seq<u64>, now: u64) -> bool {
    &&& r.symbol == symbol
    &&& hs.contains(r.horizon_ms)
    &&& r.end_event_time_ms == now
    &&& now >= sat_u64(r.start_event_time_ms + r.horizon_ms)
    &&& r.signed_improvement_bps == (-signum(r.residual_start_bps as int) * (r.residual_end_bps - r.residual_start_bps)) as i64
}

proof fn lemma_due_horizons_due(p: PointView, hs: Seq<u64>, now: u64)
    ensures
        forall|k: int|
            0 <= k < due_horizons(p, hs, now).len() ==> hs.contains(#[trigger] due_horizons(p, hs, now)[k]) && due(
                p,
                due_horizons(p, hs, now)[k],
                now,
            ),
    decreases hs.len(),
{
    if hs.len() > 0 {
        lemma_due_horizons_due(p, hs.drop_last(), now);
        let d0 = due_horizons(p, hs.drop_last(), now);
        let d = due_horizons(p, hs, now);
        assert forall|k: int| 0 <= k < d.len() implies hs.contains(#[trigger] d[k]) && due(p, d[k], now) by {
            if k < d0.len() {
                assert(d[k] == d0[k]);
                assert(hs.drop_last().contains(d0[k]));
                let j = choose|j: int| 0 <= j < hs.drop_last().len() && hs.drop_last()[j] == d0[k];
                assert(hs[j] == d0[k]);
            } else {
                assert(d[k] == hs.last());
                assert(hs[hs.len() - 1] == hs.last());
            }
        }
    }
}

proof fn lemma_horizon_records_well(
    symbol: Seq<char>,
    p: PointView,
    ds: Seq<u64>,
    hs: Seq<u64>,
    now: u64,
    price: i64,
    index: i64,
)
    requires
        forall|k: int| 0 <= k < ds.len() ==> hs.contains(#[trigger] ds[k]) && due(p, ds[k], now),
    ensures
        forall|i: int|
            0 <= i < records_of_horizons(symbol, p, ds, now, price, index).len() ==> reported_well(
                #[trigger] records_of_horizons(symbol, p, ds, now, price, index)[i],
                symbol,
                hs,
                now,
            ),
    decreases ds.len(),
{
    if ds.len() > 0 {
        lemma_horizon_records_well(symbol, p, ds.drop_last(), hs, now, price, index);
        let rs0 = records_of_horizons(symbol, p, ds.drop_last(), now, price, index);
        let rs = records_of_horizons(symbol, p, ds, now, price, index);
        let last = record_spec(symbol, p, ds.last(), now, price, index);
        assert(ds[ds.len() - 1] == ds.last());
        assert(reported_well(last, symbol, hs, now));
        assert forall|i: int| 0 <= i < rs.len() implies reported_well(#[trigger] rs[i], symbol, hs, now) by {
            if i < rs0.len() {
                assert(rs[i] == rs0[i]);
            }
        }
    }
}

proof fn lemma_queue_records_well(symbol: Seq<char>, q: Seq<PointView>, hs: Seq<u64>, now: u64, price: i64, index: i64)
    ensures
        forall|i: int|
            0 <= i < queue_records(symbol, q, hs, now, price, index).len() ==> reported_well(
                #[trigger] queue_records(symbol, q, hs, now, price, index)[i],
                symbol,
                hs,
                now,
            ),
    decreases q.len(),
{
    if q.len() > 0 {
        lemma_queue_records_well(symbol, q.drop_last(), hs, now, price, index);
        lemma_due_horizons_due(q.last(), hs, now);
        let ds = due_horizons(q.last(), hs, now);
        lemma_horizon_records_well(symbol, q.last(), ds, hs, now, price, index);
        let a = queue_records(symbol, q.drop_last(), hs, now, price, index);
        let b = records_of_horizons(symbol, q.last(), ds, now, price, index);
        let all = queue_records(symbol, q, hs, now, price, index);
        assert(all == a + b);
        assert forall|i: int| 0 <= i < all.len() implies reported_well(#[trigger] all[i], symbol, hs, now) by {
            if i < a.len() {
                assert(all[i] == a[i]);
            } else {
                assert(all[i] == b[i - a.len()]);
            }
        }
    }
}

/// An event other than a book ticker or a mark price changes nothing and
/// reports nothing. A quote counts one more observation, and every record
/// it reports names the upper-cased symbol and one of the configured
/// horizons, ends at the event's time (its receipt time when the event
/// carries none) once that horizon has elapsed since the record's start,
/// and scores the residual's move toward zero.
pub proof fn law_observation_records(
    a: EvidenceView,
    event: BinanceMarketEvent,
    received_at_ms: u64,
    anchors: Map<Seq<u8>, AnchorSnapshot>,
)
    ensures
        quoted(event) is None ==> observe_spec(a, event, received_at_ms, anchors) == (a, Seq::<RecordView>::empty()),
        quoted(event) matches Some((raw, t)) ==> ({
            let (b, rs) = observe_spec(a, event, received_at_ms, anchors);
            let now = if t > 0 {
                t
            } else {
                received_at_ms
            };
            &&& b.observations == sat_u64(a.observations + 1)
            &&& b.horizons == a.horizons
            &&& forall|i: int| 0 <= i < rs.len() ==> reported_well(#[trigger] rs[i], upper_chars(raw), a.horizons, now)
        }),
{
    let (b, f) = observe_stage(a, event, received_at_ms, anchors);
    match f {
        None => {},
        Some((key, symbol, now, price, index)) => {
            if b.pending.contains_key(key) {
                lemma_queue_records_well(symbol, b.pending[key], b.horizons, now, price, index);
            }
        },
    }
}

} // verus!
