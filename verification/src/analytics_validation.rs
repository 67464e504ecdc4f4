//! Validation methods for the analytics: contract transforms, rule regimes,
//! competing risks, clustered bootstrap, the evidence ladder, a latent-state
//! filter, and the verdicts and promotion gate built on them.
use crate::keyed::{key_of, SortedMap};
use crate::num::{
    abs_int, clamp_int, clamp_to_i64, div_trunc, div_trunc_signed, max_int, min_int, sat_i64,
    trunc_div,
};
use crate::stats::{ascending, sort_ascending, sum_i64, sum_values};
use crate::text::owned;
use vstd::prelude::*;

verus! {

#[derive(Debug, Clone, Copy, PartialEq, Eq, Structural)]
pub enum AnchorKind {
    FrozenClose,
    SessionOpen,
    ExternalReference,
}

#[derive(Debug, Clone)]
pub struct ContractTransform {
    pub price_scale: u32,
    pub quote_currency: String,
    pub multiplier: i64,
    pub inverse: bool,
}

impl ContractTransform {
    pub open spec fn valid(&self) -> bool {
        self.price_scale <= 18 && self.multiplier > 0 && self.quote_currency@.len() > 0
    }

    /// Ticks in the contract's terms: scaled by the multiplier, or, for an
    /// inverse contract, 10^18 times the multiplier divided by the scaled
    /// value; saturated into `i64`.
    pub open spec fn transform_spec(&self, value: i64) -> Option<i64> {
        let scaled = value * self.multiplier;
        if !self.valid() {
            None
        } else if self.inverse {
            if scaled == 0 {
                None
            } else {
                Some(sat_i64(trunc_div(1_000_000_000_000_000_000 * self.multiplier, scaled)) as i64)
            }
        } else {
            Some(sat_i64(scaled) as i64)
        }
    }

    pub fn validate(&self) -> (r: Result<(), &'static str>)
        ensures
            r is Ok <==> self.valid(),
            r matches Err(m) ==> m@ == "invalid contract transform"@,
    {
        if self.price_scale > 18 || self.multiplier <= 0 || self.quote_currency.as_str().is_empty() {
            return Err("invalid contract transform");
        }
        Ok(())
    }

    pub fn transform_ticks(&self, value: i64) -> (r: Option<i64>)
        ensures
            r == self.transform_spec(value),
    {
        if self.validate().is_err() {
            return None;
        }
        let m = self.multiplier as i128;
        assert((value as int) * (m as int) <= 9223372036854775808 * 9223372036854775808) by (nonlinear_arith)
            requires
                -9223372036854775808 <= value <= 9223372036854775807,
                0 < m <= 9223372036854775807,
        ;
        assert((value as int) * (m as int) >= -9223372036854775808 * 9223372036854775807) by (nonlinear_arith)
            requires
                -9223372036854775808 <= value <= 9223372036854775807,
                0 < m <= 9223372036854775807,
        ;
        let scaled: i128 = value as i128 * m;
        if self.inverse {
            if scaled == 0 {
                return None;
            }
            assert(1_000_000_000_000_000_000 * (m as int) <= 1_000_000_000_000_000_000 * 9223372036854775807) by (nonlinear_arith)
                requires
                    0 < m <= 9223372036854775807,
            ;
            let numerator: i128 = 1_000_000_000_000_000_000i128 * m;
            Some(clamp_to_i64(div_trunc_signed(numerator, scaled)))
        } else {
            Some(clamp_to_i64(scaled))
        }
    }
}

#[derive(Debug, Clone)]
pub struct RuleRegime {
    pub regime_id: String,
    pub venue: String,
    pub contract_type: String,
    pub fee_ppm: i64,
    pub tick_size_ticks: i64,
    pub lot_size: i64,
    pub maker_only: bool,
    pub effective_from_ms: u64,
    pub effective_to_ms: Option<u64>,
}

impl RuleRegime {
    /// A regime applies at a time within its effective window, when it is
    /// identified and its fee, tick and lot are sane.
    pub fn valid_at(&self, timestamp_ms: u64) -> (r: bool)
        ensures
            r == (self.regime_id@.len() > 0 && self.venue@.len() > 0 && self.fee_ppm >= 0
                && self.tick_size_ticks > 0 && self.lot_size > 0 && timestamp_ms >= self.effective_from_ms
                && (self.effective_to_ms matches Some(end) ==> timestamp_ms < end)),
    {
        let before_end = match self.effective_to_ms {
            Some(end) => timestamp_ms < end,
            None => true,
        };
        !self.regime_id.as_str().is_empty() && !self.venue.as_str().is_empty() && self.fee_ppm >= 0
            && self.tick_size_ticks > 0 && self.lot_size > 0 && timestamp_ms >= self.effective_from_ms
            && before_end
    }
}

#[derive(Debug, Clone)]
pub struct AnchorDefinition {
    pub symbol: String,
    pub kind: AnchorKind,
    pub close_price_ticks: i64,
    pub observed_at_ms: u64,
    pub valid_until_ms: u64,
    pub transform: ContractTransform,
    pub rule_regime_id: String,
    pub immutable: bool,
}

impl AnchorDefinition {
    pub open spec fn own_fields_valid(&self) -> bool {
        self.symbol@.len() > 0 && self.close_price_ticks > 0 && self.valid_until_ms > self.observed_at_ms
            && self.rule_regime_id@.len() > 0
    }

    pub fn validate(&self) -> (r: Result<(), &'static str>)
        ensures
            r is Ok <==> self.own_fields_valid() && self.transform.valid(),
            !self.own_fields_valid() ==> (r matches Err(m) && m@ == "invalid anchor definition"@),
            self.own_fields_valid() && !self.transform.valid() ==> (r matches Err(m) && m@
                == "invalid contract transform"@),
    {
        if self.symbol.as_str().is_empty() || self.close_price_ticks <= 0
            || self.valid_until_ms <= self.observed_at_ms || self.rule_regime_id.as_str().is_empty() {
            return Err("invalid anchor definition");
        }
        self.transform.validate()
    }
}

#[derive(Debug, Clone, Copy, PartialEq, Eq, Structural)]
pub enum EpisodeOutcome {
    Converged,
    Adverse,
    Expired,
    Censored,
}

#[derive(Debug, Clone)]
pub struct EpisodeRecord {
    pub episode_id: String,
    pub cluster_id: String,
    pub start_event_time_ms: u64,
    pub end_event_time_ms: u64,
    pub outcome: EpisodeOutcome,
    pub signed_improvement_bps: i64,
}

#[derive(Debug, Clone, Copy, PartialEq, Eq, Structural)]
pub struct CompetingRiskSummary {
    pub total: u64,
    pub converged: u64,
    pub adverse: u64,
    pub expired: u64,
    pub censored: u64,
    pub convergence_rate_ppm: i64,
    pub adverse_rate_ppm: i64,
}

impl Default for CompetingRiskSummary {
    fn default() -> (r: Self)
        ensures
            r == (CompetingRiskSummary {
                total: 0,
                converged: 0,
                adverse: 0,
                expired: 0,
                censored: 0,
                convergence_rate_ppm: 0,
                adverse_rate_ppm: 0,
            }),
    {
        CompetingRiskSummary {
            total: 0,
            converged: 0,
            adverse: 0,
            expired: 0,
            censored: 0,
            convergence_rate_ppm: 0,
            adverse_rate_ppm: 0,
        }
    }
}

/// The number of records with the given outcome.
pub open spec fn count_outcome(records: Seq<EpisodeRecord>, outcome: EpisodeOutcome) -> nat
    decreases records.len(),
{
    if records.len() == 0 {
        0
    } else {
        count_outcome(records.drop_last(), outcome) + if records.last().outcome == outcome { 1nat } else { 0nat }
    }
}

pub proof fn lemma_count_outcome_bound(records: Seq<EpisodeRecord>, outcome: EpisodeOutcome)
    ensures
        count_outcome(records, outcome) <= records.len(),
    decreases records.len(),
{
    if records.len() > 0 {
        lemma_count_outcome_bound(records.drop_last(), outcome);
    }
}

/// Outcome counts of a set of episodes; censored episodes are counted apart
/// and never as converged or adverse, and the rates are per million
/// episodes.
pub fn competing_risk(records: &[EpisodeRecord]) -> (r: CompetingRiskSummary)
    ensures
        r.total == records@.len(),
        r.converged == count_outcome(records@, EpisodeOutcome::Converged),
        r.adverse == count_outcome(records@, EpisodeOutcome::Adverse),
        r.expired == count_outcome(records@, EpisodeOutcome::Expired),
        r.censored == count_outcome(records@, EpisodeOutcome::Censored),
        records@.len() == 0 ==> r.convergence_rate_ppm == 0 && r.adverse_rate_ppm == 0,
        records@.len() > 0 ==> r.convergence_rate_ppm == r.converged * 1_000_000 / (r.total as int)
            && r.adverse_rate_ppm == r.adverse * 1_000_000 / (r.total as int),
{
    let mut summary = CompetingRiskSummary::default();
    let mut i: usize = 0;
    while i < records.len()
        invariant
            i <= records@.len(),
            summary.total == i,
            summary.converged == count_outcome(records@.subrange(0, i as int), EpisodeOutcome::Converged),
            summary.adverse == count_outcome(records@.subrange(0, i as int), EpisodeOutcome::Adverse),
            summary.expired == count_outcome(records@.subrange(0, i as int), EpisodeOutcome::Expired),
            summary.censored == count_outcome(records@.subrange(0, i as int), EpisodeOutcome::Censored),
            summary.convergence_rate_ppm == 0 && summary.adverse_rate_ppm == 0,
        decreases records@.len() - i,
    {
        proof {
            let pre = records@.subrange(0, i as int);
            assert(records@.subrange(0, i + 1).drop_last() =~= pre);
            lemma_count_outcome_bound(pre, EpisodeOutcome::Converged);
            lemma_count_outcome_bound(pre, EpisodeOutcome::Adverse);
            lemma_count_outcome_bound(pre, EpisodeOutcome::Expired);
            lemma_count_outcome_bound(pre, EpisodeOutcome::Censored);
        }
        summary.total = summary.total + 1;
        match records[i].outcome {
            EpisodeOutcome::Converged => summary.converged = summary.converged + 1,
            EpisodeOutcome::Adverse => summary.adverse = summary.adverse + 1,
            EpisodeOutcome::Expired => summary.expired = summary.expired + 1,
            EpisodeOutcome::Censored => summary.censored = summary.censored + 1,
        }
        i = i + 1;
    }
    assert(records@.subrange(0, records@.len() as int) =~= records@);
    if summary.total > 0 {
        proof {
            lemma_count_outcome_bound(records@, EpisodeOutcome::Converged);
            lemma_count_outcome_bound(records@, EpisodeOutcome::Adverse);
        }
        let total = summary.total as u128;
        let c = summary.converged as u128;
        let a = summary.adverse as u128;
        assert(c * 1_000_000 / (total as int) <= 1_000_000) by (nonlinear_arith)
            requires
                c <= total,
                total > 0,
        ;
        assert(a * 1_000_000 / (total as int) <= 1_000_000) by (nonlinear_arith)
            requires
                a <= total,
                total > 0,
        ;
        summary.convergence_rate_ppm = (c * 1_000_000 / total) as i64;
        summary.adverse_rate_ppm = (a * 1_000_000 / total) as i64;
    }
    summary
}

#[derive(Debug, Clone, Copy, PartialEq, Eq, Structural)]
pub struct BootstrapSummary {
    pub replicates: u32,
    pub cluster_count: u64,
    pub mean_bps: i64,
    pub lower_bps: i64,
    pub upper_bps: i64,
}

impl Default for BootstrapSummary {
    fn default() -> (r: Self)
        ensures
            r == (BootstrapSummary { replicates: 0, cluster_count: 0, mean_bps: 0, lower_bps: 0, upper_bps: 0 }),
    {
        BootstrapSummary { replicates: 0, cluster_count: 0, mean_bps: 0, lower_bps: 0, upper_bps: 0 }
    }
}

/// The cluster keys of a set of episodes.
pub open spec fn cluster_keys(records: Seq<EpisodeRecord>) -> Set<Seq<u8>> {
    records.map_values(|r: EpisodeRecord| key_of(r.cluster_id)).to_set()
}

/// The improvements of the episodes in cluster `k`, in record order.
pub open spec fn cluster_values(records: Seq<EpisodeRecord>, k: Seq<u8>) -> Seq<i64>
    decreases records.len(),
{
    if records.len() == 0 {
        Seq::empty()
    } else {
        let rest = cluster_values(records.drop_last(), k);
        if key_of(records.last().cluster_id) == k {
            rest.push(records.last().signed_improvement_bps)
        } else {
            rest
        }
    }
}

pub proof fn lemma_cluster_values_len(records: Seq<EpisodeRecord>, k: Seq<u8>)
    ensures
        cluster_values(records, k).len() <= records.len(),
    decreases records.len(),
{
    if records.len() > 0 {
        lemma_cluster_values_len(records.drop_last(), k);
    }
}

pub proof fn lemma_cluster_values_absent(records: Seq<EpisodeRecord>, k: Seq<u8>)
    requires
        !cluster_keys(records).contains(k),
    ensures
        cluster_values(records, k) == Seq::<i64>::empty(),
    decreases records.len(),
{
    if records.len() > 0 {
        let keys = records.map_values(|r: EpisodeRecord| key_of(r.cluster_id));
        let prev = records.drop_last().map_values(|r: EpisodeRecord| key_of(r.cluster_id));
        assert(keys[records.len() - 1] == key_of(records.last().cluster_id));
        assert forall|x: Seq<u8>| prev.to_set().contains(x) implies keys.to_set().contains(x) by {
            let j = choose|j: int| 0 <= j < prev.len() && prev[j] == x;
            assert(keys[j] == x);
        }
        lemma_cluster_values_absent(records.drop_last(), k);
    }
}

/// One step of the xorshift generator.
pub open spec fn xorshift(v: u64) -> u64 {
    let a = v ^ (v << 13u64);
    let b = a ^ (a >> 7u64);
    b ^ (b << 17u64)
}

fn xorshift64(value: u64) -> (r: u64)
    ensures
        r == xorshift(value),
{
    let mut v = value;
    v = v ^ (v << 13u64);
    v = v ^ (v >> 7u64);
    v ^ (v << 17u64)
}

/// `t` cluster draws: the sum and count of the drawn values and the
/// generator state after them.
pub open spec fn draws(groups: Seq<Seq<i64>>, rng: u64, t: nat) -> (int, int, u64)
    decreases t,
{
    if t == 0 {
        (0, 0, rng)
    } else {
        let (s, c, r) = draws(groups, rng, (t - 1) as nat);
        let r2 = xorshift(r);
        let g = groups[(r2 as usize) as int % (groups.len() as int)];
        (s + sum_i64(g), c + g.len(), r2)
    }
}

pub open spec fn replicate_mean(sum: int, count: int) -> i64 {
    if count == 0 {
        0
    } else {
        sat_i64(trunc_div(sum, count)) as i64
    }
}

/// The means of `reps` replicates, each drawing as many clusters as there
/// are, with replacement; and the generator state after them.
pub open spec fn replicate_means(groups: Seq<Seq<i64>>, reps: nat, rng: u64) -> (Seq<i64>, u64)
    decreases reps,
{
    if reps == 0 {
        (Seq::empty(), rng)
    } else {
        let (means, r) = replicate_means(groups, (reps - 1) as nat, rng);
        let (s, c, r2) = draws(groups, r, groups.len());
        (means.push(replicate_mean(s, c)), r2)
    }
}

pub open spec fn percentile_index(n: int, ppm: int) -> int {
    (n - 1) * ppm / 1_000_000
}

/// The clustered bootstrap over groups given in cluster order.
pub open spec fn bootstrap_spec(groups: Seq<Seq<i64>>, replicates: u32, seed: u64) -> BootstrapSummary {
    if groups.len() == 0 || replicates == 0 {
        BootstrapSummary { replicates, cluster_count: groups.len() as u64, mean_bps: 0, lower_bps: 0, upper_bps: 0 }
    } else {
        let means = replicate_means(groups, replicates as nat, if seed >= 1 { seed } else { 1 }).0;
        let sorted = ascending(means);
        let n = sorted.len() as int;
        BootstrapSummary {
            replicates,
            cluster_count: groups.len() as u64,
            mean_bps: trunc_div(sum_i64(sorted), n) as i64,
            lower_bps: sorted[percentile_index(n, 25_000)],
            upper_bps: sorted[percentile_index(n, 975_000)],
        }
    }
}

proof fn lemma_draws_bounds(groups: Seq<Seq<i64>>, rng: u64, t: nat, n: nat)
    requires
        groups.len() > 0,
        forall|j: int| 0 <= j < groups.len() ==> (#[trigger] groups[j]).len() <= n,
    ensures
        0 <= draws(groups, rng, t).1 <= t * n,
        draws(groups, rng, t).1 * (i64::MIN as int) <= draws(groups, rng, t).0 <= draws(groups, rng, t).1 * (i64::MAX as int),
    decreases t,
{
    if t > 0 {
        lemma_draws_bounds(groups, rng, (t - 1) as nat, n);
        let (s, c, r) = draws(groups, rng, (t - 1) as nat);
        let r2 = xorshift(r);
        let idx = (r2 as usize) as int % (groups.len() as int);
        let g = groups[idx];
        crate::stats::lemma_sum_bounds(g);
        assert(g.len() <= n);
        assert((t - 1) * n + n == t * n) by (nonlinear_arith);
        assert(c * (i64::MIN as int) + g.len() * (i64::MIN as int) == (c + g.len()) * (i64::MIN as int)) by (nonlinear_arith);
        assert(c * (i64::MAX as int) + g.len() * (i64::MAX as int) == (c + g.len()) * (i64::MAX as int)) by (nonlinear_arith);
    }
}

pub open spec fn group_seqs(m: SortedMap<Vec<i64>>) -> Seq<Seq<i64>> {
    m.entries().map_values(|e: (String, Vec<i64>)| e.1@)
}

/// Groups the improvements by cluster, clusters in ascending key order.
fn group_clusters(records: &[EpisodeRecord]) -> (m: SortedMap<Vec<i64>>)
    ensures
        m.wf(),
        m.keys().to_set() == cluster_keys(records@),
        forall|j: int| 0 <= j < m.entries().len() ==> (#[trigger] m.entries()[j]).1@ == cluster_values(records@, m.keys()[j]),
{
    let mut m: SortedMap<Vec<i64>> = SortedMap::new();
    let mut i: usize = 0;
    while i < records.len()
        invariant
            i <= records@.len(),
            m.wf(),
            m.keys().to_set() == cluster_keys(records@.subrange(0, i as int)),
            forall|j: int| 0 <= j < m.entries().len() ==> (#[trigger] m.entries()[j]).1@ == cluster_values(
                records@.subrange(0, i as int),
                m.keys()[j],
            ),
        decreases records@.len() - i,
    {
        let ghost pre = records@.subrange(0, i as int);
        let ghost next = records@.subrange(0, i + 1);
        let ghost k = key_of(records@[i as int].cluster_id);
        let ghost before = m;
        proof {
            assert(next.drop_last() =~= pre);
            assert(next.last() == records@[i as int]);
            let pk = pre.map_values(|r: EpisodeRecord| key_of(r.cluster_id));
            let nk = next.map_values(|r: EpisodeRecord| key_of(r.cluster_id));
            assert(nk =~= pk.push(k));
            pk.lemma_push_to_set_commute(k);
            assert(cluster_keys(next) == cluster_keys(pre).insert(k));
        }
        let v = records[i].signed_improvement_bps;
        match m.find(records[i].cluster_id.as_str()) {
            Some(j) => {
                let mut g = m.value_at(j).clone();
                g.push(v);
                m.set_value(j, g);
                proof {
                    assert(m.keys() == before.keys());
                    assert(cluster_keys(pre).contains(k));
                    assert(cluster_keys(pre).insert(k) =~= cluster_keys(pre));
                    assert forall|a: int| 0 <= a < m.entries().len() implies (#[trigger] m.entries()[a]).1@ == cluster_values(next, m.keys()[a]) by {
                        if a != j {
                            assert(m.entries()[a] == before.entries()[a]);
                            assert(before.keys()[a] != before.keys()[j as int]) by {
                                if before.keys()[a] == before.keys()[j as int] {
                                    crate::text::lemma_lex_irreflexive(before.keys()[a]);
                                }
                            }
                        }
                    }
                }
            },
            None => {
                let mut g: Vec<i64> = Vec::new();
                g.push(v);
                let key = records[i].cluster_id.clone();
                m.insert_new(key, g);
                proof {
                    lemma_cluster_values_absent(pre, k);
                    let p = choose|p: int| 0 <= p <= before.entries().len() && m.entries() == before.entries().insert(p, (records@[i as int].cluster_id, g));
                    assert(m.keys() =~= before.keys().insert(p, k));
                    assert forall|a: int| 0 <= a < m.entries().len() implies (#[trigger] m.entries()[a]).1@ == cluster_values(next, m.keys()[a]) by {
                        if a < p {
                            assert(m.entries()[a] == before.entries()[a]);
                            assert(before.keys().contains(before.keys()[a]));
                        } else if a > p {
                            assert(m.entries()[a] == before.entries()[a - 1]);
                            assert(before.keys().contains(before.keys()[a - 1]));
                        } else {
                            assert(g@ =~= seq![v]);
                            assert(Seq::<i64>::empty().push(v) =~= seq![v]);
                        }
                    }
                }
            },
        }
        i = i + 1;
    }
    assert(records@.subrange(0, records@.len() as int) =~= records@);
    m
}

/// One replicate: as many draws as there are clusters, summing the drawn
/// clusters' values; the replicate's mean and the generator state after it.
fn one_replicate(clusters: &SortedMap<Vec<i64>>, rng: u64, n: usize) -> (r: (i64, u64))
    requires
        clusters.entries().len() > 0,
        clusters.entries().len() <= n,
        n <= u32::MAX,
        forall|j: int| 0 <= j < clusters.entries().len() ==> (#[trigger] clusters.entries()[j]).1@.len() <= n,
    ensures
        ({
            let (s, c, r2) = draws(group_seqs(*clusters), rng, clusters.entries().len());
            r.0 == replicate_mean(s, c) && r.1 == r2
        }),
{
    let ghost groups = group_seqs(*clusters);
    let k = clusters.len();
    proof {
        assert forall|j: int| 0 <= j < groups.len() implies (#[trigger] groups[j]).len() <= n by {
            assert(groups[j] == clusters.entries()[j].1@);
        }
    }
    let mut state = rng;
    let mut sum: i128 = 0;
    let mut count: u64 = 0;
    let mut t: usize = 0;
    while t < k
        invariant
            k == clusters.entries().len(),
            groups == group_seqs(*clusters),
            k <= n,
            n <= u32::MAX,
            forall|j: int| 0 <= j < groups.len() ==> (#[trigger] groups[j]).len() <= n,
            t <= k,
            (sum as int, count as int, state) == draws(groups, rng, t as nat),
        decreases k - t,
    {
        proof {
            lemma_draws_bounds(groups, rng, t as nat, n as nat);
            lemma_draws_bounds(groups, rng, (t + 1) as nat, n as nat);
            assert((t + 1) * n <= n * n) by (nonlinear_arith)
                requires
                    t < n,
            ;
            assert(n * n <= 4294967295 * 4294967295) by (nonlinear_arith)
                requires
                    n <= 4294967295,
            ;
        }
        state = xorshift64(state);
        let idx = (state as usize) % k;
        let g = clusters.value_at(idx);
        assert(groups[idx as int] == g@);
        let ghost s0 = sum as int;
        let ghost c0 = count as int;
        let mut j: usize = 0;
        while j < g.len()
            invariant
                j <= g@.len(),
                g@.len() <= n,
                n <= u32::MAX,
                c0 + g@.len() <= 4294967295 * 4294967295,
                c0 * (i64::MIN as int) <= s0 <= c0 * (i64::MAX as int),
                0 <= c0,
                sum == s0 + sum_i64(g@.subrange(0, j as int)),
                count == c0 + j,
            decreases g@.len() - j,
        {
            proof {
                assert(g@.subrange(0, j + 1).drop_last() =~= g@.subrange(0, j as int));
                crate::stats::lemma_sum_bounds(g@.subrange(0, j + 1));
                assert(c0 * (i64::MIN as int) + (j + 1) * (i64::MIN as int) == (c0 + j + 1) * (i64::MIN as int)) by (nonlinear_arith);
                assert(c0 * (i64::MAX as int) + (j + 1) * (i64::MAX as int) == (c0 + j + 1) * (i64::MAX as int)) by (nonlinear_arith);
                assert((c0 + j + 1) * (i64::MAX as int) <= 18446744073709551615 * (i64::MAX as int)) by (nonlinear_arith)
                    requires
                        c0 + j + 1 <= 18446744073709551615,
                ;
                assert((c0 + j + 1) * (i64::MIN as int) >= 18446744073709551615 * (i64::MIN as int)) by (nonlinear_arith)
                    requires
                        c0 + j + 1 <= 18446744073709551615,
                ;
            }
            sum = sum + g[j] as i128;
            count = count + 1;
            j = j + 1;
        }
        assert(g@.subrange(0, g@.len() as int) =~= g@);
        t = t + 1;
    }
    let mean: i64 = if count == 0 {
        0
    } else {
        clamp_to_i64(div_trunc(sum, count as i128))
    };
    (mean, state)
}

/// Resamples whole clusters of episodes with a seeded xorshift generator:
/// each replicate draws as many clusters as there are, with replacement,
/// and the summary reports the mean of the replicate means and their 2.5%
/// and 97.5% order statistics. Clusters are taken in ascending order of
/// their ids, so the result depends on the records and the seed alone.
pub fn cluster_bootstrap(records: &[EpisodeRecord], replicates: u32, seed: u64) -> (r: BootstrapSummary)
    requires
        records@.len() <= u32::MAX,
    ensures
        exists|ks: Seq<Seq<u8>>| #![trigger ks.to_set()]
            crate::keyed::strictly_sorted(ks) && ks.to_set() == cluster_keys(records@) && r == bootstrap_spec(
                ks.map_values(|k: Seq<u8>| cluster_values(records@, k)),
                replicates,
                seed,
            ),
{
    let clusters = group_clusters(records);
    let ghost ks = clusters.keys();
    let ghost groups = group_seqs(clusters);
    proof {
        assert(groups =~= ks.map_values(|k: Seq<u8>| cluster_values(records@, k)));
        assert(ks.to_set() == cluster_keys(records@));
    }
    let k = clusters.len();
    if k == 0 || replicates == 0 {
        return BootstrapSummary { replicates, cluster_count: k as u64, mean_bps: 0, lower_bps: 0, upper_bps: 0 };
    }
    let n = records.len();
    proof {
        assert forall|j: int| 0 <= j < clusters.entries().len() implies (#[trigger] clusters.entries()[j]).1@.len() <= n by {
            lemma_cluster_values_len(records@, ks[j]);
        }
        clusters.lemma_len_is_set_len();
        records@.map_values(|r: EpisodeRecord| key_of(r.cluster_id)).lemma_cardinality_of_set();
    }
    let rng0: u64 = if seed >= 1 { seed } else { 1 };
    let mut rng = rng0;
    let mut means: Vec<i64> = Vec::new();
    let mut rep: u32 = 0;
    while rep < replicates
        invariant
            rep <= replicates,
            groups == group_seqs(clusters),
            k == clusters.entries().len(),
            0 < k <= n,
            n <= u32::MAX,
            forall|j: int| 0 <= j < clusters.entries().len() ==> (#[trigger] clusters.entries()[j]).1@.len() <= n,
            (means@, rng) == replicate_means(groups, rep as nat, rng0),
        decreases replicates - rep,
    {
        let (mean, next) = one_replicate(&clusters, rng, n);
        means.push(mean);
        rng = next;
        rep = rep + 1;
    }
    let sorted = sort_ascending(&means);
    proof {
        crate::stats::lemma_ascending(means@);
        crate::stats::lemma_sum_bounds(sorted@);
    }
    let count = sorted.len();
    let total = sum_values(sorted.as_slice());
    let mean_bps = div_trunc(total, count as i128) as i64;
    assert(((count - 1) as int) * 975_000 / 1_000_000 < count) by (nonlinear_arith)
        requires
            count >= 1,
    ;
    assert(((count - 1) as int) * 25_000 / 1_000_000 < count) by (nonlinear_arith)
        requires
            count >= 1,
    ;
    let lower_idx = ((count - 1) as u128 * 25_000 / 1_000_000) as usize;
    let upper_idx = ((count - 1) as u128 * 975_000 / 1_000_000) as usize;
    BootstrapSummary {
        replicates,
        cluster_count: k as u64,
        mean_bps,
        lower_bps: sorted[lower_idx],
        upper_bps: sorted[upper_idx],
    }
}

/// The bootstrap is seeded: the clusters are enumerated in one way only, so
/// its summary is a function of the records, the replicate count and the
/// seed.
pub proof fn law_bootstrap_is_determined(
    records: Seq<EpisodeRecord>,
    ks1: Seq<Seq<u8>>,
    ks2: Seq<Seq<u8>>,
    replicates: u32,
    seed: u64,
)
    requires
        crate::keyed::strictly_sorted(ks1),
        crate::keyed::strictly_sorted(ks2),
        ks1.to_set() == cluster_keys(records),
        ks2.to_set() == cluster_keys(records),
    ensures
        bootstrap_spec(ks1.map_values(|k: Seq<u8>| cluster_values(records, k)), replicates, seed)
            == bootstrap_spec(ks2.map_values(|k: Seq<u8>| cluster_values(records, k)), replicates, seed),
{
    crate::keyed::lemma_sorted_unique(ks1, ks2);
}

#[derive(Debug, Clone, Copy, PartialEq, Eq, Structural)]
pub enum EvidenceState {
    X0NoData,
    X1Observed,
    X2Eligible,
    X3Convergent,
    X4EconomicallyPositive,
    X5SurvivesStress,
    X6Validated,
}

impl EvidenceState {
    pub open spec fn rank(self) -> int {
        match self {
            EvidenceState::X0NoData => 0,
            EvidenceState::X1Observed => 1,
            EvidenceState::X2Eligible => 2,
            EvidenceState::X3Convergent => 3,
            EvidenceState::X4EconomicallyPositive => 4,
            EvidenceState::X5SurvivesStress => 5,
            EvidenceState::X6Validated => 6,
        }
    }

    fn level(self) -> (r: u8)
        ensures
            r == self.rank(),
    {
        match self {
            EvidenceState::X0NoData => 0,
            EvidenceState::X1Observed => 1,
            EvidenceState::X2Eligible => 2,
            EvidenceState::X3Convergent => 3,
            EvidenceState::X4EconomicallyPositive => 4,
            EvidenceState::X5SurvivesStress => 5,
            EvidenceState::X6Validated => 6,
        }
    }

    /// Evidence stays at its level or climbs exactly one level.
    pub fn can_transition(self, next: Self) -> (r: bool)
        ensures
            r == (self.rank() <= next.rank() <= self.rank() + 1),
    {
        self.level() + 1 >= next.level() && self.level() <= next.level()
    }
}

#[derive(Debug, Clone, Copy, PartialEq, Eq, Structural)]
pub struct EvidenceStateMachine {
    pub state: EvidenceState,
}

impl Default for EvidenceStateMachine {
    fn default() -> (r: Self)
        ensures
            r.state == EvidenceState::X0NoData,
    {
        EvidenceStateMachine { state: EvidenceState::X0NoData }
    }
}

impl EvidenceStateMachine {
    pub fn transition(&mut self, next: EvidenceState) -> (r: bool)
        ensures
            r == (old(self).state.rank() <= next.rank() <= old(self).state.rank() + 1),
            final(self).state == (if r { next } else { old(self).state }),
    {
        if self.state.can_transition(next) {
            self.state = next;
            true
        } else {
            false
        }
    }
}

/// A transition never moves evidence down, and never skips a level.
pub proof fn law_evidence_never_skips(from: EvidenceState, to: EvidenceState)
    requires
        from.rank() <= to.rank() <= from.rank() + 1,
    ensures
        to == from || to.rank() == from.rank() + 1,
{
}

#[derive(Debug, Clone, Copy, PartialEq, Eq, Structural)]
pub struct LatentStateEstimate {
    pub residual_bps: i64,
    pub velocity_bps_per_s: i64,
    pub uncertainty_bps: i64,
}

impl Default for LatentStateEstimate {
    fn default() -> (r: Self)
        ensures
            r == (LatentStateEstimate { residual_bps: 0, velocity_bps_per_s: 0, uncertainty_bps: 0 }),
    {
        LatentStateEstimate { residual_bps: 0, velocity_bps_per_s: 0, uncertainty_bps: 0 }
    }
}

/// One step of the residual filter: predict with the velocity over at most
/// a minute, blend the observation in with gain prior / (prior + noise) in
/// thousandths, and shrink the uncertainty by the gain.
pub open spec fn latent_update_spec(
    e: LatentStateEstimate,
    observed: i64,
    dt_ms: u64,
    process_noise: i64,
    measurement_noise: i64,
) -> LatentStateEstimate {
    let dt = min_int(dt_ms as int, 60_000);
    let predicted = e.residual_bps + trunc_div(e.velocity_bps_per_s * dt, 1_000);
    let prior = max_int(e.uncertainty_bps as int, 0) + max_int(process_noise as int, 0);
    let measurement = max_int(measurement_noise as int, 1);
    let den = prior + measurement;
    let gain = if den == 0 { 0 } else { prior * 1_000 / den };
    let innovation = observed - predicted;
    let filtered = predicted + trunc_div(innovation * gain, 1_000);
    LatentStateEstimate {
        residual_bps: sat_i64(filtered) as i64,
        velocity_bps_per_s: sat_i64(trunc_div(innovation * 1_000, max_int(dt, 1))) as i64,
        uncertainty_bps: clamp_int(trunc_div(prior * (1_000 - gain), 1_000), 0, i64::MAX as int) as i64,
    }
}

impl LatentStateEstimate {
    pub fn update(&mut self, observed_residual_bps: i64, dt_ms: u64, process_noise_bps: i64, measurement_noise_bps: i64)
        ensures
            *final(self) == latent_update_spec(
                *old(self),
                observed_residual_bps,
                dt_ms,
                process_noise_bps,
                measurement_noise_bps,
            ),
    {
        let dt: i128 = if dt_ms < 60_000 { dt_ms as i128 } else { 60_000 };
        let v = self.velocity_bps_per_s as i128;
        assert(-9223372036854775808 * 60_000 <= v * dt <= 9223372036854775807 * 60_000) by (nonlinear_arith)
            requires
                -9223372036854775808 <= v <= 9223372036854775807,
                0 <= dt <= 60_000,
        ;
        let moved = div_trunc(v * dt, 1_000);
        assert(-600000000000000000000000 <= moved <= 600000000000000000000000);
        let predicted: i128 = self.residual_bps as i128 + moved;
        let unc: i128 = if self.uncertainty_bps > 0 { self.uncertainty_bps as i128 } else { 0 };
        let pn: i128 = if process_noise_bps > 0 { process_noise_bps as i128 } else { 0 };
        let prior_unc: i128 = unc + pn;
        let measurement: i128 = if measurement_noise_bps > 1 { measurement_noise_bps as i128 } else { 1 };
        let gain_den: i128 = prior_unc + measurement;
        assert(prior_unc * 1_000 / (gain_den as int) < 1_000) by (nonlinear_arith)
            requires
                0 <= prior_unc,
                gain_den == prior_unc + measurement,
                measurement >= 1,
        ;
        let gain: i128 = if gain_den == 0 { 0 } else { prior_unc * 1_000 / gain_den };
        let innovation: i128 = observed_residual_bps as i128 - predicted;
        assert(-2000000000000000000000000000 <= innovation * gain <= 2000000000000000000000000000) by (nonlinear_arith)
            requires
                -1000000000000000000000000 <= innovation <= 1000000000000000000000000,
                0 <= gain < 1_000,
        ;
        let filtered: i128 = predicted + div_trunc(innovation * gain, 1_000);
        let dt1: i128 = if dt > 1 { dt } else { 1 };
        self.velocity_bps_per_s = clamp_to_i64(div_trunc(innovation * 1_000, dt1));
        self.residual_bps = clamp_to_i64(filtered);
        assert(prior_unc * (1_000 - gain) <= prior_unc * 1_000) by (nonlinear_arith)
            requires
                0 <= prior_unc,
                0 <= gain < 1_000,
        ;
        assert(prior_unc * (1_000 - gain) >= 0) by (nonlinear_arith)
            requires
                0 <= prior_unc,
                0 <= gain < 1_000,
        ;
        let shrunk: i128 = div_trunc(prior_unc * (1_000 - gain), 1_000);
        self.uncertainty_bps = if shrunk > i64::MAX as i128 { i64::MAX } else { shrunk as i64 };
    }
}

#[derive(Debug, Clone, Copy, PartialEq, Eq, Structural)]
pub enum MethodAvailability {
    Available,
    Unavailable,
    Indeterminate,
}

#[derive(Debug, Clone)]
pub struct PriceDiscoveryObservation {
    pub symbol: String,
    pub anchor_ticks: i64,
    pub opening_reference_ticks: Option<i64>,
    pub first_trade_ticks: Option<i64>,
    pub label: MethodAvailability,
    pub opening_gap_bps: Option<i64>,
}

/// The opening gap from the anchor in basis points, when both are positive.
pub open spec fn opening_gap_spec(anchor_ticks: i64, opening: Option<i64>) -> Option<i64> {
    match opening {
        Some(v) => if v > 0 && anchor_ticks > 0 {
            Some(trunc_div((v - anchor_ticks) * 10_000, anchor_ticks as int) as i64)
        } else {
            None
        },
        None => None,
    }
}

/// Labels a price-discovery observation: indeterminate without a positive
/// anchor, available only with both an opening reference and a first trade.
pub fn classify_price_discovery(
    symbol: &str,
    anchor_ticks: i64,
    opening_reference_ticks: Option<i64>,
    first_trade_ticks: Option<i64>,
) -> (r: PriceDiscoveryObservation)
    ensures
        r.symbol@ == symbol@,
        r.anchor_ticks == anchor_ticks,
        r.opening_reference_ticks == opening_reference_ticks,
        r.first_trade_ticks == first_trade_ticks,
        r.opening_gap_bps == opening_gap_spec(anchor_ticks, opening_reference_ticks),
        r.label == (if anchor_ticks <= 0 {
            MethodAvailability::Indeterminate
        } else if opening_reference_ticks is Some && first_trade_ticks is Some {
            MethodAvailability::Available
        } else {
            MethodAvailability::Unavailable
        }),
{
    let opening_gap_bps = match opening_reference_ticks {
        Some(v) => if v > 0 && anchor_ticks > 0 {
            let q = div_trunc((v - anchor_ticks) as i128 * 10_000, anchor_ticks as i128);
            Some(q as i64)
        } else {
            None
        },
        None => None,
    };
    let label = if anchor_ticks <= 0 {
        MethodAvailability::Indeterminate
    } else if opening_reference_ticks.is_some() && first_trade_ticks.is_some() {
        MethodAvailability::Available
    } else {
        MethodAvailability::Unavailable
    };
    PriceDiscoveryObservation {
        symbol: owned(symbol),
        anchor_ticks,
        opening_reference_ticks,
        first_trade_ticks,
        label,
        opening_gap_bps,
    }
}

#[derive(Debug, Clone, Copy, PartialEq, Eq, Structural)]
pub struct MakerProbeInput {
    pub bid_ticks: i64,
    pub ask_ticks: i64,
    pub bid_quantity: i64,
    pub ask_quantity: i64,
    pub own_bid_quantity: i64,
    pub own_ask_quantity: i64,
}

#[derive(Debug, Clone, Copy, PartialEq, Eq, Structural)]
pub struct MakerProbeResult {
    pub self_excluded_bid_quantity: i64,
    pub self_excluded_ask_quantity: i64,
    pub mid_ticks: Option<i64>,
    pub availability: MethodAvailability,
}

/// The book with our own resting quantity taken out, and its mid when the
/// book is not crossed.
pub fn self_excluded_lob_probe(input: MakerProbeInput) -> (r: MakerProbeResult)
    ensures
        r.self_excluded_bid_quantity == max_int(sat_i64(input.bid_quantity - max_int(input.own_bid_quantity as int, 0)), 0),
        r.self_excluded_ask_quantity == max_int(sat_i64(input.ask_quantity - max_int(input.own_ask_quantity as int, 0)), 0),
        r.mid_ticks == (if input.bid_ticks > 0 && input.ask_ticks >= input.bid_ticks {
            Some((sat_i64(input.bid_ticks + input.ask_ticks) / 2) as i64)
        } else {
            None
        }),
        r.availability == (if r.mid_ticks is Some {
            MethodAvailability::Available
        } else {
            MethodAvailability::Indeterminate
        }),
{
    let own_bid = if input.own_bid_quantity > 0 { input.own_bid_quantity } else { 0 };
    let own_ask = if input.own_ask_quantity > 0 { input.own_ask_quantity } else { 0 };
    let bid = crate::num::sat_sub_i64(input.bid_quantity, own_bid);
    let ask = crate::num::sat_sub_i64(input.ask_quantity, own_ask);
    let mid_ticks = if input.bid_ticks > 0 && input.ask_ticks >= input.bid_ticks {
        let total = crate::num::sat_add_i64(input.bid_ticks, input.ask_ticks);
        Some(total / 2)
    } else {
        None
    };
    let availability = if mid_ticks.is_some() {
        MethodAvailability::Available
    } else {
        MethodAvailability::Indeterminate
    };
    MakerProbeResult {
        self_excluded_bid_quantity: if bid > 0 { bid } else { 0 },
        self_excluded_ask_quantity: if ask > 0 { ask } else { 0 },
        mid_ticks,
        availability,
    }
}

#[derive(Debug, Clone, Copy, PartialEq, Eq, Structural)]
pub struct MarkoutPoint {
    pub horizon_ms: u64,
    pub mark_ticks: i64,
}

#[derive(Debug, Clone, Copy, PartialEq, Eq, Structural)]
pub struct PostFillEdgeResult {
    pub gross_edge_bps: Option<i64>,
    pub net_edge_bps: Option<i64>,
    pub adverse_selection_bps: Option<i64>,
    pub markout_samples: u64,
    pub availability: MethodAvailability,
}

/// The favourable move from `from` to `to` relative to the fill, in basis
/// points, as an `i64`.
pub open spec fn edge_bps(buy_side: bool, fill_ticks: i64, from: i64, to: i64) -> i64 {
    if buy_side {
        trunc_div((to - from) * 10_000, fill_ticks as int) as i64
    } else {
        trunc_div((from - to) * 10_000, fill_ticks as int) as i64
    }
}

/// The worst adverse move over the markouts with a positive mark.
pub open spec fn adverse_spec(buy_side: bool, fill_ticks: i64, points: Seq<MarkoutPoint>) -> Option<int>
    decreases points.len(),
{
    if points.len() == 0 {
        None
    } else {
        let rest = adverse_spec(buy_side, fill_ticks, points.drop_last());
        let p = points.last();
        if p.mark_ticks > 0 {
            let v = -edge_bps(buy_side, fill_ticks, fill_ticks, p.mark_ticks);
            match rest {
                None => Some(v),
                Some(m) => Some(min_int(m, v)),
            }
        } else {
            rest
        }
    }
}

fn edge_bps_exec(buy_side: bool, fill_ticks: i64, from: i64, to: i64) -> (r: i64)
    requires
        fill_ticks > 0,
        from > 0,
        to > 0,
    ensures
        r == edge_bps(buy_side, fill_ticks, from, to),
{
    let diff: i128 = if buy_side { to as i128 - from as i128 } else { from as i128 - to as i128 };
    let q = div_trunc(diff * 10_000, fill_ticks as i128);
    q as i64
}

/// Gross and net edge of a fill against its anchor, and the worst markout
/// against it. Without a positive fill and anchor nothing is determinate.
pub fn evaluate_post_fill_edge(
    buy_side: bool,
    fill_ticks: i64,
    anchor_ticks: i64,
    fee_bps: i64,
    funding_bps: i64,
    markouts: &[MarkoutPoint],
) -> (r: PostFillEdgeResult)
    requires
        fill_ticks > 0 && anchor_ticks > 0 ==> forall|i: int|
            0 <= i < markouts@.len() && (#[trigger] markouts@[i]).mark_ticks > 0 ==> edge_bps(
                buy_side,
                fill_ticks,
                fill_ticks,
                markouts@[i].mark_ticks,
            ) != i64::MIN,
    ensures
        !(fill_ticks > 0 && anchor_ticks > 0) ==> r == (PostFillEdgeResult {
            gross_edge_bps: None,
            net_edge_bps: None,
            adverse_selection_bps: None,
            markout_samples: 0,
            availability: MethodAvailability::Indeterminate,
        }),
        fill_ticks > 0 && anchor_ticks > 0 ==> {
            let gross = edge_bps(buy_side, fill_ticks, fill_ticks, anchor_ticks);
            &&& r.gross_edge_bps == Some(gross)
            &&& r.net_edge_bps == Some(sat_i64(sat_i64(gross - fee_bps) - funding_bps) as i64)
            &&& r.adverse_selection_bps == (match adverse_spec(buy_side, fill_ticks, markouts@) {
                Some(v) => Some(v as i64),
                None => None::<i64>,
            })
            &&& r.markout_samples == markouts@.len()
            &&& r.availability == (if markouts@.len() == 0 {
                MethodAvailability::Indeterminate
            } else {
                MethodAvailability::Available
            })
        },
{
    if fill_ticks <= 0 || anchor_ticks <= 0 {
        return PostFillEdgeResult {
            gross_edge_bps: None,
            net_edge_bps: None,
            adverse_selection_bps: None,
            markout_samples: 0,
            availability: MethodAvailability::Indeterminate,
        };
    }
    let gross = edge_bps_exec(buy_side, fill_ticks, fill_ticks, anchor_ticks);
    let net = crate::num::sat_sub_i64(crate::num::sat_sub_i64(gross, fee_bps), funding_bps);
    let mut adverse: Option<i64> = None;
    let mut i: usize = 0;
    while i < markouts.len()
        invariant
            i <= markouts@.len(),
            fill_ticks > 0,
            forall|k: int|
                0 <= k < markouts@.len() && (#[trigger] markouts@[k]).mark_ticks > 0 ==> edge_bps(
                    buy_side,
                    fill_ticks,
                    fill_ticks,
                    markouts@[k].mark_ticks,
                ) != i64::MIN,
            adverse == (match adverse_spec(buy_side, fill_ticks, markouts@.subrange(0, i as int)) {
                Some(v) => Some(v as i64),
                None => None::<i64>,
            }),
            adverse_spec(buy_side, fill_ticks, markouts@.subrange(0, i as int)) matches Some(v) ==> i64::MIN
                <= v <= i64::MAX,
        decreases markouts@.len() - i,
    {
        let point = markouts[i];
        proof {
            assert(markouts@.subrange(0, i + 1).drop_last() =~= markouts@.subrange(0, i as int));
            assert(markouts@.subrange(0, i + 1).last() == point);
        }
        if point.mark_ticks > 0 {
            let moved = edge_bps_exec(buy_side, fill_ticks, fill_ticks, point.mark_ticks);
            let value = -moved;
            adverse = match adverse {
                None => Some(value),
                Some(m) => Some(if m <= value { m } else { value }),
            };
        }
        i = i + 1;
    }
    assert(markouts@.subrange(0, markouts@.len() as int) =~= markouts@);
    PostFillEdgeResult {
        gross_edge_bps: Some(gross),
        net_edge_bps: Some(net),
        adverse_selection_bps: adverse,
        markout_samples: markouts.len() as u64,
        availability: if markouts.len() == 0 {
            MethodAvailability::Indeterminate
        } else {
            MethodAvailability::Available
        },
    }
}

#[derive(Debug, Clone, Copy, PartialEq, Eq, Structural)]
pub struct CausalContrast {
    pub treated_n: u64,
    pub control_n: u64,
    pub treated_mean_bps: Option<i64>,
    pub control_mean_bps: Option<i64>,
    pub difference_bps: Option<i64>,
    pub availability: MethodAvailability,
}

/// The mean of the values, rounded toward zero; none for no values.
pub open spec fn mean_spec(values: Seq<i64>) -> Option<i64> {
    if values.len() == 0 {
        None
    } else {
        Some(trunc_div(sum_i64(values), values.len() as int) as i64)
    }
}

fn mean_of(values: &[i64]) -> (r: Option<i64>)
    ensures
        r == mean_spec(values@),
{
    if values.len() == 0 {
        None
    } else {
        let total = sum_values(values);
        let q = div_trunc(total, values.len() as i128);
        Some(q as i64)
    }
}

/// Difference of the treated and control means, when both exist.
pub fn causal_contrast(treated: &[i64], control: &[i64]) -> (r: CausalContrast)
    ensures
        r.treated_n == treated@.len(),
        r.control_n == control@.len(),
        r.treated_mean_bps == mean_spec(treated@),
        r.control_mean_bps == mean_spec(control@),
        r.difference_bps == (match (mean_spec(treated@), mean_spec(control@)) {
            (Some(a), Some(b)) => Some(sat_i64(a - b) as i64),
            _ => None::<i64>,
        }),
        r.availability == (if r.difference_bps is Some {
            MethodAvailability::Available
        } else {
            MethodAvailability::Unavailable
        }),
{
    let treated_mean_bps = mean_of(treated);
    let control_mean_bps = mean_of(control);
    let difference_bps = match (treated_mean_bps, control_mean_bps) {
        (Some(a), Some(b)) => Some(crate::num::sat_sub_i64(a, b)),
        _ => None,
    };
    CausalContrast {
        treated_n: treated.len() as u64,
        control_n: control.len() as u64,
        treated_mean_bps,
        control_mean_bps,
        difference_bps,
        availability: if difference_bps.is_some() {
            MethodAvailability::Available
        } else {
            MethodAvailability::Unavailable
        },
    }
}

#[derive(Debug, Clone, Copy, PartialEq, Eq, Structural)]
pub struct SurvivalSummary {
    pub observations: u64,
    pub terminal_equity_bps: i64,
    pub max_drawdown_bps: i64,
    pub ruin: bool,
    pub availability: MethodAvailability,
}

/// The running peak and the largest drawdown from it along an equity path.
pub open spec fn peak_and_drawdown(initial: i64, path: Seq<i64>) -> (int, int)
    decreases path.len(),
{
    if path.len() == 0 {
        (initial as int, 0)
    } else {
        let (peak, drawdown) = peak_and_drawdown(initial, path.drop_last());
        let e = path.last();
        let next_peak = max_int(peak, e as int);
        (next_peak, max_int(drawdown, sat_i64(next_peak - e)))
    }
}

pub proof fn lemma_peak_bounds(initial: i64, path: Seq<i64>)
    ensures
        i64::MIN <= peak_and_drawdown(initial, path).0 <= i64::MAX,
        0 <= peak_and_drawdown(initial, path).1 <= i64::MAX,
    decreases path.len(),
{
    if path.len() > 0 {
        lemma_peak_bounds(initial, path.drop_last());
    }
}

/// Peak-to-trough drawdown and ruin along an equity path.
pub fn evaluate_survival(initial_equity_bps: i64, equity_path: &[i64], ruin_floor_bps: i64) -> (r: SurvivalSummary)
    ensures
        equity_path@.len() == 0 || initial_equity_bps <= 0 ==> r == (SurvivalSummary {
            observations: 0,
            terminal_equity_bps: initial_equity_bps,
            max_drawdown_bps: 0,
            ruin: false,
            availability: MethodAvailability::Unavailable,
        }),
        !(equity_path@.len() == 0 || initial_equity_bps <= 0) ==> {
            &&& r.observations == equity_path@.len()
            &&& r.terminal_equity_bps == equity_path@.last()
            &&& r.max_drawdown_bps == peak_and_drawdown(initial_equity_bps, equity_path@).1
            &&& r.ruin == exists|i: int| 0 <= i < equity_path@.len() && #[trigger] equity_path@[i] <= ruin_floor_bps
            &&& r.availability == MethodAvailability::Available
        },
{
    if equity_path.len() == 0 || initial_equity_bps <= 0 {
        return SurvivalSummary {
            observations: 0,
            terminal_equity_bps: initial_equity_bps,
            max_drawdown_bps: 0,
            ruin: false,
            availability: MethodAvailability::Unavailable,
        };
    }
    let mut peak = initial_equity_bps;
    let mut max_drawdown: i64 = 0;
    let mut ruin = false;
    let mut i: usize = 0;
    while i < equity_path.len()
        invariant
            i <= equity_path@.len(),
            (peak as int, max_drawdown as int) == peak_and_drawdown(initial_equity_bps, equity_path@.subrange(0, i as int)),
            ruin == exists|k: int| 0 <= k < i && #[trigger] equity_path@[k] <= ruin_floor_bps,
        decreases equity_path@.len() - i,
    {
        let e = equity_path[i];
        proof {
            assert(equity_path@.subrange(0, i + 1).drop_last() =~= equity_path@.subrange(0, i as int));
            assert(equity_path@.subrange(0, i + 1).last() == e);
        }
        if e > peak {
            peak = e;
        }
        let dd = crate::num::sat_sub_i64(peak, e);
        if dd > max_drawdown {
            max_drawdown = dd;
        }
        if e <= ruin_floor_bps {
            ruin = true;
        }
        i = i + 1;
    }
    assert(equity_path@.subrange(0, equity_path@.len() as int) =~= equity_path@);
    SurvivalSummary {
        observations: equity_path.len() as u64,
        terminal_equity_bps: equity_path[equity_path.len() - 1],
        max_drawdown_bps: max_drawdown,
        ruin,
        availability: MethodAvailability::Available,
    }
}

#[derive(Debug, Clone, Copy, PartialEq, Eq, Structural)]
pub enum ValidationVerdict {
    Supported,
    Falsified,
    Indeterminate,
}

#[derive(Debug, Clone, Copy, PartialEq, Eq, Structural)]
pub struct VerdictInputs {
    pub h_r_positive: bool,
    pub h_m_positive: bool,
    pub h_d_consistent: bool,
    pub h_e_positive: bool,
    pub h_s_survives: bool,
    pub labels_complete: bool,
}

/// Incomplete labels leave the verdict open; otherwise every hypothesis
/// must hold for support, and any failing one falsifies.
pub fn adjudicate_verdict(input: VerdictInputs) -> (r: ValidationVerdict)
    ensures
        !input.labels_complete ==> r == ValidationVerdict::Indeterminate,
        input.labels_complete ==> r == (if input.h_r_positive && input.h_m_positive && input.h_d_consistent
            && input.h_e_positive && input.h_s_survives {
            ValidationVerdict::Supported
        } else {
            ValidationVerdict::Falsified
        }),
{
    if !input.labels_complete {
        return ValidationVerdict::Indeterminate;
    }
    if input.h_r_positive && input.h_m_positive && input.h_d_consistent && input.h_e_positive
        && input.h_s_survives {
        ValidationVerdict::Supported
    } else {
        ValidationVerdict::Falsified
    }
}

#[derive(Debug, Clone)]
pub struct ValidationSummary {
    pub methodology_id: String,
    pub price_discovery: MethodAvailability,
    pub self_excluded_lob: MethodAvailability,
    pub post_fill_edge: MethodAvailability,
    pub causal_contrast: MethodAvailability,
    pub survival: MethodAvailability,
    pub verdict: ValidationVerdict,
}

impl Default for ValidationSummary {
    fn default() -> (r: Self)
        ensures
            r.methodology_id@ == "anchorbell-analytics-methods-v2"@,
            r.price_discovery == MethodAvailability::Unavailable,
            r.self_excluded_lob == MethodAvailability::Unavailable,
            r.post_fill_edge == MethodAvailability::Unavailable,
            r.causal_contrast == MethodAvailability::Unavailable,
            r.survival == MethodAvailability::Unavailable,
            r.verdict == ValidationVerdict::Indeterminate,
    {
        ValidationSummary {
            methodology_id: owned("anchorbell-analytics-methods-v2"),
            price_discovery: MethodAvailability::Unavailable,
            self_excluded_lob: MethodAvailability::Unavailable,
            post_fill_edge: MethodAvailability::Unavailable,
            causal_contrast: MethodAvailability::Unavailable,
            survival: MethodAvailability::Unavailable,
            verdict: ValidationVerdict::Indeterminate,
        }
    }
}

/// Inputs used by the automatic promotion gate. Promotion is deliberately
/// conservative: a live run is never promoted from order count alone.
#[derive(Debug, Clone, Copy, PartialEq, Eq, Structural)]
pub struct SimulationPromotionInput {
    pub ledger_count: u64,
    pub orders: u64,
    pub fills: u64,
    pub records_dropped: u64,
    pub valuation_incomplete_ledgers: u64,
    pub non_flat_ledgers: u64,
    pub total_net_pnl_ticks: i64,
}

#[derive(Debug, Clone)]
pub struct SimulationPromotionGate {
    pub methodology_id: String,
    pub minimum_fills: u64,
    pub integrity_passed: bool,
    pub evidence_sufficient: bool,
    pub economic_passed: bool,
    pub survival_passed: bool,
    pub verdict: ValidationVerdict,
    pub reason: String,
}

pub const MINIMUM_PROMOTION_FILLS: u64 = 100;

/// Promotes a single-ledger simulation only on intact data, at least the
/// minimum fills, positive net PnL, and flat, fully valued ledgers. A matrix
/// of ledgers is never promoted here: it needs candidate-level validation.
pub fn evaluate_simulation_promotion(input: SimulationPromotionInput) -> (r: SimulationPromotionGate)
    ensures
        r.methodology_id@ == "anchorbell-automatic-promotion-v2"@,
        r.minimum_fills == MINIMUM_PROMOTION_FILLS,
        input.ledger_count > 1 ==> {
            &&& r.integrity_passed == (input.records_dropped == 0)
            &&& !r.evidence_sufficient
            &&& !r.economic_passed
            &&& r.survival_passed == (input.valuation_incomplete_ledgers == 0 && input.non_flat_ledgers == 0)
            &&& r.verdict == ValidationVerdict::Indeterminate
            &&& r.reason@ == "candidate_level_oos_validation_required"@
        },
        input.ledger_count <= 1 ==> {
            let integrity = input.ledger_count > 0 && input.records_dropped == 0;
            let evidence = input.fills >= MINIMUM_PROMOTION_FILLS && input.orders >= input.fills;
            let economic = evidence && input.total_net_pnl_ticks > 0;
            let survival = integrity && input.valuation_incomplete_ledgers == 0 && input.non_flat_ledgers == 0;
            &&& r.integrity_passed == integrity
            &&& r.evidence_sufficient == evidence
            &&& r.economic_passed == economic
            &&& r.survival_passed == survival
            &&& r.verdict == (if integrity && evidence && economic && survival {
                ValidationVerdict::Supported
            } else if integrity && evidence {
                ValidationVerdict::Falsified
            } else {
                ValidationVerdict::Indeterminate
            })
            &&& r.reason@ == (if !integrity {
                "data_integrity_failed"@
            } else if !evidence {
                "insufficient_fill_evidence"@
            } else if !economic {
                "net_pnl_not_positive"@
            } else if !survival {
                "open_risk_or_incomplete_valuation"@
            } else {
                "all_promotion_conditions_passed"@
            })
        },
{
    if input.ledger_count > 1 {
        return SimulationPromotionGate {
            methodology_id: owned("anchorbell-automatic-promotion-v2"),
            minimum_fills: MINIMUM_PROMOTION_FILLS,
            integrity_passed: input.records_dropped == 0,
            evidence_sufficient: false,
            economic_passed: false,
            survival_passed: input.valuation_incomplete_ledgers == 0 && input.non_flat_ledgers == 0,
            verdict: ValidationVerdict::Indeterminate,
            reason: owned("candidate_level_oos_validation_required"),
        };
    }
    let integrity_passed = input.ledger_count > 0 && input.records_dropped == 0;
    let evidence_sufficient = input.fills >= MINIMUM_PROMOTION_FILLS && input.orders >= input.fills;
    let economic_passed = evidence_sufficient && input.total_net_pnl_ticks > 0;
    let survival_passed = integrity_passed && input.valuation_incomplete_ledgers == 0 && input.non_flat_ledgers == 0;
    let verdict = if integrity_passed && evidence_sufficient && economic_passed && survival_passed {
        ValidationVerdict::Supported
    } else if integrity_passed && evidence_sufficient && (!economic_passed || !survival_passed) {
        ValidationVerdict::Falsified
    } else {
        ValidationVerdict::Indeterminate
    };
    let reason = if !integrity_passed {
        owned("data_integrity_failed")
    } else if !evidence_sufficient {
        owned("insufficient_fill_evidence")
    } else if !economic_passed {
        owned("net_pnl_not_positive")
    } else if !survival_passed {
        owned("open_risk_or_incomplete_valuation")
    } else {
        owned("all_promotion_conditions_passed")
    };
    SimulationPromotionGate {
        methodology_id: owned("anchorbell-automatic-promotion-v2"),
        minimum_fills: MINIMUM_PROMOTION_FILLS,
        integrity_passed,
        evidence_sufficient,
        economic_passed,
        survival_passed,
        verdict,
        reason,
    }
}

/// Promotion is supported only with positive net PnL on intact, sufficient
/// evidence from a single flat, fully valued ledger.
pub proof fn law_promotion_requires_everything(input: SimulationPromotionInput, verdict: ValidationVerdict)
    requires
        verdict == (if input.ledger_count > 1 {
            ValidationVerdict::Indeterminate
        } else {
            let integrity = input.ledger_count > 0 && input.records_dropped == 0;
            let evidence = input.fills >= MINIMUM_PROMOTION_FILLS && input.orders >= input.fills;
            let economic = evidence && input.total_net_pnl_ticks > 0;
            let survival = integrity && input.valuation_incomplete_ledgers == 0 && input.non_flat_ledgers == 0;
            if integrity && evidence && economic && survival {
                ValidationVerdict::Supported
            } else if integrity && evidence {
                ValidationVerdict::Falsified
            } else {
                ValidationVerdict::Indeterminate
            }
        }),
        verdict == ValidationVerdict::Supported,
    ensures
        input.ledger_count == 1,
        input.records_dropped == 0,
        input.fills >= MINIMUM_PROMOTION_FILLS,
        input.orders >= input.fills,
        input.total_net_pnl_ticks > 0,
        input.valuation_incomplete_ledgers == 0,
        input.non_flat_ledgers == 0,
{
}

proof fn lemma_sum_within(g: Seq<i64>, lo: int, hi: int)
    requires
        forall|k: int| 0 <= k < g.len() ==> lo <= #[trigger] g[k] <= hi,
    ensures
        g.len() * lo <= sum_i64(g) <= g.len() * hi,
    decreases g.len(),
{
    if g.len() > 0 {
        assert forall|k: int| 0 <= k < g.drop_last().len() implies lo <= #[trigger] g.drop_last()[k] <= hi by {
            assert(g.drop_last()[k] == g[k]);
        }
        lemma_sum_within(g.drop_last(), lo, hi);
        assert(lo <= g[g.len() - 1] <= hi);
        assert((g.len() - 1) * lo + lo == g.len() * lo) by (nonlinear_arith);
        assert((g.len() - 1) * hi + hi == g.len() * hi) by (nonlinear_arith);
    }
}

proof fn lemma_draws_within(groups: Seq<Seq<i64>>, rng: u64, t: nat, lo: int, hi: int)
    requires
        groups.len() > 0,
        forall|j: int| 0 <= j < groups.len() ==> (#[trigger] groups[j]).len() > 0,
        forall|j: int, k: int| 0 <= j < groups.len() && 0 <= k < groups[j].len() ==> lo <= #[trigger] groups[j][k] <= hi,
    ensures
        draws(groups, rng, t).1 >= t,
        draws(groups, rng, t).1 * lo <= draws(groups, rng, t).0 <= draws(groups, rng, t).1 * hi,
    decreases t,
{
    if t > 0 {
        lemma_draws_within(groups, rng, (t - 1) as nat, lo, hi);
        let (s, c, r) = draws(groups, rng, (t - 1) as nat);
        let r2 = xorshift(r);
        let idx = (r2 as usize) as int % (groups.len() as int);
        let g = groups[idx];
        assert(0 <= idx < groups.len());
        assert forall|k: int| 0 <= k < g.len() implies lo <= #[trigger] g[k] <= hi by {
            assert(lo <= groups[idx][k] <= hi);
        }
        lemma_sum_within(g, lo, hi);
        assert(g.len() > 0);
        assert(c * lo + g.len() * lo == (c + g.len()) * lo) by (nonlinear_arith);
        assert(c * hi + g.len() * hi == (c + g.len()) * hi) by (nonlinear_arith);
    }
}

proof fn lemma_mean_within(sum: int, count: int, lo: int, hi: int)
    requires
        count > 0,
        count * lo <= sum <= count * hi,
        i64::MIN <= lo <= hi <= i64::MAX,
    ensures
        lo <= replicate_mean(sum, count) <= hi,
{
    let a = abs_int(sum);
    if sum >= 0 {
        let q = a / count;
        assert(trunc_div(sum, count) == q);
        assert(lo <= q <= hi) by (nonlinear_arith)
            requires
                count > 0,
                count * lo <= sum <= count * hi,
                sum >= 0,
                q == sum / count,
        {
            assert(sum == count * q + sum % count);
            assert(0 <= sum % count < count);
        }
    } else {
        let q = a / count;
        assert(trunc_div(sum, count) == -q);
        assert(lo <= -q <= hi) by (nonlinear_arith)
            requires
                count > 0,
                count * lo <= sum <= count * hi,
                sum < 0,
                a == -sum,
                q == a / count,
        {
            assert(a == count * q + a % count);
            assert(0 <= a % count < count);
        }
    }
}

proof fn lemma_means_within(groups: Seq<Seq<i64>>, reps: nat, rng: u64, lo: int, hi: int)
    requires
        groups.len() > 0,
        forall|j: int| 0 <= j < groups.len() ==> (#[trigger] groups[j]).len() > 0,
        forall|j: int, k: int| 0 <= j < groups.len() && 0 <= k < groups[j].len() ==> lo <= #[trigger] groups[j][k] <= hi,
        i64::MIN <= lo <= hi <= i64::MAX,
    ensures
        replicate_means(groups, reps, rng).0.len() == reps,
        forall|k: int|
            0 <= k < replicate_means(groups, reps, rng).0.len() ==> lo <= #[trigger] replicate_means(groups, reps, rng).0[k]
                <= hi,
    decreases reps,
{
    if reps > 0 {
        lemma_means_within(groups, (reps - 1) as nat, rng, lo, hi);
        let (means, r) = replicate_means(groups, (reps - 1) as nat, rng);
        let (s, c, r2) = draws(groups, r, groups.len());
        lemma_draws_within(groups, r, groups.len(), lo, hi);
        lemma_mean_within(s, c, lo, hi);
        let pushed = means.push(replicate_mean(s, c));
        assert forall|k: int| 0 <= k < pushed.len() implies lo <= #[trigger] pushed[k] <= hi by {
            if k < means.len() {
                assert(pushed[k] == means[k]);
            }
        }
    }
}

/// The bootstrap interval is ordered and lies within the range of the
/// outcomes it resamples: every replicate mean of clusters whose values lie
/// in `[lo, hi]` lies there too, and the 2.5% point of the sorted means is
/// at most the 97.5% point.
pub proof fn law_bootstrap_interval_within_range(groups: Seq<Seq<i64>>, replicates: u32, seed: u64, lo: i64, hi: i64)
    requires
        forall|j: int| 0 <= j < groups.len() ==> (#[trigger] groups[j]).len() > 0,
        forall|j: int, k: int| 0 <= j < groups.len() && 0 <= k < groups[j].len() ==> lo <= #[trigger] groups[j][k] <= hi,
    ensures
        bootstrap_spec(groups, replicates, seed).lower_bps <= bootstrap_spec(groups, replicates, seed).upper_bps,
        groups.len() > 0 && replicates > 0 ==> lo <= bootstrap_spec(groups, replicates, seed).lower_bps
            && bootstrap_spec(groups, replicates, seed).upper_bps <= hi,
{
    if groups.len() > 0 && replicates > 0 {
        assert(lo <= groups[0][0] <= hi);
        let rng = if seed >= 1 {
            seed
        } else {
            1
        };
        let means = replicate_means(groups, replicates as nat, rng).0;
        lemma_means_within(groups, replicates as nat, rng, lo as int, hi as int);
        let sorted = ascending(means);
        crate::stats::lemma_ascending(means);
        let n = sorted.len() as int;
        let i1 = percentile_index(n, 25_000);
        let i2 = percentile_index(n, 975_000);
        assert(0 <= i1 <= i2 < n) by (nonlinear_arith)
            requires
                n >= 1,
                i1 == (n - 1) * 25_000 / 1_000_000,
                i2 == (n - 1) * 975_000 / 1_000_000,
        {
            assert((n - 1) * 25_000 <= (n - 1) * 975_000);
            assert((n - 1) * 975_000 < n * 1_000_000);
        }
        if i1 < i2 {
            assert(vstd::relations::sorted_by(sorted, crate::stats::le_i64()));
            assert((crate::stats::le_i64())(sorted[i1], sorted[i2]));
        }
        assert(sorted[i1] <= sorted[i2]);
        assert forall|k: int| 0 <= k < n implies lo <= #[trigger] sorted[k] <= hi by {
            broadcast use vstd::seq_lib::group_to_multiset_ensures;
            assert(sorted.contains(sorted[k]));
            assert(sorted.to_multiset().count(sorted[k]) > 0);
            assert(means.to_multiset().count(sorted[k]) > 0);
            assert(means.contains(sorted[k]));
            let j = choose|j: int| 0 <= j < means.len() && means[j] == sorted[k];
            assert(lo <= means[j] <= hi);
        }
        assert(lo <= sorted[i1]);
        assert(sorted[i2] <= hi);
    }
}

} // verus!
