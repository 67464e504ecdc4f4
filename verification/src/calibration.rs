//! Conditional-outcome calibration: a bounded window of fill and markout
//! observations, admitted as history only after a chronological holdout
//! validates it, and the snapshots the decision layer reads.
use crate::digest::{digest_hex, sha256_hex};
use crate::model::{floor_div_positive, floor_div_spec, Side};
use crate::num::{abs_int, clamp_int, min_int, sat_i64, sat_u64};
use crate::stats::{ascending, sort_ascending};
use crate::text::{
    i64_to_dec, owned, signed_dec_chars, dec_chars, trim, trim_chars, u64_to_dec, utf8,
};
use vstd::prelude::*;

verus! {

pub const CALIBRATION_SCHEMA_VERSION: u16 = 2;

pub const CALIBRATION_MODEL_VERSION: &'static str = "anchorbell-conditional-outcome-v2";

pub const MIN_EFFECTIVE_SAMPLES: usize = 30;

pub const MIN_DIRECTIONAL_SAMPLES: usize = 15;

pub const WINDOW_CAPACITY: usize = 4096;

pub open spec fn model_version() -> Seq<char> {
    "anchorbell-conditional-outcome-v2"@
}

#[derive(Debug, Clone, Copy, PartialEq, Eq, Structural)]
pub struct DirectionalCalibration {
    pub attempts: u64,
    pub fills: u64,
    pub fill_probability_bps: u16,
    pub adverse_markout_pico_bps: i64,
    pub robust_lower_pico_bps: i64,
}

impl DirectionalCalibration {
    pub open spec fn cold() -> DirectionalCalibration {
        DirectionalCalibration {
            attempts: 0,
            fills: 0,
            fill_probability_bps: 0,
            adverse_markout_pico_bps: 0,
            robust_lower_pico_bps: 0,
        }
    }

    fn cold_start() -> (r: Self)
        ensures
            r == DirectionalCalibration::cold(),
    {
        DirectionalCalibration {
            attempts: 0,
            fills: 0,
            fill_probability_bps: 0,
            adverse_markout_pico_bps: 0,
            robust_lower_pico_bps: 0,
        }
    }
}

#[derive(Debug, Clone, Copy, PartialEq, Eq, Structural)]
pub enum CalibrationPhase {
    ColdStart,
    Validating,
    Admitted,
}

#[derive(Debug, Clone, Copy, PartialEq, Eq, Structural)]
pub struct CalibrationObservation {
    pub event_at_ms: u64,
    pub side: Side,
    pub attempted_quantity: i64,
    pub filled_quantity: i64,
    pub markout_pico_bps: Option<i64>,
}

#[derive(Debug, Clone, PartialEq, Eq)]
pub struct HistoryAdmission {
    pub admitted_at_ms: u64,
    pub effective_sample_size: u64,
    pub train_robust_lower_pico_bps: i64,
    pub validation_median_pico_bps: i64,
    pub validation_robust_lower_pico_bps: i64,
    pub evidence_digest: String,
}

#[derive(Debug, Clone, Copy, PartialEq, Eq, Structural)]
pub struct HistoryQualityReport {
    pub total_observations: u64,
    pub complete_observations: u64,
    pub buy_complete_observations: u64,
    pub sell_complete_observations: u64,
    pub validation_observations: u64,
    pub chronology_valid: bool,
    pub replay_valid: bool,
    pub train_robust_lower_pico_bps: Option<i64>,
    pub validation_median_pico_bps: Option<i64>,
    pub validation_robust_lower_pico_bps: Option<i64>,
    pub admissible: bool,
}

#[derive(Debug, Clone, PartialEq, Eq)]
pub struct CalibrationState {
    pub schema_version: u16,
    pub model_version: String,
    pub instrument: String,
    pub observations: Vec<CalibrationObservation>,
    pub first_event_at_ms: u64,
    pub last_event_at_ms: u64,
    pub admission: Option<HistoryAdmission>,
}

#[derive(Debug, Clone, PartialEq, Eq)]
pub struct CalibrationSnapshot {
    pub schema_version: u16,
    pub model_version: String,
    pub instrument: String,
    pub phase: CalibrationPhase,
    pub effective_sample_size: u64,
    pub buy: DirectionalCalibration,
    pub sell: DirectionalCalibration,
    pub window_start_ms: u64,
    pub window_end_ms: u64,
    pub evidence_digest: String,
}

#[derive(Debug, Clone, Copy, PartialEq, Eq, Structural)]
pub enum CalibrationError {
    EmptyInstrument,
    InvalidObservation,
    EventTimeRegression,
    SchemaMismatch,
    ModelMismatch,
    InsufficientHistory,
    HistoryNotAdmitted,
    InvalidSnapshot,
}

// ---------------------------------------------------------------------------
// Robust statistics.

/// The median of the values: the lower middle of their ascending order.
pub open spec fn median_of(values: Seq<i64>) -> i64 {
    ascending(values)[(values.len() - 1) / 2]
}

/// The absolute deviations from the median, in ascending order of the values.
pub open spec fn deviations(values: Seq<i64>) -> Seq<i64> {
    ascending(values).map_values(|v: i64| abs_int(sat_i64(v - median_of(values))) as i64)
}

/// No deviation from the median saturates to `i64::MIN`, whose absolute
/// value does not exist.
pub open spec fn deviation_safe(values: Seq<i64>) -> bool {
    values.len() == 0 || forall|i: int|
        0 <= i < values.len() ==> #[trigger] ascending(values)[i] - median_of(values) > i64::MIN
}

/// The median and the median less three median absolute deviations.
pub open spec fn robust_stats_spec(values: Seq<i64>) -> Option<(i64, i64)> {
    if values.len() == 0 {
        None
    } else {
        let median = median_of(values);
        let mad = ascending(deviations(values))[(values.len() - 1) / 2];
        Some((median, sat_i64(median - sat_i64(mad * 3)) as i64))
    }
}

fn robust_stats(values: &Vec<i64>) -> (r: Option<(i64, i64)>)
    requires
        deviation_safe(values@),
    ensures
        r == robust_stats_spec(values@),
{
    if values.len() == 0 {
        return None;
    }
    let ordered = sort_ascending(values);
    proof {
        crate::stats::lemma_ascending(values@);
    }
    let n = ordered.len();
    let median = ordered[(n - 1) / 2];
    let mut deviations_vec: Vec<i64> = Vec::new();
    let mut i: usize = 0;
    while i < n
        invariant
            n == ordered@.len(),
            ordered@ == ascending(values@),
            n == values@.len(),
            median == median_of(values@),
            deviation_safe(values@),
            i <= n,
            deviations_vec@ == deviations(values@).subrange(0, i as int),
        decreases n - i,
    {
        let d = crate::num::sat_sub_i64(ordered[i], median);
        assert(ascending(values@)[i as int] - median_of(values@) > i64::MIN);
        let a: i64 = if d < 0 { -d } else { d };
        deviations_vec.push(a);
        proof {
            assert(deviations_vec@ =~= deviations(values@).subrange(0, i + 1));
        }
        i = i + 1;
    }
    assert(deviations(values@).subrange(0, n as int) =~= deviations(values@));
    let sorted_devs = sort_ascending(&deviations_vec);
    proof {
        crate::stats::lemma_ascending(deviations(values@));
    }
    let mad = sorted_devs[(n - 1) / 2];
    Some((median, crate::num::sat_sub_i64(median, crate::num::sat_mul_i64(mad, 3))))
}

// ---------------------------------------------------------------------------
// History quality.

pub open spec fn observation_valid(o: CalibrationObservation) -> bool {
    &&& o.event_at_ms != 0
    &&& o.attempted_quantity > 0
    &&& o.filled_quantity >= 0
    &&& o.filled_quantity <= o.attempted_quantity
    &&& o.markout_pico_bps != Some(i64::MIN)
}

/// The observations whose markout is known, as (side, markout).
pub open spec fn completed(obs: Seq<CalibrationObservation>) -> Seq<(Side, i64)>
    decreases obs.len(),
{
    if obs.len() == 0 {
        Seq::empty()
    } else {
        let rest = completed(obs.drop_last());
        match obs.last().markout_pico_bps {
            Some(m) => rest.push((obs.last().side, m)),
            None => rest,
        }
    }
}

pub proof fn lemma_completed_len(obs: Seq<CalibrationObservation>)
    ensures
        completed(obs).len() <= obs.len(),
    decreases obs.len(),
{
    if obs.len() > 0 {
        lemma_completed_len(obs.drop_last());
    }
}

/// The number of completed observations on one side.
pub open spec fn count_side(c: Seq<(Side, i64)>, side: Side) -> nat
    decreases c.len(),
{
    if c.len() == 0 {
        0
    } else {
        count_side(c.drop_last(), side) + if c.last().0 == side { 1nat } else { 0nat }
    }
}

pub proof fn lemma_count_side_len(c: Seq<(Side, i64)>, side: Side)
    ensures
        count_side(c, side) <= c.len(),
    decreases c.len(),
{
    if c.len() > 0 {
        lemma_count_side_len(c.drop_last(), side);
    }
}

/// The chronological split: the first two thirds train, the rest validate.
pub open spec fn split_point(n: nat) -> int {
    clamp_int((2 * n) as int, 0, usize::MAX as int) / 3
}

pub open spec fn markouts_of(c: Seq<(Side, i64)>) -> Seq<i64> {
    c.map_values(|p: (Side, i64)| p.1)
}

pub open spec fn train_values(obs: Seq<CalibrationObservation>) -> Seq<i64> {
    let c = completed(obs);
    markouts_of(c.subrange(0, split_point(c.len())))
}

pub open spec fn validation_values(obs: Seq<CalibrationObservation>) -> Seq<i64> {
    let c = completed(obs);
    markouts_of(c.subrange(split_point(c.len()), c.len() as int))
}

pub open spec fn chronological(obs: Seq<CalibrationObservation>) -> bool {
    forall|i: int| 0 <= i < obs.len() - 1 ==> #[trigger] obs[i].event_at_ms <= obs[i + 1].event_at_ms
}

/// Both halves of the holdout have defined robust statistics.
pub open spec fn quality_safe(obs: Seq<CalibrationObservation>) -> bool {
    deviation_safe(train_values(obs)) && deviation_safe(validation_values(obs))
}

pub open spec fn lower_of(s: Option<(i64, i64)>) -> Option<i64> {
    match s {
        Some(p) => Some(p.1),
        None => None,
    }
}

pub open spec fn median_part(s: Option<(i64, i64)>) -> Option<i64> {
    match s {
        Some(p) => Some(p.0),
        None => None,
    }
}

/// The quality report of a window of observations: history is admissible
/// with enough complete observations on each side, a non-empty validation
/// holdout whose robust lower bound is no worse than the training one, and
/// a chronology that replays to the recorded first and last event times.
pub open spec fn quality_spec(obs: Seq<CalibrationObservation>, first: u64, last: u64) -> HistoryQualityReport {
    let c = completed(obs);
    let split = split_point(c.len());
    let train = robust_stats_spec(train_values(obs));
    let validation = robust_stats_spec(validation_values(obs));
    let buy = count_side(c, Side::Buy);
    let sell = count_side(c, Side::Sell);
    let chrono = chronological(obs);
    let replay = chrono && first == (if obs.len() == 0 { 0 } else { obs[0].event_at_ms })
        && last == (if obs.len() == 0 { 0 } else { obs.last().event_at_ms });
    let admissible = c.len() >= MIN_EFFECTIVE_SAMPLES && buy >= MIN_DIRECTIONAL_SAMPLES
        && sell >= MIN_DIRECTIONAL_SAMPLES && split > 0 && validation is Some && chrono && replay
        && (match (validation, train) {
        (Some(v), Some(t)) => v.1 >= t.1,
        _ => false,
    });
    HistoryQualityReport {
        total_observations: obs.len() as u64,
        complete_observations: c.len() as u64,
        buy_complete_observations: buy as u64,
        sell_complete_observations: sell as u64,
        validation_observations: (c.len() - split) as u64,
        chronology_valid: chrono,
        replay_valid: replay,
        train_robust_lower_pico_bps: lower_of(train),
        validation_median_pico_bps: median_part(validation),
        validation_robust_lower_pico_bps: lower_of(validation),
        admissible,
    }
}

// ---------------------------------------------------------------------------
// Evidence digests.

pub open spec fn side_json(side: Side) -> Seq<char> {
    match side {
        Side::Buy => "\"Buy\""@,
        Side::Sell => "\"Sell\""@,
    }
}

/// One observation as a JSON object, fields in declaration order.
pub open spec fn observation_json(o: CalibrationObservation) -> Seq<char> {
    "{\"event_at_ms\":"@ + dec_chars(o.event_at_ms as nat) + ",\"side\":"@ + side_json(o.side)
        + ",\"attempted_quantity\":"@ + signed_dec_chars(o.attempted_quantity as int)
        + ",\"filled_quantity\":"@ + signed_dec_chars(o.filled_quantity as int) + ",\"markout_pico_bps\":"@
        + match o.markout_pico_bps {
        Some(m) => signed_dec_chars(m as int),
        None => "null"@,
    } + "}"@
}

pub open spec fn observation_items(obs: Seq<CalibrationObservation>) -> Seq<char>
    decreases obs.len(),
{
    if obs.len() == 0 {
        Seq::empty()
    } else if obs.len() == 1 {
        observation_json(obs[0])
    } else {
        observation_items(obs.drop_last()) + ","@ + observation_json(obs.last())
    }
}

/// The observations as a compact JSON array.
pub open spec fn observations_json(obs: Seq<CalibrationObservation>) -> Seq<char> {
    "["@ + observation_items(obs) + "]"@
}

/// The evidence digest of a window: SHA-256 of its JSON, in lower-case hex.
pub open spec fn observations_digest(obs: Seq<CalibrationObservation>) -> Seq<char> {
    sha256_hex(utf8(observations_json(obs)))
}

/// The evidence digest of a cold start for a model and an instrument.
pub open spec fn cold_start_digest(model: Seq<char>, instrument: Seq<char>) -> Seq<char> {
    sha256_hex(utf8("cold-start:"@ + model + ":"@ + instrument))
}

fn side_text(side: Side) -> (r: &'static str)
    ensures
        r@ == side_json(side),
{
    match side {
        Side::Buy => "\"Buy\"",
        Side::Sell => "\"Sell\"",
    }
}

fn push_observation_json(out: &mut String, o: &CalibrationObservation)
    ensures
        final(out)@ == old(out)@ + observation_json(*o),
{
    out.append("{\"event_at_ms\":");
    out.append(u64_to_dec(o.event_at_ms).as_str());
    out.append(",\"side\":");
    out.append(side_text(o.side));
    out.append(",\"attempted_quantity\":");
    out.append(i64_to_dec(o.attempted_quantity).as_str());
    out.append(",\"filled_quantity\":");
    out.append(i64_to_dec(o.filled_quantity).as_str());
    out.append(",\"markout_pico_bps\":");
    match o.markout_pico_bps {
        Some(m) => out.append(i64_to_dec(m).as_str()),
        None => out.append("null"),
    }
    out.append("}");
    proof {
        let m = match o.markout_pico_bps {
            Some(m) => signed_dec_chars(m as int),
            None => "null"@,
        };
        assert(final(out)@ =~= old(out)@ + observation_json(*o));
    }
}

/// The observations rendered as compact JSON.
pub fn encode_observations(obs: &Vec<CalibrationObservation>) -> (r: String)
    ensures
        r@ == observations_json(obs@),
{
    let mut out = owned("[");
    let mut i: usize = 0;
    while i < obs.len()
        invariant
            i <= obs@.len(),
            out@ == "["@ + observation_items(obs@.subrange(0, i as int)),
        decreases obs@.len() - i,
    {
        let ghost before = out@;
        proof {
            let pre = obs@.subrange(0, i as int);
            let next = obs@.subrange(0, i + 1);
            assert(next.drop_last() =~= pre);
            assert(next.last() == obs@[i as int]);
            if i == 0 {
                assert(next =~= seq![obs@[0]]);
            }
        }
        if i > 0 {
            out.append(",");
        }
        push_observation_json(&mut out, &obs[i]);
        proof {
            if i == 0 {
                assert(out@ =~= "["@ + observation_items(obs@.subrange(0, 1)));
            } else {
                assert(out@ =~= "["@ + observation_items(obs@.subrange(0, i + 1)));
            }
        }
        i = i + 1;
    }
    out.append("]");
    assert(obs@.subrange(0, obs@.len() as int) =~= obs@);
    out
}

fn digest_observations(obs: &Vec<CalibrationObservation>) -> (r: String)
    ensures
        r@ == observations_digest(obs@),
{
    let json = encode_observations(obs);
    digest_hex(json.as_str().as_bytes())
}

// ---------------------------------------------------------------------------
// State transitions.

pub open spec fn identity_error(s: CalibrationState) -> Option<CalibrationError> {
    if s.schema_version != CALIBRATION_SCHEMA_VERSION {
        Some(CalibrationError::SchemaMismatch)
    } else if s.model_version@ != model_version() {
        Some(CalibrationError::ModelMismatch)
    } else if trim_chars(s.instrument@).len() == 0 {
        Some(CalibrationError::EmptyInstrument)
    } else {
        None
    }
}

/// The most recent observations, at most the window capacity of them.
pub open spec fn window(obs: Seq<CalibrationObservation>) -> Seq<CalibrationObservation> {
    if obs.len() > WINDOW_CAPACITY {
        obs.subrange(obs.len() - WINDOW_CAPACITY, obs.len() as int)
    } else {
        obs
    }
}

/// One observation applied to a window with its first and last event times.
pub open spec fn observe_step(
    obs: Seq<CalibrationObservation>,
    first: u64,
    last: u64,
    o: CalibrationObservation,
) -> Result<(Seq<CalibrationObservation>, u64, u64), CalibrationError> {
    if !observation_valid(o) {
        Err(CalibrationError::InvalidObservation)
    } else if last != 0 && o.event_at_ms < last {
        Err(CalibrationError::EventTimeRegression)
    } else {
        Ok((window(obs.push(o)), if first == 0 { o.event_at_ms } else { first }, o.event_at_ms))
    }
}

/// The admission a window carries: present exactly when its history is
/// admissible, with the holdout statistics and the window's digest.
pub open spec fn admission_matches(
    a: Option<HistoryAdmission>,
    obs: Seq<CalibrationObservation>,
    first: u64,
    last: u64,
) -> bool {
    let q = quality_spec(obs, first, last);
    if q.admissible {
        a matches Some(h) && {
            &&& h.admitted_at_ms == last
            &&& h.effective_sample_size == q.complete_observations
            &&& q.train_robust_lower_pico_bps == Some(h.train_robust_lower_pico_bps)
            &&& q.validation_median_pico_bps == Some(h.validation_median_pico_bps)
            &&& q.validation_robust_lower_pico_bps == Some(h.validation_robust_lower_pico_bps)
            &&& h.evidence_digest@ == observations_digest(obs)
        }
    } else {
        a is None
    }
}

/// The state observing `inputs` in order from a fresh state reaches.
pub open spec fn replay_spec(inputs: Seq<CalibrationObservation>) -> Result<
    (Seq<CalibrationObservation>, u64, u64),
    CalibrationError,
>
    decreases inputs.len(),
{
    if inputs.len() == 0 {
        Ok((Seq::empty(), 0, 0))
    } else {
        match replay_spec(inputs.drop_last()) {
            Err(e) => Err(e),
            Ok(v) => observe_step(v.0, v.1, v.2, inputs.last()),
        }
    }
}

/// Every state reached while replaying `inputs` has defined holdout
/// statistics.
pub open spec fn replay_safe(inputs: Seq<CalibrationObservation>) -> bool {
    forall|k: int|
        0 <= k <= inputs.len() ==> (#[trigger] replay_spec(inputs.subrange(0, k)) matches Ok(v) ==> quality_safe(v.0))
}

/// What checking a decoded state gives: its identity error, or the error
/// replaying its observations meets, or the state itself exactly when the
/// replay reproduces it (otherwise it is an invalid snapshot).
pub open spec fn decoded_outcome(state: CalibrationState, r: Result<CalibrationState, CalibrationError>) -> bool {
    match identity_error(state) {
        Some(e) => r == Err::<CalibrationState, CalibrationError>(e),
        None => match replay_spec(state.observations@) {
            Err(e) => r == Err::<CalibrationState, CalibrationError>(e),
            Ok(v) => {
                let reproduced = state.observations@ == v.0 && state.first_event_at_ms == v.1
                    && state.last_event_at_ms == v.2 && admission_matches(state.admission, v.0, v.1, v.2);
                &&& reproduced ==> r == Ok::<CalibrationState, CalibrationError>(state)
                &&& !reproduced ==> r == Err::<CalibrationState, CalibrationError>(CalibrationError::InvalidSnapshot)
            },
        },
    }
}

/// Two states agree field by field.
pub open spec fn state_eq(a: CalibrationState, b: CalibrationState) -> bool {
    &&& a.schema_version == b.schema_version
    &&& a.model_version@ == b.model_version@
    &&& a.instrument@ == b.instrument@
    &&& a.observations@ == b.observations@
    &&& a.first_event_at_ms == b.first_event_at_ms
    &&& a.last_event_at_ms == b.last_event_at_ms
    &&& match (a.admission, b.admission) {
        (None, None) => true,
        (Some(x), Some(y)) => {
            &&& x.admitted_at_ms == y.admitted_at_ms
            &&& x.effective_sample_size == y.effective_sample_size
            &&& x.train_robust_lower_pico_bps == y.train_robust_lower_pico_bps
            &&& x.validation_median_pico_bps == y.validation_median_pico_bps
            &&& x.validation_robust_lower_pico_bps == y.validation_robust_lower_pico_bps
            &&& x.evidence_digest@ == y.evidence_digest@
        },
        _ => false,
    }
}

fn same_admission(a: &Option<HistoryAdmission>, b: &Option<HistoryAdmission>) -> (r: bool)
    ensures
        r == (match (*a, *b) {
            (None, None) => true,
            (Some(x), Some(y)) => {
                &&& x.admitted_at_ms == y.admitted_at_ms
                &&& x.effective_sample_size == y.effective_sample_size
                &&& x.train_robust_lower_pico_bps == y.train_robust_lower_pico_bps
                &&& x.validation_median_pico_bps == y.validation_median_pico_bps
                &&& x.validation_robust_lower_pico_bps == y.validation_robust_lower_pico_bps
                &&& x.evidence_digest@ == y.evidence_digest@
            },
            _ => false,
        }),
{
    match (a, b) {
        (None, None) => true,
        (Some(x), Some(y)) => x.admitted_at_ms == y.admitted_at_ms && x.effective_sample_size
            == y.effective_sample_size && x.train_robust_lower_pico_bps == y.train_robust_lower_pico_bps
            && x.validation_median_pico_bps == y.validation_median_pico_bps
            && x.validation_robust_lower_pico_bps == y.validation_robust_lower_pico_bps
            && crate::text::str_eq(x.evidence_digest.as_str(), y.evidence_digest.as_str()),
        _ => false,
    }
}

fn same_observations(a: &Vec<CalibrationObservation>, b: &Vec<CalibrationObservation>) -> (r: bool)
    ensures
        r == (a@ == b@),
{
    if a.len() != b.len() {
        return false;
    }
    let mut i: usize = 0;
    while i < a.len()
        invariant
            a@.len() == b@.len(),
            i <= a@.len(),
            forall|k: int| 0 <= k < i ==> a@[k] == b@[k],
        decreases a@.len() - i,
    {
        if a[i] != b[i] {
            return false;
        }
        i = i + 1;
    }
    assert(a@ =~= b@);
    true
}

/// Whether two states agree field by field.
pub fn same_state(a: &CalibrationState, b: &CalibrationState) -> (r: bool)
    ensures
        r == state_eq(*a, *b),
{
    a.schema_version == b.schema_version && crate::text::str_eq(a.model_version.as_str(), b.model_version.as_str())
        && crate::text::str_eq(a.instrument.as_str(), b.instrument.as_str()) && same_observations(
        &a.observations,
        &b.observations,
    ) && a.first_event_at_ms == b.first_event_at_ms && a.last_event_at_ms == b.last_event_at_ms
        && same_admission(&a.admission, &b.admission)
}

fn completed_exec(obs: &Vec<CalibrationObservation>) -> (r: Vec<(Side, i64)>)
    ensures
        r@ == completed(obs@),
{
    let mut out: Vec<(Side, i64)> = Vec::new();
    let mut i: usize = 0;
    while i < obs.len()
        invariant
            i <= obs@.len(),
            out@ == completed(obs@.subrange(0, i as int)),
        decreases obs@.len() - i,
    {
        proof {
            assert(obs@.subrange(0, i + 1).drop_last() =~= obs@.subrange(0, i as int));
            assert(obs@.subrange(0, i + 1).last() == obs@[i as int]);
        }
        let o = obs[i];
        match o.markout_pico_bps {
            Some(m) => out.push((o.side, m)),
            None => {},
        }
        i = i + 1;
    }
    assert(obs@.subrange(0, obs@.len() as int) =~= obs@);
    out
}

fn markouts_between(c: &Vec<(Side, i64)>, lo: usize, hi: usize) -> (r: Vec<i64>)
    requires
        lo <= hi <= c@.len(),
    ensures
        r@ == markouts_of(c@.subrange(lo as int, hi as int)),
{
    let mut out: Vec<i64> = Vec::new();
    let mut j: usize = lo;
    while j < hi
        invariant
            lo <= j <= hi,
            hi <= c@.len(),
            out@ == markouts_of(c@.subrange(lo as int, j as int)),
        decreases hi - j,
    {
        out.push(c[j].1);
        proof {
            assert(out@ =~= markouts_of(c@.subrange(lo as int, j + 1)));
        }
        j = j + 1;
    }
    out
}

fn count_side_exec(c: &Vec<(Side, i64)>, side: Side) -> (r: u64)
    ensures
        r == count_side(c@, side),
{
    let mut n: u64 = 0;
    let mut j: usize = 0;
    while j < c.len()
        invariant
            j <= c@.len(),
            n == count_side(c@.subrange(0, j as int), side),
        decreases c@.len() - j,
    {
        proof {
            assert(c@.subrange(0, j + 1).drop_last() =~= c@.subrange(0, j as int));
            lemma_count_side_len(c@.subrange(0, j as int), side);
        }
        if c[j].0 == side {
            n = n + 1;
        }
        j = j + 1;
    }
    assert(c@.subrange(0, c@.len() as int) =~= c@);
    n
}

fn chronological_exec(obs: &Vec<CalibrationObservation>) -> (r: bool)
    ensures
        r == chronological(obs@),
{
    let n = obs.len();
    if n == 0 {
        return true;
    }
    let mut k: usize = 0;
    while k + 1 < n
        invariant
            n == obs@.len(),
            n > 0,
            k + 1 <= n,
            forall|m: int| 0 <= m < k ==> #[trigger] obs@[m].event_at_ms <= obs@[m + 1].event_at_ms,
        decreases n - k,
    {
        if obs[k].event_at_ms > obs[k + 1].event_at_ms {
            return false;
        }
        k = k + 1;
    }
    true
}

impl CalibrationState {
    /// A fresh calibration for an instrument: cold, with no observations.
    pub fn new(instrument: &str) -> (r: Result<Self, CalibrationError>)
        ensures
            trim_chars(instrument@).len() == 0 ==> r == Err::<CalibrationState, CalibrationError>(CalibrationError::EmptyInstrument),
            trim_chars(instrument@).len() > 0 ==> (r matches Ok(s) && {
                &&& s.schema_version == CALIBRATION_SCHEMA_VERSION
                &&& s.model_version@ == model_version()
                &&& s.instrument@ == instrument@
                &&& s.observations@.len() == 0
                &&& s.first_event_at_ms == 0
                &&& s.last_event_at_ms == 0
                &&& s.admission is None
            }),
    {
        if trim(instrument).is_empty() {
            return Err(CalibrationError::EmptyInstrument);
        }
        Ok(CalibrationState {
            schema_version: CALIBRATION_SCHEMA_VERSION,
            model_version: owned(CALIBRATION_MODEL_VERSION),
            instrument: owned(instrument),
            observations: Vec::new(),
            first_event_at_ms: 0,
            last_event_at_ms: 0,
            admission: None,
        })
    }

    /// The schema and model version must be current and the instrument
    /// named.
    pub fn validate_identity(&self) -> (r: Result<(), CalibrationError>)
        ensures
            r is Ok <==> identity_error(*self) is None,
            r matches Err(e) ==> identity_error(*self) == Some(e),
    {
        if self.schema_version != CALIBRATION_SCHEMA_VERSION {
            return Err(CalibrationError::SchemaMismatch);
        }
        if !crate::text::str_eq(self.model_version.as_str(), CALIBRATION_MODEL_VERSION) {
            return Err(CalibrationError::ModelMismatch);
        }
        if trim(self.instrument.as_str()).is_empty() {
            return Err(CalibrationError::EmptyInstrument);
        }
        Ok(())
    }

    /// Records one observation. Observations must be well formed and never go
    /// back in time; the window keeps the most recent ones, and admission is
    /// re-evaluated after each.
    pub fn observe(&mut self, observation: CalibrationObservation) -> (r: Result<(), CalibrationError>)
        requires
            identity_error(*old(self)) is None ==> (observe_step(
                old(self).observations@,
                old(self).first_event_at_ms,
                old(self).last_event_at_ms,
                observation,
            ) matches Ok(v) ==> quality_safe(v.0)),
        ensures
            identity_error(*old(self)) matches Some(e) ==> r == Err::<(), CalibrationError>(e) && *final(self) == *old(self),
            identity_error(*old(self)) is None ==> match observe_step(
                old(self).observations@,
                old(self).first_event_at_ms,
                old(self).last_event_at_ms,
                observation,
            ) {
                Err(e) => r == Err::<(), CalibrationError>(e) && *final(self) == *old(self),
                Ok(v) => {
                    &&& r is Ok
                    &&& final(self).schema_version == old(self).schema_version
                    &&& final(self).model_version == old(self).model_version
                    &&& final(self).instrument == old(self).instrument
                    &&& final(self).observations@ == v.0
                    &&& final(self).first_event_at_ms == v.1
                    &&& final(self).last_event_at_ms == v.2
                    &&& admission_matches(final(self).admission, v.0, v.1, v.2)
                },
            },
    {
        match self.validate_identity() {
            Err(e) => {
                return Err(e);
            },
            Ok(()) => {},
        }
        let invalid_markout = match observation.markout_pico_bps {
            Some(v) => v == i64::MIN,
            None => false,
        };
        if observation.event_at_ms == 0 || observation.attempted_quantity <= 0 || observation.filled_quantity < 0
            || observation.filled_quantity > observation.attempted_quantity || invalid_markout {
            return Err(CalibrationError::InvalidObservation);
        }
        if self.last_event_at_ms != 0 && observation.event_at_ms < self.last_event_at_ms {
            return Err(CalibrationError::EventTimeRegression);
        }
        if self.first_event_at_ms == 0 {
            self.first_event_at_ms = observation.event_at_ms;
        }
        self.last_event_at_ms = observation.event_at_ms;
        let ghost pushed = self.observations@.push(observation);
        let ghost first = self.first_event_at_ms;
        self.observations.push(observation);
        while self.observations.len() > WINDOW_CAPACITY
            invariant
                self.schema_version == old(self).schema_version,
                self.model_version == old(self).model_version,
                self.instrument == old(self).instrument,
                self.first_event_at_ms == first,
                self.last_event_at_ms == observation.event_at_ms,
                self.observations@.len() >= WINDOW_CAPACITY || self.observations@ == pushed,
                self.observations@.len() <= pushed.len(),
                self.observations@ == pushed.subrange(pushed.len() - self.observations@.len(), pushed.len() as int),
            decreases self.observations@.len(),
        {
            let ghost before = self.observations@;
            self.observations.remove(0);
            assert(self.observations@ =~= pushed.subrange(pushed.len() - self.observations@.len(), pushed.len() as int));
        }
        proof {
            if pushed.len() <= WINDOW_CAPACITY {
                assert(pushed.subrange(0, pushed.len() as int) =~= pushed);
            }
        }
        self.refresh_admission();
        Ok(())
    }

    fn refresh_admission(&mut self)
        requires
            identity_error(*old(self)) is None,
            quality_safe(old(self).observations@),
        ensures
            final(self).schema_version == old(self).schema_version,
            final(self).model_version == old(self).model_version,
            final(self).instrument == old(self).instrument,
            final(self).observations == old(self).observations,
            final(self).first_event_at_ms == old(self).first_event_at_ms,
            final(self).last_event_at_ms == old(self).last_event_at_ms,
            admission_matches(
                final(self).admission,
                old(self).observations@,
                old(self).first_event_at_ms,
                old(self).last_event_at_ms,
            ),
    {
        let report = match self.history_quality() {
            Ok(report) => report,
            Err(_) => {
                self.admission = None;
                return;
            },
        };
        if !report.admissible {
            self.admission = None;
            return;
        }
        match (
            report.train_robust_lower_pico_bps,
            report.validation_median_pico_bps,
            report.validation_robust_lower_pico_bps,
        ) {
            (Some(train_lower), Some(validation_median), Some(validation_lower)) => {
                let digest = digest_observations(&self.observations);
                self.admission = Some(
                    HistoryAdmission {
                        admitted_at_ms: self.last_event_at_ms,
                        effective_sample_size: report.complete_observations,
                        train_robust_lower_pico_bps: train_lower,
                        validation_median_pico_bps: validation_median,
                        validation_robust_lower_pico_bps: validation_lower,
                        evidence_digest: digest,
                    },
                );
            },
            _ => {
                self.admission = None;
            },
        }
    }

    /// Admitted once history is admitted, cold while there is no
    /// observation, validating in between.
    pub fn phase(&self) -> (r: CalibrationPhase)
        ensures
            r == (if self.admission is Some {
                CalibrationPhase::Admitted
            } else if self.observations@.len() == 0 {
                CalibrationPhase::ColdStart
            } else {
                CalibrationPhase::Validating
            }),
    {
        if self.admission.is_some() {
            CalibrationPhase::Admitted
        } else if self.observations.len() == 0 {
            CalibrationPhase::ColdStart
        } else {
            CalibrationPhase::Validating
        }
    }

    /// The quality report of the current window.
    pub fn history_quality(&self) -> (r: Result<HistoryQualityReport, CalibrationError>)
        requires
            identity_error(*self) is None ==> quality_safe(self.observations@),
        ensures
            identity_error(*self) matches Some(e) ==> r == Err::<HistoryQualityReport, CalibrationError>(e),
            identity_error(*self) is None ==> r == Ok::<HistoryQualityReport, CalibrationError>(
                quality_spec(self.observations@, self.first_event_at_ms, self.last_event_at_ms),
            ),
    {
        match self.validate_identity() {
            Err(e) => {
                return Err(e);
            },
            Ok(()) => {},
        }
        let ghost obs = self.observations@;
        let chronology_valid = chronological_exec(&self.observations);
        let completed_list = completed_exec(&self.observations);
        proof {
            lemma_completed_len(obs);
        }
        let n = completed_list.len();
        let split: usize = if n > usize::MAX / 2 { usize::MAX / 3 } else { n * 2 / 3 };
        assert(split == split_point(n as nat));
        let train_values_vec = markouts_between(&completed_list, 0, split);
        let validation_values_vec = markouts_between(&completed_list, split, n);
        let train = robust_stats(&train_values_vec);
        let validation = robust_stats(&validation_values_vec);
        let buy_complete_observations = count_side_exec(&completed_list, Side::Buy);
        let sell_complete_observations = count_side_exec(&completed_list, Side::Sell);
        let front = if self.observations.len() == 0 { 0 } else { self.observations[0].event_at_ms };
        let back = if self.observations.len() == 0 {
            0
        } else {
            self.observations[self.observations.len() - 1].event_at_ms
        };
        let replay_valid = chronology_valid && self.first_event_at_ms == front && self.last_event_at_ms == back;
        let holdout_passes = match (validation, train) {
            (Some(v), Some(t)) => v.1 >= t.1,
            _ => false,
        };
        let admissible = n >= MIN_EFFECTIVE_SAMPLES && buy_complete_observations >= MIN_DIRECTIONAL_SAMPLES as u64
            && sell_complete_observations >= MIN_DIRECTIONAL_SAMPLES as u64 && split > 0 && validation.is_some()
            && chronology_valid && replay_valid && holdout_passes;
        Ok(
            HistoryQualityReport {
                total_observations: self.observations.len() as u64,
                complete_observations: n as u64,
                buy_complete_observations,
                sell_complete_observations,
                validation_observations: (n - split) as u64,
                chronology_valid,
                replay_valid,
                train_robust_lower_pico_bps: match train {
                    Some(t) => Some(t.1),
                    None => None,
                },
                validation_median_pico_bps: match validation {
                    Some(v) => Some(v.0),
                    None => None,
                },
                validation_robust_lower_pico_bps: match validation {
                    Some(v) => Some(v.1),
                    None => None,
                },
                admissible,
            },
        )
    }
}

// ---------------------------------------------------------------------------
// Snapshots.

/// The observations on one side.
pub open spec fn side_observations(obs: Seq<CalibrationObservation>, side: Side) -> Seq<CalibrationObservation>
    decreases obs.len(),
{
    if obs.len() == 0 {
        Seq::empty()
    } else {
        let rest = side_observations(obs.drop_last(), side);
        if obs.last().side == side {
            rest.push(obs.last())
        } else {
            rest
        }
    }
}

/// The sum of the values, or none when a partial sum leaves `u64`.
pub open spec fn checked_total(values: Seq<u64>) -> Option<u64>
    decreases values.len(),
{
    if values.len() == 0 {
        Some(0)
    } else {
        match checked_total(values.drop_last()) {
            None => None,
            Some(t) => if t + values.last() <= u64::MAX {
                Some((t + values.last()) as u64)
            } else {
                None
            },
        }
    }
}

pub open spec fn attempts_of(obs: Seq<CalibrationObservation>) -> Seq<u64> {
    obs.map_values(|o: CalibrationObservation| o.attempted_quantity as u64)
}

pub open spec fn fills_of(obs: Seq<CalibrationObservation>) -> Seq<u64> {
    obs.map_values(|o: CalibrationObservation| o.filled_quantity as u64)
}

/// The known markouts, in order.
pub open spec fn known_markouts(obs: Seq<CalibrationObservation>) -> Seq<i64>
    decreases obs.len(),
{
    if obs.len() == 0 {
        Seq::empty()
    } else {
        let rest = known_markouts(obs.drop_last());
        match obs.last().markout_pico_bps {
            Some(m) => rest.push(m),
            None => rest,
        }
    }
}

/// The calibration of one side: total attempts and fills, the fill
/// probability in basis points, and the robust markout statistics.
pub open spec fn directional_spec(obs: Seq<CalibrationObservation>, side: Side) -> Option<DirectionalCalibration> {
    let so = side_observations(obs, side);
    match (checked_total(attempts_of(so)), checked_total(fills_of(so))) {
        (Some(attempts), Some(fills)) => match robust_stats_spec(known_markouts(so)) {
            Some(stats) => Some(
                DirectionalCalibration {
                    attempts,
                    fills,
                    fill_probability_bps: min_int(sat_u64(fills * 10_000) / (attempts as int), 10_000) as u16,
                    adverse_markout_pico_bps: stats.0,
                    robust_lower_pico_bps: stats.1,
                },
            ),
            None => None,
        },
        _ => None,
    }
}

/// The side's calibration is defined: its statistics exist and it has
/// attempts to divide the fills by.
pub open spec fn directional_safe(obs: Seq<CalibrationObservation>, side: Side) -> bool {
    let so = side_observations(obs, side);
    match (checked_total(attempts_of(so)), checked_total(fills_of(so))) {
        (Some(attempts), Some(_)) => known_markouts(so).len() > 0 ==> attempts != 0 && deviation_safe(
            known_markouts(so),
        ),
        _ => true,
    }
}

pub open spec fn directional_valid(d: DirectionalCalibration) -> bool {
    d.attempts > 0 && d.fills <= d.attempts && d.fill_probability_bps <= 10_000
}

/// The rule a snapshot must meet, over its fields.
pub open spec fn snapshot_error_of(
    schema_version: u16,
    model: Seq<char>,
    instrument: Seq<char>,
    phase: CalibrationPhase,
    effective_sample_size: u64,
    buy: DirectionalCalibration,
    sell: DirectionalCalibration,
    window_start_ms: u64,
    window_end_ms: u64,
    digest: Seq<char>,
) -> Option<CalibrationError> {
    if schema_version != CALIBRATION_SCHEMA_VERSION || model != model_version() {
        Some(CalibrationError::SchemaMismatch)
    } else if trim_chars(instrument).len() == 0 || digest.len() == 0 {
        Some(CalibrationError::InvalidSnapshot)
    } else {
        match phase {
            CalibrationPhase::ColdStart => if effective_sample_size != 0 || buy != DirectionalCalibration::cold()
                || sell != DirectionalCalibration::cold() {
                Some(CalibrationError::InvalidSnapshot)
            } else {
                None
            },
            CalibrationPhase::Validating => Some(CalibrationError::InvalidSnapshot),
            CalibrationPhase::Admitted => if effective_sample_size < MIN_EFFECTIVE_SAMPLES || !directional_valid(buy)
                || !directional_valid(sell) || window_end_ms < window_start_ms {
                Some(CalibrationError::InvalidSnapshot)
            } else {
                None
            },
        }
    }
}

pub open spec fn snapshot_error(s: CalibrationSnapshot) -> Option<CalibrationError> {
    snapshot_error_of(
        s.schema_version,
        s.model_version@,
        s.instrument@,
        s.phase,
        s.effective_sample_size,
        s.buy,
        s.sell,
        s.window_start_ms,
        s.window_end_ms,
        s.evidence_digest@,
    )
}

/// The snapshot of a state without admitted history.
pub open spec fn is_cold_snapshot(snap: CalibrationSnapshot, state: CalibrationState) -> bool {
    &&& snap.schema_version == state.schema_version
    &&& snap.model_version@ == state.model_version@
    &&& snap.instrument@ == state.instrument@
    &&& snap.phase == CalibrationPhase::ColdStart
    &&& snap.effective_sample_size == 0
    &&& snap.buy == DirectionalCalibration::cold()
    &&& snap.sell == DirectionalCalibration::cold()
    &&& snap.window_start_ms == 0
    &&& snap.window_end_ms == 0
    &&& snap.evidence_digest@ == cold_start_digest(state.model_version@, state.instrument@)
}

/// The outcome of snapshotting admitted history: both sides calibrated, the
/// admission large enough, and the snapshot valid.
pub open spec fn admitted_outcome(state: CalibrationState, a: HistoryAdmission) -> Result<
    (DirectionalCalibration, DirectionalCalibration),
    CalibrationError,
> {
    match (directional_spec(state.observations@, Side::Buy), directional_spec(state.observations@, Side::Sell)) {
        (Some(buy), Some(sell)) => if a.effective_sample_size < MIN_EFFECTIVE_SAMPLES {
            Err(CalibrationError::InsufficientHistory)
        } else {
            match snapshot_error_of(
                state.schema_version,
                state.model_version@,
                state.instrument@,
                CalibrationPhase::Admitted,
                a.effective_sample_size,
                buy,
                sell,
                state.first_event_at_ms,
                state.last_event_at_ms,
                a.evidence_digest@,
            ) {
                Some(e) => Err(e),
                None => Ok((buy, sell)),
            }
        },
        _ => Err(CalibrationError::InsufficientHistory),
    }
}

/// `r` is the snapshot of admitted history `a`.
pub open spec fn admitted_result(r: Result<CalibrationSnapshot, CalibrationError>, state: CalibrationState, a: HistoryAdmission) -> bool {
    match admitted_outcome(state, a) {
        Err(e) => r == Err::<CalibrationSnapshot, CalibrationError>(e),
        Ok(sides) => r matches Ok(snap) && {
            &&& snap.schema_version == state.schema_version
            &&& snap.model_version@ == state.model_version@
            &&& snap.instrument@ == state.instrument@
            &&& snap.phase == CalibrationPhase::Admitted
            &&& snap.effective_sample_size == a.effective_sample_size
            &&& snap.buy == sides.0
            &&& snap.sell == sides.1
            &&& snap.window_start_ms == state.first_event_at_ms
            &&& snap.window_end_ms == state.last_event_at_ms
            &&& snap.evidence_digest@ == a.evidence_digest@
        },
    }
}

fn side_observations_exec(obs: &Vec<CalibrationObservation>, side: Side) -> (r: Vec<CalibrationObservation>)
    ensures
        r@ == side_observations(obs@, side),
{
    let mut out: Vec<CalibrationObservation> = Vec::new();
    let mut i: usize = 0;
    while i < obs.len()
        invariant
            i <= obs@.len(),
            out@ == side_observations(obs@.subrange(0, i as int), side),
        decreases obs@.len() - i,
    {
        proof {
            assert(obs@.subrange(0, i + 1).drop_last() =~= obs@.subrange(0, i as int));
            assert(obs@.subrange(0, i + 1).last() == obs@[i as int]);
        }
        if obs[i].side == side {
            out.push(obs[i]);
        }
        i = i + 1;
    }
    assert(obs@.subrange(0, obs@.len() as int) =~= obs@);
    out
}

fn checked_total_exec(obs: &Vec<CalibrationObservation>, attempts: bool) -> (r: Option<u64>)
    ensures
        r == checked_total(if attempts { attempts_of(obs@) } else { fills_of(obs@) }),
{
    let ghost values = if attempts { attempts_of(obs@) } else { fills_of(obs@) };
    let mut total: u64 = 0;
    let mut i: usize = 0;
    while i < obs.len()
        invariant
            i <= obs@.len(),
            values == (if attempts { attempts_of(obs@) } else { fills_of(obs@) }),
            checked_total(values.subrange(0, i as int)) == Some(total),
        decreases obs@.len() - i,
    {
        proof {
            assert(values.subrange(0, i + 1).drop_last() =~= values.subrange(0, i as int));
        }
        let v: u64 = if attempts { obs[i].attempted_quantity as u64 } else { obs[i].filled_quantity as u64 };
        assert(values.subrange(0, i + 1).last() == v);
        if total > u64::MAX - v {
            proof {
                let mut k = i + 1;
                assert(checked_total(values.subrange(0, i + 1)) is None);
                lemma_checked_total_sticky(values, i + 1);
            }
            return None;
        }
        total = total + v;
        i = i + 1;
    }
    assert(values.subrange(0, obs@.len() as int) =~= values);
    Some(total)
}

/// Once a partial sum leaves `u64`, the whole sum is none.
proof fn lemma_checked_total_sticky(values: Seq<u64>, k: int)
    requires
        0 <= k <= values.len(),
        checked_total(values.subrange(0, k)) is None,
    ensures
        checked_total(values) is None,
    decreases values.len() - k,
{
    if k < values.len() {
        assert(values.subrange(0, k + 1).drop_last() =~= values.subrange(0, k));
        lemma_checked_total_sticky(values, k + 1);
    } else {
        assert(values.subrange(0, k) =~= values);
    }
}

fn known_markouts_exec(obs: &Vec<CalibrationObservation>) -> (r: Vec<i64>)
    ensures
        r@ == known_markouts(obs@),
{
    let mut out: Vec<i64> = Vec::new();
    let mut i: usize = 0;
    while i < obs.len()
        invariant
            i <= obs@.len(),
            out@ == known_markouts(obs@.subrange(0, i as int)),
        decreases obs@.len() - i,
    {
        proof {
            assert(obs@.subrange(0, i + 1).drop_last() =~= obs@.subrange(0, i as int));
            assert(obs@.subrange(0, i + 1).last() == obs@[i as int]);
        }
        match obs[i].markout_pico_bps {
            Some(m) => out.push(m),
            None => {},
        }
        i = i + 1;
    }
    assert(obs@.subrange(0, obs@.len() as int) =~= obs@);
    out
}

impl CalibrationState {
    fn directional_calibration(&self, side: Side) -> (r: Option<DirectionalCalibration>)
        requires
            directional_safe(self.observations@, side),
        ensures
            r == directional_spec(self.observations@, side),
    {
        let observations = side_observations_exec(&self.observations, side);
        let attempts = match checked_total_exec(&observations, true) {
            Some(a) => a,
            None => {
                return None;
            },
        };
        let fills = match checked_total_exec(&observations, false) {
            Some(f) => f,
            None => {
                return None;
            },
        };
        let markouts = known_markouts_exec(&observations);
        let stats = match robust_stats(&markouts) {
            Some(stats) => stats,
            None => {
                return None;
            },
        };
        let probability = crate::num::sat_mul_u64(fills, 10_000) / attempts;
        let bounded: u64 = if probability < 10_000 { probability } else { 10_000 };
        Some(
            DirectionalCalibration {
                attempts,
                fills,
                fill_probability_bps: bounded as u16,
                adverse_markout_pico_bps: stats.0,
                robust_lower_pico_bps: stats.1,
            },
        )
    }

    fn cold_start_snapshot(&self) -> (r: CalibrationSnapshot)
        ensures
            is_cold_snapshot(r, *self),
            r.evidence_digest@.len() == 64,
    {
        let mut text = owned("cold-start:");
        text.append(self.model_version.as_str());
        text.append(":");
        text.append(self.instrument.as_str());
        let digest = digest_hex(text.as_str().as_bytes());
        CalibrationSnapshot {
            schema_version: self.schema_version,
            model_version: owned(self.model_version.as_str()),
            instrument: owned(self.instrument.as_str()),
            phase: CalibrationPhase::ColdStart,
            effective_sample_size: 0,
            buy: DirectionalCalibration::cold_start(),
            sell: DirectionalCalibration::cold_start(),
            window_start_ms: 0,
            window_end_ms: 0,
            evidence_digest: digest,
        }
    }

    fn admitted_snapshot(&self, admission: &HistoryAdmission) -> (r: Result<CalibrationSnapshot, CalibrationError>)
        requires
            directional_safe(self.observations@, Side::Buy),
            directional_safe(self.observations@, Side::Sell),
        ensures
            admitted_result(r, *self, *admission),
    {
        let buy = match self.directional_calibration(Side::Buy) {
            Some(b) => b,
            None => {
                return Err(CalibrationError::InsufficientHistory);
            },
        };
        let sell = match self.directional_calibration(Side::Sell) {
            Some(s) => s,
            None => {
                return Err(CalibrationError::InsufficientHistory);
            },
        };
        if admission.effective_sample_size < MIN_EFFECTIVE_SAMPLES as u64 {
            return Err(CalibrationError::InsufficientHistory);
        }
        let snapshot = CalibrationSnapshot {
            schema_version: self.schema_version,
            model_version: owned(self.model_version.as_str()),
            instrument: owned(self.instrument.as_str()),
            phase: CalibrationPhase::Admitted,
            effective_sample_size: admission.effective_sample_size,
            buy,
            sell,
            window_start_ms: self.first_event_at_ms,
            window_end_ms: self.last_event_at_ms,
            evidence_digest: owned(admission.evidence_digest.as_str()),
        };
        match snapshot.validate() {
            Err(e) => Err(e),
            Ok(()) => Ok(snapshot),
        }
    }

    /// The snapshot the decision layer reads: the admitted one when history
    /// is admitted, the cold-start one otherwise.
    pub fn decision_snapshot(&self) -> (r: Result<CalibrationSnapshot, CalibrationError>)
        requires
            identity_error(*self) is None && self.admission is Some ==> directional_safe(self.observations@, Side::Buy)
                && directional_safe(self.observations@, Side::Sell),
        ensures
            identity_error(*self) matches Some(e) ==> r == Err::<CalibrationSnapshot, CalibrationError>(e),
            identity_error(*self) is None && self.admission is None ==> (r matches Ok(snap) && is_cold_snapshot(snap, *self)
                && snap.evidence_digest@.len() == 64),
            identity_error(*self) is None ==> (self.admission matches Some(a) ==> admitted_result(r, *self, a)),
            r matches Ok(snap) ==> snapshot_error(snap) is None,
    {
        match self.validate_identity() {
            Err(e) => {
                return Err(e);
            },
            Ok(()) => {},
        }
        match &self.admission {
            Some(admission) => self.admitted_snapshot(admission),
            None => Ok(self.cold_start_snapshot()),
        }
    }

    /// The admitted snapshot; an error while history is not admitted.
    pub fn snapshot(&self) -> (r: Result<CalibrationSnapshot, CalibrationError>)
        requires
            identity_error(*self) is None && self.admission is Some ==> directional_safe(self.observations@, Side::Buy)
                && directional_safe(self.observations@, Side::Sell),
        ensures
            identity_error(*self) matches Some(e) ==> r == Err::<CalibrationSnapshot, CalibrationError>(e),
            identity_error(*self) is None && self.admission is None ==> r == Err::<CalibrationSnapshot, CalibrationError>(CalibrationError::HistoryNotAdmitted),
            identity_error(*self) is None ==> (self.admission matches Some(a) ==> admitted_result(r, *self, a)),
    {
        match self.validate_identity() {
            Err(e) => {
                return Err(e);
            },
            Ok(()) => {},
        }
        match &self.admission {
            Some(admission) => self.admitted_snapshot(admission),
            None => Err(CalibrationError::HistoryNotAdmitted),
        }
    }

    /// Rebuilds the state by observing its window again from a fresh state.
    pub fn replay(&self) -> (r: Result<Self, CalibrationError>)
        requires
            identity_error(*self) is None ==> replay_safe(self.observations@),
        ensures
            identity_error(*self) matches Some(e) ==> r == Err::<CalibrationState, CalibrationError>(e),
            identity_error(*self) is None ==> match replay_spec(self.observations@) {
                Err(e) => r == Err::<CalibrationState, CalibrationError>(e),
                Ok(v) => r matches Ok(s) && {
                    &&& identity_error(s) is None
                    &&& s.schema_version == CALIBRATION_SCHEMA_VERSION
                    &&& s.model_version@ == model_version()
                    &&& s.instrument@ == self.instrument@
                    &&& s.observations@ == v.0
                    &&& s.first_event_at_ms == v.1
                    &&& s.last_event_at_ms == v.2
                    &&& admission_matches(s.admission, v.0, v.1, v.2)
                },
            },
    {
        match self.validate_identity() {
            Err(e) => {
                return Err(e);
            },
            Ok(()) => {},
        }
        let mut replayed = match CalibrationState::new(self.instrument.as_str()) {
            Ok(s) => s,
            Err(e) => {
                return Err(e);
            },
        };
        let ghost inputs = self.observations@;
        proof {
            assert(inputs.subrange(0, 0) =~= Seq::<CalibrationObservation>::empty());
            assert(replayed.model_version@ == model_version());
            assert(admission_matches(replayed.admission, Seq::empty(), 0, 0));
        }
        let mut i: usize = 0;
        while i < self.observations.len()
            invariant
                i <= inputs.len(),
                inputs == self.observations@,
                identity_error(*self) is None,
                replay_safe(inputs),
                identity_error(replayed) is None,
                replayed.schema_version == CALIBRATION_SCHEMA_VERSION,
                replayed.model_version@ == model_version(),
                replayed.instrument@ == self.instrument@,
                replay_spec(inputs.subrange(0, i as int)) matches Ok(v) && {
                    &&& replayed.observations@ == v.0
                    &&& replayed.first_event_at_ms == v.1
                    &&& replayed.last_event_at_ms == v.2
                    &&& admission_matches(replayed.admission, v.0, v.1, v.2)
                },
            decreases inputs.len() - i,
        {
            let o = self.observations[i];
            proof {
                assert(inputs.subrange(0, i + 1).drop_last() =~= inputs.subrange(0, i as int));
                assert(inputs.subrange(0, i + 1).last() == o);
                assert(replay_spec(inputs.subrange(0, i + 1)) matches Ok(v) ==> quality_safe(v.0));
            }
            match replayed.observe(o) {
                Err(e) => {
                    proof {
                        lemma_replay_error_sticky(inputs, i + 1);
                    }
                    return Err(e);
                },
                Ok(()) => {},
            }
            i = i + 1;
        }
        assert(inputs.subrange(0, inputs.len() as int) =~= inputs);
        Ok(replayed)
    }

    /// Accepts a state read back from storage only when its identity is
    /// valid and replaying its window reproduces it exactly.
    pub fn verify_decoded(self) -> (r: Result<Self, CalibrationError>)
        requires
            identity_error(self) is None ==> replay_safe(self.observations@),
        ensures
            decoded_outcome(self, r),
    {
        let replayed = match self.replay() {
            Ok(s) => s,
            Err(e) => {
                return Err(e);
            },
        };
        if !same_state(&replayed, &self) {
            proof {
                let v = replay_spec(self.observations@).get_Ok_0();
                if self.observations@ == v.0 && self.first_event_at_ms == v.1 && self.last_event_at_ms == v.2
                    && admission_matches(self.admission, v.0, v.1, v.2) {
                    lemma_admission_unique(replayed.admission, self.admission, v.0, v.1, v.2);
                }
            }
            return Err(CalibrationError::InvalidSnapshot);
        }
        Ok(self)
    }
}

/// Once a replay fails, replaying more observations fails the same way.
proof fn lemma_replay_error_sticky(inputs: Seq<CalibrationObservation>, k: int)
    requires
        0 <= k <= inputs.len(),
        replay_spec(inputs.subrange(0, k)) is Err,
    ensures
        replay_spec(inputs) == replay_spec(inputs.subrange(0, k)),
    decreases inputs.len() - k,
{
    if k < inputs.len() {
        assert(inputs.subrange(0, k + 1).drop_last() =~= inputs.subrange(0, k));
        lemma_replay_error_sticky(inputs, k + 1);
    } else {
        assert(inputs.subrange(0, k) =~= inputs);
    }
}

/// Two admissions that both match a window agree field by field.
proof fn lemma_admission_unique(
    a: Option<HistoryAdmission>,
    b: Option<HistoryAdmission>,
    obs: Seq<CalibrationObservation>,
    first: u64,
    last: u64,
)
    requires
        admission_matches(a, obs, first, last),
        admission_matches(b, obs, first, last),
    ensures
        match (a, b) {
            (None, None) => true,
            (Some(x), Some(y)) => {
                &&& x.admitted_at_ms == y.admitted_at_ms
                &&& x.effective_sample_size == y.effective_sample_size
                &&& x.train_robust_lower_pico_bps == y.train_robust_lower_pico_bps
                &&& x.validation_median_pico_bps == y.validation_median_pico_bps
                &&& x.validation_robust_lower_pico_bps == y.validation_robust_lower_pico_bps
                &&& x.evidence_digest@ == y.evidence_digest@
            },
            _ => false,
        },
{
}

impl CalibrationSnapshot {
    /// The value of a path once fills and markouts are accounted for: scaled
    /// by the side's fill probability and moved by its robust markout bound.
    /// Without admitted history the path value is returned as it is.
    pub fn robust_executable_value(&self, side: Side, path_value_pico_bps: i64) -> (r: i64)
        ensures
            self.phase != CalibrationPhase::Admitted ==> r == path_value_pico_bps,
            self.phase == CalibrationPhase::Admitted ==> {
                let d = match side {
                    Side::Buy => self.buy,
                    Side::Sell => self.sell,
                };
                let q = floor_div_spec(path_value_pico_bps * d.fill_probability_bps, 10_000);
                let adjusted = if i64::MIN <= q <= i64::MAX {
                    q
                } else if path_value_pico_bps < 0 {
                    i64::MIN as int
                } else {
                    i64::MAX as int
                };
                r == sat_i64(adjusted + d.robust_lower_pico_bps)
            },
    {
        if self.phase != CalibrationPhase::Admitted {
            return path_value_pico_bps;
        }
        let directional = match side {
            Side::Buy => self.buy,
            Side::Sell => self.sell,
        };
        let p = path_value_pico_bps as i128;
        let f = directional.fill_probability_bps as i128;
        assert(-9223372036854775808 * 65535 <= p * f <= 9223372036854775807 * 65535) by (nonlinear_arith)
            requires
                -9223372036854775808 <= p <= 9223372036854775807,
                0 <= f <= 65535,
        ;
        let product: i128 = p * f;
        let adjusted: i64 = match floor_div_positive(product, 10_000) {
            Some(q) => if i64::MIN as i128 <= q && q <= i64::MAX as i128 {
                q as i64
            } else if path_value_pico_bps < 0 {
                i64::MIN
            } else {
                i64::MAX
            },
            None => if path_value_pico_bps < 0 {
                i64::MIN
            } else {
                i64::MAX
            },
        };
        crate::num::sat_add_i64(adjusted, directional.robust_lower_pico_bps)
    }

    /// Checks the schema and model, the identity and digest, and the phase:
    /// a cold start carries no calibration, validating history is never a
    /// snapshot, and an admitted one has enough samples, sane sides and an
    /// ordered window.
    pub fn validate(&self) -> (r: Result<(), CalibrationError>)
        ensures
            r is Ok <==> snapshot_error(*self) is None,
            r matches Err(e) ==> snapshot_error(*self) == Some(e),
    {
        if self.schema_version != CALIBRATION_SCHEMA_VERSION || !crate::text::str_eq(
            self.model_version.as_str(),
            CALIBRATION_MODEL_VERSION,
        ) {
            return Err(CalibrationError::SchemaMismatch);
        }
        if trim(self.instrument.as_str()).is_empty() || self.evidence_digest.as_str().is_empty() {
            return Err(CalibrationError::InvalidSnapshot);
        }
        match self.phase {
            CalibrationPhase::ColdStart => {
                let cold = DirectionalCalibration::cold_start();
                if self.effective_sample_size != 0 || self.buy != cold || self.sell != cold {
                    return Err(CalibrationError::InvalidSnapshot);
                }
            },
            CalibrationPhase::Validating => {
                return Err(CalibrationError::InvalidSnapshot);
            },
            CalibrationPhase::Admitted => {
                let buy_valid = self.buy.attempts > 0 && self.buy.fills <= self.buy.attempts
                    && self.buy.fill_probability_bps <= 10_000;
                let sell_valid = self.sell.attempts > 0 && self.sell.fills <= self.sell.attempts
                    && self.sell.fill_probability_bps <= 10_000;
                if self.effective_sample_size < MIN_EFFECTIVE_SAMPLES as u64 || !buy_valid || !sell_valid
                    || self.window_end_ms < self.window_start_ms {
                    return Err(CalibrationError::InvalidSnapshot);
                }
            },
        }
        Ok(())
    }
}

// ---------------------------------------------------------------------------
// Laws.

/// Admitted history always passed the chronological holdout: enough
/// complete observations, and a validation lower bound no worse than the
/// training one.
pub proof fn law_admission_passed_holdout(
    h: HistoryAdmission,
    obs: Seq<CalibrationObservation>,
    first: u64,
    last: u64,
)
    requires
        admission_matches(Some(h), obs, first, last),
        obs.len() <= usize::MAX,
    ensures
        h.effective_sample_size >= MIN_EFFECTIVE_SAMPLES,
        h.validation_robust_lower_pico_bps >= h.train_robust_lower_pico_bps,
        quality_spec(obs, first, last).admissible,
        h.admitted_at_ms == last,
{
    lemma_completed_len(obs);
}

proof fn lemma_push_chronological(s: Seq<CalibrationObservation>, o: CalibrationObservation)
    requires
        chronological(s),
        s.len() > 0 ==> s.last().event_at_ms <= o.event_at_ms,
    ensures
        chronological(s.push(o)),
{
    let pushed = s.push(o);
    assert forall|i: int| 0 <= i < pushed.len() - 1 implies #[trigger] pushed[i].event_at_ms <= pushed[i + 1].event_at_ms by {
        if i < s.len() - 1 {
            assert(pushed[i] == s[i] && pushed[i + 1] == s[i + 1]);
        } else {
            assert(pushed[i] == s.last());
        }
    }
}

proof fn lemma_suffix_chronological(s: Seq<CalibrationObservation>, start: int)
    requires
        chronological(s),
        0 <= start <= s.len(),
    ensures
        chronological(s.subrange(start, s.len() as int)),
{
    let w = s.subrange(start, s.len() as int);
    assert forall|i: int| 0 <= i < w.len() - 1 implies #[trigger] w[i].event_at_ms <= w[i + 1].event_at_ms by {
        assert(w[i] == s[i + start]);
        assert(w[i + 1] == s[(i + start) + 1]);
    }
}

#[verifier::spinoff_prover]
#[verifier::rlimit(40)]
proof fn lemma_window_chronological(s: Seq<CalibrationObservation>)
    requires
        chronological(s),
    ensures
        chronological(window(s)),
        window(s).len() <= WINDOW_CAPACITY,
        s.len() > 0 ==> window(s).len() > 0 && window(s).last() == s.last() && s[0].event_at_ms
            <= window(s)[0].event_at_ms,
{
    if s.len() > WINDOW_CAPACITY {
        let start = s.len() - WINDOW_CAPACITY;
        lemma_suffix_chronological(s, start);
        lemma_chronological_monotone(s, 0, start);
        let w = s.subrange(start, s.len() as int);
        assert(window(s) == w);
        assert(w[0] == s[start]);
        assert(w.last() == s.last());
    }
}

/// Observing keeps the window chronological and within capacity, its last
/// event time the time of its newest observation, and its first event time
/// no later than its oldest observation.
pub proof fn law_replayed_window_is_chronological(inputs: Seq<CalibrationObservation>)
    requires
        replay_spec(inputs) is Ok,
    ensures
        ({
            let v = replay_spec(inputs).get_Ok_0();
            &&& chronological(v.0)
            &&& v.0.len() <= WINDOW_CAPACITY
            &&& v.0.len() == 0 ==> v.1 == 0 && v.2 == 0
            &&& v.0.len() > 0 ==> v.2 == v.0.last().event_at_ms && v.1 != 0 && v.1 <= v.0[0].event_at_ms
        }),
    decreases inputs.len(),
{
    if inputs.len() > 0 {
        law_replayed_window_is_chronological(inputs.drop_last());
        let p = replay_spec(inputs.drop_last()).get_Ok_0();
        let o = inputs.last();
        assert(observation_valid(o));
        lemma_push_chronological(p.0, o);
        let pushed = p.0.push(o);
        lemma_window_chronological(pushed);
        assert(pushed.last() == o);
        if p.0.len() > 0 {
            assert(pushed[0] == p.0[0]);
        }
    }
}

proof fn lemma_chronological_monotone(s: Seq<CalibrationObservation>, i: int, j: int)
    requires
        chronological(s),
        0 <= i <= j < s.len(),
    ensures
        s[i].event_at_ms <= s[j].event_at_ms,
    decreases j - i,
{
    if i < j {
        lemma_chronological_monotone(s, i, j - 1);
        assert(s[j - 1].event_at_ms <= s[j].event_at_ms);
    }
}

/// Within the window capacity, a state built by observing a sequence keeps
/// all of it, starts at its first event, and replaying its window rebuilds
/// it exactly.
pub proof fn law_replay_reproduces_window(inputs: Seq<CalibrationObservation>)
    requires
        replay_spec(inputs) is Ok,
        inputs.len() <= WINDOW_CAPACITY,
    ensures
        replay_spec(inputs).get_Ok_0().0 == inputs,
        inputs.len() > 0 ==> replay_spec(inputs).get_Ok_0().1 == inputs[0].event_at_ms,
        replay_spec(replay_spec(inputs).get_Ok_0().0) == replay_spec(inputs),
    decreases inputs.len(),
{
    if inputs.len() > 0 {
        law_replay_reproduces_window(inputs.drop_last());
        let p = replay_spec(inputs.drop_last()).get_Ok_0();
        assert(p.0 == inputs.drop_last());
        assert(p.0.push(inputs.last()) =~= inputs);
        if inputs.len() == 1 {
            assert(p.0.len() == 0);
            law_replayed_window_is_chronological(inputs.drop_last());
        } else {
            assert(inputs.drop_last()[0] == inputs[0]);
        }
    }
}

// ---------------------------------------------------------------------------
// Markouts that keep replay defined.

/// Every known markout lies strictly within ±2^62 pico-bps.
pub open spec fn markouts_bounded(obs: Seq<CalibrationObservation>) -> bool {
    forall|i: int|
        0 <= i < obs.len() ==> match (#[trigger] obs[i]).markout_pico_bps {
            Some(m) => -0x4000_0000_0000_0000 < m < 0x4000_0000_0000_0000,
            None => true,
        }
}

pub open spec fn values_bounded(v: Seq<i64>) -> bool {
    forall|i: int| 0 <= i < v.len() ==> -0x4000_0000_0000_0000 < #[trigger] v[i] < 0x4000_0000_0000_0000
}

proof fn lemma_bounded_deviation_safe(values: Seq<i64>)
    requires
        values_bounded(values),
    ensures
        deviation_safe(values),
{
    if values.len() > 0 {
        crate::stats::lemma_ascending(values);
        let a = ascending(values);
        assert forall|i: int| 0 <= i < a.len() implies -0x4000_0000_0000_0000 < #[trigger] a[i]
            < 0x4000_0000_0000_0000 by {
            a.to_multiset_ensures();
            values.to_multiset_ensures();
            assert(a.contains(a[i]));
            assert(a.to_multiset().count(a[i]) > 0);
            assert(values.to_multiset().count(a[i]) > 0);
            assert(values.contains(a[i]));
            let j = choose|j: int| 0 <= j < values.len() && values[j] == a[i];
        }
        let m = (values.len() - 1) / 2;
        assert(0 <= m < a.len());
        assert(-0x4000_0000_0000_0000 < a[m] < 0x4000_0000_0000_0000);
    }
}

proof fn lemma_completed_bounded(obs: Seq<CalibrationObservation>)
    requires
        markouts_bounded(obs),
    ensures
        forall|k: int|
            0 <= k < completed(obs).len() ==> -0x4000_0000_0000_0000 < (#[trigger] completed(obs)[k]).1
                < 0x4000_0000_0000_0000,
    decreases obs.len(),
{
    if obs.len() > 0 {
        let d = obs.drop_last();
        assert forall|i: int| 0 <= i < d.len() implies match (#[trigger] d[i]).markout_pico_bps {
            Some(m) => -0x4000_0000_0000_0000 < m < 0x4000_0000_0000_0000,
            None => true,
        } by {
            assert(d[i] == obs[i]);
        }
        lemma_completed_bounded(d);
        assert(obs.last() == obs[obs.len() - 1]);
        let rest = completed(d);
        match obs.last().markout_pico_bps {
            Some(m) => {
                assert(completed(obs) == rest.push((obs.last().side, m)));
                assert forall|k: int| 0 <= k < completed(obs).len() implies -0x4000_0000_0000_0000 < (
                #[trigger] completed(obs)[k]).1 < 0x4000_0000_0000_0000 by {
                    if k < rest.len() {
                        assert(completed(obs)[k] == rest[k]);
                    }
                }
            },
            None => {
                assert(completed(obs) == rest);
            },
        }
    }
}

proof fn lemma_quality_safe_bounded(obs: Seq<CalibrationObservation>)
    requires
        markouts_bounded(obs),
    ensures
        quality_safe(obs),
{
    lemma_completed_bounded(obs);
    let c = completed(obs);
    let split = split_point(c.len());
    assert(0 <= split <= c.len());
    let train = markouts_of(c.subrange(0, split));
    let validation = markouts_of(c.subrange(split, c.len() as int));
    assert forall|i: int| 0 <= i < train.len() implies -0x4000_0000_0000_0000 < #[trigger] train[i]
        < 0x4000_0000_0000_0000 by {
        assert(train[i] == c[i].1);
    }
    assert forall|i: int| 0 <= i < validation.len() implies -0x4000_0000_0000_0000 < #[trigger] validation[i]
        < 0x4000_0000_0000_0000 by {
        assert(validation[i] == c[split + i].1);
    }
    lemma_bounded_deviation_safe(train);
    lemma_bounded_deviation_safe(validation);
}

proof fn lemma_replay_bounded(inputs: Seq<CalibrationObservation>)
    requires
        markouts_bounded(inputs),
    ensures
        replay_spec(inputs) matches Ok(v) ==> markouts_bounded(v.0),
    decreases inputs.len(),
{
    if inputs.len() > 0 {
        let d = inputs.drop_last();
        assert forall|i: int| 0 <= i < d.len() implies match (#[trigger] d[i]).markout_pico_bps {
            Some(m) => -0x4000_0000_0000_0000 < m < 0x4000_0000_0000_0000,
            None => true,
        } by {
            assert(d[i] == inputs[i]);
        }
        lemma_replay_bounded(d);
        match replay_spec(d) {
            Ok(p) => {
                let o = inputs.last();
                assert(o == inputs[inputs.len() - 1]);
                let pushed = p.0.push(o);
                assert forall|i: int| 0 <= i < pushed.len() implies match (#[trigger] pushed[i]).markout_pico_bps {
                    Some(m) => -0x4000_0000_0000_0000 < m < 0x4000_0000_0000_0000,
                    None => true,
                } by {
                    if i < p.0.len() {
                        assert(pushed[i] == p.0[i]);
                    }
                }
                let w = window(pushed);
                if pushed.len() > WINDOW_CAPACITY {
                    let start = pushed.len() - WINDOW_CAPACITY;
                    assert forall|i: int| 0 <= i < w.len() implies match (#[trigger] w[i]).markout_pico_bps {
                        Some(m) => -0x4000_0000_0000_0000 < m < 0x4000_0000_0000_0000,
                        None => true,
                    } by {
                        assert(w[i] == pushed[i + start]);
                    }
                }
            },
            Err(_) => {},
        }
    }
}

/// Observations whose markouts lie within ±2^62 replay without reaching the
/// one undefined statistic: every window replay passes through has defined
/// robust statistics.
pub proof fn lemma_bounded_markouts_replay_safe(inputs: Seq<CalibrationObservation>)
    requires
        markouts_bounded(inputs),
    ensures
        replay_safe(inputs),
{
    assert forall|k: int| 0 <= k <= inputs.len() implies (#[trigger] replay_spec(inputs.subrange(0, k)) matches Ok(v)
        ==> quality_safe(v.0)) by {
        let prefix = inputs.subrange(0, k);
        assert forall|i: int| 0 <= i < prefix.len() implies match (#[trigger] prefix[i]).markout_pico_bps {
            Some(m) => -0x4000_0000_0000_0000 < m < 0x4000_0000_0000_0000,
            None => true,
        } by {
            assert(prefix[i] == inputs[i]);
        }
        lemma_replay_bounded(prefix);
        match replay_spec(prefix) {
            Ok(v) => {
                lemma_quality_safe_bounded(v.0);
            },
            Err(_) => {},
        }
    }
}

/// Whether every known markout lies strictly within ±2^62 pico-bps.
pub fn markouts_within_bounds(obs: &Vec<CalibrationObservation>) -> (r: bool)
    ensures
        r == markouts_bounded(obs@),
{
    let mut i: usize = 0;
    while i < obs.len()
        invariant
            i <= obs@.len(),
            forall|k: int|
                0 <= k < i ==> match (#[trigger] obs@[k]).markout_pico_bps {
                    Some(m) => -0x4000_0000_0000_0000 < m < 0x4000_0000_0000_0000,
                    None => true,
                },
        decreases obs@.len() - i,
    {
        match obs[i].markout_pico_bps {
            Some(m) => {
                if m <= -0x4000_0000_0000_0000 || m >= 0x4000_0000_0000_0000 {
                    assert(!match obs@[i as int].markout_pico_bps {
                        Some(m) => -0x4000_0000_0000_0000 < m < 0x4000_0000_0000_0000,
                        None => true,
                    });
                    return false;
                }
            },
            None => {},
        }
        i = i + 1;
    }
    true
}

/// Decodes a stored state once its markouts are known to keep replay
/// defined: the state is accepted only when replaying its observations
/// reproduces it.
pub fn verify_decoded_bounded(state: CalibrationState) -> (r: Option<Result<CalibrationState, CalibrationError>>)
    ensures
        !markouts_bounded(state.observations@) ==> r is None,
        markouts_bounded(state.observations@) ==> (r matches Some(x) && decoded_outcome(state, x)),
{
    if !markouts_within_bounds(&state.observations) {
        return None;
    }
    proof {
        lemma_bounded_markouts_replay_safe(state.observations@);
    }
    Some(state.verify_decoded())
}

/// Observing extends the replay of what was observed before: from a fresh
/// state (the replay of nothing), each successful observation of `o` after
/// `inputs` reaches the replay of `inputs` followed by `o`. While the window
/// has not overflowed, replaying that state's own window gives the state
/// back.
pub proof fn law_observed_state_replays_to_itself(inputs: Seq<CalibrationObservation>, o: CalibrationObservation)
    requires
        replay_spec(inputs) is Ok,
        observe_step(
            replay_spec(inputs)->Ok_0.0,
            replay_spec(inputs)->Ok_0.1,
            replay_spec(inputs)->Ok_0.2,
            o,
        ) is Ok,
        inputs.len() < WINDOW_CAPACITY,
    ensures
        ({
            let v = replay_spec(inputs)->Ok_0;
            let w = observe_step(v.0, v.1, v.2, o);
            &&& replay_spec(inputs.push(o)) == w
            &&& replay_spec(w->Ok_0.0) == w
        }),
{
    assert(inputs.push(o).drop_last() =~= inputs);
    law_replay_reproduces_window(inputs.push(o));
}

/// A window's admission is determined by the window: two admissions that
/// both match it agree in presence and in every field (the digest by its
/// text).
pub proof fn law_admission_determined(
    a: Option<HistoryAdmission>,
    b: Option<HistoryAdmission>,
    obs: Seq<CalibrationObservation>,
    first: u64,
    last: u64,
)
    requires
        admission_matches(a, obs, first, last),
        admission_matches(b, obs, first, last),
    ensures
        a is None <==> b is None,
        a matches Some(x) ==> (b matches Some(y) && x.admitted_at_ms == y.admitted_at_ms
            && x.effective_sample_size == y.effective_sample_size
            && x.train_robust_lower_pico_bps == y.train_robust_lower_pico_bps
            && x.validation_median_pico_bps == y.validation_median_pico_bps
            && x.validation_robust_lower_pico_bps == y.validation_robust_lower_pico_bps
            && x.evidence_digest@ == y.evidence_digest@),
{
}

/// The robust lower bound of a sample never exceeds its median: it is the
/// median less three times the median absolute deviation from the median
/// (a non-negative spread), each step saturating; and the median is one
/// of the sample's values.
pub proof fn law_robust_lower_is_below_median(values: Seq<i64>)
    requires
        values.len() > 0,
        deviation_safe(values),
    ensures
        robust_stats_spec(values) matches Some((median, lower)) && {
            let mad = ascending(deviations(values))[(values.len() - 1) / 2];
            &&& values.contains(median)
            &&& mad >= 0
            &&& lower <= median
            &&& 3 * mad <= i64::MAX && median - 3 * mad >= i64::MIN ==> lower == median - 3 * mad
        },
{
    broadcast use vstd::seq_lib::group_to_multiset_ensures;
    let n = values.len();
    let k = (n - 1) / 2;
    let sorted = ascending(values);
    crate::stats::lemma_ascending(values);
    let median = sorted[k];
    assert(sorted.contains(median));
    assert(sorted.to_multiset().count(median) > 0);
    assert(values.to_multiset().count(median) > 0);
    let devs = deviations(values);
    assert forall|i: int| 0 <= i < devs.len() implies #[trigger] devs[i] >= 0 by {
        assert(sorted[i] - median_of(values) > i64::MIN);
    }
    let sd = ascending(devs);
    crate::stats::lemma_ascending(devs);
    let mad = sd[k];
    assert(sd.contains(mad));
    assert(sd.to_multiset().count(mad) > 0);
    assert(devs.to_multiset().count(mad) > 0);
    assert(devs.contains(mad));
    let j = choose|j: int| 0 <= j < devs.len() && devs[j] == mad;
    assert(devs[j] >= 0);
    assert(mad >= 0);
    assert(values.contains(median)) by {
        let t = choose|t: int| 0 <= t < values.len() && values[t] == median;
    }
    assert(median_of(values) == median);
    let lower = sat_i64(median - sat_i64(mad * 3)) as i64;
    assert(robust_stats_spec(values) == Some((median, lower)));
    assert(lower <= median);
}

} // verus!
