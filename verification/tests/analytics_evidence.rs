use anchorbell_engine::analytics_evidence::{basis_bps, EvidenceAccumulator, EvidenceConfig};
use anchorbell_engine::analytics_validation::EvidenceState;
use anchorbell_engine::keyed::SortedMap;
use anchorbell_engine::market::binance::{AggTrade, BinanceMarketEvent, BookTicker, MarkPrice};
use anchorbell_engine::model::{PriceTicks, Quantity};
use anchorbell_engine::simulation::AnchorSnapshot;

fn book(symbol: &str, at: u64, bid: i64, ask: i64) -> BinanceMarketEvent {
    BinanceMarketEvent::BookTicker(BookTicker {
        symbol: symbol.into(),
        event_time_ms: at,
        transaction_time_ms: at,
        update_id: 1,
        bid_price: PriceTicks(bid),
        bid_quantity: Quantity(1),
        ask_price: PriceTicks(ask),
        ask_quantity: Quantity(1),
    })
}

fn mark(symbol: &str, at: u64, index: i64) -> BinanceMarketEvent {
    BinanceMarketEvent::MarkPrice(MarkPrice {
        symbol: symbol.into(),
        event_time_ms: at,
        mark_price: PriceTicks(index),
        index_price: PriceTicks(index),
        next_funding_time_ms: 0,
        latest_funding_rate_e8: None,
    })
}

fn anchors(symbol: &str, observed_at_ms: u64, close: i64) -> SortedMap<AnchorSnapshot> {
    let mut map = SortedMap::new();
    map.insert(symbol.to_string(), AnchorSnapshot { observed_at_ms, close_price_ticks: close });
    map
}

fn signum(v: i64) -> i64 {
    v.signum()
}

#[test]
fn signed_improvement_is_positive_when_residual_converges() {
    assert!(basis_bps(101, 100) > 0);
    assert_eq!(-signum(basis_bps(101, 100)) * (0 - basis_bps(101, 100)), 100);
}

#[test]
fn evidence_requires_authoritative_anchor_before_claiming_observational_status() {
    let mut accumulator = EvidenceAccumulator::new(EvidenceConfig::default());
    let invalid = accumulator.summary();
    assert!(!invalid.anchor_authority_passed);
    assert_eq!(invalid.status, "invalid_reference");
    accumulator.set_anchor_authority(true);
    let ready = accumulator.summary();
    assert!(ready.anchor_authority_passed);
    assert_eq!(ready.status, "insufficient_data");
}

#[test]
fn basis_points_round_toward_zero_and_need_a_reference() {
    assert_eq!(basis_bps(101, 100), 100);
    assert_eq!(basis_bps(99, 100), -100);
    assert_eq!(basis_bps(100_015, 100_000), 1);
    assert_eq!(basis_bps(99_985, 100_000), -1);
    assert_eq!(basis_bps(5, 0), 0);
    assert_eq!(basis_bps(5, -3), 0);
    assert_eq!(basis_bps(i64::MAX, 1), i64::MAX);
}

#[test]
fn horizons_are_sorted_deduplicated_and_never_empty() {
    let config = EvidenceConfig { horizons_ms: vec![30, 10, 30, 20], min_abs_residual_bps: 2, max_pending_points_per_symbol: 5 };
    let summary = EvidenceAccumulator::new(config).summary();
    let horizons: Vec<u64> = summary.horizons.iter().map(|h| h.horizon_ms).collect();
    assert_eq!(horizons, vec![10, 20, 30]);
    let empty = EvidenceConfig { horizons_ms: Vec::new(), min_abs_residual_bps: 2, max_pending_points_per_symbol: 5 };
    let summary = EvidenceAccumulator::new(empty).summary();
    assert_eq!(summary.horizons.len(), 1);
    assert_eq!(summary.horizons[0].horizon_ms, 1_000);
    assert_eq!(summary.evidence_state, EvidenceState::X0NoData);
}

#[test]
fn residual_episodes_are_reported_once_per_horizon() {
    let config = EvidenceConfig { horizons_ms: vec![1_000, 5_000], min_abs_residual_bps: 2, max_pending_points_per_symbol: 10 };
    let mut acc = EvidenceAccumulator::new(config);
    acc.set_anchor_authority(true);
    let anchors = anchors("ABCUSDT", 7, 100);
    assert!(acc.observe(&mark("abcusdt", 1_000, 100), 0, &anchors).is_empty());
    // Mid 101 over an anchor of 100: a residual of 100 bps starts an episode.
    assert!(acc.observe(&book("abcusdt", 1_000, 100, 102), 0, &anchors).is_empty());
    // At 2 000 the one-second horizon has passed; the mid converged to 100.
    let records = acc.observe(&book("ABCUSDT", 2_000, 99, 101), 0, &anchors);
    assert_eq!(records.len(), 1);
    let r = &records[0];
    assert_eq!(r.symbol, "ABCUSDT");
    assert_eq!(r.episode_id, "ABCUSDT:7");
    assert_eq!(r.horizon_ms, 1_000);
    assert_eq!(r.start_event_time_ms, 1_000);
    assert_eq!(r.end_event_time_ms, 2_000);
    assert_eq!(r.residual_start_bps, 100);
    assert_eq!(r.residual_end_bps, 0);
    assert_eq!(r.signed_improvement_bps, 100);
    assert_eq!(r.price_index_change_bps, -100);
    assert_eq!(r.index_anchor_change_bps, 0);
    // Nothing new is due at 3 000; at 6 000 the first point's five-second
    // horizon is due.
    assert!(acc.observe(&book("ABCUSDT", 3_000, 99, 101), 0, &anchors).is_empty());
    let records = acc.observe(&book("ABCUSDT", 6_000, 99, 101), 0, &anchors);
    assert_eq!(records.len(), 1);
    assert_eq!(records[0].horizon_ms, 5_000);
    assert!(acc.observe(&book("ABCUSDT", 60_000, 99, 101), 0, &anchors).is_empty());

    let summary = acc.summary();
    assert_eq!(summary.observations, 6);
    assert_eq!(summary.eligible_observations, 1);
    assert_eq!(summary.evidence_state, EvidenceState::X2Eligible);
    assert_eq!(summary.status, "observational");
    assert_eq!(summary.horizons[0].samples, 1);
    assert_eq!(summary.horizons[0].improved, 1);
    assert_eq!(summary.horizons[0].mean_signed_improvement_bps, 100);
    assert_eq!(summary.horizons[1].samples, 1);
}

#[test]
fn events_without_anchor_or_quote_are_only_counted() {
    let mut acc = EvidenceAccumulator::new(EvidenceConfig::default());
    let none = SortedMap::new();
    assert!(acc.observe(&book("XUSDT", 1, 10, 12), 0, &none).is_empty());
    let trade = BinanceMarketEvent::AggTrade(AggTrade {
        symbol: "XUSDT".into(),
        event_time_ms: 2,
        aggregate_trade_id: 1,
        price: PriceTicks(10),
        quantity: Quantity(1),
        trade_time_ms: 2,
        buyer_is_maker: false,
    });
    assert!(acc.observe(&trade, 0, &none).is_empty());
    let anchors = anchors("XUSDT", 1, 10);
    // No mark price yet: the quote is incomplete.
    assert!(acc.observe(&book("XUSDT", 3, 10, 12), 0, &anchors).is_empty());
    let summary = acc.summary();
    assert_eq!(summary.observations, 2);
    assert_eq!(summary.eligible_observations, 0);
    assert_eq!(summary.evidence_state, EvidenceState::X1Observed);
}

#[test]
fn a_moved_anchor_at_the_same_time_is_an_integrity_violation() {
    let mut acc = EvidenceAccumulator::new(EvidenceConfig::default());
    acc.observe(&mark("S", 1, 100), 0, &anchors("S", 5, 100));
    acc.observe(&mark("S", 2, 100), 0, &anchors("S", 5, 101));
    acc.observe(&mark("S", 3, 100), 0, &anchors("S", 6, 102));
    assert_eq!(acc.summary().anchor_integrity_violations, 1);
}

#[test]
fn pending_points_are_capped_per_symbol() {
    let config = EvidenceConfig { horizons_ms: vec![1_000], min_abs_residual_bps: 2, max_pending_points_per_symbol: 2 };
    let mut acc = EvidenceAccumulator::new(config);
    let anchors = anchors("S", 1, 100);
    acc.observe(&mark("S", 1, 100), 0, &anchors);
    for at in [10, 20, 30] {
        assert!(acc.observe(&book("S", at, 104, 106), 0, &anchors).is_empty());
    }
    // Only the two newest points are still pending; the converged quote at
    // 2 000 starts no new one.
    let records = acc.observe(&book("S", 2_000, 99, 101), 0, &anchors);
    let starts: Vec<u64> = records.iter().map(|r| r.start_event_time_ms).collect();
    assert_eq!(starts, vec![20, 30]);
}

#[test]
fn records_name_symbol_horizon_and_end_time() {
    let config = EvidenceConfig { horizons_ms: vec![10, 20], min_abs_residual_bps: 2, max_pending_points_per_symbol: 5 };
    let mut accumulator = EvidenceAccumulator::new(config);
    let anchors = anchors("AAPLUSDT", 1, 100);
    assert!(accumulator.observe(&mark("aaplusdt", 100, 110), 100, &anchors).is_empty());
    assert!(accumulator.observe(&book("aaplusdt", 100, 109, 111), 100, &anchors).is_empty());
    let records = accumulator.observe(&book("aaplusdt", 125, 104, 106), 999, &anchors);
    assert_eq!(records.len(), 2);
    for (record, horizon) in records.iter().zip([10_u64, 20]) {
        assert_eq!(record.symbol, "AAPLUSDT");
        assert_eq!(record.horizon_ms, horizon);
        assert_eq!(record.end_event_time_ms, 125);
        assert!(record.end_event_time_ms >= record.start_event_time_ms + record.horizon_ms);
        assert_eq!(
            record.signed_improvement_bps,
            -signum(record.residual_start_bps) * (record.residual_end_bps - record.residual_start_bps)
        );
    }
}
