use anchorbell_engine::calibration::{CalibrationError, CalibrationObservation, CalibrationPhase, CalibrationState};
use anchorbell_engine::calibration_store::{CalibrationStoreError, FileCalibrationStore, StoreIoError};
use anchorbell_engine::market::shared::{MarketSnapshot, MarketSnapshotBook};
use anchorbell_engine::model::Side;

fn observation(at_ms: u64) -> CalibrationObservation {
    CalibrationObservation {
        event_at_ms: at_ms,
        side: Side::Buy,
        attempted_quantity: 10,
        filled_quantity: 5,
        markout_pico_bps: None,
    }
}

fn not_found() -> CalibrationStoreError {
    CalibrationStoreError::Io(StoreIoError { not_found: true, message: "missing".into() })
}

#[test]
fn missing_store_starts_from_empty_cold_state() {
    let store = FileCalibrationStore::new("/tmp/anchorbell-calibration.json".to_string());
    assert_eq!(store.path(), "/tmp/anchorbell-calibration.json");
    let state = store.load_or_cold_start("BTCUSDT", Err(not_found())).unwrap();
    assert_eq!(state.phase(), CalibrationPhase::ColdStart);
    assert_eq!(state.instrument, "BTCUSDT");
    assert!(state.observations.is_empty());
}

#[test]
fn save_and_load_requires_replay_validated_identity() {
    let mut state = CalibrationState::new("BTCUSDT").unwrap();
    state.observe(observation(1)).unwrap();
    let decoded = state.clone().verify_decoded();
    assert_eq!(FileCalibrationStore::accept_loaded(decoded.clone(), "BTCUSDT"), Ok(state));
    assert_eq!(
        FileCalibrationStore::accept_loaded(decoded, "ETHUSDT"),
        Err(CalibrationStoreError::InstrumentMismatch)
    );
}

#[test]
fn malformed_store_is_not_replaced_by_cold_start() {
    let store = FileCalibrationStore::new("x.json".to_string());
    let loaded = FileCalibrationStore::accept_loaded(Err(CalibrationError::InvalidSnapshot), "BTCUSDT");
    assert_eq!(
        store.load_or_cold_start("BTCUSDT", loaded),
        Err(CalibrationStoreError::Calibration(CalibrationError::InvalidSnapshot))
    );
    let denied = CalibrationStoreError::Io(StoreIoError { not_found: false, message: "denied".into() });
    assert_eq!(store.load_or_cold_start("BTCUSDT", Err(denied.clone())), Err(denied));
    assert_eq!(
        store.load_or_cold_start("  ", Err(not_found())),
        Err(CalibrationStoreError::Calibration(CalibrationError::EmptyInstrument))
    );
}

#[test]
fn a_loaded_state_is_resumed_as_it_is() {
    let store = FileCalibrationStore::new("x.json".to_string());
    let mut state = CalibrationState::new("BTCUSDT").unwrap();
    state.observe(observation(7)).unwrap();
    assert_eq!(store.load_or_cold_start("BTCUSDT", Ok(state.clone())), Ok(state));
}

fn snapshot(symbol: &str, bid: &str) -> MarketSnapshot {
    MarketSnapshot {
        symbol: symbol.into(),
        observed_at_ms: 1,
        event_time_ms: 1,
        bid_price: bid.into(),
        ask_price: "2".into(),
        bid_quantity: "3".into(),
        ask_quantity: "4".into(),
        mark_price: None,
        index_price: None,
        funding_rate: None,
        next_funding_time_ms: None,
    }
}

#[test]
fn one_published_snapshot_is_found_under_any_case() {
    let mut book = MarketSnapshotBook::new();
    let value = snapshot("abcusdt", "1");
    book.publish(value.clone());
    assert_eq!(book.snapshot("ABCUSDT"), Some(value.clone()));
    assert_eq!(book.snapshot("AbcUsdt").unwrap().bid_price, "1");
    assert_eq!(book.snapshot("XYZUSDT"), None);
    book.publish(snapshot("ABCUSDT", "5"));
    book.publish(snapshot("aaa", "9"));
    let all = book.all();
    assert_eq!(all.len(), 2);
    assert_eq!(all[0].symbol, "aaa");
    assert_eq!(all[1].bid_price, "5");
}
