use anchorbell_engine::ledger::{EvidenceLedger, LedgerError};

#[test]
fn ledger_detects_event_or_chain_tampering() {
    let mut ledger = EvidenceLedger::default();
    ledger.append("one", "frame", 1, b"a").unwrap();
    ledger.append("two", "frame", 2, b"b").unwrap();
    assert!(ledger.verify());
    ledger.events[0].event_type = "tampered".into();
    assert!(!ledger.verify());
}

#[test]
fn ledger_rejects_invalid_time_and_order() {
    let mut ledger = EvidenceLedger::default();
    assert_eq!(ledger.append("one", "frame", 0, b"a"), Err(LedgerError::InvalidEventTime));
    ledger.append("one", "frame", 2, b"a").unwrap();
    assert_eq!(ledger.append("two", "frame", 1, b"b"), Err(LedgerError::NonMonotonicTime));
}

#[test]
fn ledger_allows_same_event_time_when_ids_are_unique() {
    let mut ledger = EvidenceLedger::default();
    ledger.append("frame-100-0", "evidence_frame", 100, b"a").unwrap();
    ledger.append("decision-100-1", "decision", 100, b"b").unwrap();
    assert!(ledger.verify());
    assert_eq!(ledger.events.len(), 2);
}

#[test]
fn ledger_rejects_semantically_invalid_but_hash_consistent_history() {
    let mut ledger = EvidenceLedger::default();
    ledger.append("one", "frame", 2, b"a").unwrap();
    ledger.append("two", "frame", 3, b"b").unwrap();
    ledger.events[1].event_at_ms = 1;
    assert!(!ledger.verify());
}

#[test]
fn ledger_rejects_duplicate_event_ids() {
    let mut ledger = EvidenceLedger::default();
    ledger.append("one", "frame", 1, b"a").unwrap();
    assert_eq!(ledger.append("one", "frame", 2, b"b"), Err(LedgerError::DuplicateEventId));
    assert!(ledger.verify());
    assert_eq!(ledger.events.len(), 1);
}

#[test]
fn empty_id_and_type_are_rejected() {
    let mut ledger = EvidenceLedger::default();
    assert_eq!(ledger.append("", "frame", 1, b"a"), Err(LedgerError::EmptyEventId));
    assert_eq!(ledger.append("one", "", 1, b"a"), Err(LedgerError::EmptyEventType));
}

#[test]
fn digests_are_sha256_hex_chained_to_the_head() {
    let mut ledger = EvidenceLedger::default();
    ledger.append("one", "frame", 1, b"abc").unwrap();
    let event = &ledger.events[0];
    assert_eq!(event.payload_digest, "ba7816bf8f01cfea414140de5dae2223b00361a396177a9cb410ff61f20015ad");
    assert_eq!(event.previous_digest, "");
    assert_eq!(ledger.head_digest, event.event_digest);
    assert_eq!(event.event_digest.len(), 64);
    ledger.append("two", "frame", 1, b"abc").unwrap();
    assert_eq!(ledger.events[1].previous_digest, ledger.events[0].event_digest);
    assert_ne!(ledger.events[1].event_digest, ledger.events[0].event_digest);
    assert!(ledger.verify());
    ledger.head_digest = String::new();
    assert!(!ledger.verify());
}
