use anchorbell_engine::market::recorder::{record_bytes, JsonlRecorder, RecordedMarketMessage, RecorderError};

#[test]
fn writes_one_json_record_per_line() {
    let mut recorder = JsonlRecorder::new(Vec::new());
    recorder
        .append(RecordedMarketMessage {
            received_at_ms: 10,
            payload: "{}".to_string(),
        })
        .unwrap();
    let output = recorder.finish().unwrap();
    assert!(String::from_utf8(output).unwrap().ends_with("\n"));
}

#[test]
fn rejects_out_of_order_receipts() {
    let mut recorder = JsonlRecorder::new(Vec::new());
    recorder
        .append(RecordedMarketMessage {
            received_at_ms: 10,
            payload: "{}".to_string(),
        })
        .unwrap();
    assert!(matches!(
        recorder.append(RecordedMarketMessage {
            received_at_ms: 9,
            payload: "{}".to_string(),
        }),
        Err(RecorderError::OutOfOrder { .. })
    ));
}

#[test]
fn out_of_order_reports_both_times_and_writes_nothing() {
    let mut recorder = JsonlRecorder::new(Vec::new());
    recorder
        .append(RecordedMarketMessage { received_at_ms: 10, payload: "a".to_string() })
        .unwrap();
    assert_eq!(
        recorder.append(RecordedMarketMessage { received_at_ms: 9, payload: "b".to_string() }),
        Err(RecorderError::OutOfOrder { previous_ms: 10, current_ms: 9 })
    );
    let output = String::from_utf8(recorder.finish().unwrap()).unwrap();
    assert_eq!(output, "{\"received_at_ms\":10,\"payload\":\"a\"}\n");
}

#[test]
fn records_are_exact_json_lines_and_equal_times_are_kept() {
    let mut recorder = JsonlRecorder::new(b"x\n".to_vec());
    recorder
        .append(RecordedMarketMessage { received_at_ms: -5, payload: "q\"\\\n".to_string() })
        .unwrap();
    recorder
        .append(RecordedMarketMessage { received_at_ms: -5, payload: "{}".to_string() })
        .unwrap();
    let output = String::from_utf8(recorder.finish().unwrap()).unwrap();
    assert_eq!(
        output,
        "x\n{\"received_at_ms\":-5,\"payload\":\"q\\\"\\\\\\n\"}\n{\"received_at_ms\":-5,\"payload\":\"{}\"}\n"
    );
    for line in output.lines().skip(1) {
        let value: serde_json::Value = serde_json::from_str(line).unwrap();
        assert_eq!(value["received_at_ms"], -5);
    }
}

#[test]
fn frames_a_record_around_its_payload_literal() {
    assert_eq!(
        record_bytes(1_700_000_000_000, "\"p\""),
        b"{\"received_at_ms\":1700000000000,\"payload\":\"p\"}\n".to_vec()
    );
    assert_eq!(
        record_bytes(i64::MIN, "\"\""),
        b"{\"received_at_ms\":-9223372036854775808,\"payload\":\"\"}\n".to_vec()
    );
}

#[test]
fn payload_is_written_as_an_escaped_json_string() {
    let mut recorder = JsonlRecorder::new(Vec::new());
    recorder
        .append(RecordedMarketMessage {
            received_at_ms: -3,
            payload: "a\"b\\c\nd\u{1}e/\u{e9}".to_string(),
        })
        .unwrap();
    let output = String::from_utf8(recorder.finish().unwrap()).unwrap();
    assert_eq!(
        output,
        "{\"received_at_ms\":-3,\"payload\":\"a\\\"b\\\\c\\nd\\u0001e/\u{e9}\"}\n"
    );
}

#[test]
fn in_order_records_are_always_accepted() {
    let mut recorder = JsonlRecorder::new(Vec::new());
    for at in [5_i64, 5, 6] {
        assert_eq!(
            recorder.append(RecordedMarketMessage { received_at_ms: at, payload: "\t\r\u{8}\u{c}".to_string() }),
            Ok(())
        );
    }
    let output = String::from_utf8(recorder.finish().unwrap()).unwrap();
    assert_eq!(output.lines().count(), 3);
    assert!(output.starts_with("{\"received_at_ms\":5,\"payload\":\"\\t\\r\\b\\f\"}\n"));
}
