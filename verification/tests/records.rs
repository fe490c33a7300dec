use rinha_backend_2026::json::{parse_json, remove_field, take_field, JsonValue};
use rinha_backend_2026::records::{
    collect_records, extract_case, extract_expected_approved, json_lines, line_message,
    parse_json_lines, parse_label_approved, parse_records, request_from_flat_record,
    unwrap_records, ExpectedFormat, MissingLabel, RecordField, RecordsError,
};

fn json(text: &str) -> JsonValue {
    parse_json(text).unwrap()
}

fn text(value: &str) -> JsonValue {
    JsonValue::Text(value.to_string())
}

#[test]
fn extracts_expected_labels() {
    assert_eq!(
        extract_expected_approved(&json(r#"{"expected": "fraud"}"#), ExpectedFormat::Auto),
        Some(false)
    );
    assert_eq!(
        extract_expected_approved(&json(r#"{"label": "legit"}"#), ExpectedFormat::Auto),
        Some(true)
    );
    assert_eq!(
        extract_expected_approved(
            &json(r#"{"expected": {"approved": false}}"#),
            ExpectedFormat::Auto
        ),
        Some(false)
    );
    assert_eq!(
        extract_expected_approved(&json(r#"{"approved": true}"#), ExpectedFormat::Approved),
        Some(true)
    );
    assert_eq!(
        extract_expected_approved(&json(r#"{"approved": true}"#), ExpectedFormat::Label),
        None
    );
}

#[test]
fn unwraps_supported_top_level_shapes() {
    assert_eq!(
        unwrap_records(json(r#"[{"id": 1}, {"id": 2}]"#)).unwrap().len(),
        2
    );
    let mut records = unwrap_records(json(
        r#"{
            "references_checksum_sha256": "abc",
            "stats": { "total": 1 },
            "entries": [
                {
                    "expected_approved": true,
                    "expected_fraud_score": 0.0,
                    "request": {
                        "id": "tx-1",
                        "transaction": {
                            "amount": 100.0,
                            "installments": 1,
                            "requested_at": "2026-03-11T18:45:53Z"
                        },
                        "customer": {
                            "avg_amount": 50.0,
                            "tx_count_24h": 1,
                            "known_merchants": []
                        },
                        "merchant": {
                            "id": "MERC-001",
                            "mcc": "5411",
                            "avg_amount": 50.0
                        },
                        "terminal": {
                            "is_online": false,
                            "card_present": true,
                            "km_from_home": 10.0
                        },
                        "last_transaction": null
                    }
                }
            ]
        }"#,
    ))
    .unwrap();
    assert_eq!(records.len(), 1);
    let extracted = extract_case(records.remove(0), ExpectedFormat::Auto).unwrap();
    assert_eq!(extracted.expected_approved, true);
    assert_eq!(extracted.request.get("id"), Some(&text("tx-1")));
    assert_eq!(
        unwrap_records(json(r#"{"data": [{"id": 1}]}"#)).unwrap().len(),
        1
    );
    assert_eq!(
        unwrap_records(json(r#"{"requests": [{"id": 1}, {"id": 2}]}"#))
            .unwrap()
            .len(),
        2
    );
    assert_eq!(
        unwrap_records(json(r#"{"test_data": [{"id": 1}]}"#))
            .unwrap()
            .len(),
        1
    );
}

#[test]
fn errors_with_object_keys_when_top_level_wrapper_is_missing() {
    let error = unwrap_records(json(
        r#"{
            "references_checksum_sha256": "abc",
            "stats": { "total": 1 }
        }"#,
    ))
    .unwrap_err()
    .message();

    assert!(error.contains("references_checksum_sha256"));
    assert!(error.contains("stats"));
    assert_eq!(
        error,
        "top-level object does not contain a supported record array field \
         (expected one of entries, data, requests, test_data; \
         keys: references_checksum_sha256, stats)"
    );
}

#[test]
fn parses_json_lines_when_normal_json_fails() {
    let records = parse_records("{\"expected\":\"fraud\"}\n{\"expected\":\"legit\"}\n")
        .expect("json lines parse");
    assert_eq!(records.len(), 2);
    assert_eq!(records[1].get("expected"), Some(&text("legit")));
}

#[test]
fn extracts_flat_request_without_expected_fields() {
    let extracted = extract_case(
        json(
            r#"{
                "id": "tx-1",
                "transaction": {},
                "customer": {},
                "merchant": {},
                "terminal": {},
                "last_transaction": null,
                "expected": "fraud"
            }"#,
        ),
        ExpectedFormat::Auto,
    )
    .unwrap();
    assert_eq!(extracted.expected_approved, false);
    assert!(extracted.request.get("expected").is_none());
    assert_eq!(extracted.request.get("id"), Some(&text("tx-1")));
}

#[test]
fn every_kind_of_json_value_is_taken_apart() {
    let value = json(r#" {"b": [true, null, 1.5, "x"], "a": {}} "#);
    let number = match serde_json::from_str::<serde_json::Value>("1.5").unwrap() {
        serde_json::Value::Number(number) => number,
        _ => unreachable!(),
    };
    assert_eq!(
        value,
        JsonValue::Object(vec![
            ("a".to_string(), JsonValue::Object(vec![])),
            (
                "b".to_string(),
                JsonValue::Array(vec![
                    JsonValue::Bool(true),
                    JsonValue::Null,
                    JsonValue::Number(number),
                    text("x"),
                ])
            ),
        ])
    );
    let error = serde_json::from_str::<serde_json::Value>("{\"a\": ").unwrap_err().to_string();
    assert_eq!(parse_json("{\"a\": "), Err(error));
}

#[test]
fn truth_values_come_before_labels() {
    let record = json(r#"{"expected_approved": true, "approved": false, "label": "fraud"}"#);
    assert_eq!(extract_expected_approved(&record, ExpectedFormat::Auto), Some(true));
    assert_eq!(extract_expected_approved(&record, ExpectedFormat::Approved), Some(true));
    assert_eq!(extract_expected_approved(&record, ExpectedFormat::Label), Some(false));

    // A field of another type is passed over.
    let record = json(r#"{"expected_approved": "yes", "approved": false}"#);
    assert_eq!(extract_expected_approved(&record, ExpectedFormat::Auto), Some(false));

    // `expected` comes before `label`, unless it is no label.
    let record = json(r#"{"expected": "legit", "label": "fraud"}"#);
    assert_eq!(extract_expected_approved(&record, ExpectedFormat::Label), Some(true));
    let record = json(r#"{"expected": "maybe", "label": "fraud"}"#);
    assert_eq!(extract_expected_approved(&record, ExpectedFormat::Label), Some(false));
    assert_eq!(extract_expected_approved(&json("[1]"), ExpectedFormat::Auto), None);
}

#[test]
fn labels_are_read_in_any_case() {
    assert_eq!(parse_label_approved(&text("LeGiT")), Some(true));
    assert_eq!(parse_label_approved(&text("FRAUD")), Some(false));
    assert_eq!(parse_label_approved(&text("legit ")), None);
    assert_eq!(parse_label_approved(&text("")), None);
    assert_eq!(parse_label_approved(&text("\u{17f}egit")), None);
    assert_eq!(parse_label_approved(&JsonValue::Bool(true)), None);
}

#[test]
fn missing_label_is_an_error() {
    let error = extract_case(json(r#"{"id": "tx-1"}"#), ExpectedFormat::Auto).unwrap_err();
    assert_eq!(error, MissingLabel);
    assert_eq!(error.message(), "record does not contain a supported expected label field");
}

#[test]
fn request_field_is_taken_as_it_is() {
    let record = json(r#"{"request": {"approved": true, "id": "a"}, "label": "fraud"}"#);
    let extracted = extract_case(record, ExpectedFormat::Auto).unwrap();
    assert_eq!(extracted.expected_approved, false);
    assert_eq!(extracted.request, json(r#"{"approved": true, "id": "a"}"#));
}

#[test]
fn flat_request_keeps_every_other_field() {
    let record = json(
        r#"{"approved": 1, "expected": 2, "expected_approved": 3, "label": 4, "x": 5, "y": 6}"#,
    );
    assert_eq!(request_from_flat_record(record), json(r#"{"x": 5, "y": 6}"#));
    assert_eq!(request_from_flat_record(text("label")), text("label"));
}

#[test]
fn fields_are_taken_and_removed() {
    assert_eq!(take_field(json(r#"{"a": 1, "b": 2}"#), "b"), Ok(json("2")));
    assert_eq!(
        take_field(json(r#"{"a": 1, "b": 2}"#), "c"),
        Err(json(r#"{"a": 1, "b": 2}"#))
    );
    assert_eq!(take_field(JsonValue::Null, "c"), Err(JsonValue::Null));
    let fields = vec![
        ("a".to_string(), JsonValue::Null),
        ("b".to_string(), JsonValue::Bool(true)),
        ("a".to_string(), JsonValue::Bool(false)),
    ];
    assert_eq!(
        remove_field(fields, "a"),
        vec![("b".to_string(), JsonValue::Bool(true))]
    );
}

#[test]
fn first_record_field_decides() {
    let error = unwrap_records(json(r#"{"data": [], "entries": 1}"#)).unwrap_err();
    assert_eq!(error, RecordsError::FieldNotAnArray { field: RecordField::Entries });
    assert_eq!(error.message(), "top-level entries field is not an array");
    let error = unwrap_records(json(r#"{"test_data": {}}"#)).unwrap_err();
    assert_eq!(error.message(), "top-level test_data field is not an array");
    let error = unwrap_records(json(r#"{"requests": null}"#)).unwrap_err();
    assert_eq!(error.message(), "top-level requests field is not an array");
    let error = unwrap_records(json(r#"{"data": null, "requests": []}"#)).unwrap_err();
    assert_eq!(error.message(), "top-level data field is not an array");
    let error = unwrap_records(json("3")).unwrap_err();
    assert_eq!(error, RecordsError::NotArrayOrObject);
    assert_eq!(error.message(), "top-level JSON must be an array or object");
}

#[test]
fn blank_lines_are_skipped_but_counted() {
    let raw = "\n {\"a\": 1} \r\n\t\u{a0}\n\r\n[2]\r";
    assert_eq!(json_lines(raw), vec![(2, "{\"a\": 1}"), (5, "[2]")]);
    assert_eq!(
        parse_json_lines(raw),
        Ok(vec![json("{\"a\": 1}"), json("[2]")])
    );
    assert_eq!(json_lines(""), vec![]);
    assert_eq!(parse_json_lines(" \n \n"), Ok(vec![]));
}

#[test]
fn first_bad_line_is_reported() {
    let raw = "1\n\n{\n2\n}\n";
    let line_error = parse_json("{").unwrap_err();
    assert_eq!(parse_json_lines(raw), Err((3, line_error.clone())));
    assert_eq!(line_message(3), "invalid JSON on line 3");
    let json_error = serde_json::from_str::<serde_json::Value>(raw).unwrap_err().to_string();
    let error = parse_records(raw).unwrap_err();
    assert_eq!(
        error,
        RecordsError::NotJson { json_error: json_error.clone(), line: 3, line_error }
    );
    assert_eq!(
        error.message(),
        format!("normal JSON parse failed ({json_error}); JSON lines parse also failed")
    );
}

#[test]
fn collecting_stops_at_the_first_error() {
    assert_eq!(
        collect_records(vec![(1, Ok(JsonValue::Null)), (4, Ok(JsonValue::Bool(true)))]),
        Ok(vec![JsonValue::Null, JsonValue::Bool(true)])
    );
    assert_eq!(
        collect_records(vec![
            (1, Ok(JsonValue::Null)),
            (4, Err("first".to_string())),
            (5, Err("second".to_string())),
        ]),
        Err((4, "first".to_string()))
    );
}
