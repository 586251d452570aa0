//! Reading the active log out of `ctrace status` output.

use coda::resolver::{parse_ctrace_status, status_log_path, JsonValue};

#[test]
fn parses_valid_ctrace_status() {
    let json = r#"{"log": "/home/jsy/.cache/ctrace/sessions/session-20260605T230000.ndjson", "pid": 1234}"#;
    let result = parse_ctrace_status(json);
    assert_eq!(
        result,
        Some("/home/jsy/.cache/ctrace/sessions/session-20260605T230000.ndjson".to_string())
    );
}

#[test]
fn returns_none_for_malformed_json() {
    assert_eq!(parse_ctrace_status("not json at all"), None);
}

#[test]
fn returns_none_for_missing_log_key() {
    let json = r#"{"status": "idle", "pid": 0}"#;
    assert_eq!(parse_ctrace_status(json), None);
}

#[test]
fn returns_none_for_empty_log_value() {
    let json = r#"{"log": ""}"#;
    assert_eq!(parse_ctrace_status(json), None);
}

#[test]
fn returns_none_for_empty_json_object() {
    assert_eq!(parse_ctrace_status("{}"), None);
}

#[test]
fn returns_none_for_null_log() {
    let json = r#"{"log": null}"#;
    assert_eq!(parse_ctrace_status(json), None);
}

#[test]
fn log_must_be_a_string_member_of_a_top_level_object() {
    assert_eq!(parse_ctrace_status(r#"{"log": 7}"#), None);
    assert_eq!(parse_ctrace_status(r#"["log", "/a.ndjson"]"#), None);
    assert_eq!(parse_ctrace_status(r#""/a.ndjson""#), None);
    assert_eq!(parse_ctrace_status(r#"{"inner": {"log": "/a.ndjson"}}"#), None);
    assert_eq!(parse_ctrace_status(r#"{"pid": 1, "log": "/a.ndjson"}"#), Some("/a.ndjson".to_string()));
}

#[test]
fn status_log_path_reads_the_log_member() {
    let doc = Some(JsonValue::Object(vec![
        ("pid".to_string(), JsonValue::Number),
        ("log".to_string(), JsonValue::Str("/s/a.ndjson".to_string())),
    ]));
    assert_eq!(status_log_path(&doc), Some("/s/a.ndjson".to_string()));
    let empty = Some(JsonValue::Object(vec![("log".to_string(), JsonValue::Str(String::new()))]));
    assert_eq!(status_log_path(&empty), None);
    let not_str = Some(JsonValue::Object(vec![("log".to_string(), JsonValue::Bool(true))]));
    assert_eq!(status_log_path(&not_str), None);
    assert_eq!(status_log_path(&Some(JsonValue::Null)), None);
    assert_eq!(status_log_path(&None), None);
}
