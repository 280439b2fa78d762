use wg_commands::clock::{format_rfc3339, format_rfc3339_millis, parse_rfc3339};
use wg_commands::hashing::{b3_digest, record_digest};
use wg_commands::json::parse_json;
use wg_commands::agency_import::parse_parent_ids_column;
use wg_commands::claude_handler::{format_stream_json_user_message, format_tool_input};
use wg_commands::agency_import::read_csv_table;

#[test]
fn record_digests_are_sha256_hex() {
    assert_eq!(
        record_digest(b"abc"),
        "sha256:ba7816bf8f01cfea414140de5dae2223b00361a396177a9cb410ff61f20015ad"
    );
    assert_eq!(
        record_digest(b""),
        "sha256:e3b0c44298fc1c149afbf4c8996fb92427ae41e4649b934ca495991b7852b855"
    );
}

#[test]
fn binary_digests_are_blake3_hex() {
    assert_eq!(
        b3_digest(b""),
        "b3:af1349b9f5f9a1a6a0404dea36dcc9499bcb25c9adc112b7cc9a93cae41f3262"
    );
    assert_ne!(b3_digest(b"a"), b3_digest(b"b"));
}

#[test]
fn json_is_read_and_rendered_by_serde_json() {
    assert!(parse_json("{not json").is_none());
    assert!(parse_json(r#"{"command":"ls -la","n":1}"#).is_some());
    // A string member is read, and a document is pretty-printed.
    assert_eq!(format_tool_input("Bash", r#"{"command":"ls -la","n":1}"#), "$ ls -la");
    assert_eq!(format_tool_input("Read", r#"{"n":1}"#), "{\n  \"n\": 1\n}");
    // A string is quoted as a JSON literal.
    assert!(format_stream_json_user_message("a\"b\n").contains("\"a\\\"b\\n\""));
    // A JSON list of strings is read.
    assert_eq!(parse_parent_ids_column("[\"x\"]"), vec!["x".to_string()]);
}

#[test]
fn rfc3339_round_trips_through_nanoseconds() {
    assert_eq!(parse_rfc3339("1970-01-01T00:00:01Z"), Some(1_000_000_000));
    assert_eq!(parse_rfc3339("1970-01-01T01:00:00+01:00"), Some(0));
    assert_eq!(parse_rfc3339("yesterday"), None);
    assert_eq!(format_rfc3339(1_500_000_000).as_deref(), Some("1970-01-01T00:00:01.500+00:00"));
    assert_eq!(format_rfc3339(-1).as_deref(), Some("1969-12-31T23:59:59.999999999+00:00"));
    assert_eq!(format_rfc3339_millis(1_500_000_000).as_deref(), Some("1970-01-01T00:00:01.500Z"));
}

#[test]
fn lossy_decoding_replaces_bad_bytes() {
    let table = read_csv_table(b"type,name\nrole,ok\xffok\n").expect("header");
    assert_eq!(table.records, vec![vec!["role".to_string(), "ok\u{FFFD}ok".to_string()]]);
}
