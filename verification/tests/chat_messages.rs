use wg_commands::chat_messages::{release_outcome_lines, release_step, session_status_line, LockHolder, ReleaseStep};
use wg_commands::chat_messages::{chat_failure, clear_line, cleanup_line, repl_input, rotate_lines, send_timeout_lines, share_lines};
use wg_commands::chat_messages::{
    endpoint_client, endpoint_reply, resolve_endpoint, ClientKey, ClientKind, EndpointConfig,
    coordinator_task_id, endpoint_not_found, endpoint_without_model, history_lines,
    history_time_of, history_window_of, prepare_message, request_id, session_row, share_check,
    streaming_delta, MAX_MESSAGE_SIZE,
};

#[test]
fn test_generate_request_id_format() {
    let id = request_id(1_700_000_000_123, 4242, 987_654_321);
    assert!(id.starts_with("chat-"), "ID should start with 'chat-': {id}");
    assert!(id.len() > 10, "ID should be non-trivial length: {id}");
    assert_eq!(id, "chat-1700000000123-424254321");
    assert_eq!(request_id(5, 1, 7), "chat-5-100007");
}

#[test]
fn test_generate_request_id_unique() {
    let ids: Vec<String> = (0..100u32).map(|n| request_id(1000, 7, n)).collect();
    let mut deduped = ids.clone();
    deduped.sort();
    deduped.dedup();
    assert_eq!(ids.len(), deduped.len(), "Request IDs should be unique");
}

#[test]
fn test_send_empty_message_fails() {
    let e = prepare_message("  ", &vec![]).err().unwrap();
    assert!(e.contains("empty"));
    assert_eq!(e, "Message cannot be empty");
}

#[test]
fn test_send_endpoint_empty_message_fails() {
    assert!(prepare_message("", &vec![]).is_err());
}

#[test]
fn messages_carry_attachment_lines_and_are_capped() {
    let p = prepare_message("look", &vec!["a.png".into(), "b.txt".into()]).ok().unwrap();
    assert_eq!(p.text, "look\n[Attached: a.png]\n[Attached: b.txt]");
    assert!(p.warning.is_none());
    let p = prepare_message(" ", &vec!["a.png".into()]).ok().unwrap();
    assert_eq!(p.text, "[Attached: a.png]");
    let big = "é".repeat(MAX_MESSAGE_SIZE);
    let p = prepare_message(&big, &vec![]).ok().unwrap();
    assert_eq!(p.text.len(), MAX_MESSAGE_SIZE);
    assert_eq!(p.warning.as_deref(), Some("Warning: Message truncated to 100KB (was 200KB)"));
}

fn endpoint(name: &str, model: Option<&str>, key: Option<&str>) -> EndpointConfig {
    EndpointConfig {
        name: name.to_string(),
        provider: "local".to_string(),
        url: Some("http://localhost:8080".to_string()),
        model: model.map(String::from),
        api_key: key.map(String::from),
    }
}

#[test]
fn test_resolve_endpoint_not_found() {
    let err = resolve_endpoint(&vec![], "nonexistent").unwrap_err();
    assert!(err.contains("not found"), "Error should mention 'not found': {err}");
    assert_eq!(err, endpoint_not_found("nonexistent", &vec![]));
    assert_eq!(
        err,
        "Endpoint 'nonexistent' not found. No endpoints configured.\nAdd one with: wg endpoints add <name> --provider <provider>"
    );
}

#[test]
fn test_resolve_endpoint_not_found_with_suggestions() {
    let err = resolve_endpoint(&vec![endpoint("my-endpoint", Some("test-model"), None)], "nonexistent").unwrap_err();
    assert!(err.contains("not found"), "should mention not found: {err}");
    assert!(err.contains("my-endpoint"), "should list available endpoints: {err}");
    let m = endpoint_not_found("nonexistent", &vec!["my-endpoint".into(), "other".into()]);
    assert_eq!(m, "Endpoint 'nonexistent' not found. Available endpoints:\n  - my-endpoint\n  - other");
}

#[test]
fn test_resolve_endpoint_no_model() {
    let err = resolve_endpoint(&vec![endpoint("no-model", None, None)], "no-model").unwrap_err();
    assert!(err.contains("no model configured"), "should mention no model: {err}");
    assert_eq!(err, endpoint_without_model("no-model"));
    assert_eq!(
        err,
        "Endpoint 'no-model' has no model configured. Set one with:\n  wg endpoints update no-model --model <model>"
    );
}

#[test]
fn test_resolve_endpoint_success() {
    let eps = vec![endpoint("other", Some("m0"), None), endpoint("test-ep", Some("test-model"), Some("sk-test"))];
    let r = resolve_endpoint(&eps, "test-ep").unwrap();
    assert_eq!(r.provider, "local");
    assert_eq!(r.model, "test-model");
    assert_eq!(r.url, Some("http://localhost:8080".to_string()));
    assert_eq!(r.api_key, Some("sk-test".to_string()));
}

#[test]
fn endpoint_clients_and_replies() {
    assert_eq!(endpoint_client("anthropic", false), (ClientKind::Anthropic, ClientKey::FromEnv));
    assert_eq!(endpoint_client("anthropic", true), (ClientKind::Anthropic, ClientKey::Given));
    assert_eq!(endpoint_client("ollama", false), (ClientKind::OpenAiCompatible, ClientKey::Local));
    assert_eq!(endpoint_client("openrouter", false), (ClientKind::OpenAiCompatible, ClientKey::FromEnv));
    assert_eq!(endpoint_reply("ep", &vec![Some("  Hello".into()), None, Some(" world \n".into())]).unwrap(), "Hello world");
    assert_eq!(endpoint_reply("ep", &vec![None, Some("  ".into())]).unwrap_err(), "Empty response from endpoint 'ep'");
}

#[test]
fn history_shows_the_clock_time_and_the_last_messages() {
    assert_eq!(history_time_of("2026-01-02T10:20:30.123Z"), "10:20:30");
    assert_eq!(history_time_of("2026-01-02T10:20"), "10:20");
    assert_eq!(history_time_of("yesterday"), "yesterday");
    assert_eq!(history_window_of(10, Some(3)), (7, 10));
    assert_eq!(history_window_of(2, Some(3)), (0, 2));
    assert_eq!(history_window_of(4, None), (0, 4));
    assert_eq!(
        history_lines("10:20:30", "user", "hi", &vec![("a.png".into(), "image/png".into())]),
        vec!["[10:20:30] user: hi", "        [Attached: a.png (image/png)]"]
    );
}

#[test]
fn coordinators_and_sharing() {
    assert_eq!(coordinator_task_id(0), ".coordinator");
    assert_eq!(coordinator_task_id(3), ".coordinator-3");
    assert!(share_check(1, 2).is_ok());
    assert_eq!(
        share_check(2, 2).unwrap_err(),
        "Source and target coordinator must be different (both are 2)"
    );
}

#[test]
fn session_rows_and_stream_deltas() {
    let row = session_row("0123456789abcdef", "chat", &vec!["main".into(), "c1".into()], "Chat one");
    assert_eq!(row, format!("{:<12} {:<12} {:<40} {}", "01234567", "chat", "main,c1", "Chat one"));
    let row = session_row("abc", "task", &vec![], "x");
    assert_eq!(row, format!("{:<12} {:<12} {:<40} {}", "abc", "task", "-", "x"));
    assert_eq!(streaming_delta("hel", "hello").as_deref(), Some("lo"));
    assert_eq!(streaming_delta("hello", "hello"), None);
    assert_eq!(streaming_delta("abc", "xyz").as_deref(), Some("\nxyz"));
}

#[test]
fn interactive_input_is_trimmed_and_capped() {
    assert_eq!(repl_input("   \n"), None);
    assert_eq!(repl_input("  hi there \n"), Some(("hi there".to_string(), None)));
    let big = format!(" {} ", "ab".repeat(MAX_MESSAGE_SIZE));
    let (m, w) = repl_input(&big).unwrap();
    assert_eq!(m.len(), MAX_MESSAGE_SIZE);
    assert_eq!(w.as_deref(), Some("Warning: Message truncated to 100KB"));
}

#[test]
fn housekeeping_reports() {
    assert_eq!(chat_failure(None), "Chat failed: Unknown error");
    assert_eq!(chat_failure(Some("busy")), "Chat failed: busy");
    assert_eq!(send_timeout_lines(30)[0], "Timeout: coordinator did not respond within 30s.");
    assert_eq!(clear_line(2), "Chat history cleared for coordinator 2.");
    assert_eq!(cleanup_line(2, 0), "No expired archives to clean up for coordinator 2.");
    assert_eq!(cleanup_line(2, 3), "Cleaned up 3 expired archive(s) for coordinator 2.");
    assert_eq!(
        rotate_lines(1, true, 4, 2),
        vec![
            "Chat files rotated to archive for coordinator 1.",
            "4 archived file(s) total.",
            "Cleaned up 2 expired archive(s).",
        ]
    );
    assert_eq!(rotate_lines(1, false, 0, 0), vec!["No chat files to rotate for coordinator 1."]);
    assert_eq!(
        share_lines(1, None, 2, 120),
        vec![
            "Shared context from coordinator 1 (Unknown) → coordinator 2",
            "(120 bytes of imported context)",
            "The target coordinator will consume this on its next turn.",
        ]
    );
}

#[test]
fn session_status_and_release() {
    let live = LockHolder { alive: true, pid: 42, kind: Some("tui".into()), started_at: "t0".into() };
    let stale = LockHolder { alive: false, pid: 7, kind: None, started_at: "t1".into() };
    assert_eq!(session_status_line("main", None), "main: no handler");
    assert_eq!(session_status_line("main", Some(&live)), "main: live pid=42 kind=tui started=t0");
    assert_eq!(session_status_line("main", Some(&stale)), "main: STALE pid=7 kind=unknown started=t1");
    assert!(matches!(release_step("main", None),
        ReleaseStep::Nothing(m) if m == "\x1b[2m[wg session]\x1b[0m main has no live handler — nothing to release"));
    assert!(matches!(release_step("main", Some(&stale)),
        ReleaseStep::ClearStale(m) if m == "\x1b[33m[wg session]\x1b[0m main lock is stale (pid 7 not running) — clearing"));
    assert!(matches!(release_step("main", Some(&live)),
        ReleaseStep::Ask(m) if m == "\x1b[1;33m[wg session]\x1b[0m asking handler (pid=42 kind=tui) on main to release..."));
    assert_eq!(release_outcome_lines("main", 0, false).len(), 1);
    assert_eq!(release_outcome_lines("main", 5, true), vec!["\x1b[32m[wg session]\x1b[0m main released"]);
    assert_eq!(release_outcome_lines("main", 5, false)[0], "\x1b[33m[wg session]\x1b[0m main handler did not release within 5s — may be mid-tool-call");
}
