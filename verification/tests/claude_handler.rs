use wg_commands::agent_stream::decode_stdout_line;
use wg_commands::claude_handler::{turn_content, turn_reply, turn_request_id, CollectedResponse, TurnReply};
use wg_commands::claude_handler::process_failure_detail;
use wg_commands::claude_handler::agent_args;
use wg_commands::agent_stream::{decode_stream_line, ContentValue, InnerContent, StreamBlock, StreamLine, StreamMessage, TextBlock, UsageCounts};
use wg_commands::claude_handler::{
    build_collected, build_handler_system_prompt, format_stream_json_user_message,
    format_tool_input, last_answered_inbox_id, parse_coordinator_id, ClaudeUsage, CollectStep,
    Collector, HandlerPrompt, InboxEntry, ResponseEvent,
};

fn usage(input: u64, output: u64, read: u64, write: u64, cost: Option<&str>) -> ClaudeUsage {
    ClaudeUsage {
        input_tokens: input,
        output_tokens: output,
        cache_read_input_tokens: read,
        cache_creation_input_tokens: write,
        total_cost: cost.map(String::from),
    }
}

#[test]
fn format_tool_input_bash_becomes_shell_prompt() {
    let out = format_tool_input("Bash", r#"{"command":"ls /tmp"}"#);
    assert_eq!(out, "$ ls /tmp");
}

#[test]
fn format_tool_input_non_bash_stays_json() {
    let out = format_tool_input("Read", r#"{"file_path":"/etc/hosts"}"#);
    assert!(out.contains("\"file_path\""));
    assert!(out.contains("/etc/hosts"));
}

#[test]
fn format_tool_input_truncates_huge_json() {
    let big = (0..30)
        .map(|i| format!("\"k{}\":\"v\"", i))
        .collect::<Vec<_>>()
        .join(",");
    let raw = format!("{{{}}}", big);
    let out = format_tool_input("Unknown", &raw);
    assert!(out.contains("more lines"));
}

#[test]
fn format_tool_input_counts_the_lines_left_out() {
    let big = (0..30)
        .map(|i| format!("\"k{:02}\":\"v\"", i))
        .collect::<Vec<_>>()
        .join(",");
    let raw = format!("{{{}}}", big);
    let out = format_tool_input("Unknown", &raw);
    // 32 pretty lines: the braces and 30 members; eight are kept.
    assert_eq!(out.lines().count(), 9);
    assert!(out.ends_with("\n... (24 more lines)"));
    assert!(out.starts_with("{\n  \"k00\": \"v\","));
}

#[test]
fn format_tool_input_keeps_text_that_is_not_json() {
    assert_eq!(format_tool_input("Bash", "not json"), "not json");
    assert_eq!(format_tool_input("Bash", ""), "");
    assert_eq!(format_tool_input("bash", r#"{"cmd":"x"}"#), "{\n  \"cmd\": \"x\"\n}");
}

#[test]
fn build_collected_full_response_has_summary_when_no_tools() {
    let parts = vec!["hello from the agent".to_string()];
    let transcript = "hello from the agent\n";
    let resp = build_collected(&parts, transcript, None).expect("non-empty");
    assert_eq!(resp.summary, "hello from the agent");
    assert_eq!(resp.full_response, "hello from the agent\n");
}

#[test]
fn build_collected_renders_native_claude_usage_once() {
    let parts = vec!["done".to_string()];
    let u = usage(13, 5, 7, 2, Some("0.0123"));
    let resp = build_collected(&parts, "done\n", Some(&u)).expect("non-empty");
    assert_eq!(resp.summary, "done");
    assert_eq!(
        resp.full_response,
        "done\n\n[usage: 13 input · 5 output · 7 cache-read · 2 cache-write · $0.0123]\n"
    );
}

#[test]
fn build_collected_empty_returns_none() {
    let parts: Vec<String> = Vec::new();
    assert!(build_collected(&parts, "", None).is_none());
}

#[test]
fn build_collected_adds_newline_before_usage_when_missing() {
    let parts = vec!["done".to_string()];
    let u = usage(1, 2, 0, 0, None);
    let resp = build_collected(&parts, "done", Some(&u)).unwrap();
    assert_eq!(resp.full_response, "done\n\n[usage: 1 input · 2 output]\n");
}

#[test]
fn usage_render_omits_zero_cache_fields() {
    assert_eq!(usage(3, 4, 0, 9, None).render(), "[usage: 3 input · 4 output · 9 cache-write]");
    assert_eq!(usage(0, 0, 0, 0, Some("1.5000")).render(), "[usage: 0 input · 0 output · $1.5000]");
}

#[test]
fn canonical_chat_refs_receive_coordinator_contract() {
    for (chat_ref, expected) in [
        ("chat-7", Some(7)),
        ("coordinator-8", Some(8)),
        (".chat-9", Some(9)),
        (".coordinator-10", Some(10)),
        ("worker-11", None),
    ] {
        assert_eq!(parse_coordinator_id(chat_ref), expected, "{chat_ref}");
    }
}

#[test]
fn coordinator_ids_must_be_whole_u32_numbers() {
    assert_eq!(parse_coordinator_id("chat-"), None);
    assert_eq!(parse_coordinator_id("chat-4294967296"), None);
    assert_eq!(parse_coordinator_id("chat-4294967295"), Some(4294967295));
    assert_eq!(parse_coordinator_id("chat-+3"), Some(3));
    assert_eq!(parse_coordinator_id("chat-1x"), None);
}

#[test]
fn handler_prompt_follows_ref_then_role() {
    assert!(matches!(build_handler_system_prompt("chat-0", None), HandlerPrompt::Coordinator));
    assert!(matches!(
        build_handler_system_prompt("worker", Some("coordinator")),
        HandlerPrompt::Coordinator
    ));
    match build_handler_system_prompt("worker", Some("evaluator")) {
        HandlerPrompt::Text(t) => assert_eq!(t, "You are acting in the role of: evaluator."),
        other => panic!("unexpected {other:?}"),
    }
    match build_handler_system_prompt("worker", None) {
        HandlerPrompt::Text(t) => assert_eq!(t, "You are a WG task agent."),
        other => panic!("unexpected {other:?}"),
    }
}

#[test]
fn resume_cursor_is_last_answered_inbox_id() {
    let inbox = vec![
        InboxEntry { id: 1, request_id: "a".into() },
        InboxEntry { id: 4, request_id: "b".into() },
        InboxEntry { id: 2, request_id: "c".into() },
        InboxEntry { id: 9, request_id: "d".into() },
    ];
    let answered = vec!["a".to_string(), "b".to_string(), "c".to_string()];
    assert_eq!(last_answered_inbox_id(&inbox, &answered), 4);
    assert_eq!(last_answered_inbox_id(&inbox, &Vec::new()), 0);
    assert_eq!(last_answered_inbox_id(&Vec::new(), &answered), 0);
}

#[test]
fn user_message_is_one_stream_json_line() {
    let line = format_stream_json_user_message("say \"hi\"\nplease");
    assert_eq!(
        line,
        "{\"message\":{\"content\":\"say \\\"hi\\\"\\nplease\",\"role\":\"user\"},\"type\":\"user\"}\n"
    );
    let parsed: serde_json::Value = serde_json::from_str(line.trim_end()).unwrap();
    assert_eq!(parsed["message"]["content"], "say \"hi\"\nplease");
}

#[test]
fn collector_builds_tool_boxes_and_finishes_on_turn_complete() {
    let mut c = Collector::new("Assistant");
    match c.step(ResponseEvent::Text("Looking".into())) {
        CollectStep::Stream(s) => assert_eq!(s, "Looking\n"),
        other => panic!("unexpected {other:?}"),
    }
    assert!(matches!(
        c.step(ResponseEvent::ToolUse { name: "Bash".into(), input: r#"{"command":"ls"}"#.into() }),
        CollectStep::Continue
    ));
    assert!(matches!(c.step(ResponseEvent::ToolResult("a\nb".into())), CollectStep::Continue));
    assert!(matches!(c.step(ResponseEvent::Text("Done".into())), CollectStep::Stream(_)));
    match c.step(ResponseEvent::TurnComplete) {
        CollectStep::Done(Some(r)) => {
            assert_eq!(r.summary, "Done");
            let rule = "─".repeat(32);
            assert_eq!(
                r.full_response,
                format!("Looking\n\n┌─ Bash {rule}\n│ $ ls\n│ a\n│ b\n└─\nDone\n")
            );
        }
        other => panic!("unexpected {other:?}"),
    }
}

#[test]
fn collector_waits_past_tool_only_turns_and_reports_failures() {
    let mut c = Collector::new("Assistant");
    assert!(matches!(c.step(ResponseEvent::TurnComplete), CollectStep::Continue));
    assert!(matches!(
        c.step(ResponseEvent::ToolUse { name: "Read".into(), input: String::new() }),
        CollectStep::Continue
    ));
    match c.step(ResponseEvent::Failure("auth expired".into())) {
        CollectStep::Done(Some(r)) => {
            assert_eq!(r.summary, "Assistant chat failed: auth expired. Please retry.");
            assert!(r.full_response.ends_with("└─\nAssistant chat failed: auth expired. Please retry.\n"));
        }
        other => panic!("unexpected {other:?}"),
    }
}

#[test]
fn collector_caps_tool_output_at_fifteen_lines() {
    let mut c = Collector::new("Assistant");
    let output = (1..=20).map(|i| i.to_string()).collect::<Vec<_>>().join("\n");
    c.step(ResponseEvent::ToolResult(output));
    assert!(c.transcript.ends_with("│ 15\n│ ... (5 more lines)\n└─\n"));
    c.step(ResponseEvent::ToolResult(String::new()));
    assert!(c.transcript.ends_with("│ (no output)\n└─\n"));
    match c.step(ResponseEvent::StreamEnd) {
        CollectStep::Done(r) => assert!(r.is_none()),
        other => panic!("unexpected {other:?}"),
    }
}

#[test]
fn collector_keeps_latest_usage_and_session() {
    let mut c = Collector::new("Assistant");
    c.step(ResponseEvent::Usage(usage(1, 1, 0, 0, None)));
    c.step(ResponseEvent::Usage(usage(2, 3, 0, 0, None)));
    match c.step(ResponseEvent::SessionStarted("sess-1".into())) {
        CollectStep::PersistSession(id) => assert_eq!(id, "sess-1"),
        other => panic!("unexpected {other:?}"),
    }
    c.step(ResponseEvent::Text("ok".into()));
    match c.step(ResponseEvent::RecvTimeout) {
        CollectStep::Done(Some(r)) => {
            assert_eq!(r.full_response, "ok\n\n[usage: 2 input · 3 output]\n")
        }
        other => panic!("unexpected {other:?}"),
    }
}

fn line(kind: &str) -> StreamLine {
    StreamLine {
        line_type: Some(kind.to_string()),
        session_id: None,
        usage: None,
        total_cost: None,
        message: None,
        content: None,
        name: None,
        input: None,
        output: None,
        is_error: None,
        subtype: None,
        result: None,
        error: None,
    }
}

fn block(kind: &str) -> StreamBlock {
    StreamBlock { block_type: Some(kind.to_string()), text: None, name: None, input: None, content: None }
}

#[test]
fn result_usage_parses_without_changing_native_field_identity() {
    let mut l = line("result");
    l.session_id = Some("native-session-12".into());
    l.total_cost = Some("0.0456".into());
    l.usage = Some(UsageCounts {
        input_tokens: Some(21),
        output_tokens: Some(8),
        cache_read_input_tokens: Some(144),
        cache_creation_input_tokens: Some(3),
    });
    let events = decode_stream_line(&l, "Assistant");
    assert_eq!(events.len(), 3);
    match &events[0] {
        ResponseEvent::SessionStarted(s) => assert_eq!(s, "native-session-12"),
        other => panic!("unexpected {other:?}"),
    }
    match &events[1] {
        ResponseEvent::Usage(u) => {
            assert_eq!(
                (u.input_tokens, u.output_tokens, u.cache_read_input_tokens, u.cache_creation_input_tokens),
                (21, 8, 144, 3)
            );
            assert_eq!(u.total_cost.as_deref(), Some("0.0456"));
        }
        other => panic!("unexpected {other:?}"),
    }
    assert!(matches!(events[2], ResponseEvent::TurnComplete));
}

#[test]
fn assistant_lines_carry_text_tools_and_turn_end() {
    let mut l = line("assistant");
    l.session_id = Some("   ".into());
    let mut text = block("text");
    text.text = Some("hi".into());
    let mut tool = block("tool_use");
    tool.name = Some("Bash".into());
    tool.input = Some("{\"command\":\"ls\"}".into());
    let nameless = block("tool_use");
    l.message = Some(StreamMessage {
        content: Some(ContentValue::Blocks(vec![text, block("text"), tool, nameless, block("thinking")])),
        stop_reason: Some("end_turn".into()),
        usage: Some(UsageCounts {
            input_tokens: Some(5),
            output_tokens: None,
            cache_read_input_tokens: None,
            cache_creation_input_tokens: None,
        }),
    });
    let events = decode_stream_line(&l, "Assistant");
    let shown: Vec<String> = events.iter().map(|e| format!("{e:?}")).collect();
    assert_eq!(events.len(), 5, "{shown:?}");
    assert!(matches!(&events[0], ResponseEvent::Usage(u) if u.input_tokens == 5 && u.output_tokens == 0));
    assert!(matches!(&events[1], ResponseEvent::Text(t) if t == "hi"));
    assert!(matches!(&events[2], ResponseEvent::ToolUse { name, input } if name == "Bash" && input == "{\"command\":\"ls\"}"));
    assert!(matches!(&events[3], ResponseEvent::ToolUse { name, input } if name == "unknown" && input.is_empty()));
    assert!(matches!(events[4], ResponseEvent::TurnComplete));
}

#[test]
fn user_and_tool_result_lines_carry_tool_output() {
    let mut l = line("user");
    let mut r1 = block("tool_result");
    r1.content = Some(InnerContent::Blocks(vec![
        TextBlock { block_type: Some("text".into()), text: Some("a".into()) },
        TextBlock { block_type: Some("image".into()), text: Some("x".into()) },
        TextBlock { block_type: Some("text".into()), text: Some("b".into()) },
    ]));
    let mut r2 = block("tool_result");
    r2.content = Some(InnerContent::Text(String::new()));
    l.content = Some(ContentValue::Blocks(vec![r1, r2]));
    let events = decode_stream_line(&l, "Assistant");
    assert_eq!(events.len(), 1);
    assert!(matches!(&events[0], ResponseEvent::ToolResult(t) if t == "a\nb"));

    let mut t = line("tool_result");
    t.content = Some(ContentValue::Other);
    t.output = Some("done".into());
    let events = decode_stream_line(&t, "Assistant");
    assert!(matches!(&events[0], ResponseEvent::ToolResult(x) if x == "done"));
    let mut t = line("tool_result");
    t.content = Some(ContentValue::Text(String::new()));
    assert!(decode_stream_line(&t, "Assistant").is_empty());
    assert!(decode_stream_line(&line("system"), "Assistant").is_empty());
}

#[test]
fn error_results_report_their_detail() {
    let mut l = line("result");
    l.subtype = Some("error_max_turns".into());
    l.error = Some("too many turns".into());
    let events = decode_stream_line(&l, "Assistant");
    assert!(matches!(&events[0], ResponseEvent::Failure(d) if d == "too many turns"));
    assert!(matches!(events[1], ResponseEvent::TurnComplete));
    l.result = Some(None);
    let events = decode_stream_line(&l, "Assistant");
    assert!(matches!(&events[0], ResponseEvent::Failure(d) if d == "Assistant reported an unspecified error"));
    let mut ok = line("result");
    ok.subtype = Some("success".into());
    ok.is_error = Some(false);
    assert_eq!(decode_stream_line(&ok, "Assistant").len(), 1);
}

#[test]
fn agent_command_line_resumes_or_starts_from_the_prompt() {
    let fresh = agent_args("You are a WG task agent.", None, Some("opus"));
    assert_eq!(
        fresh,
        vec![
            "--print", "--input-format", "stream-json", "--output-format", "stream-json", "--verbose",
            "--dangerously-skip-permissions", "--system-prompt", "You are a WG task agent.",
            "--allowedTools", "Bash(wg:*)", "--model", "opus",
        ]
    );
    let resumed = agent_args("ignored", Some("sess-1"), None);
    assert_eq!(&resumed[7..], &["--resume", "sess-1", "--allowedTools", "Bash(wg:*)"]);
}

#[test]
fn process_failure_shows_status_and_stderr_tail() {
    assert_eq!(process_failure_detail("Codex", "exit status: 1", ""), "Codex CLI exited exit status: 1");
    assert_eq!(process_failure_detail("Codex", "exit status: 1", "  \n\n"), "Codex CLI exited exit status: 1");
    assert_eq!(
        process_failure_detail("Codex", "exit status: 2", "  warning\nauth failed\n"),
        "Codex CLI exited exit status: 2: warning\nauth failed"
    );
    let stderr: String = (1..=15).map(|i| format!("line {i}\n")).collect();
    let expected: Vec<String> = (4..=15).map(|i| format!("line {i}")).collect();
    assert_eq!(
        process_failure_detail("Codex", "signal: 9", &stderr),
        format!("Codex CLI exited signal: 9: {}", expected.join("\n"))
    );
}

#[test]
fn inbox_turn_ids_framing_and_replies() {
    assert_eq!(turn_request_id(7, ""), "req-7");
    assert_eq!(turn_request_id(7, "abc"), "abc");

    assert_eq!(turn_content("hi", false, Some("ctx")), "hi");
    assert_eq!(turn_content("hi", true, Some("ctx")), "ctx\n\n---\n\nUser message:\nhi");
    assert_eq!(turn_content("hi", true, Some("")), "User message:\nhi");
    assert_eq!(turn_content("hi", true, None), "User message:\nhi");

    let same = CollectedResponse { summary: "ok".to_string(), full_response: " ok\n".to_string() };
    match turn_reply("Codex", Some(&same), None) {
        TurnReply::Reply { summary, full_response } => {
            assert_eq!(summary, "ok");
            assert_eq!(full_response, None);
        }
        TurnReply::Failure(m) => panic!("{m}"),
    }
    let more = CollectedResponse { summary: "ok".to_string(), full_response: "tool\nok".to_string() };
    match turn_reply("Codex", Some(&more), None) {
        TurnReply::Reply { full_response, .. } => assert_eq!(full_response.as_deref(), Some("tool\nok")),
        TurnReply::Failure(m) => panic!("{m}"),
    }
    let empty = CollectedResponse { summary: String::new(), full_response: String::new() };
    let fail = |r: TurnReply| match r {
        TurnReply::Failure(m) => m,
        TurnReply::Reply { .. } => panic!("expected a failure"),
    };
    assert_eq!(fail(turn_reply("Codex", Some(&empty), None)), "Codex chat failed: Codex produced no response text. Please retry.");
    assert_eq!(
        fail(turn_reply("Codex", None, None)),
        "Codex chat failed: response timed out or its stream ended. Please retry."
    );
    assert_eq!(
        fail(turn_reply("Codex", None, Some("Codex CLI exited exit status: 1"))),
        "Codex chat failed: Codex CLI exited exit status: 1. Please retry."
    );
}

#[test]
fn raw_stdout_lines_decode_through_the_library() {
    assert!(decode_stdout_line("", "Assistant", None).is_empty());
    assert!(decode_stdout_line("   ", "Assistant", None).is_empty());
    assert!(decode_stdout_line("not json", "Assistant", None).is_empty());

    let events = decode_stdout_line(
        r#"  {"type":"result","session_id":"native-session-12","usage":{"input_tokens":21,"output_tokens":8,"cache_read_input_tokens":144,"cache_creation_input_tokens":3},"total_cost_usd":0.0456}  "#,
        "Assistant",
        Some("0.0456".to_string()),
    );
    assert_eq!(events.len(), 3);
    assert!(matches!(&events[0], ResponseEvent::SessionStarted(s) if s == "native-session-12"));
    assert!(matches!(&events[1], ResponseEvent::Usage(u)
        if (u.input_tokens, u.output_tokens, u.cache_read_input_tokens, u.cache_creation_input_tokens) == (21, 8, 144, 3)
            && u.total_cost.as_deref() == Some("0.0456")));
    assert!(matches!(events[2], ResponseEvent::TurnComplete));

    let events = decode_stdout_line(
        r#"{"type":"assistant","session_id":"  ","message":{"content":[{"type":"text","text":"hi"},{"type":"text"},{"type":"tool_use","name":"Bash","input":{"command":"ls"}},{"type":"tool_use"},{"type":"thinking"}],"stop_reason":"end_turn","usage":{"input_tokens":5}}}"#,
        "Assistant",
        None,
    );
    assert_eq!(events.len(), 5);
    assert!(matches!(&events[0], ResponseEvent::Usage(u) if u.input_tokens == 5 && u.output_tokens == 0));
    assert!(matches!(&events[1], ResponseEvent::Text(t) if t == "hi"));
    assert!(matches!(&events[2], ResponseEvent::ToolUse { name, input } if name == "Bash" && input == "{\"command\":\"ls\"}"));
    assert!(matches!(&events[3], ResponseEvent::ToolUse { name, input } if name == "unknown" && input.is_empty()));
    assert!(matches!(events[4], ResponseEvent::TurnComplete));

    let events = decode_stdout_line(
        r#"{"type":"user","message":{"content":[{"type":"tool_result","content":[{"type":"text","text":"a"},{"type":"image","text":"x"},{"type":"text","text":"b"}]},{"type":"tool_result","content":""}]}}"#,
        "Assistant",
        None,
    );
    assert_eq!(events.len(), 1);
    assert!(matches!(&events[0], ResponseEvent::ToolResult(t) if t == "a\nb"));

    let events = decode_stdout_line(r#"{"type":"tool_result","content":5,"output":"done"}"#, "Assistant", None);
    assert!(matches!(&events[0], ResponseEvent::ToolResult(x) if x == "done"));

    let events = decode_stdout_line(r#"{"type":"result","subtype":"error_max_turns","result":null}"#, "Assistant", None);
    assert!(matches!(&events[0], ResponseEvent::Failure(d) if d == "Assistant reported an unspecified error"));
    assert!(matches!(events[1], ResponseEvent::TurnComplete));
    let events = decode_stdout_line(r#"{"type":"result","subtype":"error_max_turns","error":"too many turns"}"#, "Assistant", None);
    assert!(matches!(&events[0], ResponseEvent::Failure(d) if d == "too many turns"));
}
