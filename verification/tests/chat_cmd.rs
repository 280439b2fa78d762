use wg_commands::chat_cmd::ChatReloadDelta;
use wg_commands::chat_cmd::{reload_after_probe, reload_preflight, PluginState};
use wg_commands::chat_cmd::{runtime_wait_step, StableWait, WaitStep, RESUME_LIVE_SETTLE_NANOS};
use wg_commands::chat_cmd::{replace_wait_probe, ReplaceStep};
use wg_commands::chat_cmd::reload_outcome_lines;
use wg_commands::chat_cmd::{show_lines, ChatShow, LiveHandler, RuntimeEvent};
use wg_commands::chat_cmd::{stray_fork_transcripts, wake_cursor_name};
use wg_commands::archive::TaskStatus;
use wg_commands::chat_cmd::{
    changed_label, classify_chat_task, compute_reload_delta, fork_executor_gate, fork_name,
    fork_transcript_name, format_handler_identity, handler_replaced, model_override_changes,
    pi_model_writeback_spec, reconstruct_resume_metadata, refine_status_with_runtime,
    reload_failure_message, reload_targets, request_error_text, resume_runtime_proof_is_valid,
    service_is_running, session_file_gate, supervised_chat_ids, validate_chat_resumable,
    validate_interactive_executor_binary, BinaryIdentity, ChatReloadIdentity, ChatRuntimeStatus,
    ChatTask, CoordinatorEntry, HandlerIdentity,
};

fn chat_task(id: &str, status: TaskStatus, tags: &[&str], chat_id: Option<u32>) -> ChatTask {
    ChatTask {
        id: id.to_string(),
        status,
        tags: tags.iter().map(|t| t.to_string()).collect(),
        chat_id,
    }
}

fn handler(source: &str, pid: u32, started: &str) -> HandlerIdentity {
    HandlerIdentity {
        source: source.to_string(),
        pid: Some(pid),
        started_at: Some(started.to_string()),
        live: true,
    }
}

fn identity(chat_id: u32, cache_digest: Option<&str>, session: Option<&str>, h: HandlerIdentity) -> ChatReloadIdentity {
    ChatReloadIdentity {
        chat_id,
        executor: Some("pi".into()),
        model: None,
        wg_binary: None,
        pi_binary: None,
        plugin_compat: "1".into(),
        plugin_source: "Cache".into(),
        plugin_entry: "/p/dist/index.js".into(),
        embed_digest: "b3:embed".into(),
        cache_digest: cache_digest.map(String::from),
        cache_state: "Current".into(),
        session_file: session.map(String::from),
        session_message_count: Some(2),
        handler: h,
    }
}

#[test]
fn tui_owned_runtime_promotes_stopped_and_dormant_to_supervised() {
    assert_eq!(
        refine_status_with_runtime(ChatRuntimeStatus::Stopped, true),
        ChatRuntimeStatus::Supervised
    );
    assert_eq!(
        refine_status_with_runtime(ChatRuntimeStatus::Dormant, true),
        ChatRuntimeStatus::Supervised
    );
    assert_eq!(
        refine_status_with_runtime(ChatRuntimeStatus::Stopped, false),
        ChatRuntimeStatus::Stopped
    );
}

#[test]
fn runtime_never_revives_archived_or_deleted() {
    assert_eq!(
        refine_status_with_runtime(ChatRuntimeStatus::Archived, true),
        ChatRuntimeStatus::Archived
    );
    assert_eq!(
        refine_status_with_runtime(ChatRuntimeStatus::Deleted, true),
        ChatRuntimeStatus::Deleted
    );
}

#[test]
fn classify_archived_and_deleted() {
    let t = chat_task(".chat-1", TaskStatus::Done, &["chat-loop", "archived"], Some(1));
    assert_eq!(classify_chat_task(&t, true, &vec![1]), ChatRuntimeStatus::Archived);

    let t2 = chat_task(".chat-2", TaskStatus::Abandoned, &["chat-loop"], Some(2));
    assert_eq!(classify_chat_task(&t2, true, &vec![2]), ChatRuntimeStatus::Deleted);

    let t3 = chat_task(".chat-3", TaskStatus::InProgress, &["chat-loop"], Some(3));
    assert_eq!(classify_chat_task(&t3, true, &vec![3]), ChatRuntimeStatus::Supervised);
    assert_eq!(classify_chat_task(&t3, true, &vec![]), ChatRuntimeStatus::Stopped);
    assert_eq!(classify_chat_task(&t3, false, &vec![3]), ChatRuntimeStatus::Dormant);
}

#[test]
fn list_truthful_status_when_service_down() {
    let alpha = chat_task(".chat-0", TaskStatus::InProgress, &["chat-loop"], Some(0));
    let beta = chat_task(".chat-1", TaskStatus::InProgress, &["chat-loop"], Some(1));
    let running = service_is_running(None, true);
    assert!(!running);
    for t in [&alpha, &beta] {
        assert_eq!(classify_chat_task(t, running, &vec![]), ChatRuntimeStatus::Dormant);
    }
}

#[test]
fn status_labels_are_stable() {
    assert_eq!(ChatRuntimeStatus::Supervised.label(), "supervised");
    assert_eq!(ChatRuntimeStatus::Dormant.label(), "dormant");
    assert_eq!(ChatRuntimeStatus::Archived.label(), "archived");
    assert_eq!(ChatRuntimeStatus::Deleted.label(), "deleted");
    assert_eq!(ChatRuntimeStatus::Stopped.label(), "stopped");
}

#[test]
fn service_runs_only_with_a_live_recorded_pid() {
    assert!(service_is_running(Some(42), true));
    assert!(!service_is_running(Some(42), false));
    assert!(!service_is_running(None, false));
}

#[test]
fn supervised_ids_are_the_live_coordinators() {
    let entries = vec![
        CoordinatorEntry { runtime_live: Some(true), coordinator_id: Some(3) },
        CoordinatorEntry { runtime_live: Some(false), coordinator_id: Some(4) },
        CoordinatorEntry { runtime_live: None, coordinator_id: Some(5) },
        CoordinatorEntry { runtime_live: Some(true), coordinator_id: None },
        CoordinatorEntry { runtime_live: Some(true), coordinator_id: Some(7) },
    ];
    assert_eq!(supervised_chat_ids(&entries), vec![3, 7]);
}

#[test]
fn terminal_chat_tasks_cannot_be_resumed_even_with_runtime_proof() {
    for (status, archived) in [
        (TaskStatus::Done, false),
        (TaskStatus::Done, true),
        (TaskStatus::Abandoned, false),
        (TaskStatus::Failed, false),
    ] {
        let tags: &[&str] = if archived { &["chat-loop", "archived"] } else { &["chat-loop"] };
        let task = chat_task(".chat-9", status, tags, Some(9));
        assert!(
            validate_chat_resumable(Some(&task), 9).is_err(),
            "terminal status {status:?} must reject resume"
        );
        assert!(
            !resume_runtime_proof_is_valid(Some(&task), 9, true),
            "stale tmux proof must not revive {status:?}"
        );
    }
}

#[test]
fn resume_refusals_name_the_task() {
    let task = chat_task(".chat-9", TaskStatus::Done, &["archived"], Some(9));
    assert_eq!(
        validate_chat_resumable(Some(&task), 9).unwrap_err(),
        "Cannot resume chat 9: authoritative task .chat-9 is terminal (done) and archived"
    );
    assert_eq!(
        validate_chat_resumable(None, 4).unwrap_err(),
        "Chat task for id 4 not found in graph"
    );
    let open = chat_task(".chat-2", TaskStatus::InProgress, &[], Some(2));
    assert!(validate_chat_resumable(Some(&open), 2).is_ok());
    assert!(resume_runtime_proof_is_valid(Some(&open), 2, true));
    assert!(!resume_runtime_proof_is_valid(Some(&open), 2, false));
}

#[test]
fn missing_pi_preflight_names_actual_executable_and_is_executor_scoped() {
    let message = validate_interactive_executor_binary(Some("pi"), false).unwrap_err();
    assert!(message.contains("`pi`"), "{message}");
    assert!(message.contains("no chat was created"), "{message}");
    assert!(message.contains("no fallback executor"), "{message}");

    validate_interactive_executor_binary(Some("pi"), true).unwrap();
    validate_interactive_executor_binary(Some("codex"), false).unwrap();
    validate_interactive_executor_binary(None, false).unwrap();
}

#[test]
fn resume_metadata_prefers_overrides_then_task() {
    let (e, m) = reconstruct_resume_metadata(
        Some("native".into()),
        Some("openrouter:openai/gpt-5".into()),
        Some("nex".into()),
        Some("nex:qwen3-coder".into()),
    );
    assert_eq!(e.as_deref(), Some("native"));
    assert_eq!(m.as_deref(), Some("openrouter:openai/gpt-5"));
    let (e, m) = reconstruct_resume_metadata(None, None, Some("nex".into()), None);
    assert_eq!(e.as_deref(), Some("nex"));
    assert_eq!(m, None);
}

#[test]
fn fork_is_pi_only_and_names_its_transcript() {
    assert!(fork_executor_gate(0, None, None).is_ok());
    let err = fork_executor_gate(3, Some("codex"), Some("pi")).unwrap_err();
    assert!(err.contains("Pi chats only"));
    assert!(err.contains("`wg session fork chat-3`"));
    assert_eq!(fork_name(None, 3), "fork of chat-3");
    assert_eq!(fork_name(Some("branch"), 3), "branch");
    assert_eq!(
        fork_transcript_name("2026-01-01_abc_chat-3.jsonl", 3, 12),
        "2026-01-01_abc_chat-12.jsonl"
    );
    assert_eq!(fork_transcript_name("other.jsonl", 3, 12), "other.jsonl_chat-12.jsonl");
}

#[test]
fn reload_all_targets_active_chats_once_in_order() {
    let tasks = vec![
        chat_task(".chat-5", TaskStatus::InProgress, &["chat-loop"], Some(5)),
        chat_task(".chat-2", TaskStatus::Open, &["chat-loop"], Some(2)),
        chat_task(".chat-9", TaskStatus::Done, &["chat-loop"], Some(9)),
        chat_task(".chat-7", TaskStatus::InProgress, &["archived"], Some(7)),
        chat_task(".chat-5", TaskStatus::InProgress, &["chat-loop"], Some(5)),
        chat_task("no-id", TaskStatus::Open, &[], None),
    ];
    assert_eq!(reload_targets(&tasks), vec![2, 5]);
}

#[test]
fn reload_failures_are_counted_and_named() {
    let failures = vec![(3u32, "boom".to_string()), (4u32, "bang".to_string())];
    assert_eq!(
        reload_failure_message(&failures, 1),
        "2 of 3 chat(s) failed to reload. Refusals are loud and leave each chat resumable:\nchat 3: boom\nchat 4: bang"
    );
}

#[test]
fn reload_delta_reports_plugin_change_and_replacement() {
    let before = identity(5, Some("b3:old"), Some("s.jsonl"), handler("daemon-lock", 100, "t0"));
    let after = identity(5, Some("b3:embed"), Some("s.jsonl"), handler("daemon-lock", 200, "t1"));
    let d = compute_reload_delta(&before, &after);
    assert!(d.plugin_digest_changed);
    assert!(d.session_file_preserved);
    assert!(d.handler_replaced);
    assert!(!d.wg_binary_changed);
    assert_eq!(d.message_count_before, Some(2));

    let same = compute_reload_delta(&before, &before);
    assert!(!same.plugin_digest_changed && !same.handler_replaced);
    assert!(same.session_file_preserved);
}

#[test]
fn reload_delta_sees_binary_changes() {
    let mut before = identity(5, None, None, handler("daemon-lock", 1, "t"));
    before.wg_binary = Some(BinaryIdentity {
        path: "/bin/wg".into(),
        mtime_unix: Some(1),
        size_bytes: Some(10),
        digest: None,
    });
    let mut after = before.clone();
    after.wg_binary = Some(BinaryIdentity {
        path: "/bin/wg".into(),
        mtime_unix: Some(2),
        size_bytes: Some(10),
        digest: None,
    });
    let d = compute_reload_delta(&before, &after);
    assert!(d.wg_binary_changed);
    assert!(!d.session_file_preserved);
}

#[test]
fn handler_replacement_needs_a_new_live_generation() {
    let old = handler("daemon-lock", 100, "2026-01-01T00:00:00Z");
    let new = handler("daemon-lock", 999, "2026-01-01T00:00:05Z");
    assert!(handler_replaced(&new, &old));
    assert!(!handler_replaced(&old, &old));
    let mut dead = new.clone();
    dead.live = false;
    assert!(!handler_replaced(&dead, &old));
    assert!(handler_replaced(&new, &HandlerIdentity::none()));
}

#[test]
fn handler_identity_text_and_labels() {
    assert_eq!(
        format_handler_identity(&handler("tui-tmux-pane", 4242, "2026-01-01T00:00:00Z")),
        "tui-tmux-pane:pid=4242 started_at=2026-01-01T00:00:00Z"
    );
    let mut no_start = handler("daemon-lock", 7, "x");
    no_start.started_at = None;
    assert_eq!(format_handler_identity(&no_start), "daemon-lock:pid=7 started_at=?");
    assert_eq!(format_handler_identity(&HandlerIdentity::none()), "none");
    assert_eq!(changed_label(true), "CHANGED");
    assert_eq!(changed_label(false), "unchanged");
}

#[test]
fn reload_refuses_missing_session_file_without_stopping() {
    let err = session_file_gate(None, 50).unwrap_err();
    assert!(err.contains("WG-CHAT-RELOAD-SESSION-MISSING"));
    assert!(err.contains("wg chat reload 50"));
    assert!(session_file_gate(Some("/x/s.jsonl"), 50).is_ok());
}

#[test]
fn pi_writeback_is_handler_qualified_and_idempotent() {
    assert_eq!(pi_model_writeback_spec(" lunaroute:glm-5.2 "), "pi:lunaroute:glm-5.2");
    assert_eq!(pi_model_writeback_spec("pi:lunaroute:glm-5.2"), "pi:lunaroute:glm-5.2");
    let once = pi_model_writeback_spec("openrouter:minimax/minimax-m3");
    assert_eq!(pi_model_writeback_spec(&once), once);
}

#[test]
fn model_override_written_only_on_change() {
    assert!(!model_override_changes(&Some("pi".into()), &Some("m".into()), "pi", "m"));
    assert!(model_override_changes(&Some("pi".into()), &Some("m".into()), "pi", "n"));
    assert!(model_override_changes(&None, &Some("m".into()), "pi", "m"));
    assert_eq!(request_error_text(None), "Unknown error");
    assert_eq!(request_error_text(Some("nope".into())), "nope");
}

#[test]
fn fork_seeding_retires_stray_transcripts() {
    let names: Vec<String> = [
        "2026_abc_chat-12.jsonl",
        "2026_abc_chat-12.jsonl.wg-wake-cursor.json",
        "2026_new_chat-12.jsonl",
        "2026_abc_chat-3.jsonl",
        "x_chat-112.jsonl",
    ]
    .iter()
    .map(|s| s.to_string())
    .collect();
    assert_eq!(stray_fork_transcripts(&names, 12, "2026_abc_chat-12.jsonl"), vec![2]);
    assert_eq!(wake_cursor_name("a_chat-3.jsonl"), "a_chat-3.jsonl.wg-wake-cursor.json");
}

#[test]
fn chat_show_lists_overrides_handler_and_runtime() {
    let mut c = ChatShow {
        chat_id: 4,
        task_id: ".chat-4".into(),
        title: "Planning".into(),
        status: ChatRuntimeStatus::Supervised,
        task_status: TaskStatus::InProgress,
        executor: None,
        model: Some("nex:qwen3-coder".into()),
        service_running: true,
        handler: Some(LiveHandler { pid: 311, kind: Some("daemon".into()) }),
        tmux_session: "wg-chat-4".into(),
        tmux_live: false,
        runtime_reason: None,
        last_event: None,
        recovery: None,
    };
    assert_eq!(
        show_lines(&c),
        vec![
            "Chat 4",
            "  task     : .chat-4",
            "  title    : Planning",
            "  status   : supervised",
            "  task     : InProgress",
            "  model    : nex:qwen3-coder",
            "  service  : running",
            "  handler  : live pid=311 kind=daemon",
            "  runtime  : no durable exit recorded",
        ]
    );
    c.handler = None;
    c.tmux_live = true;
    c.service_running = false;
    c.runtime_reason = Some("exited 1".into());
    c.last_event = Some(RuntimeEvent { at: "2026-01-01T00:00:00Z".into(), source: "Supervisor".into(), stderr_path: Some("/tmp/e".into()) });
    c.recovery = Some(("Restart".into(), None));
    let lines = show_lines(&c);
    assert_eq!(
        &lines[6..],
        &[
            "  service  : stopped",
            "  handler  : live tmux=wg-chat-4",
            "  runtime  : exited 1",
            "  observed : 2026-01-01T00:00:00Z UTC (Supervisor)",
            "  stderr   : /tmp/e",
            "  recovery : Restart attempt 0",
        ]
    );
}

#[test]
fn reload_outcome_reports_identities_and_delta() {
    let before = identity(
        5,
        Some("b3:old"),
        Some("/s/a.jsonl"),
        HandlerIdentity { source: "daemon".into(), pid: Some(10), started_at: Some("t0".into()), live: true },
    );
    let mut after = identity(
        5,
        None,
        Some("/s/a.jsonl"),
        HandlerIdentity { source: "daemon".into(), pid: Some(11), started_at: None, live: true },
    );
    after.session_message_count = Some(3);
    let delta = compute_reload_delta(&before, &after);
    assert_eq!(
        reload_outcome_lines(5, "1", "Cache", "/p/dist/index.js", &before, &after, &delta),
        vec![
            "Reloaded chat 5.",
            "  plugin:   compat=1 source=Cache entry=/p/dist/index.js",
            "  before:   cache=Current cache-digest=b3:old embed-digest=b3:embed",
            "  after:    cache=Current cache-digest=<none> embed-digest=b3:embed",
            "  handler:  daemon:pid=10 started_at=t0 -> daemon:pid=11 started_at=?",
            "  session:  /s/a.jsonl (3 messages)",
            "  delta:    wg-binary=unchanged pi-binary=unchanged plugin-digest=CHANGED handler=CHANGED session=preserved",
            "            message count 2 -> 3",
        ]
    );
}

const MILLI: u64 = 1_000_000;

/// Runs a plain runtime wait against a simulated monotonic clock: each sleep
/// advances the clock by exactly the requested time.
fn wait_for_chat_runtime_with(timeout: u64, poll: u64, mut is_live: impl FnMut() -> bool) -> bool {
    let mut now: u64 = 1_000;
    let deadline = now + timeout;
    loop {
        match runtime_wait_step(is_live(), now, deadline, poll) {
            WaitStep::Live => return true,
            WaitStep::TimedOut => return false,
            WaitStep::Sleep { nanos } => now += nanos,
        }
    }
}

/// The same for a stable wait.
fn wait_for_stable_chat_runtime_with(timeout: u64, poll: u64, mut is_live: impl FnMut() -> bool) -> bool {
    let mut now: u64 = 1_000;
    let mut w = StableWait::begin(now, timeout);
    loop {
        match w.probe(is_live(), now, poll) {
            WaitStep::Live => return true,
            WaitStep::TimedOut => return false,
            WaitStep::Sleep { nanos } => now += nanos,
        }
    }
}

#[test]
fn resume_wait_never_turns_scheduling_ack_into_false_success() {
    let mut probes = 0;
    let live = wait_for_chat_runtime_with(5 * MILLI, MILLI, || {
        probes += 1;
        false
    });
    assert!(!live);
    assert!(probes >= 1);
}

#[test]
fn resume_wait_observes_delayed_runtime_within_bound() {
    let mut probes = 0;
    let live = wait_for_chat_runtime_with(20 * MILLI, MILLI, || {
        probes += 1;
        probes >= 3
    });
    assert!(live);
}

#[test]
fn plain_wait_sleeps_no_further_than_the_deadline() {
    assert_eq!(runtime_wait_step(false, 0, 10, 4), WaitStep::Sleep { nanos: 4 });
    assert_eq!(runtime_wait_step(false, 8, 10, 4), WaitStep::Sleep { nanos: 2 });
    assert_eq!(runtime_wait_step(false, 10, 10, 4), WaitStep::TimedOut);
    assert_eq!(runtime_wait_step(true, 99, 10, 4), WaitStep::Live);
}

#[test]
fn stable_wait_needs_the_settle_window_without_a_blip() {
    let w = StableWait::begin(0, 10_000 * MILLI);
    assert_eq!(w.settle, RESUME_LIVE_SETTLE_NANOS);
    assert_eq!(w.deadline, 10_000 * MILLI);
    assert_eq!(w.live_since, None);

    // A blip resets the run: live at 0 and 300 ms, down at 400 ms, live
    // again from 450 ms, settled only at 950 ms.
    let mut w = StableWait::begin(0, 10_000 * MILLI);
    assert_eq!(w.probe(true, 0, 100 * MILLI), WaitStep::Sleep { nanos: 100 * MILLI });
    assert_eq!(w.probe(true, 300 * MILLI, 100 * MILLI), WaitStep::Sleep { nanos: 100 * MILLI });
    assert_eq!(w.probe(false, 400 * MILLI, 100 * MILLI), WaitStep::Sleep { nanos: 100 * MILLI });
    assert_eq!(w.live_since, None);
    assert_eq!(w.probe(true, 450 * MILLI, 100 * MILLI), WaitStep::Sleep { nanos: 100 * MILLI });
    assert_eq!(w.live_since, Some(450 * MILLI));
    assert_eq!(w.probe(true, 900 * MILLI, 100 * MILLI), WaitStep::Sleep { nanos: 100 * MILLI });
    assert_eq!(w.probe(true, 950 * MILLI, 100 * MILLI), WaitStep::Live);
}

#[test]
fn stable_wait_with_zero_timeout_accepts_one_live_probe() {
    assert!(wait_for_stable_chat_runtime_with(0, MILLI, || true));
    assert!(!wait_for_stable_chat_runtime_with(0, MILLI, || false));
}

#[test]
fn stable_wait_times_out_on_a_flapping_runtime() {
    let mut probes = 0;
    let live = wait_for_stable_chat_runtime_with(2_000 * MILLI, 100 * MILLI, || {
        probes += 1;
        probes % 3 != 0
    });
    assert!(!live);
    let live = wait_for_stable_chat_runtime_with(2_000 * MILLI, 100 * MILLI, || true);
    assert!(live);
}

#[test]
fn reload_wait_tells_replaced_from_still_old_and_not_live() {
    let before = handler("daemon", 10, "t0");
    let new = handler("daemon", 11, "t1");
    let mut down = handler("daemon", 10, "t0");
    down.live = false;

    // The same generation keeps serving until the deadline.
    let mut w = StableWait::begin(0, 1_000 * MILLI);
    assert_eq!(replace_wait_probe(&mut w, &before, &before, 0, 400 * MILLI), ReplaceStep::Sleep { nanos: 400 * MILLI });
    assert_eq!(w.live_since, None);
    assert_eq!(replace_wait_probe(&mut w, &before, &before, 1_000 * MILLI, 400 * MILLI), ReplaceStep::StillOld);

    // Nothing live at the deadline.
    let mut w = StableWait::begin(0, 1_000 * MILLI);
    assert_eq!(replace_wait_probe(&mut w, &before, &down, 1_000 * MILLI, 400 * MILLI), ReplaceStep::NotLive);

    // A new generation that stays for the settle window replaces the old one.
    let mut w = StableWait::begin(0, 2_000 * MILLI);
    assert_eq!(replace_wait_probe(&mut w, &before, &new, 100 * MILLI, 400 * MILLI), ReplaceStep::Sleep { nanos: 400 * MILLI });
    assert_eq!(w.live_since, Some(100 * MILLI));
    assert_eq!(replace_wait_probe(&mut w, &before, &new, 600 * MILLI, 400 * MILLI), ReplaceStep::Replaced);
}

#[test]
fn reload_refusals_before_and_after_respawn() {
    let mut plugin = PluginState {
        from_cache: true,
        cache_current: false,
        cache_state: "Stale".to_string(),
        embed_digest: "e1".to_string(),
        cache_digest: None,
        compat: "3".to_string(),
        dist_entry: "/c/dist/index.js".to_string(),
        cache_version_dir: "/c/v3".to_string(),
    };
    let err = reload_preflight(4, &plugin, Some("s.jsonl")).unwrap_err();
    assert_eq!(
        err,
        "WG-CHAT-RELOAD-PLUGIN-STALE: pi plugin cache is Stale after ensure-pi-plugin and cannot be refreshed; embed=e1 cache=<none> compat=3 entry=/c/dist/index.js. Refusing to respawn against stale extension bytes. Run `wg pi-plugin install` with this binary, or check for write permission on /c/v3. The chat was left untouched and is resumable with `wg chat resume`."
    );
    plugin.cache_current = true;
    assert_eq!(reload_preflight(4, &plugin, Some("s.jsonl")), Ok(()));
    assert!(reload_preflight(4, &plugin, None).unwrap_err().starts_with("WG-CHAT-RELOAD-SESSION-MISSING: chat 4"));

    let old = handler("daemon", 10, "t0");
    assert_eq!(reload_after_probe(4, ReplaceStep::Sleep { nanos: 5 }, &old, 10, "/w"), None);
    assert_eq!(reload_after_probe(4, ReplaceStep::Replaced, &old, 10, "/w"), Some(Ok(())));
    assert_eq!(
        reload_after_probe(4, ReplaceStep::StillOld, &old, 10, "/w"),
        Some(Err("WG-CHAT-RELOAD-NOT-REPLACED: handler not replaced for chat 4 within 10s — the handler identity is unchanged (source=daemon pid=Some(10) started_at=Some(\"t0\")). Supervisor accepted the respawn but the same generation is still serving the session; the chat is resumable with `wg chat resume 4`. Inspect /w/service/daemon.log.".to_string()))
    );
    assert_eq!(
        reload_after_probe(4, ReplaceStep::NotLive, &old, 10, "/w"),
        Some(Err("WG-CHAT-RELOAD-NOT-LIVE: supervisor accepted the respawn for chat 4, but no live handler appeared within 10s. The chat is stopped but resumable with `wg chat resume 4`; inspect /w/service/daemon.log for the spawn error.".to_string()))
    );
}

fn plugin_status(from_cache: bool, current: bool, cache_digest: Option<&str>) -> PluginState {
    PluginState {
        from_cache,
        cache_current: current,
        cache_state: if current { "Current".into() } else { "Drift".into() },
        embed_digest: "b3:embed".into(),
        cache_digest: cache_digest.map(String::from),
        compat: "1".into(),
        dist_entry: "/p/dist/index.js".into(),
        cache_version_dir: "/p/cache/1".into(),
    }
}

/// A runtime as the reload sees it: the plugin status before and after
/// ensure-pi-plugin, and the handler before and after the respawn.
struct FakeReloadRuntime {
    statuses: Vec<PluginState>,
    before_handler: HandlerIdentity,
    after_handler: HandlerIdentity,
    respawn_calls: u32,
}

impl FakeReloadRuntime {
    fn new(before: PluginState, after: PluginState, live_after_respawn: bool) -> Self {
        let after_handler = if live_after_respawn {
            handler("daemon-lock", 200, "2026-01-01T00:00:01Z")
        } else {
            let mut h = handler("none", 0, "");
            h.pid = None;
            h.started_at = None;
            h.live = false;
            h
        };
        Self::with_handlers(before, after, handler("daemon-lock", 100, "2026-01-01T00:00:00Z"), after_handler)
    }

    fn with_handlers(before: PluginState, after: PluginState, b: HandlerIdentity, a: HandlerIdentity) -> Self {
        FakeReloadRuntime { statuses: vec![before, after.clone(), after], before_handler: b, after_handler: a, respawn_calls: 0 }
    }

    fn plugin_status(&mut self) -> PluginState {
        if self.statuses.len() > 1 {
            self.statuses.remove(0)
        } else {
            self.statuses[0].clone()
        }
    }

    fn handler_identity(&self) -> HandlerIdentity {
        if self.respawn_calls > 0 {
            self.after_handler.clone()
        } else {
            self.before_handler.clone()
        }
    }
}

/// One reload driven by the library's decisions against a simulated clock:
/// capture, gate, respawn, wait for a replaced handler, capture, delta.
fn reload_one(
    rt: &mut FakeReloadRuntime,
    cid: u32,
    session: Option<&str>,
    timeout_ms: u64,
    poll_ms: u64,
) -> Result<(ChatReloadIdentity, ChatReloadIdentity, ChatReloadDelta), String> {
    let before_status = rt.plugin_status();
    let before_handler = rt.handler_identity();
    let before = identity(cid, before_status.cache_digest.as_deref(), session, before_handler.clone());
    let after_ensure = rt.plugin_status();
    reload_preflight(cid, &after_ensure, session)?;
    rt.respawn_calls += 1;
    let mut now: u64 = 0;
    let mut wait = StableWait::begin(now, timeout_ms * MILLI);
    loop {
        let last = rt.handler_identity();
        let step = replace_wait_probe(&mut wait, &before_handler, &last, now, poll_ms * MILLI);
        match reload_after_probe(cid, step, &last, timeout_ms / 1000, "/w") {
            None => {
                if let ReplaceStep::Sleep { nanos } = step {
                    now += nanos;
                }
            }
            Some(Err(m)) => return Err(m),
            Some(Ok(())) => {
                let status = rt.plugin_status();
                let after = identity(cid, status.cache_digest.as_deref(), session, last);
                let delta = compute_reload_delta(&before, &after);
                return Ok((before, after, delta));
            }
        }
    }
}

#[test]
fn reload_succeeds_and_shows_plugin_digest_change() {
    let stale = plugin_status(true, false, Some("b3:old"));
    let fresh = plugin_status(true, true, Some("b3:embed"));
    let mut runtime = FakeReloadRuntime::new(stale, fresh, true);
    let (before, after, delta) =
        reload_one(&mut runtime, 5, Some("s.jsonl"), 200, 1).expect("reload should succeed with a live respawn");
    assert_eq!(delta.plugin_digest_changed, true);
    assert_eq!(delta.session_file_preserved, true);
    assert_eq!(delta.handler_replaced, true);
    assert_eq!(before.handler.pid, Some(100));
    assert_eq!(after.handler.pid, Some(200));
    assert_eq!(runtime.respawn_calls, 1);
}

#[test]
fn reload_refuses_when_handler_identity_unchanged() {
    let fresh = plugin_status(true, true, Some("b3:embed"));
    let same = handler("daemon-lock", 100, "2026-01-01T00:00:00Z");
    let mut runtime = FakeReloadRuntime::with_handlers(fresh.clone(), fresh, same.clone(), same);
    let msg = reload_one(&mut runtime, 5, Some("s.jsonl"), 100, 1).expect_err("unchanged handler identity must be refused");
    assert!(msg.contains("WG-CHAT-RELOAD-NOT-REPLACED"), "{msg}");
    assert!(msg.contains("handler identity is unchanged"), "{msg}");
    assert!(!msg.contains("Reloaded"), "no success line: {msg}");
    assert_eq!(runtime.respawn_calls, 1);
    assert!(runtime.handler_identity().live, "the (unchanged) handler is still live and resumable");
}

#[test]
fn reload_replaces_tui_driven_handler_with_daemon_lock() {
    let stale = plugin_status(true, false, Some("b3:old"));
    let fresh = plugin_status(true, true, Some("b3:embed"));
    let mut runtime = FakeReloadRuntime::with_handlers(
        stale,
        fresh,
        handler("tui-tmux-pane", 4242, "999"),
        handler("daemon-lock", 777, "2026-01-01T00:00:05Z"),
    );
    let (before, after, delta) =
        reload_one(&mut runtime, 5, Some("s.jsonl"), 200, 1).expect("TUI pane -> daemon lock is a replacement");
    assert!(delta.handler_replaced);
    assert_eq!(before.handler.source, "tui-tmux-pane");
    assert_eq!(before.handler.pid, Some(4242));
    assert_eq!(after.handler.source, "daemon-lock");
    assert_eq!(after.handler.pid, Some(777));
}

#[test]
fn reload_refuses_when_tui_pane_not_replaced() {
    let fresh = plugin_status(true, true, Some("b3:embed"));
    let pane = handler("tui-tmux-pane", 4242, "999");
    let mut runtime = FakeReloadRuntime::with_handlers(fresh.clone(), fresh, pane.clone(), pane);
    let err = reload_one(&mut runtime, 5, Some("s.jsonl"), 100, 1).expect_err("an unchanged TUI pane must be refused");
    assert!(err.contains("WG-CHAT-RELOAD-NOT-REPLACED"), "{err}");
}

#[test]
fn reload_refuses_stale_unrefreshable_plugin_without_stopping() {
    let stale = plugin_status(true, false, Some("b3:old"));
    let mut runtime = FakeReloadRuntime::new(stale.clone(), stale, true);
    let msg = reload_one(&mut runtime, 5, Some("s.jsonl"), 50, 1).unwrap_err();
    assert!(msg.contains("WG-CHAT-RELOAD-PLUGIN-STALE"), "{msg}");
    assert_eq!(runtime.respawn_calls, 0, "refusal must happen before respawn");
    assert!(runtime.handler_identity().live, "live handler must survive refusal");
}

#[test]
fn reload_refuses_when_respawn_never_becomes_live() {
    let fresh_a = plugin_status(true, true, Some("b3:embed"));
    let fresh_b = plugin_status(true, true, Some("b3:embed"));
    let mut runtime = FakeReloadRuntime::new(fresh_a, fresh_b, false);
    let msg = reload_one(&mut runtime, 5, Some("s.jsonl"), 30, 1).unwrap_err();
    assert!(msg.contains("WG-CHAT-RELOAD-NOT-LIVE"), "{msg}");
    assert_eq!(runtime.respawn_calls, 1);
    assert!(!runtime.handler_identity().live);
}

#[test]
fn plugin_cache_gate_skips_dev_and_env_override_sources() {
    let dev = plugin_status(false, false, None);
    assert!(reload_preflight(5, &dev, Some("s.jsonl")).is_ok());
    let env = plugin_status(false, false, None);
    assert!(reload_preflight(5, &env, Some("s.jsonl")).is_ok());
    let cache = plugin_status(true, false, Some("b3:old"));
    assert!(reload_preflight(5, &cache, Some("s.jsonl")).is_err());
}
