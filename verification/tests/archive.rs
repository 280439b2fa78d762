use wg_commands::archive::ArchiveSelectError;
use wg_commands::archive::{archive_path, automatic_state_path, check_state_version, last_batch_path, plan_archive_append};
use wg_commands::archive::{restored_message, search_lines, RestoreError};
use wg_commands::archive::{plan_undo, undo_report};
use wg_commands::archive::{
    age_spec_nanos, archive_gate, archived_boundary_for, automatic_status, confirm_automatic,
    parse_duration, plan_automatic, plan_restore, search_matches, select_tasks_to_archive,
    should_archive, AgeSpec, ArchiveGate, ArchiveTask, AutomaticArchiveOutcome,
    AutomaticArchiveState, ConfirmError, DurationError, DurationUnit, StateLoad, TaskStatus,
    MAX_AUTOMATIC_INCREMENTAL_BATCH,
};
use wg_commands::clock::{format_rfc3339, parse_rfc3339, NANOS_PER_DAY};

const HOUR: i128 = 3_600_000_000_000;
const MINUTE: i128 = 60_000_000_000;

fn fixed_now() -> i128 {
    parse_rfc3339("2026-08-01T07:00:00Z").unwrap()
}

fn at(instant: i128) -> String {
    format_rfc3339(instant).unwrap()
}

fn make_task(id: &str, title: &str, status: TaskStatus, completed_at: Option<&str>) -> ArchiveTask {
    ArchiveTask {
        id: id.to_string(),
        title: title.to_string(),
        description: None,
        tags: Vec::new(),
        status,
        graph_save_verified: status == TaskStatus::Done,
        completed_at: completed_at.map(String::from),
        created_at: None,
        after: Vec::new(),
        before: Vec::new(),
        digest: format!("sha256:{id}:{title}"),
    }
}

/// A workgraph directory held in memory: the active graph, the archive,
/// and the persisted automatic archival state.
struct Wg {
    graph: Vec<ArchiveTask>,
    archive: Vec<ArchiveTask>,
    state: Option<AutomaticArchiveState>,
}

impl Wg {
    fn new(graph: Vec<ArchiveTask>) -> Self {
        Wg { graph, archive: Vec::new(), state: None }
    }

    fn take(&mut self, positions: &[usize]) {
        let mut moved: Vec<ArchiveTask> = positions.iter().map(|&i| self.graph[i].clone()).collect();
        let mut keep = Vec::new();
        for (i, t) in self.graph.iter().enumerate() {
            if !positions.contains(&i) {
                keep.push(t.clone());
            }
        }
        self.graph = keep;
        self.archive.append(&mut moved);
    }

    fn get(&self, id: &str) -> Option<&ArchiveTask> {
        self.graph.iter().find(|t| t.id == id)
    }

    fn run_automatic_at(&mut self, retention: u64, build: &str, now: i128) -> AutomaticArchiveOutcome {
        let plan = plan_automatic(self.state.clone(), Some(&self.graph), retention, build, now)
            .expect("representable instant");
        let archive = plan.archive.clone();
        self.take(&archive);
        if let Some(state) = plan.write {
            self.state = Some(state);
        }
        plan.outcome
    }

    fn confirm_automatic_at(&mut self, retention: u64, build: &str, now: i128) -> Result<Vec<String>, ConfirmError> {
        let plan = confirm_automatic(
            retention,
            self.state.clone(),
            build,
            &self.graph,
            &self.archive,
            at(now),
        )?;
        let archive = plan.archive.clone();
        self.take(&archive);
        self.state = Some(plan.state);
        Ok(plan.batch_ids)
    }

    fn status(&self, retention: u64) -> wg_commands::archive::AutomaticArchiveStatus {
        let load = match &self.state {
            Some(s) => StateLoad::Loaded(s.clone()),
            None => StateLoad::Missing,
        };
        automatic_status(retention, load)
    }
}

#[test]
fn test_parse_duration_days() {
    let d = parse_duration("30d").unwrap();
    assert_eq!(d, AgeSpec { amount: 30, unit: DurationUnit::Days });
    assert_eq!(age_spec_nanos(d), Some(30 * NANOS_PER_DAY));
}

#[test]
fn test_parse_duration_weeks() {
    let d = parse_duration("2w").unwrap();
    assert_eq!(d, AgeSpec { amount: 2, unit: DurationUnit::Weeks });
    assert_eq!(age_spec_nanos(d), Some(14 * NANOS_PER_DAY));
}

#[test]
fn test_parse_duration_hours() {
    let d = parse_duration("24h").unwrap();
    assert_eq!(d, AgeSpec { amount: 24, unit: DurationUnit::Hours });
    assert_eq!(age_spec_nanos(d), Some(24 * HOUR));
}

#[test]
fn test_parse_duration_no_unit() {
    let d = parse_duration("7").unwrap();
    assert_eq!(d, AgeSpec { amount: 7, unit: DurationUnit::Days });
}

#[test]
fn parse_duration_refuses_empty_and_bad_numbers() {
    assert!(matches!(parse_duration("   "), Err(DurationError::Empty)));
    match parse_duration("3x") {
        Err(DurationError::InvalidNumber(n)) => assert_eq!(n, "3x"),
        other => panic!("unexpected {other:?}"),
    }
    match parse_duration("abcd") {
        Err(DurationError::InvalidNumber(n)) => assert_eq!(n, "abc"),
        other => panic!("unexpected {other:?}"),
    }
    assert_eq!(parse_duration(" -2d ").unwrap(), AgeSpec { amount: -2, unit: DurationUnit::Days });
}

#[test]
fn test_should_archive_done_task() {
    let task = make_task("t1", "Test", TaskStatus::Done, None);
    assert!(should_archive(&task, None, fixed_now()));
}

#[test]
fn raw_done_without_graph_save_is_not_archivable() {
    let mut task = make_task("legacy", "Legacy raw done", TaskStatus::Done, None);
    task.graph_save_verified = false;
    assert!(!should_archive(&task, None, fixed_now()));
}

#[test]
fn test_should_not_archive_open_task() {
    let task = make_task("t1", "Test", TaskStatus::Open, None);
    assert!(!should_archive(&task, None, fixed_now()));
}

#[test]
fn test_should_archive_old_task() {
    let now = fixed_now();
    let completed_at = at(now - 40 * NANOS_PER_DAY);
    let task = make_task("t1", "Test", TaskStatus::Done, Some(&completed_at));
    let min_age = age_spec_nanos(parse_duration("30d").unwrap()).unwrap();
    assert!(should_archive(&task, Some(min_age), now));
}

#[test]
fn test_should_not_archive_recent_task() {
    let now = fixed_now();
    let completed_at = at(now - 10 * NANOS_PER_DAY);
    let task = make_task("t1", "Test", TaskStatus::Done, Some(&completed_at));
    let min_age = 30 * NANOS_PER_DAY;
    assert!(!should_archive(&task, Some(min_age), now));
}

#[test]
fn test_should_archive_abandoned_task() {
    let task = make_task("t1", "Test", TaskStatus::Abandoned, None);
    assert!(should_archive(&task, None, fixed_now()));
}

#[test]
fn test_should_archive_abandoned_with_older() {
    let now = fixed_now();
    let mut task = make_task("t1", "Test", TaskStatus::Abandoned, None);
    task.created_at = Some(at(now - 40 * NANOS_PER_DAY));
    assert!(should_archive(&task, Some(30 * NANOS_PER_DAY), now));
}

#[test]
fn test_should_not_archive_recent_abandoned() {
    let now = fixed_now();
    let mut task = make_task("t1", "Test", TaskStatus::Abandoned, None);
    task.created_at = Some(at(now - 5 * NANOS_PER_DAY));
    assert!(!should_archive(&task, Some(30 * NANOS_PER_DAY), now));
}

#[test]
fn should_archive_with_age_needs_a_parseable_timestamp() {
    let mut task = make_task("t1", "Test", TaskStatus::Done, Some("not a time"));
    assert!(!should_archive(&task, Some(0), fixed_now()));
    task.completed_at = None;
    assert!(!should_archive(&task, Some(0), fixed_now()));
    assert!(should_archive(&task, None, fixed_now()));
}

#[test]
fn archived_boundary_records_active_successor_without_rewriting_edge() {
    let mut archived = make_task("t1", "Done Task", TaskStatus::Done, Some("2024-01-01T00:00:00Z"));
    archived.before = vec!["t2".to_string()];
    let mut active = make_task("t2", "Open Task", TaskStatus::Open, None);
    active.after = vec!["t1".to_string()];
    let graph = vec![archived, active];

    let boundary = archived_boundary_for(&graph, 0, "2026-01-01T00:00:00+00:00".to_string());
    assert_eq!(boundary.successors, vec!["t2"]);
    assert_eq!(boundary.id, "t1");
    assert_eq!(boundary.status, TaskStatus::Done);
    assert_eq!(graph[1].after, vec!["t1"]);
}

#[test]
fn automatic_first_legacy_restart_holds_month_old_backlog() {
    let now = fixed_now();
    let mut wg = Wg::new(vec![make_task(
        "historical",
        "Month-old result",
        TaskStatus::Done,
        Some(&at(now - 38 * NANOS_PER_DAY)),
    )]);

    let outcome = wg.run_automatic_at(7, "candidate-build", now);
    assert!(matches!(outcome, AutomaticArchiveOutcome::Held { count: 1, .. }));
    assert!(wg.get("historical").is_some());
    assert!(wg.archive.is_empty());

    let status = wg.status(7);
    assert!(status.pending);
    assert_eq!(status.pending_count, 1);
    assert_eq!(status.task_ids, vec!["historical"]);
    assert_eq!(status.confirm_command.as_deref(), Some("wg archive auto --confirm"));
}

#[test]
fn automatic_confirmation_archives_exact_batch_once_and_undo_is_lossless() {
    let now = fixed_now();
    let mut historical = make_task(
        "historical",
        "Exact historical result",
        TaskStatus::Done,
        Some(&at(now - 38 * NANOS_PER_DAY)),
    );
    historical.created_at = Some(at(now - 40 * NANOS_PER_DAY));
    historical.after = vec!["foundation".to_string()];
    historical.before = vec!["active".to_string()];
    let mut active = make_task("active", "Still active", TaskStatus::Open, None);
    active.after = vec!["historical".to_string()];
    let original = historical.clone();
    let mut wg = Wg::new(vec![historical, active]);

    wg.run_automatic_at(7, "candidate-build", now);
    let ids = wg.confirm_automatic_at(7, "candidate-build", now).unwrap();
    assert_eq!(ids, vec!["historical"]);
    assert!(wg.get("historical").is_none());
    assert_eq!(wg.get("active").unwrap().after, vec!["historical"]);
    assert_eq!(wg.archive.len(), 1);

    // A second confirmation cannot reapply or duplicate the receipt.
    assert!(wg.confirm_automatic_at(7, "candidate-build", now).is_err());
    assert_eq!(wg.archive.len(), 1);

    // Undo: the archived record is restored as it was.
    let pos = plan_restore(&wg.archive, &wg.graph, "historical").unwrap();
    let restored = wg.archive.remove(pos);
    assert_eq!(restored.digest, original.digest);
    assert_eq!(restored.after, original.after);
    assert_eq!(restored.before, original.before);
    wg.graph.push(restored);
    assert!(wg.archive.is_empty());
}

#[test]
fn automatic_zero_retention_is_non_destructive() {
    let mut wg = Wg::new(vec![make_task(
        "historical",
        "Done Task",
        TaskStatus::Done,
        Some("2020-01-01T00:00:00Z"),
    )]);
    assert!(matches!(
        wg.run_automatic_at(0, "candidate-build", fixed_now()),
        AutomaticArchiveOutcome::Disabled
    ));
    assert!(wg.get("historical").is_some());
    assert!(!wg.status(0).enabled);
}

#[test]
fn disabling_retention_clears_held_batch_without_archiving_or_rewriting_graph() {
    let now = fixed_now();
    let mut abandoned = make_task("abandoned-evidence", "Historical incident evidence", TaskStatus::Abandoned, None);
    abandoned.created_at = Some(at(now - 40 * NANOS_PER_DAY));
    let mut wg = Wg::new(vec![
        make_task("done-evidence", "Historical completion evidence", TaskStatus::Done, Some(&at(now - 40 * NANOS_PER_DAY))),
        abandoned,
        make_task("visible-open", "Visible active task", TaskStatus::Open, None),
    ]);
    let held = wg.run_automatic_at(7, "old-build", now);
    assert!(matches!(held, AutomaticArchiveOutcome::Held { count: 2, .. }));
    assert_eq!(wg.state.as_ref().unwrap().pending.as_ref().unwrap().tasks.len(), 2);

    for (build, when) in [("old-build", now + MINUTE), ("candidate-build", now + 2 * MINUTE)] {
        assert!(matches!(wg.run_automatic_at(0, build, when), AutomaticArchiveOutcome::Disabled));
    }
    let state = wg.state.as_ref().unwrap();
    assert_eq!(state.retention_days, 0);
    assert!(state.pending.is_none());
    assert!(wg.archive.is_empty());
    assert_eq!(wg.graph.len(), 3);
}

#[test]
fn acknowledged_restart_archives_only_newly_eligible_increment() {
    let now = fixed_now();
    let mut wg = Wg::new(vec![make_task(
        "backlog",
        "Initial backlog",
        TaskStatus::Done,
        Some(&at(now - 30 * NANOS_PER_DAY)),
    )]);
    wg.run_automatic_at(7, "candidate-build", now);
    wg.confirm_automatic_at(7, "candidate-build", now).unwrap();

    wg.graph.push(make_task("increment", "Newly eligible", TaskStatus::Done, Some(&at(now - 156 * HOUR))));
    wg.graph.push(make_task(
        "pre-watermark-import",
        "Old import",
        TaskStatus::Done,
        Some(&at(now - 60 * NANOS_PER_DAY)),
    ));

    assert!(matches!(
        wg.run_automatic_at(7, "candidate-build", now + NANOS_PER_DAY),
        AutomaticArchiveOutcome::Archived { count: 1 }
    ));
    assert!(wg.get("increment").is_none());
    assert!(wg.get("pre-watermark-import").is_some());
    assert_eq!(wg.archive.len(), 2);

    assert!(matches!(
        wg.run_automatic_at(7, "candidate-build", now + NANOS_PER_DAY + HOUR),
        AutomaticArchiveOutcome::Advanced
    ));
    assert_eq!(wg.archive.len(), 2);
}

#[test]
fn pending_plan_is_rebased_to_candidate_build_after_upgrade() {
    let now = fixed_now();
    let mut wg = Wg::new(vec![make_task(
        "historical",
        "Historical",
        TaskStatus::Done,
        Some(&at(now - 30 * NANOS_PER_DAY)),
    )]);
    wg.run_automatic_at(7, "build-a", now);
    let outcome = wg.run_automatic_at(7, "build-b", now + MINUTE);
    assert!(matches!(
        outcome,
        AutomaticArchiveOutcome::Held { count: 1, ref reason } if reason.contains("build changed")
    ));
    assert_eq!(wg.state.as_ref().unwrap().pending.as_ref().unwrap().build_id, "build-b");
    assert_eq!(wg.confirm_automatic_at(7, "build-b", now + MINUTE).unwrap(), vec!["historical"]);
}

#[test]
fn acknowledged_build_change_holds_even_small_increment() {
    let now = fixed_now();
    let mut wg = Wg::new(Vec::new());
    wg.run_automatic_at(7, "build-a", now);
    wg.confirm_automatic_at(7, "build-a", now).unwrap();
    let outcome = wg.run_automatic_at(7, "build-b", now + HOUR);
    assert!(matches!(
        outcome,
        AutomaticArchiveOutcome::Held { count: 0, ref reason } if reason.contains("build changed")
    ));
}

#[test]
fn acknowledged_long_downtime_holds_even_empty_batch() {
    let now = fixed_now();
    let mut wg = Wg::new(Vec::new());
    wg.run_automatic_at(7, "candidate-build", now);
    wg.confirm_automatic_at(7, "candidate-build", now).unwrap();
    let outcome = wg.run_automatic_at(7, "candidate-build", now + 3 * NANOS_PER_DAY);
    assert!(matches!(
        outcome,
        AutomaticArchiveOutcome::Held { count: 0, ref reason } if reason.contains("overdue")
    ));
}

#[test]
fn acknowledged_oversized_increment_holds_exact_ids() {
    let now = fixed_now();
    let mut wg = Wg::new(Vec::new());
    wg.run_automatic_at(7, "candidate-build", now);
    wg.confirm_automatic_at(7, "candidate-build", now).unwrap();

    for index in 0..=MAX_AUTOMATIC_INCREMENTAL_BATCH {
        wg.graph.push(make_task(
            &format!("increment-{index:02}"),
            "Increment",
            TaskStatus::Done,
            Some(&at(now - 7 * NANOS_PER_DAY + 30 * MINUTE)),
        ));
    }
    let outcome = wg.run_automatic_at(7, "candidate-build", now + HOUR);
    assert!(matches!(
        outcome,
        AutomaticArchiveOutcome::Held { count, ref reason }
            if count == MAX_AUTOMATIC_INCREMENTAL_BATCH + 1 && reason.contains("unattended limit")
    ));
    let status = wg.status(7);
    assert_eq!(status.pending_count, MAX_AUTOMATIC_INCREMENTAL_BATCH + 1);
    assert_eq!(status.task_ids.first().unwrap(), "increment-00");
    assert_eq!(status.task_ids.last().unwrap(), "increment-10");
    assert!(wg.archive.is_empty());
}

#[test]
fn acknowledged_retention_change_requires_new_confirmation() {
    let now = fixed_now();
    let mut wg = Wg::new(Vec::new());
    wg.run_automatic_at(7, "candidate-build", now);
    wg.confirm_automatic_at(7, "candidate-build", now).unwrap();
    let outcome = wg.run_automatic_at(8, "candidate-build", now + HOUR);
    assert!(matches!(
        outcome,
        AutomaticArchiveOutcome::Held { count: 0, ref reason } if reason.contains("retention changed")
    ));
}

#[test]
fn automatic_skips_system_tasks_and_preserves_active_boundary() {
    let now = fixed_now();
    let mut done = make_task("done", "Done With Deps", TaskStatus::Done, Some(&at(now - 40 * NANOS_PER_DAY)));
    done.before = vec!["active".to_string()];
    let mut active = make_task("active", "In Progress", TaskStatus::InProgress, None);
    active.after = vec!["done".to_string()];
    let mut wg = Wg::new(vec![
        make_task(".compact-0", "System Task", TaskStatus::Done, Some(&at(now - 40 * NANOS_PER_DAY))),
        done,
        active,
    ]);
    wg.run_automatic_at(7, "candidate-build", now);
    wg.confirm_automatic_at(7, "candidate-build", now).unwrap();
    assert!(wg.get(".compact-0").is_some());
    assert!(wg.get("done").is_none());
    assert!(wg.archive.iter().any(|t| t.id == "done"));
    assert_eq!(wg.get("active").unwrap().after, vec!["done"]);
}

#[test]
fn confirm_refuses_a_changed_task_and_other_builds() {
    let now = fixed_now();
    let mut wg = Wg::new(vec![make_task("h", "H", TaskStatus::Done, Some(&at(now - 30 * NANOS_PER_DAY)))]);
    wg.run_automatic_at(7, "b", now);
    assert!(matches!(
        wg.confirm_automatic_at(7, "other", now),
        Err(ConfirmError::BuildMismatch { .. })
    ));
    assert!(matches!(
        wg.confirm_automatic_at(8, "b", now),
        Err(ConfirmError::RetentionMismatch { pending: 7, current: 8 })
    ));
    wg.graph[0].digest = "sha256:edited".to_string();
    match wg.confirm_automatic_at(7, "b", now) {
        Err(ConfirmError::Changed { id, .. }) => assert_eq!(id, "h"),
        other => panic!("unexpected {other:?}"),
    }
    assert!(matches!(
        confirm_automatic(0, wg.state.clone(), "b", &wg.graph, &wg.archive, at(now)),
        Err(ConfirmError::Disabled)
    ));
    assert!(matches!(
        confirm_automatic(7, None, "b", &wg.graph, &wg.archive, at(now)),
        Err(ConfirmError::NoPlan)
    ));
    let _ = AutomaticArchiveState::fresh(7);
}

#[test]
fn manual_selection_gate_and_search() {
    let now = fixed_now();
    let mut tagged = make_task("b", "Beta Release", TaskStatus::Abandoned, None);
    tagged.tags = vec!["Release".to_string()];
    let graph = vec![
        make_task("a", "Alpha", TaskStatus::Done, None),
        make_task("o", "Open", TaskStatus::Open, None),
        tagged,
    ];
    assert_eq!(select_tasks_to_archive(&graph, &Vec::new(), None, now).unwrap(), vec![0, 2]);
    assert_eq!(select_tasks_to_archive(&graph, &vec!["b".to_string()], None, now).unwrap(), vec![2]);
    assert!(select_tasks_to_archive(&graph, &vec!["o".to_string()], None, now).is_err());
    assert!(select_tasks_to_archive(&graph, &vec!["zz".to_string()], None, now).is_err());
    assert_eq!(archive_gate(0, false, false, false), ArchiveGate::NothingToArchive);
    assert_eq!(archive_gate(2, true, false, false), ArchiveGate::DryRun);
    assert_eq!(archive_gate(2, false, false, false), ArchiveGate::NeedsConfirmation);
    assert_eq!(archive_gate(2, false, false, true), ArchiveGate::Proceed);
    assert_eq!(search_matches(&graph, "release", 10), vec![2]);
    assert_eq!(search_matches(&graph, "A", 1), vec![0]);
}

#[test]
fn test_archive_undo() {
    let archived = vec![
        make_task("a", "A", TaskStatus::Done, None),
        make_task("b", "B", TaskStatus::Done, None),
        make_task("c", "C", TaskStatus::Done, None),
    ];
    let active = vec![make_task("c", "C again", TaskStatus::Open, None)];
    let batch: Vec<String> = ["a", "x", "c", "b", "a"].iter().map(|s| s.to_string()).collect();
    let plan = plan_undo(true, &batch, &archived, &active).unwrap();
    assert_eq!(plan.restore, vec![0, 1]);
    assert_eq!(plan.skipped, vec!["x", "c", "a"]);
    assert_eq!(plan.remove_from_archive, vec!["b"]);
    assert_eq!(
        undo_report(plan.restore.len(), &plan.skipped),
        vec![
            "Restored 2 tasks from last archive batch.",
            "Skipped 3 tasks (not found in archive or already in graph): x, c, a",
        ]
    );
}

#[test]
fn test_archive_undo_no_batch() {
    assert_eq!(
        plan_undo(true, &vec![], &vec![], &vec![]).unwrap_err(),
        "No tasks in the last archive batch to restore."
    );
    assert_eq!(
        plan_undo(false, &vec!["a".to_string()], &vec![], &vec![]).unwrap_err(),
        "WG not initialized. Run 'wg init' first."
    );
    assert_eq!(undo_report(1, &vec![]), vec!["Restored 1 tasks from last archive batch."]);
}

#[test]
fn test_search_by_tags() {
    let mut a = make_task("t1", "Build parser", TaskStatus::Done, Some("2026-01-02T00:00:00Z"));
    a.tags = vec!["Rust".into(), "cli".into()];
    let mut b = make_task("t2", "Write docs", TaskStatus::Done, None);
    b.description = Some("Explains the RUST parser".into());
    let c = make_task("t3", "Unrelated", TaskStatus::Done, None);
    let tasks = vec![a, b, c];
    let hits = search_matches(&tasks, "rust", 10);
    assert_eq!(hits, vec![0, 1]);
    assert_eq!(
        search_lines("rust", &tasks, &hits),
        vec![
            "Archived tasks matching 'rust' (2 results):",
            "  t1 - Build parser (completed: 2026-01-02T00:00:00Z) [Rust, cli]",
            "  t2 - Write docs (completed: unknown)",
        ]
    );
    assert_eq!(search_lines("rust", &tasks, &vec![0])[0], "Archived tasks matching 'rust' (1 result):");
}

#[test]
fn test_search_no_matches() {
    let tasks = vec![make_task("t1", "Build", TaskStatus::Done, None)];
    let hits = search_matches(&tasks, "zzz", 10);
    assert!(hits.is_empty());
    assert_eq!(search_lines("zzz", &tasks, &hits), vec!["No archived tasks matching 'zzz'."]);
}

#[test]
fn test_restore_nonexistent_task() {
    let err = plan_restore(&vec![], &vec![], "ghost").unwrap_err();
    assert_eq!(err.message(), "Task 'ghost' not found in archive");
    let archived = vec![make_task("t1", "T", TaskStatus::Done, None)];
    let err = plan_restore(&archived, &archived, "t1").unwrap_err();
    assert!(matches!(err, RestoreError::AlreadyActive { .. }));
    assert_eq!(err.message(), "Task 't1' already exists in the active graph");
    assert_eq!(
        restored_message("t1", "T", false),
        "Restored task 't1' (T) to active graph with status 'done'"
    );
    assert_eq!(
        restored_message("t1", "T", true),
        "Restored task 't1' (T) to active graph with status 'open'"
    );
}

#[test]
fn test_archive_file_paths() {
    assert_eq!(archive_path("/tmp/wg"), "/tmp/wg/archive.jsonl");
    assert_eq!(archive_path("/tmp/wg/"), "/tmp/wg/archive.jsonl");
    assert_eq!(last_batch_path("wg"), "wg/archive-last-batch.json");
    assert_eq!(automatic_state_path(""), "archive-auto-state.json");
}

#[test]
fn test_state_version_is_checked() {
    let mut state = AutomaticArchiveState::fresh(30);
    assert!(check_state_version(&state).is_ok());
    state.version = 7;
    assert_eq!(check_state_version(&state), Err(7));
}

#[test]
fn test_archive_append_skips_identical_and_refuses_changed_history() {
    let existing = vec![make_task("a", "A", TaskStatus::Done, None)];
    let tasks = vec![
        make_task("a", "A", TaskStatus::Done, None),
        make_task("b", "B", TaskStatus::Done, None),
        make_task("c", "C", TaskStatus::Done, None),
    ];
    assert_eq!(plan_archive_append(&existing, &tasks), Ok(vec![1, 2]));

    let existing = vec![
        make_task("a", "A", TaskStatus::Done, None),
        make_task("c", "old", TaskStatus::Done, None),
        make_task("b", "old", TaskStatus::Done, None),
    ];
    assert_eq!(plan_archive_append(&existing, &tasks), Err("b".to_string()));
}

#[test]
fn test_archive_specific_ids_rejects_non_done() {
    let graph = vec![make_task("t1", "Open Task", TaskStatus::Open, None)];
    let now = fixed_now();
    let err = select_tasks_to_archive(&graph, &vec!["t1".to_string()], None, now).unwrap_err();
    let msg = err.message();
    assert!(msg.contains("lacks a verified v2 GraphSave"), "{msg}");
    assert_eq!(
        msg,
        "Task 't1' is not archivable: status 'open' lacks a verified v2 GraphSave (or explicit abandonment); reconcile retained evidence first."
    );
    let err = select_tasks_to_archive(&graph, &vec!["nope".to_string()], None, now).unwrap_err();
    assert!(matches!(err, ArchiveSelectError::NotFound { .. }));
    assert_eq!(err.message(), "Task 'nope' not found in the graph.");
}

#[test]
fn archive_append_retry_writes_nothing_more() {
    let existing = vec![make_task("a", "A", TaskStatus::Done, None)];
    let tasks = vec![
        make_task("b", "B", TaskStatus::Done, None),
        make_task("a", "A", TaskStatus::Done, None),
        make_task("c", "C", TaskStatus::Done, None),
    ];
    let sel = plan_archive_append(&existing, &tasks).unwrap();
    assert_eq!(sel, vec![0, 2]);
    let mut grown = existing.clone();
    for &i in &sel {
        grown.push(tasks[i].clone());
    }
    assert_eq!(plan_archive_append(&grown, &tasks), Ok(vec![]));
}

#[test]
fn duration_errors_carry_their_text() {
    assert_eq!(parse_duration("").unwrap_err().message(), "Empty duration string");
    assert_eq!(parse_duration("abc").unwrap_err().message(), "Invalid number in duration: 'abc'");
    assert_eq!(parse_duration("3xd").unwrap_err().message(), "Invalid number in duration: '3x'");
}
