use wg_commands::adaptive::{assignment_source, next_attempt, AssignmentSource};
use wg_commands::adaptive::{backlog_lines, learning_show_lines, projects_on_miss, select_episode, EpisodeKey, LearningShow, RewardShow};
use wg_commands::adaptive::{find_review, review_show_lines, ReviewFindingText, ReviewNames, ReviewShow, ReviewUsage};
use wg_commands::adaptive::{
    ascii_lowercase, classify_outcome, parse_candidate_filter, parse_kind_filter,
    InfrastructureOutcome, ReviewFailureClass, ReviewOutcome, ReviewVerdict, ReviewerKind,
    SemanticOutcome,
};

#[test]
fn verdicts_map_to_outcomes() {
    let none: Vec<String> = vec![];
    assert_eq!(
        classify_outcome(ReviewVerdict::Pass, None, &none),
        ReviewOutcome::Semantic(SemanticOutcome::Pass)
    );
    assert_eq!(
        classify_outcome(ReviewVerdict::Reject, None, &none),
        ReviewOutcome::Semantic(SemanticOutcome::Reject)
    );
    assert_eq!(
        classify_outcome(ReviewVerdict::Absent, None, &none),
        ReviewOutcome::Semantic(SemanticOutcome::Inconclusive)
    );
    assert_eq!(
        classify_outcome(ReviewVerdict::IncompleteEvidence, None, &none),
        ReviewOutcome::Infrastructure(InfrastructureOutcome::EvidenceUnavailable)
    );
}

#[test]
fn unavailable_is_classified_by_codes_then_failure() {
    let codes = vec!["ADAPTER_TIMEOUT".to_string(), "malformed".to_string()];
    assert_eq!(
        classify_outcome(ReviewVerdict::Unavailable, None, &codes),
        ReviewOutcome::Infrastructure(InfrastructureOutcome::Timeout)
    );
    assert_eq!(
        classify_outcome(ReviewVerdict::Unavailable, None, &vec!["Invalid-JSON".to_string()]),
        ReviewOutcome::Infrastructure(InfrastructureOutcome::MalformedOutput)
    );
    assert_eq!(
        classify_outcome(
            ReviewVerdict::Unavailable,
            Some(ReviewFailureClass::IncompleteEvidence),
            &vec![]
        ),
        ReviewOutcome::Infrastructure(InfrastructureOutcome::EvidenceUnavailable)
    );
    assert_eq!(
        classify_outcome(ReviewVerdict::Unavailable, Some(ReviewFailureClass::Other), &vec![]),
        ReviewOutcome::Infrastructure(InfrastructureOutcome::AdapterUnavailable)
    );
}

#[test]
fn listing_filters() {
    assert_eq!(parse_candidate_filter("current"), Ok(true));
    assert_eq!(parse_candidate_filter("all"), Ok(false));
    assert_eq!(
        parse_candidate_filter("some").unwrap_err(),
        "--candidate must be current or all, got 'some'"
    );
    assert_eq!(parse_kind_filter(None), Ok(None));
    assert_eq!(parse_kind_filter(Some("flip")), Ok(Some(ReviewerKind::Flip)));
    assert_eq!(parse_kind_filter(Some("evaluate")), Ok(Some(ReviewerKind::Eval)));
    assert_eq!(parse_kind_filter(Some("x")).unwrap_err(), "--kind must be flip or eval, got 'x'");
    assert_eq!(ascii_lowercase("AbC-É"), "abc-É");
}

use wg_commands::adaptive::{
    default_route, is_new_review, route_generation, terminal_episode, AssignmentProvenance,
    LifecycleEvent, RouteAttempt, SourceQuality, TerminalDisposition, TerminalProvenance,
};
use wg_commands::archive::TaskStatus;
use wg_commands::hashing::b3_digest;

fn attempt(same: bool, kind: ReviewerKind, route: &str, reasoning: Option<&str>, g: u64) -> RouteAttempt {
    RouteAttempt {
        same_binding: same,
        kind,
        exact_route: route.to_string(),
        reasoning: reasoning.map(String::from),
        route_generation: g,
    }
}

#[test]
fn route_generations_reuse_a_route_or_advance() {
    let attempts = vec![
        attempt(true, ReviewerKind::Flip, "openrouter:a", Some("high"), 2),
        attempt(true, ReviewerKind::Flip, "openrouter:b", None, 5),
        attempt(false, ReviewerKind::Flip, "openrouter:c", None, 9),
        attempt(true, ReviewerKind::Eval, "openrouter:c", None, 7),
    ];
    assert_eq!(route_generation(&attempts, ReviewerKind::Flip, "openrouter:a", Some("high")), 2);
    assert_eq!(route_generation(&attempts, ReviewerKind::Flip, "openrouter:a", None), 6);
    assert_eq!(route_generation(&attempts, ReviewerKind::Eval, "openrouter:z", None), 8);
    assert_eq!(route_generation(&vec![], ReviewerKind::Eval, "x", None), 0);
    let top = vec![attempt(true, ReviewerKind::Eval, "r", None, u64::MAX)];
    assert_eq!(route_generation(&top, ReviewerKind::Eval, "other", None), u64::MAX);
    assert_eq!(default_route(ReviewerKind::Flip), "unknown:unknown:flip");
    assert_eq!(default_route(ReviewerKind::Eval), "unknown:unknown:eval");
}

#[test]
fn reviews_are_recorded_once_for_the_current_candidate() {
    let recorded = vec!["act-1".to_string()];
    assert!(is_new_review(true, "m1", "m1", "act-2", &recorded));
    assert!(!is_new_review(true, "m1", "m1", "act-1", &recorded));
    assert!(!is_new_review(true, "m1", "m2", "act-2", &recorded));
    assert!(!is_new_review(false, "m1", "m1", "act-2", &recorded));
}

fn event(id: &str, generation: u64, state: TaskStatus, attempt: Option<&str>, reason: &str) -> LifecycleEvent {
    LifecycleEvent {
        event_id: id.to_string(),
        generation,
        new_state: state,
        attempt_id: attempt.map(String::from),
        fence: 40 + generation,
        reason_code: reason.to_string(),
    }
}

#[test]
fn terminal_episodes_follow_the_last_terminal_event() {
    let audit = vec![
        event("e1", 1, TaskStatus::Done, Some("a1"), "completed"),
        event("e2", 2, TaskStatus::InProgress, Some("a2"), "claimed"),
        event("e3", 2, TaskStatus::Done, None, "completed"),
        event("e4", 3, TaskStatus::Failed, None, "x"),
    ];
    assert!(terminal_episode("t1", TaskStatus::Open, 2, &audit, None, None, None, None).unwrap().is_none());
    let e = terminal_episode("t1", TaskStatus::Done, 2, &audit, Some("a2"), None, Some("rcpt"), None)
        .unwrap()
        .unwrap();
    assert_eq!(e.disposition, TerminalDisposition::Done);
    assert_eq!(e.terminal_event, 2);
    assert_eq!(e.source_attempt_id.as_deref(), Some("a2"));
    assert_eq!(e.source_fence, Some(42));
    assert!(matches!(&e.assignment, AssignmentProvenance::UnknownLegacy(d) if *d == b3_digest(b"t1")));
    assert!(matches!(&e.provenance, TerminalProvenance::CompletionReceipt(r) if r == "rcpt"));
    assert!(matches!(e.eligibility, SourceQuality::Eligible));

    let e = terminal_episode("t1", TaskStatus::Failed, 3, &audit, None, Some("bound"), None, None)
        .unwrap()
        .unwrap();
    assert!(e.source_attempt_id.is_none() && e.source_fence.is_none());
    assert!(matches!(&e.assignment, AssignmentProvenance::BoundReceipt(r) if r == "bound"));
    assert!(matches!(&e.provenance, TerminalProvenance::FailureEvent(r) if r == "e4"));
    assert!(matches!(&e.eligibility, SourceQuality::Ineligible(w) if w == "terminal disposition Failed is not source-proven"));

    let accepted = vec![event("e9", 1, TaskStatus::Done, None, "operator_acceptance")];
    let e = terminal_episode("t1", TaskStatus::Done, 1, &accepted, None, None, None, None)
        .unwrap()
        .unwrap();
    assert!(matches!(e.assignment, AssignmentProvenance::NoAttempt));
    assert!(matches!(&e.provenance, TerminalProvenance::OperatorAcceptance(r) if r == "e9"));
    assert!(matches!(&e.eligibility, SourceQuality::Ineligible(w) if w == "operator-accepted completion is not ordinary publication truth"));

    assert_eq!(
        terminal_episode("t1", TaskStatus::Abandoned, 4, &audit, None, None, None, None).unwrap_err(),
        "terminal task has no terminal lifecycle event"
    );
}

fn show() -> ReviewShow {
    ReviewShow {
        alias: "rv-3".into(),
        attempt_id: "att-9".into(),
        ordinal: 2,
        run_id: "run-1".into(),
        source_task_id: "t1".into(),
        source_generation: 4,
        source_attempt_id: "a-4".into(),
        source_fence: 17,
        candidate_sequence: 3,
        exact_route: "openrouter:x".into(),
        reasoning: None,
        adapter: "completion-review".into(),
        adapter_version: "0.9.0".into(),
        route_generation: 1,
        outcome: "Semantic(Pass)".into(),
        current_candidate: true,
        consumed: false,
        usage: None,
        findings_digest: None,
        findings: vec![],
        receipt_digest: None,
    }
}

#[test]
fn review_show_lists_the_attempt() {
    let lines = review_show_lines(&show());
    assert_eq!(
        lines,
        vec![
            "VIRTUAL REVIEW — not a graph task; no status, edge, worker slot, or lifecycle authority",
            "Alias: rv-3",
            "Attempt: att-9 ordinal=2",
            "Run: run-1",
            "Source: t1 generation=4 attempt=a-4 fence=17 candidate=3",
            "Route: openrouter:x reasoning=unset adapter=completion-review@0.9.0 generation=1",
            "Outcome: Semantic(Pass)",
            "Candidate: current",
            "Consumed: false",
            "Provider usage: unavailable; cost=unknown",
            "Findings digest: none",
            "Findings: none or unavailable",
            "Receipt: pending",
        ]
    );
}

#[test]
fn review_show_bounds_the_findings() {
    let mut s = show();
    s.usage = Some(ReviewUsage { input_tokens: 1, output_tokens: 2, cache_read_tokens: 3, cache_write_tokens: 4, cost: Some("0.000100".into()) });
    s.findings = (0..40)
        .map(|i| ReviewFindingText { code: format!("C{i}"), message: "x".repeat(500) })
        .collect();
    let lines = review_show_lines(&s);
    assert_eq!(lines[9], "Provider usage: in=1 out=2 cache-read=3 cache-write=4 cost=$0.000100");
    assert_eq!(lines[11], "Findings (bounded immutable projection):");
    assert_eq!(lines.len(), 11 + 1 + 32 + 1);
    assert_eq!(lines[12], format!("  - C0: {}", "x".repeat(400)));
    assert_eq!(lines[43], format!("  - C31: {}", "x".repeat(400)));
}

#[test]
fn reviews_are_found_by_any_name() {
    let names = vec![
        ReviewNames { alias: "rv-1".into(), attempt_id: "att-1".into(), run_id: "run-1".into() },
        ReviewNames { alias: "rv-2".into(), attempt_id: "att-2".into(), run_id: "run-1".into() },
    ];
    assert_eq!(find_review(&names, "att-2"), Some(1));
    assert_eq!(find_review(&names, "run-1"), Some(0));
    assert_eq!(find_review(&names, "nope"), None);
}

fn ep(id: &str, task: &str, g: u64) -> EpisodeKey {
    EpisodeKey { episode_id: id.into(), task_id: task.into(), generation: g }
}

#[test]
fn episodes_are_found_by_id_or_task_latest_generation() {
    let es = vec![ep("b3:1", "t1", 1), ep("b3:2", "t1", 3), ep("b3:3", "t2", 9), ep("b3:4", "t1", 3)];
    assert_eq!(select_episode(&es, "t1"), Some(3));
    assert_eq!(select_episode(&es, "b3:2"), Some(1));
    assert_eq!(select_episode(&es, "t9"), None);
    assert!(projects_on_miss("t9"));
    assert!(!projects_on_miss("b3:abc"));
}

#[test]
fn learning_show_and_backlog_lines() {
    let mut l = LearningShow {
        episode_id: "b3:ep".into(),
        task_id: "t1".into(),
        generation: 2,
        disposition: "Done".into(),
        candidates: 1,
        passes: 1,
        rejects: 0,
        infrastructure_attempts: 0,
        source_quality: "Eligible".into(),
        reward: None,
        policy: "adaptive-v1".into(),
    };
    assert_eq!(
        learning_show_lines(&l),
        vec![
            "Learning episode: b3:ep",
            "Terminal generation observation: task=t1 generation=2 disposition=Done",
            "Trajectory: candidates=1 semantic-pass=1 semantic-reject=0 infrastructure-attempts=0",
            "Source quality: Eligible",
            "Delayed assignment reward: pending/unscored independent outcome",
            "Evolver input: pending",
            "Policy: adaptive-v1 (one episode per terminal generation)",
        ]
    );
    l.reward = Some(RewardShow { reward: "0.750".into(), receipt: "r1".into(), outcome: "o1".into(), manifest: Some("m1".into()) });
    let lines = learning_show_lines(&l);
    assert_eq!(lines[4], "Delayed assignment reward: 0.750 receipt=r1 outcome=o1");
    assert_eq!(lines[5], "Evolver input: projected=true manifest=m1");
    assert_eq!(
        backlog_lines(2, 0),
        vec![
            "Adaptive learning backlog:",
            "  expired/unsettled review attempts: 2",
            "  invalid canonical objects: 0",
            "  projector failures never change terminal source lifecycle",
        ]
    );
}

#[test]
fn next_attempts_and_their_assignment_source() {
    assert_eq!(next_attempt(3, 4, 10), ("attempt-3-5".to_string(), 11));
    assert_eq!(next_attempt(0, u64::MAX, u64::MAX), (format!("attempt-0-{}", u64::MAX), u64::MAX));
    assert!(matches!(assignment_source(Some(Some("a1")), Some("a1")), AssignmentSource::Intent));
    assert!(matches!(assignment_source(Some(None), None), AssignmentSource::Intent));
    assert!(matches!(assignment_source(Some(Some("a1")), Some("a2")),
        AssignmentSource::Uncomposed(r) if r == "assignment intent no longer matches the admitted task"));
    assert!(matches!(assignment_source(None, Some("a2")), AssignmentSource::Explicit(a) if a == "a2"));
    assert!(matches!(assignment_source(None, None),
        AssignmentSource::Uncomposed(r) if r == "direct dispatch without agency composition"));
}
