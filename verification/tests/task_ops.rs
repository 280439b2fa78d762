use wg_commands::task_ops::{approve_task, ApprovalTask};
use wg_commands::task_ops::{answered_line, check_report, question_created_lines, question_list_lines};
use wg_commands::archive::TaskStatus;
use wg_commands::task_ops::{
    approval_gate, find_task, format_question, poll_step, run_add, run_list, run_remove,
    status_debug_name, ArtifactChange, ArtifactTask, PollStep, Question, QuestionStatus,
};

fn graph() -> Vec<ArtifactTask> {
    vec![ArtifactTask {
        id: "t1".into(),
        title: "Test Task".into(),
        deliverables: vec!["output.txt".into()],
        artifacts: vec![],
    }]
}

fn approval_task(status: TaskStatus) -> ApprovalTask {
    ApprovalTask { id: "t1".into(), status, log: vec![] }
}

#[test]
fn test_approve_pending_validation_transitions_to_done() {
    assert!(approval_gate(true, "t1", Some(TaskStatus::PendingValidation)).is_ok());
    let mut task = approval_task(TaskStatus::PendingValidation);
    let msg = approve_task(&mut task, "2026-01-01T00:00:00Z".into(), None, Some("alice".into())).unwrap();
    assert_eq!(task.status, TaskStatus::Done);
    assert_eq!(msg, "Approved 't1' — task is now done");
}

#[test]
fn test_approve_creates_log_entry() {
    let mut task = approval_task(TaskStatus::PendingValidation);
    approve_task(&mut task, "2026-01-01T00:00:00Z".into(), Some("agent-1".into()), Some("alice".into())).unwrap();
    let last_log = task.log.last().unwrap();
    assert_eq!(last_log.message, "Task approved by validator");
    assert_eq!(last_log.actor.as_deref(), Some("agent-1"));
    assert_eq!(last_log.user.as_deref(), Some("alice"));
    assert_eq!(last_log.timestamp, "2026-01-01T00:00:00Z");

    let mut pending = approval_task(TaskStatus::PendingEval);
    assert!(approve_task(&mut pending, "t".into(), None, None).unwrap_err().contains("cannot bypass"));
    assert_eq!(pending.status, TaskStatus::PendingEval);
    assert!(pending.log.is_empty());
}

#[test]
fn test_approve_non_pending_task_fails() {
    let err = approval_gate(true, "t1", Some(TaskStatus::Open)).unwrap_err();
    assert!(err.contains("not awaiting approval"));
    assert_eq!(
        err,
        "Task 't1' is not awaiting approval (status: Open). Only pending-validation tasks can be approved."
    );
}

#[test]
fn test_approve_pending_eval_cannot_bypass_required_gate() {
    let err = approval_gate(true, "t1", Some(TaskStatus::PendingEval)).unwrap_err();
    assert!(err.contains("cannot bypass"), "approve must not bypass PendingEval");
}

#[test]
fn test_approve_done_task_fails() {
    assert!(approval_gate(true, "t1", Some(TaskStatus::Done)).is_err());
}

#[test]
fn test_approve_nonexistent_task_fails() {
    let err = approval_gate(true, "nonexistent", None).unwrap_err();
    assert!(err.contains("not found"));
    assert_eq!(
        approval_gate(false, "t1", Some(TaskStatus::PendingValidation)).unwrap_err(),
        "WG not initialized. Run 'wg init' first."
    );
    assert_eq!(status_debug_name(TaskStatus::InProgress), "InProgress");
}

#[test]
fn test_add_artifact() {
    let mut tasks = graph();
    assert_eq!(run_add(&mut tasks, "t1", "output.txt"), Ok(ArtifactChange::Registered));
    assert!(tasks[0].artifacts.contains(&"output.txt".to_string()));
}

#[test]
fn test_add_artifact_duplicate() {
    let mut tasks = graph();
    run_add(&mut tasks, "t1", "output.txt").unwrap();
    assert_eq!(run_add(&mut tasks, "t1", "output.txt"), Ok(ArtifactChange::AlreadyRegistered));
    assert_eq!(tasks[0].artifacts.len(), 1);
}

#[test]
fn test_remove_artifact() {
    let mut tasks = graph();
    run_add(&mut tasks, "t1", "output.txt").unwrap();
    assert_eq!(run_remove(&mut tasks, "t1", "output.txt"), Ok(ArtifactChange::Removed));
    assert!(tasks[0].artifacts.is_empty());
}

#[test]
fn test_remove_nonexistent_artifact() {
    let mut tasks = graph();
    let err = run_remove(&mut tasks, "t1", "nonexistent.txt").unwrap_err();
    assert_eq!(err, "Artifact 'nonexistent.txt' not found on task 't1'");
    assert_eq!(run_add(&mut tasks, "t9", "x").unwrap_err(), "Task 't9' not found");
}

#[test]
fn test_list_artifacts() {
    let mut tasks = graph();
    assert_eq!(
        run_list(&tasks, "t1").unwrap(),
        vec!["Task: t1 - Test Task", "", "Expected deliverables:", "  output.txt", "", "No artifacts produced yet."]
    );
    run_add(&mut tasks, "t1", "output.txt").unwrap();
    run_add(&mut tasks, "t1", "notes.md").unwrap();
    assert_eq!(
        run_list(&tasks, "t1").unwrap(),
        vec![
            "Task: t1 - Test Task",
            "",
            "Expected deliverables:",
            "  output.txt [produced]",
            "",
            "Produced artifacts:",
            "  output.txt",
            "  notes.md [extra]"
        ]
    );
    assert_eq!(find_task(&tasks, "t1"), Some(0));
    assert_eq!(find_task(&tasks, "t2"), None);
}

fn question(status: QuestionStatus, answer: Option<&str>) -> Question {
    Question {
        id: "q-1".into(),
        task_id: "test-task".into(),
        question: "What?".into(),
        options: vec!["this".into(), "that".into()],
        status,
        answer: answer.map(String::from),
    }
}

#[test]
fn test_run_check_finds_question() {
    let q = question(QuestionStatus::Answered, Some("that"));
    assert_eq!(
        format_question(&q),
        vec!["[ANSWERED] q-1 (task: test-task) - What?", "  Options: this, that", "  Answer: that"]
    );
    match poll_step("q-1", Some(&q), 3, Some(60)) {
        PollStep::Answered(t) => assert_eq!(t, "Answer: that"),
        other => panic!("unexpected {other:?}"),
    }
    let pending = question(QuestionStatus::Pending, None);
    assert!(matches!(poll_step("q-1", Some(&pending), 3, Some(60)), PollStep::Wait));
    assert!(matches!(poll_step("q-1", None, 3, None), PollStep::Wait));
    match poll_step("q-1", Some(&pending), 60, Some(60)) {
        PollStep::TimedOut(m) => assert_eq!(m, "Timeout waiting for answer to question 'q-1'"),
        other => panic!("unexpected {other:?}"),
    }
}

#[test]
fn test_run_ask_creates_question() {
    let q = question(QuestionStatus::Pending, None);
    assert_eq!(
        question_created_lines(&q),
        vec!["Question q-1 created for task 'test-task'", "Options: this, that"]
    );
}

#[test]
fn test_run_answer_answers_question() {
    assert_eq!(answered_line("q-1", "test-task", "that"), "Answered question q-1 for task 'test-task': that");
    let q = question(QuestionStatus::Answered, Some("that"));
    assert_eq!(check_report("q-1", Some(&q), "answered"), ("Question q-1 is answered: that".to_string(), true));
    let p = question(QuestionStatus::Pending, None);
    assert_eq!(check_report("q-1", Some(&p), "pending"), ("Question q-1 is pending".to_string(), false));
    assert_eq!(check_report("q-9", None, ""), ("Question 'q-9' not found".to_string(), false));
}

#[test]
fn test_list_pending_across_tasks() {
    let mut q2 = question(QuestionStatus::Pending, None);
    q2.id = "q-2".into();
    q2.task_id = "task-2".into();
    q2.options = vec![];
    let qs = vec![question(QuestionStatus::Pending, None), q2];
    assert_eq!(
        question_list_lines(None, &qs),
        vec![
            "[PENDING] q-1 (task: test-task) - What?",
            "  Options: this, that",
            "[PENDING] q-2 (task: task-2) - What?",
        ]
    );
    assert_eq!(question_list_lines(None, &vec![]), vec!["No pending questions"]);
    assert_eq!(question_list_lines(Some("t1"), &vec![]), vec!["No questions for task 't1'"]);
}
