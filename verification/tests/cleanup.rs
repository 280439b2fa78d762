use wg_commands::cleanup::{recovery_after_scan, recovery_repository_gate, RecoveryDecision};
use wg_commands::cleanup::{
    old_branch_age, orphaned_worktrees, recovery_branches, record_item, run, summary_lines,
    worktree_branch, CleanupArgs, CleanupKind, CleanupSubcommand, CleanupTally, ItemVerdict,
    OrphanedArgs, RecoveryBranchesArgs,
};

fn strings(v: &[&str]) -> Vec<String> {
    v.iter().map(|s| s.to_string()).collect()
}

#[test]
fn run_dispatches_each_subcommand() {
    let job = run(&CleanupArgs {
        subcmd: CleanupSubcommand::Orphaned(OrphanedArgs {
            execute: true,
            force: false,
            dir: Some("/repo".into()),
        }),
    });
    assert_eq!(job.kind, CleanupKind::OrphanedWorktrees);
    assert_eq!(job.dir.as_deref(), Some("/repo"));
    assert!(job.execute && !job.force);
    let job = run(&CleanupArgs {
        subcmd: CleanupSubcommand::RecoveryBranches(RecoveryBranchesArgs {
            max_age_days: 7,
            execute: false,
            force: true,
            dir: None,
        }),
    });
    assert_eq!(job.kind, CleanupKind::RecoveryBranches);
    assert_eq!(job.max_age_days, 7);
    assert!(job.force && !job.execute);
}

#[test]
fn orphaned_worktrees_are_those_without_an_active_agent() {
    let wts = strings(&["agent-1", "agent-2", "agent-3"]);
    assert_eq!(orphaned_worktrees(&wts, &strings(&["agent-2"])), vec![0, 2]);
    assert!(orphaned_worktrees(&wts, &wts).is_empty());
    assert_eq!(worktree_branch("agent-1"), "wg/agent-1/task");
}

#[test]
fn recovery_branches_are_read_from_git_output() {
    let out = "* main\n  recover/agent-1/t1\n  feature\n* recover/agent-2/t2\n  remotes/origin/recover/x\n";
    assert_eq!(
        recovery_branches(out),
        strings(&["recover/agent-1/t1", "recover/agent-2/t2", "remotes/origin/recover/x"])
    );
    assert!(recovery_branches("").is_empty());
}

#[test]
fn branch_age_counts_whole_days_past_the_limit() {
    let now = 1_000_000_000i64;
    assert_eq!(old_branch_age(&format!("{}\n", now - 10 * 86400), now, 7), Some(10));
    assert_eq!(old_branch_age(&(now - 7 * 86400).to_string(), now, 7), None);
    assert_eq!(old_branch_age(&(now - 7 * 86400 - 1).to_string(), now, 7), Some(7));
    assert_eq!(old_branch_age("not a time", now, 7), None);
}

#[test]
fn failures_abort_unless_forced_and_summary_lists_them() {
    let mut t = CleanupTally { successes: 0, errors: vec![] };
    match record_item(&mut t, CleanupKind::OrphanedWorktrees, "agent-1", None, false) {
        ItemVerdict::Continue { out, warnings } => {
            assert_eq!(out, strings(&["✓ Successfully cleaned up orphaned worktree: agent-1"]));
            assert!(warnings.is_empty());
        }
        other => panic!("unexpected {other:?}"),
    }
    match record_item(&mut t, CleanupKind::RecoveryBranches, "recover/x", Some(" locked \n"), true) {
        ItemVerdict::Continue { out, warnings } => {
            assert!(out.is_empty());
            assert_eq!(
                warnings,
                strings(&[
                    "⚠ Failed to delete recovery branch recover/x: locked",
                    "  Continuing due to --force flag..."
                ])
            );
        }
        other => panic!("unexpected {other:?}"),
    }
    assert_eq!(t.successes, 1);
    assert_eq!(
        summary_lines(&t, true),
        strings(&[
            "\nCleanup complete:",
            "  Successes: 1",
            "  Errors: 1",
            "\nErrors encountered (ignored due to --force):",
            "  - Failed to delete recovery branch recover/x: locked"
        ])
    );
    assert_eq!(summary_lines(&t, false).len(), 3);
    match record_item(&mut t, CleanupKind::OrphanedWorktrees, "agent-9", Some("busy"), false) {
        ItemVerdict::Abort(m) => assert_eq!(m, "Failed to clean up orphaned worktree agent-9: busy"),
        other => panic!("unexpected {other:?}"),
    }
}

#[test]
fn recovery_cleanup_refuses_outside_git_and_deletes_only_on_execute() {
    assert_eq!(recovery_repository_gate(true, "/repo"), Ok(()));
    assert_eq!(recovery_repository_gate(false, "/tmp/x"), Err("Not a git repository: /tmp/x".to_string()));

    let lines = |d: RecoveryDecision| match d {
        RecoveryDecision::Finish(l) => l,
        RecoveryDecision::Delete => panic!("unexpected delete"),
    };
    assert_eq!(lines(recovery_after_scan(0, 0, 30, true)), vec!["No recovery branches found."]);
    assert_eq!(lines(recovery_after_scan(3, 0, 30, true)), vec!["No recovery branches older than 30 days found."]);
    assert_eq!(
        lines(recovery_after_scan(3, 2, 30, false)),
        vec![
            "\nDry-run mode. Use --execute to actually perform cleanup.",
            "Use --force to continue cleanup even if individual operations fail."
        ]
    );
    assert!(matches!(recovery_after_scan(3, 2, 30, true), RecoveryDecision::Delete));
}
