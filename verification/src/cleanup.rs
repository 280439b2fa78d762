//! Manual cleanup of orphaned worktrees and old recovery branches: which
//! worktrees and branches qualify, and how a run accounts for each item
//! under `--force`.
use vstd::prelude::*;
use crate::text::{
    trim, starts_with, contains, decimal, parse_i64_spec, lines, owned, str_eq, trim_str,
    str_contains, lines_of, parse_i64, push_decimal, chars_of, string_of_range, vec_starts_with,
};
use crate::archive::{views, opt_view, lemma_views_push, strings_contain};

verus! {

/// Manual cleanup commands for edge case recovery.
#[derive(Debug, Clone)]
pub struct CleanupArgs {
    pub subcmd: CleanupSubcommand,
}

#[derive(Debug, Clone)]
pub enum CleanupSubcommand {
    /// Clean up orphaned worktrees that have no corresponding agent metadata.
    Orphaned(OrphanedArgs),
    /// Clean up old recovery branches.
    RecoveryBranches(RecoveryBranchesArgs),
}

#[derive(Debug, Clone)]
pub struct OrphanedArgs {
    /// Actually perform the cleanup (dry-run by default).
    pub execute: bool,
    /// Continue past items that fail.
    pub force: bool,
    /// Directory to search (the current directory when absent).
    pub dir: Option<String>,
}

#[derive(Debug, Clone)]
pub struct RecoveryBranchesArgs {
    /// Maximum age of recovery branches to keep, in days (30 by default).
    pub max_age_days: u32,
    /// Actually perform the cleanup (dry-run by default).
    pub execute: bool,
    /// Continue past items that fail.
    pub force: bool,
    /// Directory containing the git repository (the current directory when
    /// absent).
    pub dir: Option<String>,
}

/// Which cleanup a run performs.
#[derive(Debug, Clone, Copy, PartialEq, Eq, Structural)]
pub enum CleanupKind {
    OrphanedWorktrees,
    RecoveryBranches,
}

/// A cleanup job: its kind, directory, mode, and for branches the age limit.
#[derive(Debug, Clone)]
pub struct CleanupJob {
    pub kind: CleanupKind,
    pub dir: Option<String>,
    pub execute: bool,
    pub force: bool,
    pub max_age_days: u32,
}

/// `job` is the job of the subcommand: orphaned worktrees or recovery
/// branches, with the subcommand's own directory, mode and age limit.
pub open spec fn job_for(args: CleanupArgs, job: CleanupJob) -> bool {
    match args.subcmd {
        CleanupSubcommand::Orphaned(a) => job.kind == CleanupKind::OrphanedWorktrees
            && opt_view(job.dir) == opt_view(a.dir) && job.execute == a.execute && job.force
            == a.force,
        CleanupSubcommand::RecoveryBranches(a) => job.kind == CleanupKind::RecoveryBranches
            && opt_view(job.dir) == opt_view(a.dir) && job.execute == a.execute && job.force
            == a.force && job.max_age_days == a.max_age_days,
    }
}

/// The job the subcommand asks for.
pub fn run(args: &CleanupArgs) -> (job: CleanupJob)
    ensures
        job_for(*args, job),
{
    match &args.subcmd {
        CleanupSubcommand::Orphaned(a) => CleanupJob {
            kind: CleanupKind::OrphanedWorktrees,
            dir: match &a.dir {
                Some(d) => Some(owned(d.as_str())),
                None => None,
            },
            execute: a.execute,
            force: a.force,
            max_age_days: 0,
        },
        CleanupSubcommand::RecoveryBranches(a) => CleanupJob {
            kind: CleanupKind::RecoveryBranches,
            dir: match &a.dir {
                Some(d) => Some(owned(d.as_str())),
                None => None,
            },
            execute: a.execute,
            force: a.force,
            max_age_days: a.max_age_days,
        },
    }
}

/// Cleanup dispatches each subcommand to its own job: a job of an
/// `orphaned` run is the orphaned-worktree cleanup and one of a
/// `recovery-branches` run the branch cleanup, each with its directory,
/// `--execute`, `--force` (and age limit) exactly as given; two jobs of one
/// invocation agree on all of them.
pub proof fn law_cleanup_dispatch_keeps_flags(args: CleanupArgs, job: CleanupJob, other: CleanupJob)
    requires
        job_for(args, job),
        job_for(args, other),
    ensures
        (job.kind == CleanupKind::OrphanedWorktrees) == (args.subcmd is Orphaned),
        (job.kind == CleanupKind::RecoveryBranches) == (args.subcmd is RecoveryBranches),
        job.kind == other.kind,
        opt_view(job.dir) == opt_view(other.dir),
        job.execute == other.execute,
        job.force == other.force,
        job.kind == CleanupKind::RecoveryBranches ==> job.max_age_days == other.max_age_days,
{
}

// ---------------------------------------------------------------------------
// Recovery-branch runs
// ---------------------------------------------------------------------------

/// A recovery-branch run first refuses a directory that is not a git
/// repository (before any git command).
pub fn recovery_repository_gate(is_git_repository: bool, root: &str) -> (r: Result<(), String>)
    ensures
        r is Ok <==> is_git_repository,
        r matches Err(m) ==> m@ == "Not a git repository: "@ + root@,
{
    if is_git_repository {
        Ok(())
    } else {
        let mut m = owned("Not a git repository: ");
        m.append(root);
        Err(m)
    }
}

/// What a recovery-branch run does once its branches are scanned.
#[derive(Debug, Clone)]
pub enum RecoveryDecision {
    /// Print these lines and finish without deleting anything.
    Finish(Vec<String>),
    /// Delete the old branches.
    Delete,
}

/// The lines a scan ends with when it deletes nothing: no recovery branch,
/// none old enough, or a dry run.
pub open spec fn recovery_finish_text(found: nat, old: nat, max_age_days: u32, execute: bool) -> Option<
    Seq<Seq<char>>,
> {
    if found == 0 {
        Some(seq!["No recovery branches found."@])
    } else if old == 0 {
        Some(seq!["No recovery branches older than "@ + decimal(max_age_days as nat) + " days found."@])
    } else if !execute {
        Some(
            seq![
                "\nDry-run mode. Use --execute to actually perform cleanup."@,
                "Use --force to continue cleanup even if individual operations fail."@,
            ],
        )
    } else {
        None
    }
}

/// The decision after `found` recovery branches were listed, `old` of them
/// past the age limit: deletion only under `--execute` and only when some
/// branch is old; otherwise the closing lines.
pub fn recovery_after_scan(found: usize, old: usize, max_age_days: u32, execute: bool) -> (d: RecoveryDecision)
    ensures
        match d {
            RecoveryDecision::Delete => recovery_finish_text(found as nat, old as nat, max_age_days, execute) is None,
            RecoveryDecision::Finish(lines) => recovery_finish_text(
                found as nat,
                old as nat,
                max_age_days,
                execute,
            ) == Some(views(lines@)),
        },
        d is Delete ==> execute && found > 0 && old > 0,
{
    let mut lines: Vec<String> = Vec::new();
    if found == 0 {
        lines.push(owned("No recovery branches found."));
    } else if old == 0 {
        let mut m = owned("No recovery branches older than ");
        push_decimal(&mut m, max_age_days as u64);
        m.append(" days found.");
        lines.push(m);
    } else if !execute {
        lines.push(owned("\nDry-run mode. Use --execute to actually perform cleanup."));
        lines.push(owned("Use --force to continue cleanup even if individual operations fail."));
    } else {
        return RecoveryDecision::Delete;
    }
    assert(views(lines@) =~= recovery_finish_text(found as nat, old as nat, max_age_days, execute).unwrap());
    RecoveryDecision::Finish(lines)
}

// ---------------------------------------------------------------------------
// What qualifies
// ---------------------------------------------------------------------------

/// Worktrees whose name is no active agent's, in order.
pub open spec fn orphaned_positions(worktrees: Seq<Seq<char>>, active: Seq<Seq<char>>) -> Seq<int>
    decreases worktrees.len(),
{
    if worktrees.len() == 0 {
        Seq::empty()
    } else {
        let rest = orphaned_positions(worktrees.drop_last(), active);
        if active.contains(worktrees.last()) {
            rest
        } else {
            rest.push(worktrees.len() - 1)
        }
    }
}

pub fn orphaned_worktrees(worktrees: &Vec<String>, active_agents: &Vec<String>) -> (pos: Vec<usize>)
    ensures
        pos@.len() == orphaned_positions(views(worktrees@), views(active_agents@)).len(),
        forall|k: int|
            0 <= k < pos@.len() ==> #[trigger] pos@[k] == orphaned_positions(
                views(worktrees@),
                views(active_agents@),
            )[k],
{
    let mut pos: Vec<usize> = Vec::new();
    let mut i: usize = 0;
    while i < worktrees.len()
        invariant
            i <= worktrees.len(),
            pos@.len() == orphaned_positions(views(worktrees@).take(i as int), views(active_agents@)).len(),
            forall|k: int|
                0 <= k < pos@.len() ==> #[trigger] pos@[k] == orphaned_positions(
                    views(worktrees@).take(i as int),
                    views(active_agents@),
                )[k],
        decreases worktrees.len() - i,
    {
        assert(views(worktrees@).take(i + 1).drop_last() =~= views(worktrees@).take(i as int));
        if !strings_contain(active_agents, worktrees[i].as_str()) {
            pos.push(i);
        }
        i += 1;
    }
    assert(views(worktrees@).take(worktrees@.len() as int) =~= views(worktrees@));
    pos
}

/// The task branch of an agent's worktree: `wg/<agent>/task`.
pub fn worktree_branch(agent_id: &str) -> (b: String)
    ensures
        b@ == "wg/"@ + agent_id@ + "/task"@,
{
    let mut b = owned("wg/");
    b.append(agent_id);
    b.append("/task");
    b
}

/// `str::trim_start_matches` of a non-empty pattern: every leading copy
/// removed.
pub open spec fn strip_leading(s: Seq<char>, p: Seq<char>) -> Seq<char>
    decreases s.len(),
{
    if p.len() > 0 && starts_with(s, p) {
        strip_leading(s.skip(p.len() as int), p)
    } else {
        s
    }
}

fn strip_leading_of(s: &str, p: &str) -> (out: String)
    requires
        p@.len() > 0,
    ensures
        out@ == strip_leading(s@, p@),
{
    let v = chars_of(s);
    let pv = chars_of(p);
    let mut from: usize = 0;
    assert(v@.skip(0) =~= v@);
    while pv.len() <= v.len() - from
        invariant
            from <= v.len(),
            v@ == s@,
            pv@ == p@,
            pv@.len() > 0,
            strip_leading(s@, p@) == strip_leading(v@.skip(from as int), p@),
        decreases v.len() - from,
    {
        let mut k: usize = 0;
        while k < pv.len() && v[from + k] == pv[k]
            invariant
                k <= pv.len(),
                from + pv.len() <= v.len(),
                forall|j: int| 0 <= j < k ==> v@[from + j] == pv@[j],
            decreases pv.len() - k,
        {
            k += 1;
        }
        let ghost rest = v@.skip(from as int);
        if k < pv.len() {
            proof {
                assert(rest.subrange(0, pv@.len() as int)[k as int] != pv@[k as int]);
                assert(!starts_with(rest, p@));
            }
            return string_of_range(&v, from, v.len());
        }
        proof {
            assert(rest.subrange(0, pv@.len() as int) =~= pv@);
            assert(rest.skip(pv@.len() as int) =~= v@.skip(from + pv@.len()));
        }
        from = from + pv.len();
    }
    proof {
        let rest = v@.skip(from as int);
        assert(!starts_with(rest, p@));
        assert(rest =~= v@.subrange(from as int, v@.len() as int));
    }
    string_of_range(&v, from, v.len())
}

/// The recovery branches in `git branch -a` output: each line trimmed,
/// those naming `recover/`, with any leading `* ` markers removed.
pub open spec fn recovery_branch_names(lines_: Seq<Seq<char>>) -> Seq<Seq<char>>
    decreases lines_.len(),
{
    if lines_.len() == 0 {
        Seq::empty()
    } else {
        let rest = recovery_branch_names(lines_.drop_last());
        let t = trim(lines_.last());
        if contains(t, "recover/"@) {
            rest.push(strip_leading(t, "* "@))
        } else {
            rest
        }
    }
}

pub fn recovery_branches(git_branch_output: &str) -> (branches: Vec<String>)
    ensures
        views(branches@) == recovery_branch_names(lines(git_branch_output@)),
{
    let ls = lines_of(git_branch_output);
    let ghost all = views(ls@);
    assert(all =~= lines(git_branch_output@));
    let mut out: Vec<String> = Vec::new();
    let mut i: usize = 0;
    proof {
        reveal_strlit("* ");
    }
    while i < ls.len()
        invariant
            i <= ls.len(),
            all == views(ls@),
            views(out@) == recovery_branch_names(all.take(i as int)),
            "* "@.len() == 2,
        decreases ls.len() - i,
    {
        assert(all.take(i + 1).drop_last() =~= all.take(i as int));
        let t = trim_str(ls[i].as_str());
        if str_contains(t.as_str(), "recover/") {
            let b = strip_leading_of(t.as_str(), "* ");
            let ghost prev = out@;
            out.push(b);
            proof {
                lemma_views_push(prev, b);
            }
        }
        i += 1;
    }
    assert(all.take(ls@.len() as int) =~= all);
    out
}

/// Seconds in a day.
pub open spec fn day_secs() -> int {
    86400
}

/// A branch is old when its last commit is more than `max_age_days` days
/// before `now`; its age is then given in whole days.
pub open spec fn branch_age_days(commit_secs: int, now_secs: int, max_age_days: u32) -> Option<int> {
    let age = now_secs - commit_secs;
    if age > max_age_days * day_secs() {
        Some(age / day_secs())
    } else {
        None
    }
}

/// The age in days of a branch whose `git log -1 --format=%ct` output is
/// `commit_time` (trimmed, an `i64`), when it is older than the limit.
pub fn old_branch_age(commit_time: &str, now_secs: i64, max_age_days: u32) -> (r: Option<i64>)
    ensures
        match parse_i64_spec(trim(commit_time@)) {
            Some(ts) => match branch_age_days(ts, now_secs as int, max_age_days) {
                Some(d) => r == Some(d as i64),
                None => r is None,
            },
            None => r is None,
        },
{
    let t = trim_str(commit_time);
    match parse_i64(t.as_str()) {
        Some(ts) => {
            let age: i128 = now_secs as i128 - ts as i128;
            let max: i128 = max_age_days as i128 * 86400;
            if age > max {
                let days = age / 86400;
                assert(days <= i64::MAX) by (nonlinear_arith)
                    requires
                        days == age / 86400,
                        age <= i64::MAX as i128 - i64::MIN as i128,
                        age > 0,
                ;
                Some(days as i64)
            } else {
                None
            }
        },
        None => None,
    }
}

// ---------------------------------------------------------------------------
// Accounting for each item
// ---------------------------------------------------------------------------

/// Successes and error messages of a cleanup run so far.
#[derive(Debug, Clone)]
pub struct CleanupTally {
    pub successes: u64,
    pub errors: Vec<String>,
}

/// What the run does after one item.
#[derive(Debug, Clone)]
pub enum ItemVerdict {
    /// Go on, after printing `out` and, on stderr, `warnings`.
    Continue { out: Vec<String>, warnings: Vec<String> },
    /// Stop the run with this error.
    Abort(String),
}

pub open spec fn success_text(kind: CleanupKind, item: Seq<char>) -> Seq<char> {
    match kind {
        CleanupKind::OrphanedWorktrees => "✓ Successfully cleaned up orphaned worktree: "@ + item,
        CleanupKind::RecoveryBranches => "✓ Successfully deleted recovery branch: "@ + item,
    }
}

/// The failure message of an item; a branch's git error is trimmed.
pub open spec fn failure_text(kind: CleanupKind, item: Seq<char>, detail: Seq<char>) -> Seq<char> {
    match kind {
        CleanupKind::OrphanedWorktrees => "Failed to clean up orphaned worktree "@ + item + ": "@
            + detail,
        CleanupKind::RecoveryBranches => "Failed to delete recovery branch "@ + item + ": "@ + trim(
            detail,
        ),
    }
}

/// Records one item's outcome: a success is counted; a failure is recorded
/// and, under `--force`, warned about and passed over, else it stops the
/// run.
pub fn record_item(
    tally: &mut CleanupTally,
    kind: CleanupKind,
    item: &str,
    failure: Option<&str>,
    force: bool,
) -> (v: ItemVerdict)
    requires
        old(tally).successes < u64::MAX,
    ensures
        match failure {
            None => {
                &&& final(tally).successes == old(tally).successes + 1
                &&& final(tally).errors == old(tally).errors
                &&& v matches ItemVerdict::Continue { out, warnings } && views(out@) == seq![
                    success_text(kind, item@),
                ] && warnings@.len() == 0
            },
            Some(detail) => {
                &&& final(tally).successes == old(tally).successes
                &&& views(final(tally).errors@) == views(old(tally).errors@).push(
                    failure_text(kind, item@, detail@),
                )
                &&& if force {
                    v matches ItemVerdict::Continue { out, warnings } && out@.len() == 0 && views(
                        warnings@,
                    ) == seq![
                        "⚠ "@ + failure_text(kind, item@, detail@),
                        "  Continuing due to --force flag..."@,
                    ]
                } else {
                    v matches ItemVerdict::Abort(m) && m@ == failure_text(kind, item@, detail@)
                }
            },
        },
{
    match failure {
        None => {
            tally.successes = tally.successes + 1;
            let mut line = match kind {
                CleanupKind::OrphanedWorktrees => owned(
                    "✓ Successfully cleaned up orphaned worktree: ",
                ),
                CleanupKind::RecoveryBranches => owned("✓ Successfully deleted recovery branch: "),
            };
            line.append(item);
            let mut out: Vec<String> = Vec::new();
            out.push(line);
            assert(views(out@) =~= seq![success_text(kind, item@)]);
            ItemVerdict::Continue { out, warnings: Vec::new() }
        },
        Some(detail) => {
            let mut msg = match kind {
                CleanupKind::OrphanedWorktrees => owned("Failed to clean up orphaned worktree "),
                CleanupKind::RecoveryBranches => owned("Failed to delete recovery branch "),
            };
            msg.append(item);
            msg.append(": ");
            match kind {
                CleanupKind::OrphanedWorktrees => msg.append(detail),
                CleanupKind::RecoveryBranches => {
                    let t = trim_str(detail);
                    msg.append(t.as_str());
                },
            }
            let ghost before = tally.errors@;
            let copy = owned(msg.as_str());
            tally.errors.push(copy);
            proof {
                lemma_views_push(before, copy);
            }
            if force {
                let mut warn = owned("⚠ ");
                warn.append(msg.as_str());
                let mut warnings: Vec<String> = Vec::new();
                warnings.push(warn);
                warnings.push(owned("  Continuing due to --force flag..."));
                assert(views(warnings@) =~= seq![
                    "⚠ "@ + failure_text(kind, item@, detail@),
                    "  Continuing due to --force flag..."@,
                ]);
                ItemVerdict::Continue { out: Vec::new(), warnings }
            } else {
                ItemVerdict::Abort(msg)
            }
        },
    }
}

/// The closing report: the counts, and under `--force` the errors passed
/// over.
pub open spec fn summary_text(successes: u64, errors: Seq<Seq<char>>, force: bool) -> Seq<Seq<char>> {
    seq![
        "\nCleanup complete:"@,
        "  Successes: "@ + decimal(successes as nat),
        "  Errors: "@ + decimal(errors.len()),
    ] + if errors.len() > 0 && force {
        seq!["\nErrors encountered (ignored due to --force):"@] + errors.map_values(
            |e: Seq<char>| "  - "@ + e,
        )
    } else {
        Seq::empty()
    }
}

pub fn summary_lines(tally: &CleanupTally, force: bool) -> (out: Vec<String>)
    ensures
        views(out@) == summary_text(tally.successes, views(tally.errors@), force),
{
    let mut out: Vec<String> = Vec::new();
    out.push(owned("\nCleanup complete:"));
    let mut s = owned("  Successes: ");
    push_decimal(&mut s, tally.successes);
    out.push(s);
    let mut e = owned("  Errors: ");
    push_decimal(&mut e, tally.errors.len() as u64);
    out.push(e);
    let ghost head = views(out@);
    assert(head =~= seq![
        "\nCleanup complete:"@,
        "  Successes: "@ + decimal(tally.successes as nat),
        "  Errors: "@ + decimal(views(tally.errors@).len()),
    ]);
    if tally.errors.len() > 0 && force {
        out.push(owned("\nErrors encountered (ignored due to --force):"));
        let mut i: usize = 0;
        while i < tally.errors.len()
            invariant
                i <= tally.errors.len(),
                views(out@) == head + seq!["\nErrors encountered (ignored due to --force):"@]
                    + views(tally.errors@).take(i as int).map_values(|e: Seq<char>| "  - "@ + e),
            decreases tally.errors.len() - i,
        {
            let mut line = owned("  - ");
            line.append(tally.errors[i].as_str());
            let ghost prev = out@;
            out.push(line);
            proof {
                lemma_views_push(prev, line);
                assert(views(tally.errors@).take(i + 1).map_values(|e: Seq<char>| "  - "@ + e)
                    =~= views(tally.errors@).take(i as int).map_values(|e: Seq<char>| "  - "@ + e).push(
                    "  - "@ + tally.errors@[i as int]@,
                ));
            }
            i += 1;
        }
        assert(views(tally.errors@).take(tally.errors@.len() as int) =~= views(tally.errors@));
    } else {
        assert(views(out@) =~= head + Seq::<Seq<char>>::empty());
    }
    out
}

} // verus!
