//! Small task commands: approving a task that awaits validation, keeping a
//! task's artifact list, and listing agent questions.
use vstd::prelude::*;
use crate::text::{owned, str_eq, join_with, clone_strings};
use crate::archive::{TaskStatus, views, lemma_views_push, strings_contain};
use crate::agency_push::join_strings;

verus! {

// ---------------------------------------------------------------------------
// Approval
// ---------------------------------------------------------------------------

/// The `{:?}` name of a status.
pub open spec fn status_debug(s: TaskStatus) -> Seq<char> {
    match s {
        TaskStatus::Open => "Open"@,
        TaskStatus::InProgress => "InProgress"@,
        TaskStatus::Blocked => "Blocked"@,
        TaskStatus::Waiting => "Waiting"@,
        TaskStatus::PendingValidation => "PendingValidation"@,
        TaskStatus::PendingEval => "PendingEval"@,
        TaskStatus::Failed => "Failed"@,
        TaskStatus::Done => "Done"@,
        TaskStatus::Abandoned => "Abandoned"@,
    }
}

pub fn status_debug_name(s: TaskStatus) -> (n: &'static str)
    ensures
        n@ == status_debug(s),
{
    match s {
        TaskStatus::Open => "Open",
        TaskStatus::InProgress => "InProgress",
        TaskStatus::Blocked => "Blocked",
        TaskStatus::Waiting => "Waiting",
        TaskStatus::PendingValidation => "PendingValidation",
        TaskStatus::PendingEval => "PendingEval",
        TaskStatus::Failed => "Failed",
        TaskStatus::Done => "Done",
        TaskStatus::Abandoned => "Abandoned",
    }
}

pub open spec fn approval_refusal(graph_exists: bool, id: Seq<char>, status: Option<TaskStatus>) -> Option<
    Seq<char>,
> {
    if !graph_exists {
        Some("WG not initialized. Run 'wg init' first."@)
    } else {
        match status {
            None => Some("Task '"@ + id + "' not found"@),
            Some(TaskStatus::PendingEval) => Some(
                "Task '"@ + id
                    + "' is under a required evaluation gate. `wg approve` cannot bypass exact attempt-bound verdict thresholds; wait for reconciliation or use `wg retry`."@,
            ),
            Some(TaskStatus::PendingValidation) => None,
            Some(s) => Some(
                "Task '"@ + id + "' is not awaiting approval (status: "@ + status_debug(s)
                    + "). Only pending-validation tasks can be approved."@,
            ),
        }
    }
}

/// Only a task pending validation can be approved: an evaluation gate is
/// never bypassed, and every other status is refused.
pub fn approval_gate(graph_exists: bool, id: &str, status: Option<TaskStatus>) -> (r: Result<
    (),
    String,
>)
    ensures
        match r {
            Ok(()) => approval_refusal(graph_exists, id@, status) is None,
            Err(m) => approval_refusal(graph_exists, id@, status) == Some(m@),
        },
        r is Ok <==> graph_exists && status == Some(TaskStatus::PendingValidation),
{
    if !graph_exists {
        return Err(owned("WG not initialized. Run 'wg init' first."));
    }
    match status {
        None => {
            let mut m = owned("Task '");
            m.append(id);
            m.append("' not found");
            Err(m)
        },
        Some(TaskStatus::PendingEval) => {
            let mut m = owned("Task '");
            m.append(id);
            m.append(
                "' is under a required evaluation gate. `wg approve` cannot bypass exact attempt-bound verdict thresholds; wait for reconciliation or use `wg retry`.",
            );
            Err(m)
        },
        Some(TaskStatus::PendingValidation) => Ok(()),
        Some(s) => {
            let mut m = owned("Task '");
            m.append(id);
            m.append("' is not awaiting approval (status: ");
            m.append(status_debug_name(s));
            m.append("). Only pending-validation tasks can be approved.");
            Err(m)
        },
    }
}

/// A task log entry.
#[derive(Debug, Clone)]
pub struct TaskLogEntry {
    pub timestamp: String,
    pub actor: Option<String>,
    pub user: Option<String>,
    pub message: String,
}

/// The fields of a task that approval reads and changes.
#[derive(Debug, Clone)]
pub struct ApprovalTask {
    pub id: String,
    pub status: TaskStatus,
    pub log: Vec<TaskLogEntry>,
}

/// Approves a found task at `timestamp`, by `actor` (the agent, if any) as
/// `user`: a task pending validation becomes done, gains the log entry
/// `Task approved by validator`, and the confirmation is returned; any
/// other task is refused and left unchanged.
pub fn approve_task(
    task: &mut ApprovalTask,
    timestamp: String,
    actor: Option<String>,
    user: Option<String>,
) -> (r: Result<String, String>)
    ensures
        match r {
            Ok(m) => old(task).status == TaskStatus::PendingValidation
                && final(task).status == TaskStatus::Done
                && final(task).id@ == old(task).id@
                && final(task).log@.len() == old(task).log@.len() + 1
                && final(task).log@.take(old(task).log@.len() as int) == old(task).log@
                && final(task).log@.last().timestamp@ == timestamp@
                && final(task).log@.last().actor == actor
                && final(task).log@.last().user == user
                && final(task).log@.last().message@ == "Task approved by validator"@
                && m@ == "Approved '"@ + old(task).id@ + "' — task is now done"@,
            Err(m) => approval_refusal(true, old(task).id@, Some(old(task).status)) == Some(m@)
                && *final(task) == *old(task),
        },
        r is Ok <==> old(task).status == TaskStatus::PendingValidation,
{
    match approval_gate(true, task.id.as_str(), Some(task.status)) {
        Err(m) => Err(m),
        Ok(()) => {
            task.status = TaskStatus::Done;
            task.log.push(
                TaskLogEntry {
                    timestamp,
                    actor,
                    user,
                    message: owned("Task approved by validator"),
                },
            );
            let mut m = owned("Approved '");
            m.append(task.id.as_str());
            m.append("' — task is now done");
            assert(task.log@.take(task.log@.len() - 1) =~= old(task).log@);
            Ok(m)
        },
    }
}

// ---------------------------------------------------------------------------
// Artifacts
// ---------------------------------------------------------------------------

/// The fields of a task that the artifact commands read and change.
#[derive(Debug, Clone)]
pub struct ArtifactTask {
    pub id: String,
    pub title: String,
    pub deliverables: Vec<String>,
    pub artifacts: Vec<String>,
}

/// The first task with this id.
pub open spec fn task_index(tasks: Seq<ArtifactTask>, id: Seq<char>) -> Option<int>
    decreases tasks.len(),
{
    if tasks.len() == 0 {
        None
    } else {
        match task_index(tasks.drop_last(), id) {
            Some(i) => Some(i),
            None => if tasks.last().id@ == id {
                Some(tasks.len() - 1)
            } else {
                None
            },
        }
    }
}

proof fn lemma_task_index_extends(tasks: Seq<ArtifactTask>, n: int, id: Seq<char>)
    requires
        0 <= n <= tasks.len(),
        task_index(tasks.take(n), id) is Some,
    ensures
        task_index(tasks, id) == task_index(tasks.take(n), id),
    decreases tasks.len() - n,
{
    if n < tasks.len() {
        assert(tasks.take(n + 1).drop_last() =~= tasks.take(n));
        lemma_task_index_extends(tasks, n + 1, id);
    } else {
        assert(tasks.take(n) =~= tasks);
    }
}

pub fn find_task(tasks: &Vec<ArtifactTask>, id: &str) -> (r: Option<usize>)
    ensures
        match r {
            Some(i) => task_index(tasks@, id@) == Some(i as int) && i < tasks@.len(),
            None => task_index(tasks@, id@) is None,
        },
{
    let mut i: usize = 0;
    while i < tasks.len()
        invariant
            i <= tasks.len(),
            task_index(tasks@.take(i as int), id@) is None,
        decreases tasks.len() - i,
    {
        assert(tasks@.take(i + 1).drop_last() =~= tasks@.take(i as int));
        if str_eq(tasks[i].id.as_str(), id) {
            proof {
                lemma_task_index_extends(tasks@, i + 1, id@);
            }
            return Some(i);
        }
        i += 1;
    }
    assert(tasks@.take(i as int) =~= tasks@);
    None
}

/// `artifacts` with `path` added unless already there.
pub open spec fn with_artifact(artifacts: Seq<Seq<char>>, path: Seq<char>) -> Seq<Seq<char>> {
    if artifacts.contains(path) {
        artifacts
    } else {
        artifacts.push(path)
    }
}

/// `artifacts` without any copy of `path`.
pub open spec fn without_artifact(artifacts: Seq<Seq<char>>, path: Seq<char>) -> Seq<Seq<char>>
    decreases artifacts.len(),
{
    if artifacts.len() == 0 {
        Seq::empty()
    } else {
        let rest = without_artifact(artifacts.drop_last(), path);
        if artifacts.last() == path {
            rest
        } else {
            rest.push(artifacts.last())
        }
    }
}

/// What an artifact command did.
#[derive(Debug, Clone, Copy, PartialEq, Eq, Structural)]
pub enum ArtifactChange {
    Registered,
    AlreadyRegistered,
    Removed,
}

pub open spec fn not_found_text(id: Seq<char>) -> Seq<char> {
    "Task '"@ + id + "' not found"@
}

/// Registers an artifact for a task; registering one twice keeps one copy.
pub fn run_add(tasks: &mut Vec<ArtifactTask>, task_id: &str, artifact_path: &str) -> (r: Result<
    ArtifactChange,
    String,
>)
    ensures
        match task_index(old(tasks)@, task_id@) {
            None => r matches Err(m) && m@ == not_found_text(task_id@) && final(tasks)@ == old(
                tasks,
            )@,
            Some(i) => {
                &&& final(tasks)@.len() == old(tasks)@.len()
                &&& forall|k: int|
                    0 <= k < old(tasks)@.len() && k != i ==> #[trigger] final(tasks)@[k] == old(
                        tasks,
                    )@[k]
                &&& final(tasks)@[i].id@ == old(tasks)@[i].id@
                &&& final(tasks)@[i].title@ == old(tasks)@[i].title@
                &&& views(final(tasks)@[i].deliverables@) == views(old(tasks)@[i].deliverables@)
                &&& views(final(tasks)@[i].artifacts@) == with_artifact(
                    views(old(tasks)@[i].artifacts@),
                    artifact_path@,
                )
                &&& r == if views(old(tasks)@[i].artifacts@).contains(artifact_path@) {
                    Ok::<ArtifactChange, String>(ArtifactChange::AlreadyRegistered)
                } else {
                    Ok(ArtifactChange::Registered)
                }
            },
        },
{
    match find_task(tasks, task_id) {
        None => {
            let mut m = owned("Task '");
            m.append(task_id);
            m.append("' not found");
            Err(m)
        },
        Some(i) => {
            if strings_contain(&tasks[i].artifacts, artifact_path) {
                return Ok(ArtifactChange::AlreadyRegistered);
            }
            let mut artifacts = clone_strings(&tasks[i].artifacts);
            let ghost before = artifacts@;
            let p = owned(artifact_path);
            artifacts.push(p);
            proof {
                lemma_views_push(before, p);
            }
            let t = ArtifactTask {
                id: owned(tasks[i].id.as_str()),
                title: owned(tasks[i].title.as_str()),
                deliverables: clone_strings(&tasks[i].deliverables),
                artifacts,
            };
            tasks.set(i, t);
            Ok(ArtifactChange::Registered)
        },
    }
}

/// Removes every copy of an artifact from a task; removing one that is not
/// there is an error and changes nothing.
pub fn run_remove(tasks: &mut Vec<ArtifactTask>, task_id: &str, artifact_path: &str) -> (r: Result<
    ArtifactChange,
    String,
>)
    ensures
        match task_index(old(tasks)@, task_id@) {
            None => r matches Err(m) && m@ == not_found_text(task_id@) && final(tasks)@ == old(
                tasks,
            )@,
            Some(i) => if views(old(tasks)@[i].artifacts@).contains(artifact_path@) {
                &&& r == Ok::<ArtifactChange, String>(ArtifactChange::Removed)
                &&& final(tasks)@.len() == old(tasks)@.len()
                &&& forall|k: int|
                    0 <= k < old(tasks)@.len() && k != i ==> #[trigger] final(tasks)@[k] == old(
                        tasks,
                    )@[k]
                &&& final(tasks)@[i].id@ == old(tasks)@[i].id@
                &&& final(tasks)@[i].title@ == old(tasks)@[i].title@
                &&& views(final(tasks)@[i].deliverables@) == views(old(tasks)@[i].deliverables@)
                &&& views(final(tasks)@[i].artifacts@) == without_artifact(
                    views(old(tasks)@[i].artifacts@),
                    artifact_path@,
                )
            } else {
                &&& r matches Err(m) && m@ == "Artifact '"@ + artifact_path@ + "' not found on task '"@
                    + task_id@ + "'"@
                &&& final(tasks)@ == old(tasks)@
            },
        },
{
    match find_task(tasks, task_id) {
        None => {
            let mut m = owned("Task '");
            m.append(task_id);
            m.append("' not found");
            Err(m)
        },
        Some(i) => {
            if !strings_contain(&tasks[i].artifacts, artifact_path) {
                let mut m = owned("Artifact '");
                m.append(artifact_path);
                m.append("' not found on task '");
                m.append(task_id);
                m.append("'");
                return Err(m);
            }
            let ghost all = views(tasks@[i as int].artifacts@);
            let source = &tasks[i].artifacts;
            let mut kept: Vec<String> = Vec::new();
            let mut k: usize = 0;
            while k < source.len()
                invariant
                    k <= source.len(),
                    views(source@) == all,
                    views(kept@) == without_artifact(all.take(k as int), artifact_path@),
                decreases source.len() - k,
            {
                proof {
                    assert(all.take(k + 1).drop_last() =~= all.take(k as int));
                }
                if !str_eq(source[k].as_str(), artifact_path) {
                    let ghost prev = kept@;
                    let x = owned(source[k].as_str());
                    kept.push(x);
                    proof {
                        lemma_views_push(prev, x);
                    }
                }
                k += 1;
            }
            assert(all.take(all.len() as int) =~= all);
            let t = ArtifactTask {
                id: owned(tasks[i].id.as_str()),
                title: owned(tasks[i].title.as_str()),
                deliverables: clone_strings(&tasks[i].deliverables),
                artifacts: kept,
            };
            tasks.set(i, t);
            Ok(ArtifactChange::Removed)
        },
    }
}


/// Adding an artifact twice is adding it once.
pub proof fn law_add_artifact_idempotent(artifacts: Seq<Seq<char>>, path: Seq<char>)
    ensures
        with_artifact(with_artifact(artifacts, path), path) == with_artifact(artifacts, path),
{
    if !artifacts.contains(path) {
        assert(artifacts.push(path)[artifacts.len() as int] == path);
    }
}

proof fn lemma_without_absent(artifacts: Seq<Seq<char>>, path: Seq<char>)
    requires
        !artifacts.contains(path),
    ensures
        without_artifact(artifacts, path) == artifacts,
    decreases artifacts.len(),
{
    if artifacts.len() > 0 {
        let d = artifacts.drop_last();
        assert(!d.contains(path)) by {
            if d.contains(path) {
                let k = choose|k: int| 0 <= k < d.len() && d[k] == path;
                assert(artifacts[k] == path);
            }
        }
        lemma_without_absent(d, path);
        assert(artifacts.last() != path) by {
            assert(artifacts[artifacts.len() - 1] == artifacts.last());
        }
        assert(d.push(artifacts.last()) =~= artifacts);
    }
}

/// Removing an artifact that was just registered (and was not there
/// before) gives back the list as it was.
pub proof fn law_remove_undoes_add(artifacts: Seq<Seq<char>>, path: Seq<char>)
    requires
        !artifacts.contains(path),
    ensures
        without_artifact(with_artifact(artifacts, path), path) == artifacts,
{
    lemma_without_absent(artifacts, path);
    assert(artifacts.push(path).drop_last() =~= artifacts);
}

/// After a removal no copy of the artifact is left.
pub proof fn law_removed_artifact_is_gone(artifacts: Seq<Seq<char>>, path: Seq<char>)
    ensures
        !without_artifact(artifacts, path).contains(path),
    decreases artifacts.len(),
{
    if artifacts.len() > 0 {
        law_removed_artifact_is_gone(artifacts.drop_last(), path);
        let rest = without_artifact(artifacts.drop_last(), path);
        if artifacts.last() != path {
            assert forall|k: int| 0 <= k < rest.len() + 1 implies rest.push(artifacts.last())[k]
                != path by {
                if k < rest.len() {
                    assert(rest.push(artifacts.last())[k] == rest[k]);
                }
            }
        }
    }
}

/// `"  " + x`, with `mark` when `other` holding `x` is `when`.
pub open spec fn marked(x: Seq<char>, other: Seq<Seq<char>>, when: bool, mark: Seq<char>) -> Seq<
    char,
> {
    "  "@ + x + if other.contains(x) == when {
        mark
    } else {
        Seq::empty()
    }
}

/// The artifact listing of a task: its expected deliverables (marked when
/// produced), then its artifacts (marked when not expected).
pub open spec fn artifact_listing(t: ArtifactTask) -> Seq<Seq<char>> {
    let d = views(t.deliverables@);
    let a = views(t.artifacts@);
    seq!["Task: "@ + t.id@ + " - "@ + t.title@, Seq::empty()] + (if d.len() > 0 {
        seq!["Expected deliverables:"@] + d.map_values(|x: Seq<char>| marked(x, a, true, " [produced]"@))
            + seq![Seq::empty()]
    } else {
        Seq::empty()
    }) + (if a.len() > 0 {
        seq!["Produced artifacts:"@] + a.map_values(|x: Seq<char>| marked(x, d, false, " [extra]"@))
    } else {
        seq!["No artifacts produced yet."@]
    })
}

fn push_line(out: &mut Vec<String>, line: String)
    ensures
        views(final(out)@) == views(old(out)@).push(line@),
{
    let ghost prev = out@;
    out.push(line);
    proof {
        lemma_views_push(prev, line);
    }
}

/// Appends each item as a listing line.
fn push_marked(
    out: &mut Vec<String>,
    items: &Vec<String>,
    other: &Vec<String>,
    when: bool,
    mark: &str,
)
    ensures
        views(final(out)@) == views(old(out)@) + views(items@).map_values(
            |x: Seq<char>| marked(x, views(other@), when, mark@),
        ),
{
    let ghost start = views(out@);
    let mut i: usize = 0;
    assert(views(items@).take(0).map_values(|x: Seq<char>| marked(x, views(other@), when, mark@))
        =~= Seq::<Seq<char>>::empty());
    while i < items.len()
        invariant
            i <= items.len(),
            views(out@) == start + views(items@).take(i as int).map_values(
                |x: Seq<char>| marked(x, views(other@), when, mark@),
            ),
        decreases items.len() - i,
    {
        let mut line = owned("  ");
        line.append(items[i].as_str());
        if strings_contain(other, items[i].as_str()) == when {
            line.append(mark);
        }
        assert(line@ == marked(items@[i as int]@, views(other@), when, mark@));
        push_line(out, line);
        proof {
            assert(views(items@).take(i + 1).map_values(
                |x: Seq<char>| marked(x, views(other@), when, mark@),
            ) =~= views(items@).take(i as int).map_values(
                |x: Seq<char>| marked(x, views(other@), when, mark@),
            ).push(marked(items@[i as int]@, views(other@), when, mark@)));
        }
        i += 1;
    }
    assert(views(items@).take(items@.len() as int) =~= views(items@));
}

/// The listing `wg artifact list` prints for a task.
pub fn run_list(tasks: &Vec<ArtifactTask>, task_id: &str) -> (r: Result<Vec<String>, String>)
    ensures
        match task_index(tasks@, task_id@) {
            None => r matches Err(m) && m@ == not_found_text(task_id@),
            Some(i) => r matches Ok(lines) && views(lines@) == artifact_listing(tasks@[i]),
        },
{
    match find_task(tasks, task_id) {
        None => {
            let mut m = owned("Task '");
            m.append(task_id);
            m.append("' not found");
            Err(m)
        },
        Some(i) => {
            let t = &tasks[i];
            let ghost d = views(t.deliverables@);
            let ghost a = views(t.artifacts@);
            let mut out: Vec<String> = Vec::new();
            let mut head = owned("Task: ");
            head.append(t.id.as_str());
            head.append(" - ");
            head.append(t.title.as_str());
            push_line(&mut out, head);
            push_line(&mut out, String::new());
            let ghost part1 = views(out@);
            if t.deliverables.len() > 0 {
                push_line(&mut out, owned("Expected deliverables:"));
                push_marked(&mut out, &t.deliverables, &t.artifacts, true, " [produced]");
                push_line(&mut out, String::new());
            }
            let ghost part2 = views(out@);
            if t.artifacts.len() > 0 {
                push_line(&mut out, owned("Produced artifacts:"));
                push_marked(&mut out, &t.artifacts, &t.deliverables, false, " [extra]");
            } else {
                push_line(&mut out, owned("No artifacts produced yet."));
            }
            proof {
                let dpart = if d.len() > 0 {
                    seq!["Expected deliverables:"@] + d.map_values(
                        |x: Seq<char>| marked(x, a, true, " [produced]"@),
                    ) + seq![Seq::<char>::empty()]
                } else {
                    Seq::<Seq<char>>::empty()
                };
                let apart = if a.len() > 0 {
                    seq!["Produced artifacts:"@] + a.map_values(
                        |x: Seq<char>| marked(x, d, false, " [extra]"@),
                    )
                } else {
                    seq!["No artifacts produced yet."@]
                };
                assert(part1 =~= seq!["Task: "@ + t.id@ + " - "@ + t.title@, Seq::<char>::empty()]);
                assert(part2 =~= part1 + dpart);
                assert(views(out@) =~= part2 + apart);
            }
            assert(views(out@) =~= artifact_listing(tasks@[i as int]));
            Ok(out)
        },
    }
}

// ---------------------------------------------------------------------------
// Questions
// ---------------------------------------------------------------------------

#[derive(Debug, Clone, Copy, PartialEq, Eq, Structural)]
pub enum QuestionStatus {
    Pending,
    Answered,
    Expired,
}

/// A question an agent asked about a task.
#[derive(Debug, Clone)]
pub struct Question {
    pub id: String,
    pub task_id: String,
    pub question: String,
    pub options: Vec<String>,
    pub status: QuestionStatus,
    pub answer: Option<String>,
}

pub open spec fn status_tag(s: QuestionStatus) -> Seq<char> {
    match s {
        QuestionStatus::Pending => "PENDING"@,
        QuestionStatus::Answered => "ANSWERED"@,
        QuestionStatus::Expired => "EXPIRED"@,
    }
}

/// The lines of one question in a listing.
pub open spec fn question_lines(q: Question) -> Seq<Seq<char>> {
    seq![
        "["@ + status_tag(q.status) + "] "@ + q.id@ + " (task: "@ + q.task_id@ + ") - "@
            + q.question@,
    ] + (if q.options@.len() > 0 {
        seq!["  Options: "@ + join_with(views(q.options@), ", "@)]
    } else {
        Seq::empty()
    }) + match q.answer {
        Some(a) => seq!["  Answer: "@ + a@],
        None => Seq::empty(),
    }
}

pub fn format_question(q: &Question) -> (lines: Vec<String>)
    ensures
        views(lines@) == question_lines(*q),
{
    let mut lines: Vec<String> = Vec::new();
    let mut head = owned("[");
    head.append(
        match q.status {
            QuestionStatus::Pending => "PENDING",
            QuestionStatus::Answered => "ANSWERED",
            QuestionStatus::Expired => "EXPIRED",
        },
    );
    head.append("] ");
    head.append(q.id.as_str());
    head.append(" (task: ");
    head.append(q.task_id.as_str());
    head.append(") - ");
    head.append(q.question.as_str());
    lines.push(head);
    if q.options.len() > 0 {
        let mut o = owned("  Options: ");
        let list = join_strings(&q.options, ", ");
        o.append(list.as_str());
        lines.push(o);
    }
    match &q.answer {
        Some(a) => {
            let mut l = owned("  Answer: ");
            l.append(a.as_str());
            lines.push(l);
        },
        None => {},
    }
    assert(views(lines@) =~= question_lines(*q));
    lines
}

/// What a poll for an answer does next.
#[derive(Debug, Clone)]
pub enum PollStep {
    /// Answered: print this.
    Answered(String),
    /// The timeout passed: fail with this.
    TimedOut(String),
    /// Ask again after the poll interval.
    Wait,
}

/// One poll: an answered question ends it; else a passed timeout fails it.
pub fn poll_step(question_id: &str, found: Option<&Question>, elapsed_secs: u64, timeout_secs: Option<u64>) -> (s:
    PollStep)
    ensures
        match found {
            Some(q) if q.status == QuestionStatus::Answered => s matches PollStep::Answered(t)
                && t@ == "Answer: "@ + match q.answer {
                Some(a) => a@,
                None => Seq::empty(),
            },
            _ => match timeout_secs {
                Some(t) if elapsed_secs >= t => s matches PollStep::TimedOut(m) && m@
                    == "Timeout waiting for answer to question '"@ + question_id@ + "'"@,
                _ => s is Wait,
            },
        },
{
    match found {
        Some(q) => {
            if q.status == QuestionStatus::Answered {
                let mut t = owned("Answer: ");
                match &q.answer {
                    Some(a) => t.append(a.as_str()),
                    None => {},
                }
                return PollStep::Answered(t);
            }
        },
        None => {},
    }
    match timeout_secs {
        Some(t) => {
            if elapsed_secs >= t {
                let mut m = owned("Timeout waiting for answer to question '");
                m.append(question_id);
                m.append("'");
                return PollStep::TimedOut(m);
            }
        },
        None => {},
    }
    PollStep::Wait
}

// ---------------------------------------------------------------------------
// What the ask commands print
// ---------------------------------------------------------------------------

fn push_out(out: &mut Vec<String>, line: String)
    ensures
        views(final(out)@) == views(old(out)@).push(line@),
{
    let ghost before = out@;
    out.push(line);
    proof {
        lemma_views_push(before, line);
    }
}

/// What `wg ask` prints for a new question.
pub fn question_created_lines(q: &Question) -> (lines: Vec<String>)
    ensures
        views(lines@) == seq!["Question "@ + q.id@ + " created for task '"@ + q.task_id@ + "'"@] + if q.options@.len()
            > 0 {
            seq!["Options: "@ + join_with(views(q.options@), ", "@)]
        } else {
            Seq::empty()
        },
{
    let mut lines: Vec<String> = Vec::new();
    let mut a = owned("Question ");
    a.append(q.id.as_str());
    a.append(" created for task '");
    a.append(q.task_id.as_str());
    a.append("'");
    push_out(&mut lines, a);
    if q.options.len() > 0 {
        let mut o = owned("Options: ");
        let list = join_strings(&q.options, ", ");
        o.append(list.as_str());
        push_out(&mut lines, o);
    }
    assert(views(lines@) =~= seq!["Question "@ + q.id@ + " created for task '"@ + q.task_id@ + "'"@]
        + if q.options@.len() > 0 {
        seq!["Options: "@ + join_with(views(q.options@), ", "@)]
    } else {
        Seq::<Seq<char>>::empty()
    });
    lines
}

/// What `wg answer` prints.
pub fn answered_line(question_id: &str, task_id: &str, answer: &str) -> (m: String)
    ensures
        m@ == "Answered question "@ + question_id@ + " for task '"@ + task_id@ + "': "@ + answer@,
{
    let mut m = owned("Answered question ");
    m.append(question_id);
    m.append(" for task '");
    m.append(task_id);
    m.append("': ");
    m.append(answer);
    m
}

pub open spec fn questions_text(qs: Seq<Question>) -> Seq<Seq<char>>
    decreases qs.len(),
{
    if qs.len() == 0 {
        Seq::empty()
    } else {
        questions_text(qs.drop_last()) + question_lines(qs.last())
    }
}

/// What `wg ask --list` prints: each question, or a notice when there is
/// none (for the task, or pending at all).
pub fn question_list_lines(task_id: Option<&str>, qs: &Vec<Question>) -> (lines: Vec<String>)
    ensures
        views(lines@) == if qs@.len() == 0 {
            match task_id {
                Some(t) => seq!["No questions for task '"@ + t@ + "'"@],
                None => seq!["No pending questions"@],
            }
        } else {
            questions_text(qs@)
        },
{
    let mut lines: Vec<String> = Vec::new();
    if qs.len() == 0 {
        match task_id {
            Some(t) => {
                let mut m = owned("No questions for task '");
                m.append(t);
                m.append("'");
                push_out(&mut lines, m);
            },
            None => push_out(&mut lines, owned("No pending questions")),
        }
        assert(views(lines@) =~= match task_id {
            Some(t) => seq!["No questions for task '"@ + t@ + "'"@],
            None => seq!["No pending questions"@],
        });
        return lines;
    }
    let mut k: usize = 0;
    assert(qs@.take(0) =~= Seq::<Question>::empty());
    assert(views(lines@) =~= Seq::<Seq<char>>::empty());
    while k < qs.len()
        invariant
            k <= qs@.len(),
            views(lines@) == questions_text(qs@.take(k as int)),
        decreases qs@.len() - k,
    {
        assert(qs@.take(k + 1).drop_last() =~= qs@.take(k as int));
        assert(qs@.take(k + 1).last() == qs@[k as int]);
        let ql = format_question(&qs[k]);
        let ghost before = views(lines@);
        let mut j: usize = 0;
        while j < ql.len()
            invariant
                j <= ql@.len(),
                views(lines@) == before + views(ql@).take(j as int),
            decreases ql@.len() - j,
        {
            push_out(&mut lines, owned(ql[j].as_str()));
            assert(views(ql@).take(j + 1) =~= views(ql@).take(j as int).push(ql@[j as int]@));
            assert(before + views(ql@).take(j + 1) =~= (before + views(ql@).take(j as int)).push(
                ql@[j as int]@,
            ));
            j += 1;
        }
        assert(views(ql@).take(ql@.len() as int) =~= views(ql@));
        k += 1;
    }
    assert(qs@.take(qs@.len() as int) =~= qs@);
    lines
}

/// What `wg ask --check` prints, and whether the question is answered.
/// `status_text` is how the question's status displays.
pub fn check_report(question_id: &str, found: Option<&Question>, status_text: &str) -> (r: (
    String,
    bool,
))
    ensures
        match found {
            Some(q) => if q.status == QuestionStatus::Answered {
                r.1 && r.0@ == "Question "@ + q.id@ + " is answered: "@ + match q.answer {
                    Some(a) => a@,
                    None => Seq::empty(),
                }
            } else {
                !r.1 && r.0@ == "Question "@ + q.id@ + " is "@ + status_text@
            },
            None => !r.1 && r.0@ == "Question '"@ + question_id@ + "' not found"@,
        },
{
    match found {
        Some(q) => {
            let mut m = owned("Question ");
            m.append(q.id.as_str());
            if q.status == QuestionStatus::Answered {
                m.append(" is answered: ");
                match &q.answer {
                    Some(a) => m.append(a.as_str()),
                    None => {
                        assert(m@ + Seq::<char>::empty() =~= m@);
                    },
                }
                (m, true)
            } else {
                m.append(" is ");
                m.append(status_text);
                (m, false)
            }
        },
        None => {
            let mut m = owned("Question '");
            m.append(question_id);
            m.append("' not found");
            (m, false)
        },
    }
}

} // verus!
