//! Chats as graph entities: truthful runtime status, reload identity and
//! delta, and the naming rules of forks and model write-backs.
use vstd::prelude::*;
use crate::text::{
    trim, starts_with, decimal, lemma_trim_shape, lemma_trim_idempotent, lemma_trim_of_bare, trim_str, str_starts_with, owned, push_decimal, str_eq,
    vec_starts_with, chars_of, string_of_range, ends_with, vec_eq, join_with,
};
use crate::archive::{TaskStatus, views, opt_view, strings_contain};
use crate::order::{stable_sort_indices, is_permutation_of_range, sorted_stably};

verus! {

/// Liveness category for `wg chat list` / `show`.
#[derive(Clone, Copy, Debug, PartialEq, Eq, Structural)]
pub enum ChatRuntimeStatus {
    /// Chat task has a concrete live runtime owner: a daemon handler lock or
    /// a persistent TUI-owned tmux pane. The historical label remains
    /// `supervised` for output compatibility.
    Supervised,
    /// Chat task exists in graph; service daemon is NOT running.
    /// Inbox messages will be queued until the daemon is started.
    Dormant,
    /// Chat task carries the `archived` tag after lifecycle retirement.
    Archived,
    /// Chat task is abandoned.
    Deleted,
    /// Chat task exists, daemon is up, but the supervisor has no
    /// active handler entry (e.g. after `wg chat stop`).
    Stopped,
}

impl ChatRuntimeStatus {
    pub open spec fn label_spec(&self) -> Seq<char> {
        match self {
            ChatRuntimeStatus::Supervised => "supervised"@,
            ChatRuntimeStatus::Dormant => "dormant"@,
            ChatRuntimeStatus::Archived => "archived"@,
            ChatRuntimeStatus::Deleted => "deleted"@,
            ChatRuntimeStatus::Stopped => "stopped"@,
        }
    }

    pub fn label(&self) -> (s: &'static str)
        ensures
            s@ == self.label_spec(),
    {
        match self {
            ChatRuntimeStatus::Supervised => "supervised",
            ChatRuntimeStatus::Dormant => "dormant",
            ChatRuntimeStatus::Archived => "archived",
            ChatRuntimeStatus::Deleted => "deleted",
            ChatRuntimeStatus::Stopped => "stopped",
        }
    }
}

/// The fields of a chat task that status classification reads.
#[derive(Clone, Debug)]
pub struct ChatTask {
    pub id: String,
    pub status: TaskStatus,
    pub tags: Vec<String>,
    /// The numeric chat id that the task id encodes (`.chat-N`), if any.
    pub chat_id: Option<u32>,
}

pub open spec fn has_tag(tags: Seq<String>, tag: Seq<char>) -> bool {
    views(tags).contains(tag)
}

/// The status of a chat task given the daemon state and the ids the
/// supervisor reports live.
pub open spec fn classify_spec(t: ChatTask, daemon_running: bool, supervised: Seq<u32>) -> ChatRuntimeStatus {
    if t.status == TaskStatus::Abandoned {
        ChatRuntimeStatus::Deleted
    } else if has_tag(t.tags@, "archived"@) {
        ChatRuntimeStatus::Archived
    } else {
        match t.chat_id {
            None => ChatRuntimeStatus::Dormant,
            Some(id) => if !daemon_running {
                ChatRuntimeStatus::Dormant
            } else if supervised.contains(id) {
                ChatRuntimeStatus::Supervised
            } else {
                ChatRuntimeStatus::Stopped
            },
        }
    }
}

fn u32s_contain(v: &Vec<u32>, x: u32) -> (b: bool)
    ensures
        b == v@.contains(x),
{
    let mut i: usize = 0;
    while i < v.len()
        invariant
            i <= v.len(),
            forall|k: int| 0 <= k < i ==> v@[k] != x,
        decreases v.len() - i,
    {
        if v[i] == x {
            return true;
        }
        i += 1;
    }
    false
}

/// Categorize a chat task's runtime status given current daemon state.
pub fn classify_chat_task(t: &ChatTask, daemon_running: bool, supervised: &Vec<u32>) -> (s:
    ChatRuntimeStatus)
    ensures
        s == classify_spec(*t, daemon_running, supervised@),
{
    if t.status == TaskStatus::Abandoned {
        return ChatRuntimeStatus::Deleted;
    }
    if strings_contain(&t.tags, "archived") {
        return ChatRuntimeStatus::Archived;
    }
    let id = match t.chat_id {
        Some(n) => n,
        None => {
            return ChatRuntimeStatus::Dormant;
        },
    };
    if !daemon_running {
        return ChatRuntimeStatus::Dormant;
    }
    if u32s_contain(supervised, id) {
        ChatRuntimeStatus::Supervised
    } else {
        ChatRuntimeStatus::Stopped
    }
}

/// Promote a dormant/stopped classification when a concrete runtime owner is
/// live. A TUI-owned tmux pane remains live even when the daemon is down and
/// vendor panes do not hold `.handler.pid`, so daemon state alone cannot be
/// the liveness authority. Archived/deleted chats remain terminal.
pub open spec fn refine_spec(status: ChatRuntimeStatus, runtime_live: bool) -> ChatRuntimeStatus {
    if (status == ChatRuntimeStatus::Stopped || status == ChatRuntimeStatus::Dormant) && runtime_live {
        ChatRuntimeStatus::Supervised
    } else {
        status
    }
}

pub fn refine_status_with_runtime(status: ChatRuntimeStatus, runtime_live: bool) -> (s:
    ChatRuntimeStatus)
    ensures
        s == refine_spec(status, runtime_live),
{
    match status {
        ChatRuntimeStatus::Stopped | ChatRuntimeStatus::Dormant => {
            if runtime_live {
                ChatRuntimeStatus::Supervised
            } else {
                status
            }
        },
        _ => status,
    }
}

/// Runtime evidence never revives a terminal chat, and a live runtime always
/// leaves a chat supervised or terminal.
pub proof fn law_runtime_never_revives_terminal(status: ChatRuntimeStatus, runtime_live: bool)
    ensures
        (status == ChatRuntimeStatus::Archived || status == ChatRuntimeStatus::Deleted) ==> refine_spec(
            status,
            runtime_live,
        ) == status,
        runtime_live ==> refine_spec(status, runtime_live) != ChatRuntimeStatus::Stopped
            && refine_spec(status, runtime_live) != ChatRuntimeStatus::Dormant,
{
}

/// Whether the service daemon is up: its state file records a pid, and
/// that process is alive.
pub fn service_is_running(recorded_pid: Option<u32>, pid_alive: bool) -> (b: bool)
    ensures
        b == (recorded_pid is Some && pid_alive),
{
    match recorded_pid {
        Some(_) => pid_alive,
        None => false,
    }
}

/// One entry of the daemon's chat listing.
#[derive(Clone, Copy, Debug)]
pub struct CoordinatorEntry {
    pub runtime_live: Option<bool>,
    pub coordinator_id: Option<u64>,
}

/// The chat ids the daemon reports with a live runtime, in listing order;
/// ids wrap to 32 bits as a numeric cast does.
pub open spec fn live_ids(entries: Seq<CoordinatorEntry>) -> Seq<u32>
    decreases entries.len(),
{
    if entries.len() == 0 {
        Seq::empty()
    } else {
        let rest = live_ids(entries.drop_last());
        let e = entries.last();
        if e.runtime_live == Some(true) && e.coordinator_id is Some {
            rest.push((e.coordinator_id.unwrap() % 0x1_0000_0000) as u32)
        } else {
            rest
        }
    }
}

/// The supervised chat ids from the daemon's listing.
pub fn supervised_chat_ids(entries: &Vec<CoordinatorEntry>) -> (ids: Vec<u32>)
    ensures
        ids@ == live_ids(entries@),
{
    let mut ids: Vec<u32> = Vec::new();
    let mut i: usize = 0;
    while i < entries.len()
        invariant
            i <= entries.len(),
            ids@ == live_ids(entries@.take(i as int)),
        decreases entries.len() - i,
    {
        assert(entries@.take(i + 1).drop_last() =~= entries@.take(i as int));
        let e = entries[i];
        if e.runtime_live == Some(true) {
            if let Some(n) = e.coordinator_id {
                ids.push((n % 0x1_0000_0000) as u32);
            }
        }
        i += 1;
    }
    assert(entries@.take(entries.len() as int) =~= entries@);
    ids
}

// ---------------------------------------------------------------------------
// Reload identity
// ---------------------------------------------------------------------------

/// Identity of one executable: path, mtime, size, and a content digest.
/// `None` fields mean the file could not be inspected.
#[derive(Clone, Debug)]
pub struct BinaryIdentity {
    pub path: String,
    pub mtime_unix: Option<u64>,
    pub size_bytes: Option<u64>,
    pub digest: Option<String>,
}

/// A handler's process identity, captured before/after a reload.
#[derive(Clone, Debug)]
pub struct HandlerIdentity {
    pub source: String,
    pub pid: Option<u32>,
    pub started_at: Option<String>,
    pub live: bool,
}

impl HandlerIdentity {
    /// No handler owns the chat.
    pub fn none() -> (h: Self)
        ensures
            h.source@ == "none"@,
            h.pid is None,
            h.started_at is None,
            !h.live,
    {
        HandlerIdentity { source: owned("none"), pid: None, started_at: None, live: false }
    }
}

/// The observable identity of a chat and its runtime.
#[derive(Clone, Debug)]
pub struct ChatReloadIdentity {
    pub chat_id: u32,
    pub executor: Option<String>,
    pub model: Option<String>,
    pub wg_binary: Option<BinaryIdentity>,
    pub pi_binary: Option<BinaryIdentity>,
    pub plugin_compat: String,
    pub plugin_source: String,
    pub plugin_entry: String,
    pub embed_digest: String,
    pub cache_digest: Option<String>,
    pub cache_state: String,
    pub session_file: Option<String>,
    pub session_message_count: Option<usize>,
    pub handler: HandlerIdentity,
}

/// The before→after delta `wg chat reload` prints.
#[derive(Clone, Debug)]
pub struct ChatReloadDelta {
    pub wg_binary_changed: bool,
    pub pi_binary_changed: bool,
    pub plugin_digest_changed: bool,
    pub session_file_preserved: bool,
    pub message_count_before: Option<usize>,
    pub message_count_after: Option<usize>,
    pub handler_replaced: bool,
}

pub open spec fn binary_view(b: BinaryIdentity) -> (Seq<char>, Option<u64>, Option<u64>, Option<Seq<char>>) {
    (b.path@, b.mtime_unix, b.size_bytes, opt_view(b.digest))
}

pub open spec fn opt_binary_view(b: Option<BinaryIdentity>) -> Option<(Seq<char>, Option<u64>, Option<u64>, Option<Seq<char>>)> {
    match b {
        Some(x) => Some(binary_view(x)),
        None => None,
    }
}

pub open spec fn handler_view(h: HandlerIdentity) -> (Seq<char>, Option<u32>, Option<Seq<char>>, bool) {
    (h.source@, h.pid, opt_view(h.started_at), h.live)
}

/// Whether two optional strings are equal.
pub fn opt_str_eq(a: &Option<String>, b: &Option<String>) -> (r: bool)
    ensures
        r == (opt_view(*a) == opt_view(*b)),
{
    match (a, b) {
        (Some(x), Some(y)) => str_eq(x.as_str(), y.as_str()),
        (None, None) => true,
        _ => false,
    }
}

fn opt_u64_eq(a: Option<u64>, b: Option<u64>) -> (r: bool)
    ensures
        r == (a == b),
{
    match (a, b) {
        (Some(x), Some(y)) => x == y,
        (None, None) => true,
        _ => false,
    }
}

fn binary_eq(a: &Option<BinaryIdentity>, b: &Option<BinaryIdentity>) -> (r: bool)
    ensures
        r == (opt_binary_view(*a) == opt_binary_view(*b)),
{
    match (a, b) {
        (Some(x), Some(y)) => str_eq(x.path.as_str(), y.path.as_str()) && opt_u64_eq(
            x.mtime_unix,
            y.mtime_unix,
        ) && opt_u64_eq(x.size_bytes, y.size_bytes) && opt_str_eq(&x.digest, &y.digest),
        (None, None) => true,
        _ => false,
    }
}

/// Whether two handler identities are the same generation.
pub fn handler_eq(a: &HandlerIdentity, b: &HandlerIdentity) -> (r: bool)
    ensures
        r == (handler_view(*a) == handler_view(*b)),
{
    let pid_eq = match (a.pid, b.pid) {
        (Some(x), Some(y)) => x == y,
        (None, None) => true,
        _ => false,
    };
    str_eq(a.source.as_str(), b.source.as_str()) && pid_eq && opt_str_eq(
        &a.started_at,
        &b.started_at,
    ) && a.live == b.live
}

/// `d` compares the captures `before` and `after`: each part changed when
/// it differs, the session is preserved when it exists and is the same
/// path on both sides, and the handler was replaced when its identity
/// differs.
pub open spec fn is_reload_delta(d: ChatReloadDelta, before: ChatReloadIdentity, after: ChatReloadIdentity) -> bool {
    &&& d.wg_binary_changed == (opt_binary_view(before.wg_binary) != opt_binary_view(after.wg_binary))
    &&& d.pi_binary_changed == (opt_binary_view(before.pi_binary) != opt_binary_view(after.pi_binary))
    &&& d.plugin_digest_changed == (opt_view(before.cache_digest) != opt_view(after.cache_digest))
    &&& d.session_file_preserved == (before.session_file is Some && opt_view(before.session_file)
        == opt_view(after.session_file))
    &&& d.message_count_before == before.session_message_count
    &&& d.message_count_after == after.session_message_count
    &&& d.handler_replaced == (handler_view(before.handler) != handler_view(after.handler))
}

/// Compare two captured identities. `session_file_preserved` requires the
/// same path on both sides; message count is informational.
pub fn compute_reload_delta(before: &ChatReloadIdentity, after: &ChatReloadIdentity) -> (d:
    ChatReloadDelta)
    ensures
        is_reload_delta(d, *before, *after),
{
    ChatReloadDelta {
        wg_binary_changed: !binary_eq(&before.wg_binary, &after.wg_binary),
        pi_binary_changed: !binary_eq(&before.pi_binary, &after.pi_binary),
        plugin_digest_changed: !opt_str_eq(&before.cache_digest, &after.cache_digest),
        session_file_preserved: before.session_file.is_some() && opt_str_eq(
            &before.session_file,
            &after.session_file,
        ),
        message_count_before: before.session_message_count,
        message_count_after: after.session_message_count,
        handler_replaced: !handler_eq(&before.handler, &after.handler),
    }
}

/// A reload of an unchanged runtime reports nothing as changed or replaced:
/// the delta of two identical captures has the wg binary, the pi binary and
/// the plugin digest unchanged, the handler not replaced, and the session
/// preserved exactly when a session file exists.
pub proof fn law_reload_delta_of_identical_capture(
    before: ChatReloadIdentity,
    after: ChatReloadIdentity,
    d: ChatReloadDelta,
)
    requires
        opt_binary_view(before.wg_binary) == opt_binary_view(after.wg_binary),
        opt_binary_view(before.pi_binary) == opt_binary_view(after.pi_binary),
        opt_view(before.cache_digest) == opt_view(after.cache_digest),
        opt_view(before.session_file) == opt_view(after.session_file),
        handler_view(before.handler) == handler_view(after.handler),
        is_reload_delta(d, before, after),
    ensures
        !d.wg_binary_changed,
        !d.pi_binary_changed,
        !d.plugin_digest_changed,
        !d.handler_replaced,
        d.session_file_preserved == before.session_file is Some,
{
}

pub open spec fn changed_label_spec(changed: bool) -> Seq<char> {
    if changed {
        "CHANGED"@
    } else {
        "unchanged"@
    }
}

pub fn changed_label(changed: bool) -> (s: &'static str)
    ensures
        s@ == changed_label_spec(changed),
{
    if changed {
        "CHANGED"
    } else {
        "unchanged"
    }
}

/// `<source>:pid=<pid> started_at=<started_at or ?>`, or `none` without a pid.
pub open spec fn handler_text(h: HandlerIdentity) -> Seq<char> {
    match h.pid {
        Some(pid) => h.source@ + ":pid="@ + decimal(pid as nat) + " started_at="@ + match h.started_at {
            Some(s) => s@,
            None => "?"@,
        },
        None => "none"@,
    }
}

pub fn format_handler_identity(h: &HandlerIdentity) -> (s: String)
    ensures
        s@ == handler_text(*h),
{
    match h.pid {
        Some(pid) => {
            let mut s = owned(h.source.as_str());
            s.append(":pid=");
            push_decimal(&mut s, pid as u64);
            s.append(" started_at=");
            match &h.started_at {
                Some(t) => s.append(t.as_str()),
                None => s.append("?"),
            }
            s
        },
        None => owned("none"),
    }
}

/// Whether a handler observed after a respawn is a new live generation.
pub fn handler_replaced(last: &HandlerIdentity, before: &HandlerIdentity) -> (b: bool)
    ensures
        b == (last.live && handler_view(*last) != handler_view(*before)),
{
    last.live && !handler_eq(last, before)
}

// ---------------------------------------------------------------------------
// Gates and refusals
// ---------------------------------------------------------------------------

pub open spec fn session_missing_message(cid: u32) -> Seq<char> {
    "WG-CHAT-RELOAD-SESSION-MISSING: chat "@ + decimal(cid as nat)
        + " has no pi session transcript under its pi-sessions/ dir. A reload cannot preserve a conversation that has no session file. Send the chat a message first so pi creates its transcript, then retry `wg chat reload "@
        + decimal(cid as nat) + "`. The chat was left untouched."@
}

/// A reload must resume the same conversation: no transcript is a refusal.
pub fn session_file_gate(session_file: Option<&str>, cid: u32) -> (r: Result<(), String>)
    ensures
        session_file is Some <==> r is Ok,
        r matches Err(m) ==> m@ == session_missing_message(cid),
{
    if session_file.is_none() {
        let mut m = owned("WG-CHAT-RELOAD-SESSION-MISSING: chat ");
        push_decimal(&mut m, cid as u64);
        m.append(
            " has no pi session transcript under its pi-sessions/ dir. A reload cannot preserve a conversation that has no session file. Send the chat a message first so pi creates its transcript, then retry `wg chat reload ",
        );
        push_decimal(&mut m, cid as u64);
        m.append("`. The chat was left untouched.");
        return Err(m);
    }
    Ok(())
}

pub open spec fn pi_missing_message() -> Seq<char> {
    "interactive Pi executable `pi` was not found on PATH; no chat was created and no fallback executor was attempted"@
}

/// The interactive Pi console must exist before a chat is created for it.
pub fn validate_interactive_executor_binary(executor: Option<&str>, binary_found: bool) -> (r: Result<
    (),
    String,
>)
    ensures
        r is Err <==> (executor matches Some(e) && e@ == "pi"@ && !binary_found),
        r matches Err(m) ==> m@ == pi_missing_message(),
{
    let is_pi = match executor {
        Some(e) => str_eq(e, "pi"),
        None => false,
    };
    if is_pi && !binary_found {
        return Err(
            owned(
                "interactive Pi executable `pi` was not found on PATH; no chat was created and no fallback executor was attempted",
            ),
        );
    }
    Ok(())
}

/// Pi's native `provider:model-id` as WG's handler-first route; an already
/// handler-qualified `pi:...` route is kept.
pub open spec fn pi_writeback_spec(spec: Seq<char>) -> Seq<char> {
    if starts_with(trim(spec), "pi:"@) {
        trim(spec)
    } else {
        "pi:"@ + trim(spec)
    }
}

pub fn pi_model_writeback_spec(spec: &str) -> (r: String)
    ensures
        r@ == pi_writeback_spec(spec@),
{
    let trimmed = trim_str(spec);
    if str_starts_with(trimmed.as_str(), "pi:") {
        trimmed
    } else {
        let mut r = owned("pi:");
        r.append(trimmed.as_str());
        r
    }
}

/// Writing back a warm Pi route is idempotent: the route it records is
/// already handler-qualified, so writing it back again records it unchanged.
pub proof fn law_pi_writeback_idempotent(spec: Seq<char>)
    ensures
        pi_writeback_spec(pi_writeback_spec(spec)) == pi_writeback_spec(spec),
{
    let t = trim(spec);
    let p = "pi:"@;
    reveal_strlit("pi:");
    lemma_trim_shape(spec);
    if starts_with(t, p) {
        lemma_trim_idempotent(spec);
    } else {
        let w = p + t;
        assert(w.subrange(0, p.len() as int) =~= p);
        assert(w[0] == 'p');
        if t.len() > 0 {
            assert(w.last() == t.last());
        } else {
            assert(w.last() == ':');
        }
        lemma_trim_of_bare(w);
    }
}

/// A per-chat override write is needed unless the chat already records
/// exactly this executor and model.
pub open spec fn override_write_needed(
    current_executor: Option<Seq<char>>,
    current_model: Option<Seq<char>>,
    executor: Seq<char>,
    model: Seq<char>,
) -> bool {
    !(current_executor == Some(executor) && current_model == Some(model))
}

/// Whether a per-chat override write is needed: only when it changes.
pub fn model_override_changes(
    current_executor: &Option<String>,
    current_model: &Option<String>,
    executor: &str,
    model: &str,
) -> (b: bool)
    ensures
        b == override_write_needed(opt_view(*current_executor), opt_view(*current_model), executor@, model@),
{
    let same_exec = match current_executor {
        Some(e) => str_eq(e.as_str(), executor),
        None => false,
    };
    let same_model = match current_model {
        Some(m) => str_eq(m.as_str(), model),
        None => false,
    };
    !(same_exec && same_model)
}

/// Writing a model override is idempotent: once a chat records the
/// executor and model written, writing the same pair again is no change.
pub proof fn law_model_override_repeat_writes_nothing(executor: Seq<char>, model: Seq<char>)
    ensures
        !override_write_needed(Some(executor), Some(model), executor, model),
{
}

/// The error text of a refused daemon request.
pub fn request_error_text(error: Option<String>) -> (m: String)
    ensures
        m@ == match error {
            Some(e) => e@,
            None => "Unknown error"@,
        },
{
    match error {
        Some(e) => e,
        None => owned("Unknown error"),
    }
}


// ---------------------------------------------------------------------------
// Resume, fork and reload
// ---------------------------------------------------------------------------

/// Done, failed and abandoned tasks are terminal.
pub open spec fn is_terminal(s: TaskStatus) -> bool {
    s == TaskStatus::Done || s == TaskStatus::Failed || s == TaskStatus::Abandoned
}

/// The graph's display name of a status.
pub open spec fn status_text(s: TaskStatus) -> Seq<char> {
    match s {
        TaskStatus::Open => "open"@,
        TaskStatus::InProgress => "in-progress"@,
        TaskStatus::Blocked => "blocked"@,
        TaskStatus::Waiting => "waiting"@,
        TaskStatus::PendingValidation => "pending-validation"@,
        TaskStatus::PendingEval => "pending-eval"@,
        TaskStatus::Failed => "failed"@,
        TaskStatus::Done => "done"@,
        TaskStatus::Abandoned => "abandoned"@,
    }
}

pub(crate) fn status_name(s: TaskStatus) -> (n: &'static str)
    ensures
        n@ == status_text(s),
{
    match s {
        TaskStatus::Open => "open",
        TaskStatus::InProgress => "in-progress",
        TaskStatus::Blocked => "blocked",
        TaskStatus::Waiting => "waiting",
        TaskStatus::PendingValidation => "pending-validation",
        TaskStatus::PendingEval => "pending-eval",
        TaskStatus::Failed => "failed",
        TaskStatus::Done => "done",
        TaskStatus::Abandoned => "abandoned",
    }
}

/// Why a chat cannot be resumed, if it cannot: its task is missing, or
/// terminal, or archived.
pub open spec fn resume_refusal(task: Option<ChatTask>, cid: u32) -> Option<Seq<char>> {
    match task {
        None => Some("Chat task for id "@ + decimal(cid as nat) + " not found in graph"@),
        Some(t) => if is_terminal(t.status) || has_tag(t.tags@, "archived"@) {
            Some(
                "Cannot resume chat "@ + decimal(cid as nat) + ": authoritative task "@ + t.id@
                    + " is terminal ("@ + status_text(t.status) + ")"@ + if has_tag(
                    t.tags@,
                    "archived"@,
                ) {
                    " and archived"@
                } else {
                    Seq::empty()
                },
            )
        } else {
            None
        },
    }
}

pub open spec fn opt_task(t: Option<&ChatTask>) -> Option<ChatTask> {
    match t {
        Some(x) => Some(*x),
        None => None,
    }
}

/// Terminal graph state is authoritative: a missing, terminal or archived
/// chat task is never resumed.
pub fn validate_chat_resumable(task: Option<&ChatTask>, cid: u32) -> (r: Result<(), String>)
    ensures
        match r {
            Ok(()) => resume_refusal(opt_task(task), cid) is None,
            Err(m) => resume_refusal(opt_task(task), cid) == Some(m@),
        },
{
    match task {
        None => {
            let mut m = owned("Chat task for id ");
            push_decimal(&mut m, cid as u64);
            m.append(" not found in graph");
            Err(m)
        },
        Some(t) => {
            let archived = strings_contain(&t.tags, "archived");
            let terminal = t.status == TaskStatus::Done || t.status == TaskStatus::Failed
                || t.status == TaskStatus::Abandoned;
            if terminal || archived {
                let mut m = owned("Cannot resume chat ");
                push_decimal(&mut m, cid as u64);
                m.append(": authoritative task ");
                m.append(t.id.as_str());
                m.append(" is terminal (");
                m.append(status_name(t.status));
                m.append(")");
                if archived {
                    m.append(" and archived");
                }
                return Err(m);
            }
            Ok(())
        },
    }
}

/// A live runtime proves a resume only for a chat that may be resumed.
pub fn resume_runtime_proof_is_valid(task: Option<&ChatTask>, cid: u32, runtime_live: bool) -> (b:
    bool)
    ensures
        b == (runtime_live && resume_refusal(opt_task(task), cid) is None),
{
    runtime_live && validate_chat_resumable(task, cid).is_ok()
}

/// A terminal or archived chat stays unresumable whatever runtime evidence
/// is offered.
pub proof fn law_terminal_chat_never_resumes(task: ChatTask, cid: u32, runtime_live: bool)
    requires
        is_terminal(task.status) || has_tag(task.tags@, "archived"@),
    ensures
        resume_refusal(Some(task), cid) is Some,
{
}

/// The executor and model a chat resumes with: the per-chat overrides,
/// else what its task records.
pub fn reconstruct_resume_metadata(
    executor_override: Option<String>,
    model_override: Option<String>,
    task_executor: Option<String>,
    task_model: Option<String>,
) -> (r: (Option<String>, Option<String>))
    ensures
        opt_view(r.0) == match opt_view(executor_override) {
            Some(e) => Some(e),
            None => opt_view(task_executor),
        },
        opt_view(r.1) == match opt_view(model_override) {
            Some(m) => Some(m),
            None => opt_view(task_model),
        },
{
    let executor = match executor_override {
        Some(e) => Some(e),
        None => task_executor,
    };
    let model = match model_override {
        Some(m) => Some(m),
        None => task_model,
    };
    (executor, model)
}

/// Forking is for Pi chats: the resume metadata's executor, else the task's
/// preset, else Pi, must be `pi`.
pub fn fork_executor_gate(cid: u32, executor: Option<&str>, task_executor: Option<&str>) -> (r:
    Result<(), String>)
    ensures
        ({
            let effective = match executor {
                Some(e) => e@,
                None => match task_executor {
                    Some(t) => t@,
                    None => "pi"@,
                },
            };
            &&& r is Ok <==> effective == "pi"@
            &&& r matches Err(m) ==> m@ == "Chat fork currently supports Pi chats only (chat "@
                + decimal(cid as nat) + " runs "@ + effective
                + "). Fork `wg session` journals instead: `wg session fork chat-"@ + decimal(
                cid as nat,
            ) + "`."@
        }),
{
    let effective = match executor {
        Some(e) => e,
        None => match task_executor {
            Some(t) => t,
            None => "pi",
        },
    };
    if !str_eq(effective, "pi") {
        let mut m = owned("Chat fork currently supports Pi chats only (chat ");
        push_decimal(&mut m, cid as u64);
        m.append(" runs ");
        m.append(effective);
        m.append("). Fork `wg session` journals instead: `wg session fork chat-");
        push_decimal(&mut m, cid as u64);
        m.append("`.");
        return Err(m);
    }
    Ok(())
}

/// The fork's name: the one given, else `fork of chat-<cid>`.
pub fn fork_name(name: Option<&str>, cid: u32) -> (n: String)
    ensures
        n@ == match name {
            Some(x) => x@,
            None => "fork of chat-"@ + decimal(cid as nat),
        },
{
    match name {
        Some(x) => owned(x),
        None => {
            let mut n = owned("fork of chat-");
            push_decimal(&mut n, cid as u64);
            n
        },
    }
}

/// `_chat-<cid>.jsonl`, the suffix of a chat's transcript files.
pub fn transcript_suffix(cid: u32) -> (s: String)
    ensures
        s@ == "_chat-"@ + decimal(cid as nat) + ".jsonl"@,
{
    let mut s = owned("_chat-");
    push_decimal(&mut s, cid as u64);
    s.append(".jsonl");
    s
}

/// The fork's transcript file name: the source's stem (its name without
/// the source chat's suffix), then the fork's suffix.
pub fn fork_transcript_name(source_name: &str, source_cid: u32, fork_cid: u32) -> (n: String)
    ensures
        n@ == match crate::text::strip_suffix(source_name@, "_chat-"@ + decimal(source_cid as nat) + ".jsonl"@) {
            Some(stem) => stem,
            None => source_name@,
        } + "_chat-"@ + decimal(fork_cid as nat) + ".jsonl"@,
{
    let suffix = transcript_suffix(source_cid);
    let v = chars_of(source_name);
    let sv = chars_of(suffix.as_str());
    let mut n = if sv.len() <= v.len() && crate::text::vec_matches_at(&v, &sv, v.len() - sv.len()) {
        proof {
            assert(v@.subrange(v@.len() - sv@.len(), v@.len() as int) =~= sv@);
        }
        string_of_range(&v, 0, v.len() - sv.len())
    } else {
        proof {
            if sv@.len() <= v@.len() {
                assert(!(v@.subrange(v@.len() - sv@.len(), v@.len() as int) == sv@));
            }
        }
        owned(source_name)
    };
    let fork_suffix = transcript_suffix(fork_cid);
    n.append(fork_suffix.as_str());
    n
}

/// The wake cursor kept beside a transcript.
pub fn wake_cursor_name(transcript_name: &str) -> (n: String)
    ensures
        n@ == transcript_name@ + ".wg-wake-cursor.json"@,
{
    let mut n = owned(transcript_name);
    n.append(".wg-wake-cursor.json");
    n
}

fn str_ends_with(s: &str, p: &str) -> (b: bool)
    ensures
        b == crate::text::ends_with(s@, p@),
{
    let v = chars_of(s);
    let pv = chars_of(p);
    if pv.len() <= v.len() && crate::text::vec_matches_at(&v, &pv, v.len() - pv.len()) {
        proof {
            assert(v@.subrange(v@.len() - pv@.len(), v@.len() as int) =~= pv@);
        }
        true
    } else {
        proof {
            if pv@.len() <= v@.len() {
                assert(!(v@.subrange(v@.len() - pv@.len(), v@.len() as int) == pv@));
            }
        }
        false
    }
}

/// The transcripts in a fork's session directory that are not the seeded
/// one but carry the fork's suffix (an empty session the agent raced to
/// start): their positions, in order.
pub fn stray_fork_transcripts(names: &Vec<String>, fork_cid: u32, seeded: &str) -> (pos: Vec<usize>)
    ensures
        forall|a: int, b: int| 0 <= a < b < pos@.len() ==> pos@[a] < pos@[b],
        forall|k: int|
            0 <= k < names@.len() ==> (pos@.contains(k as usize) <==> (crate::text::ends_with(
                #[trigger] names@[k]@,
                "_chat-"@ + decimal(fork_cid as nat) + ".jsonl"@,
            ) && names@[k]@ != seeded@)),
        forall|a: int| 0 <= a < pos@.len() ==> pos@[a] < names@.len(),
{
    let suffix = transcript_suffix(fork_cid);
    let mut pos: Vec<usize> = Vec::new();
    let mut i: usize = 0;
    while i < names.len()
        invariant
            i <= names.len(),
            suffix@ == "_chat-"@ + decimal(fork_cid as nat) + ".jsonl"@,
            forall|a: int, b: int| 0 <= a < b < pos@.len() ==> pos@[a] < pos@[b],
            forall|a: int| 0 <= a < pos@.len() ==> pos@[a] < i,
            forall|k: int|
                0 <= k < i ==> (pos@.contains(k as usize) <==> (crate::text::ends_with(
                    #[trigger] names@[k]@,
                    suffix@,
                ) && names@[k]@ != seeded@)),
        decreases names.len() - i,
    {
        let stray = str_ends_with(names[i].as_str(), suffix.as_str()) && !str_eq(
            names[i].as_str(),
            seeded,
        );
        let ghost before = pos@;
        if stray {
            pos.push(i);
        }
        proof {
            assert forall|k: int| 0 <= k < i + 1 implies (pos@.contains(k as usize) <==> (
            crate::text::ends_with(#[trigger] names@[k]@, suffix@) && names@[k]@ != seeded@)) by {
                if k < i {
                    if pos@.contains(k as usize) {
                        let j = choose|j: int| 0 <= j < pos@.len() && pos@[j] == k as usize;
                        if j < before.len() {
                            assert(before[j] == k as usize);
                            assert(before.contains(k as usize));
                        }
                    }
                    if before.contains(k as usize) {
                        let j = choose|j: int| 0 <= j < before.len() && before[j] == k as usize;
                        assert(pos@[j] == k as usize);
                    }
                } else {
                    if stray {
                        assert(pos@[pos@.len() - 1] == i);
                    } else {
                        if pos@.contains(k as usize) {
                            let j = choose|j: int| 0 <= j < pos@.len() && pos@[j] == k as usize;
                            assert(pos@[j] < i);
                        }
                    }
                }
            }
        }
        i += 1;
    }
    pos
}

/// The chats `--all` reloads: chat tasks neither terminal nor archived,
/// by chat id, ascending and without repeats.
pub open spec fn reload_eligible(t: ChatTask) -> bool {
    !is_terminal(t.status) && !has_tag(t.tags@, "archived"@) && t.chat_id is Some
}

pub fn reload_targets(tasks: &Vec<ChatTask>) -> (ids: Vec<u32>)
    ensures
        forall|a: int, b: int| 0 <= a < b < ids@.len() ==> ids@[a] < ids@[b],
        forall|x: u32|
            ids@.contains(x) <==> exists|k: int|
                0 <= k < tasks@.len() && reload_eligible(#[trigger] tasks@[k]) && tasks@[k].chat_id
                    == Some(x),
{
    let mut ids: Vec<u32> = Vec::new();
    let mut i: usize = 0;
    while i < tasks.len()
        invariant
            i <= tasks.len(),
            forall|a: int, b: int| 0 <= a < b < ids@.len() ==> ids@[a] < ids@[b],
            forall|x: u32|
                ids@.contains(x) <==> exists|k: int|
                    0 <= k < i && reload_eligible(#[trigger] tasks@[k]) && tasks@[k].chat_id == Some(
                        x,
                    ),
        decreases tasks.len() - i,
    {
        let ghost head = ids@;
        let t = &tasks[i];
        let eligible = !(t.status == TaskStatus::Done || t.status == TaskStatus::Failed
            || t.status == TaskStatus::Abandoned) && !strings_contain(&t.tags, "archived")
            && t.chat_id.is_some();
        assert(eligible == reload_eligible(tasks@[i as int]));
        if eligible {
            let x = t.chat_id.unwrap();
            let mut pos: usize = 0;
            while pos < ids.len() && ids[pos] < x
                invariant
                    pos <= ids.len(),
                    forall|k: int| 0 <= k < pos ==> ids@[k] < x,
                decreases ids.len() - pos,
            {
                pos += 1;
            }
            if pos == ids.len() || ids[pos] != x {
                ids.insert(pos, x);
                proof {
                    assert(ids@ =~= head.insert(pos as int, x));
                    assert forall|a: int, b: int| 0 <= a < b < ids@.len() implies ids@[a]
                        < ids@[b] by {
                        if b < pos {
                            assert(ids@[a] == head[a] && ids@[b] == head[b]);
                        } else if b == pos {
                            assert(ids@[a] == head[a]);
                        } else if a < pos {
                            assert(ids@[a] == head[a] && ids@[b] == head[b - 1]);
                            assert(head[pos as int] >= x);
                            if b - 1 > pos {
                                assert(head[pos as int] < head[b - 1]);
                            }
                        } else if a == pos {
                            assert(ids@[b] == head[b - 1]);
                            assert(head[pos as int] > x);
                            if b - 1 > pos {
                                assert(head[pos as int] < head[b - 1]);
                            }
                        } else {
                            assert(ids@[a] == head[a - 1] && ids@[b] == head[b - 1]);
                        }
                    }
                    assert forall|y: u32| ids@.contains(y) <==> head.contains(y) || y == x by {
                        if ids@.contains(y) {
                            let k = choose|k: int| 0 <= k < ids@.len() && ids@[k] == y;
                            if k < pos {
                                assert(head[k] == y);
                            } else if k > pos {
                                assert(head[k - 1] == y);
                            }
                        }
                        if head.contains(y) {
                            let k = choose|k: int| 0 <= k < head.len() && head[k] == y;
                            if k < pos {
                                assert(ids@[k] == y);
                            } else {
                                assert(ids@[k + 1] == y);
                            }
                        }
                        if y == x {
                            assert(ids@[pos as int] == x);
                        }
                    }
                }
            } else {
                assert(ids@[pos as int] == x);
                assert(head.contains(x));
            }
        }
        proof {
            assert(forall|y: u32|
                ids@.contains(y) <==> head.contains(y) || (eligible && tasks@[i as int].chat_id
                    == Some(y)));
            assert forall|y: u32|
                ids@.contains(y) <==> exists|k: int|
                    0 <= k < i + 1 && reload_eligible(#[trigger] tasks@[k]) && tasks@[k].chat_id
                        == Some(y) by {
                if exists|k: int|
                    0 <= k < i + 1 && reload_eligible(#[trigger] tasks@[k]) && tasks@[k].chat_id
                        == Some(y) {
                    let k = choose|k: int|
                        0 <= k < i + 1 && reload_eligible(#[trigger] tasks@[k]) && tasks@[k].chat_id
                            == Some(y);
                    if k < i {
                        assert(head.contains(y));
                    }
                }
                if eligible && tasks@[i as int].chat_id == Some(y) {
                    assert(reload_eligible(tasks@[i as int]));
                }
                if head.contains(y) {
                    let k = choose|k: int|
                        0 <= k < i && reload_eligible(#[trigger] tasks@[k]) && tasks@[k].chat_id
                            == Some(y);
                    assert(0 <= k < i + 1 && reload_eligible(tasks@[k]));
                }
            }
        }
        i += 1;
    }
    ids
}

/// The refusal after some chats failed to reload: how many of how many,
/// and each failure.
pub fn reload_failure_message(failures: &Vec<(u32, String)>, reloaded: usize) -> (m: String)
    requires
        failures@.len() + reloaded <= u64::MAX,
    ensures
        m@ == decimal(failures@.len()) + " of "@ + decimal((reloaded + failures@.len()) as nat)
            + " chat(s) failed to reload. Refusals are loud and leave each chat resumable:\n"@
            + join_with(
            failures@.map_values(
                |f: (u32, String)| "chat "@ + decimal(f.0 as nat) + ": "@ + f.1@,
            ),
            "\n"@,
        ),
{
    let mut m = String::new();
    push_decimal(&mut m, failures.len() as u64);
    m.append(" of ");
    push_decimal(&mut m, reloaded as u64 + failures.len() as u64);
    m.append(" chat(s) failed to reload. Refusals are loud and leave each chat resumable:\n");
    let mut named: Vec<String> = Vec::new();
    let mut i: usize = 0;
    while i < failures.len()
        invariant
            i <= failures.len(),
            views(named@) == failures@.take(i as int).map_values(
                |f: (u32, String)| "chat "@ + decimal(f.0 as nat) + ": "@ + f.1@,
            ),
        decreases failures.len() - i,
    {
        let mut l = owned("chat ");
        push_decimal(&mut l, failures[i].0 as u64);
        l.append(": ");
        l.append(failures[i].1.as_str());
        let ghost prev = named@;
        named.push(l);
        proof {
            crate::archive::lemma_views_push(prev, l);
            assert(failures@.take(i + 1).map_values(
                |f: (u32, String)| "chat "@ + decimal(f.0 as nat) + ": "@ + f.1@,
            ) =~= failures@.take(i as int).map_values(
                |f: (u32, String)| "chat "@ + decimal(f.0 as nat) + ": "@ + f.1@,
            ).push("chat "@ + decimal(failures@[i as int].0 as nat) + ": "@ + failures@[i as int].1@));
        }
        i += 1;
    }
    assert(failures@.take(failures@.len() as int) =~= failures@);
    let list = crate::agency_push::join_strings(&named, "\n");
    m.append(list.as_str());
    m
}

// ---------------------------------------------------------------------------
// Showing one chat
// ---------------------------------------------------------------------------

/// A live handler: its pid and the label of its kind, when known.
#[derive(Clone, Debug)]
pub struct LiveHandler {
    pub pid: u32,
    pub kind: Option<String>,
}

/// The last runtime event observed: when, from where (as debug text), and
/// the stderr file it left, if any.
#[derive(Clone, Debug)]
pub struct RuntimeEvent {
    pub at: String,
    pub source: String,
    pub stderr_path: Option<String>,
}

/// What `wg chat show` reports of a chat.
#[derive(Clone, Debug)]
pub struct ChatShow {
    pub chat_id: u32,
    pub task_id: String,
    pub title: String,
    pub status: ChatRuntimeStatus,
    pub task_status: TaskStatus,
    pub executor: Option<String>,
    pub model: Option<String>,
    pub service_running: bool,
    pub handler: Option<LiveHandler>,
    pub tmux_session: String,
    pub tmux_live: bool,
    pub runtime_reason: Option<String>,
    pub last_event: Option<RuntimeEvent>,
    /// The last recovery decision (as debug text) and its attempt.
    pub recovery: Option<(String, Option<u64>)>,
}

pub open spec fn opt_line(prefix: Seq<char>, o: Option<String>) -> Seq<Seq<char>> {
    match o {
        Some(v) => seq![prefix + v@],
        None => Seq::empty(),
    }
}

pub open spec fn show_handler_text(c: ChatShow) -> Seq<char> {
    match c.handler {
        Some(h) => "  handler  : live pid="@ + decimal(h.pid as nat) + " kind="@ + match h.kind {
            Some(k) => k@,
            None => "unknown"@,
        },
        None => if c.tmux_live {
            "  handler  : live tmux="@ + c.tmux_session@
        } else {
            "  handler  : none"@
        },
    }
}

pub open spec fn runtime_text(c: ChatShow) -> Seq<char> {
    "  runtime  : "@ + match c.runtime_reason {
        Some(r) => r@,
        None => "no durable exit recorded"@,
    }
}

pub open spec fn event_lines(c: ChatShow) -> Seq<Seq<char>> {
    match c.last_event {
        Some(e) => seq!["  observed : "@ + e.at@ + " UTC ("@ + e.source@ + ")"@] + opt_line(
            "  stderr   : "@,
            e.stderr_path,
        ),
        None => Seq::empty(),
    }
}

pub open spec fn recovery_lines(c: ChatShow) -> Seq<Seq<char>> {
    match c.recovery {
        Some((d, attempt)) => seq![
            "  recovery : "@ + d@ + " attempt "@ + decimal(
                match attempt {
                    Some(a) => a as nat,
                    None => 0,
                },
            ),
        ],
        None => Seq::empty(),
    }
}

/// The text lines of `wg chat show`.
pub open spec fn show_text(c: ChatShow) -> Seq<Seq<char>> {
    seq![
        "Chat "@ + decimal(c.chat_id as nat),
        "  task     : "@ + c.task_id@,
        "  title    : "@ + c.title@,
        "  status   : "@ + c.status.label_spec(),
        "  task     : "@ + crate::task_ops::status_debug(c.task_status),
    ] + opt_line("  executor : "@, c.executor) + opt_line("  model    : "@, c.model) + seq![
        "  service  : "@ + if c.service_running {
            "running"@
        } else {
            "stopped"@
        },
        show_handler_text(c),
        runtime_text(c),
    ] + event_lines(c) + recovery_lines(c)
}

fn push_text(out: &mut Vec<String>, line: String)
    ensures
        views(final(out)@) == views(old(out)@).push(line@),
{
    let ghost before = out@;
    out.push(line);
    proof {
        crate::archive::lemma_views_push(before, line);
    }
}

fn push_opt_line(out: &mut Vec<String>, prefix: &str, o: &Option<String>)
    ensures
        views(final(out)@) == views(old(out)@) + opt_line(prefix@, *o),
{
    match o {
        Some(v) => {
            let mut l = owned(prefix);
            l.append(v.as_str());
            push_text(out, l);
        },
        None => {},
    }
    assert(views(out@) =~= views(old(out)@) + opt_line(prefix@, *o));
}

fn labelled(prefix: &str, value: &str) -> (l: String)
    ensures
        l@ == prefix@ + value@,
{
    let mut l = owned(prefix);
    l.append(value);
    l
}

fn handler_line(c: &ChatShow) -> (l: String)
    ensures
        l@ == show_handler_text(*c),
{
    match &c.handler {
        Some(h) => {
            let mut l = owned("  handler  : live pid=");
            push_decimal(&mut l, h.pid as u64);
            l.append(" kind=");
            match &h.kind {
                Some(k) => l.append(k.as_str()),
                None => l.append("unknown"),
            }
            l
        },
        None => if c.tmux_live {
            labelled("  handler  : live tmux=", c.tmux_session.as_str())
        } else {
            owned("  handler  : none")
        },
    }
}

fn runtime_line(c: &ChatShow) -> (l: String)
    ensures
        l@ == runtime_text(*c),
{
    match &c.runtime_reason {
        Some(r) => labelled("  runtime  : ", r.as_str()),
        None => labelled("  runtime  : ", "no durable exit recorded"),
    }
}

fn push_event_lines(out: &mut Vec<String>, c: &ChatShow)
    ensures
        views(final(out)@) == views(old(out)@) + event_lines(*c),
{
    match &c.last_event {
        Some(e) => {
            let mut l = owned("  observed : ");
            l.append(e.at.as_str());
            l.append(" UTC (");
            l.append(e.source.as_str());
            l.append(")");
            push_text(out, l);
            push_opt_line(out, "  stderr   : ", &e.stderr_path);
        },
        None => {},
    }
    assert(views(out@) =~= views(old(out)@) + event_lines(*c));
}

fn push_recovery_lines(out: &mut Vec<String>, c: &ChatShow)
    ensures
        views(final(out)@) == views(old(out)@) + recovery_lines(*c),
{
    match &c.recovery {
        Some((d, attempt)) => {
            let mut l = owned("  recovery : ");
            l.append(d.as_str());
            l.append(" attempt ");
            push_decimal(
                &mut l,
                match attempt {
                    Some(a) => *a,
                    None => 0,
                },
            );
            push_text(out, l);
        },
        None => {},
    }
    assert(views(out@) =~= views(old(out)@) + recovery_lines(*c));
}

/// The lines `wg chat show` prints.
pub fn show_lines(c: &ChatShow) -> (lines: Vec<String>)
    ensures
        views(lines@) == show_text(*c),
{
    let mut lines: Vec<String> = Vec::new();
    let mut head = owned("Chat ");
    push_decimal(&mut head, c.chat_id as u64);
    push_text(&mut lines, head);
    push_text(&mut lines, labelled("  task     : ", c.task_id.as_str()));
    push_text(&mut lines, labelled("  title    : ", c.title.as_str()));
    push_text(&mut lines, labelled("  status   : ", c.status.label()));
    push_text(
        &mut lines,
        labelled("  task     : ", crate::task_ops::status_debug_name(c.task_status)),
    );
    let ghost first = views(lines@);
    assert(first =~= seq![
        "Chat "@ + decimal(c.chat_id as nat),
        "  task     : "@ + c.task_id@,
        "  title    : "@ + c.title@,
        "  status   : "@ + c.status.label_spec(),
        "  task     : "@ + crate::task_ops::status_debug(c.task_status),
    ]);
    push_opt_line(&mut lines, "  executor : ", &c.executor);
    push_opt_line(&mut lines, "  model    : ", &c.model);
    let ghost with_opts = views(lines@);
    let service = labelled(
        "  service  : ",
        if c.service_running {
            "running"
        } else {
            "stopped"
        },
    );
    let ghost service_text = service@;
    push_text(&mut lines, service);
    push_text(&mut lines, handler_line(c));
    push_text(&mut lines, runtime_line(c));
    let ghost fixed = views(lines@);
    assert(fixed =~= with_opts + seq![service_text, show_handler_text(*c), runtime_text(*c)]);
    push_event_lines(&mut lines, c);
    push_recovery_lines(&mut lines, c);
    assert(views(lines@) =~= show_text(*c));
    lines
}

// ---------------------------------------------------------------------------
// Reporting a reload
// ---------------------------------------------------------------------------

pub open spec fn count_text(n: Option<usize>) -> Seq<char> {
    match n {
        Some(k) => decimal(k as nat),
        None => "?"@,
    }
}

pub open spec fn or_none_text(o: Option<String>) -> Seq<char> {
    match o {
        Some(v) => v@,
        None => "<none>"@,
    }
}

pub open spec fn cache_text(label: Seq<char>, i: ChatReloadIdentity) -> Seq<char> {
    label + "cache="@ + i.cache_state@ + " cache-digest="@ + or_none_text(i.cache_digest)
        + " embed-digest="@ + i.embed_digest@
}

/// The lines a reload prints: the plugin resolved, the identities before
/// and after, the session kept, and what changed.
pub open spec fn reload_outcome_text(
    chat_id: u32,
    plugin: (Seq<char>, Seq<char>, Seq<char>),
    b: ChatReloadIdentity,
    a: ChatReloadIdentity,
    d: ChatReloadDelta,
) -> Seq<Seq<char>> {
    seq![
        "Reloaded chat "@ + decimal(chat_id as nat) + "."@,
        "  plugin:   compat="@ + plugin.0 + " source="@ + plugin.1 + " entry="@ + plugin.2,
        cache_text("  before:   "@, b),
        cache_text("  after:    "@, a),
        "  handler:  "@ + handler_text(b.handler) + " -> "@ + handler_text(a.handler),
        "  session:  "@ + or_none_text(a.session_file) + " ("@ + count_text(a.session_message_count)
            + " messages)"@,
        "  delta:    wg-binary="@ + changed_label_spec(d.wg_binary_changed) + " pi-binary="@
            + changed_label_spec(d.pi_binary_changed) + " plugin-digest="@ + changed_label_spec(
            d.plugin_digest_changed,
        ) + " handler="@ + changed_label_spec(d.handler_replaced) + " session="@ + if d.session_file_preserved {
            "preserved"@
        } else {
            "NOT PRESERVED"@
        },
    ] + if d.message_count_before != d.message_count_after {
        seq![
            "            message count "@ + count_text(d.message_count_before) + " -> "@
                + count_text(d.message_count_after),
        ]
    } else {
        Seq::empty()
    }
}

fn count_of(n: Option<usize>) -> (s: String)
    ensures
        s@ == count_text(n),
{
    match n {
        Some(k) => {
            let mut s = String::new();
            push_decimal(&mut s, k as u64);
            s
        },
        None => owned("?"),
    }
}

fn or_none_of(o: &Option<String>) -> (s: String)
    ensures
        s@ == or_none_text(*o),
{
    match o {
        Some(v) => owned(v.as_str()),
        None => owned("<none>"),
    }
}

fn cache_line(label: &str, i: &ChatReloadIdentity) -> (l: String)
    ensures
        l@ == cache_text(label@, *i),
{
    let mut l = owned(label);
    l.append("cache=");
    l.append(i.cache_state.as_str());
    l.append(" cache-digest=");
    let d = or_none_of(&i.cache_digest);
    l.append(d.as_str());
    l.append(" embed-digest=");
    l.append(i.embed_digest.as_str());
    l
}

pub fn reload_outcome_lines(
    chat_id: u32,
    plugin_compat: &str,
    plugin_source: &str,
    plugin_entry: &str,
    before: &ChatReloadIdentity,
    after: &ChatReloadIdentity,
    delta: &ChatReloadDelta,
) -> (lines: Vec<String>)
    ensures
        views(lines@) == reload_outcome_text(
            chat_id,
            (plugin_compat@, plugin_source@, plugin_entry@),
            *before,
            *after,
            *delta,
        ),
{
    let mut lines: Vec<String> = Vec::new();
    let mut a = owned("Reloaded chat ");
    push_decimal(&mut a, chat_id as u64);
    a.append(".");
    push_text(&mut lines, a);
    let mut p = owned("  plugin:   compat=");
    p.append(plugin_compat);
    p.append(" source=");
    p.append(plugin_source);
    p.append(" entry=");
    p.append(plugin_entry);
    push_text(&mut lines, p);
    push_text(&mut lines, cache_line("  before:   ", before));
    push_text(&mut lines, cache_line("  after:    ", after));
    let mut h = owned("  handler:  ");
    let hb = format_handler_identity(&before.handler);
    h.append(hb.as_str());
    h.append(" -> ");
    let ha = format_handler_identity(&after.handler);
    h.append(ha.as_str());
    push_text(&mut lines, h);
    let mut se = owned("  session:  ");
    let f = or_none_of(&after.session_file);
    se.append(f.as_str());
    se.append(" (");
    let c = count_of(after.session_message_count);
    se.append(c.as_str());
    se.append(" messages)");
    push_text(&mut lines, se);
    let mut dl = owned("  delta:    wg-binary=");
    dl.append(changed_label(delta.wg_binary_changed));
    dl.append(" pi-binary=");
    dl.append(changed_label(delta.pi_binary_changed));
    dl.append(" plugin-digest=");
    dl.append(changed_label(delta.plugin_digest_changed));
    dl.append(" handler=");
    dl.append(changed_label(delta.handler_replaced));
    dl.append(" session=");
    dl.append(
        if delta.session_file_preserved {
            "preserved"
        } else {
            "NOT PRESERVED"
        },
    );
    push_text(&mut lines, dl);
    let same = match (delta.message_count_before, delta.message_count_after) {
        (Some(x), Some(y)) => x == y,
        (None, None) => true,
        _ => false,
    };
    if !same {
        let mut m = owned("            message count ");
        let cb = count_of(delta.message_count_before);
        m.append(cb.as_str());
        m.append(" -> ");
        let ca = count_of(delta.message_count_after);
        m.append(ca.as_str());
        push_text(&mut lines, m);
    }
    assert(views(lines@) =~= reload_outcome_text(
        chat_id,
        (plugin_compat@, plugin_source@, plugin_entry@),
        *before,
        *after,
        *delta,
    ));
    lines
}


// ---------------------------------------------------------------------------
// Waiting for a (re)spawned runtime
// ---------------------------------------------------------------------------

/// How long liveness must hold continuously, in nanoseconds, before a
/// (re)spawn counts as settled: a single live observation while the adapter
/// briefly holds its session lock is no proof of a lasting runtime.
pub const RESUME_LIVE_SETTLE_NANOS: u64 = 500_000_000;

/// What a runtime wait does after one liveness probe.
#[derive(Clone, Copy, Debug, PartialEq, Eq, Structural)]
pub enum WaitStep {
    /// The runtime is live: the wait succeeds.
    Live,
    /// The deadline has passed: the wait fails.
    TimedOut,
    /// Probe again after this many nanoseconds.
    Sleep { nanos: u64 },
}

/// The poll interval, cut short so that no sleep passes the deadline.
pub open spec fn nap(poll: u64, now: u64, deadline: u64) -> u64 {
    if deadline <= now {
        0
    } else if poll <= deadline - now {
        poll
    } else {
        (deadline - now) as u64
    }
}

/// One probe of a plain wait: success on a live probe, failure once the
/// deadline has passed, else another probe after the poll interval.
pub open spec fn wait_step_spec(live: bool, now: u64, deadline: u64, poll: u64) -> WaitStep {
    if live {
        WaitStep::Live
    } else if now >= deadline {
        WaitStep::TimedOut
    } else {
        WaitStep::Sleep { nanos: nap(poll, now, deadline) }
    }
}

fn nap_of(poll: u64, now: u64, deadline: u64) -> (n: u64)
    ensures
        n == nap(poll, now, deadline),
{
    if deadline <= now {
        0
    } else if poll <= deadline - now {
        poll
    } else {
        deadline - now
    }
}

/// The decision after one probe of a plain runtime wait (times in
/// nanoseconds of a monotonic clock). A scheduling acknowledgement is never
/// success: only a live probe is.
pub fn runtime_wait_step(live: bool, now: u64, deadline: u64, poll: u64) -> (s: WaitStep)
    ensures
        s == wait_step_spec(live, now, deadline, poll),
        s == WaitStep::Live <==> live,
{
    if live {
        WaitStep::Live
    } else if now >= deadline {
        WaitStep::TimedOut
    } else {
        WaitStep::Sleep { nanos: nap_of(poll, now, deadline) }
    }
}

/// A wait whose success needs liveness to hold continuously for `settle`
/// nanoseconds; `live_since` is when the current run of live probes began.
#[derive(Clone, Copy, Debug)]
pub struct StableWait {
    pub settle: u64,
    pub deadline: u64,
    pub live_since: Option<u64>,
}

/// `a - b`, or zero where `b` is later than `a`.
pub open spec fn elapsed(a: u64, b: u64) -> int {
    if b <= a {
        a - b
    } else {
        0
    }
}

/// When the run of live probes began, after a probe at `now`: kept while
/// probes stay live, begun at `now` by the first live probe, and cleared by
/// any probe that is not live.
pub open spec fn next_live_since(since: Option<u64>, live: bool, now: u64) -> Option<u64> {
    if live {
        Some(
            match since {
                Some(t) => t,
                None => now,
            },
        )
    } else {
        None
    }
}

/// One probe of a stable wait.
pub open spec fn stable_step_spec(w: StableWait, live: bool, now: u64, poll: u64) -> WaitStep {
    let since = next_live_since(w.live_since, live, now);
    if live && elapsed(now, since->0) >= w.settle {
        WaitStep::Live
    } else if now >= w.deadline {
        WaitStep::TimedOut
    } else {
        WaitStep::Sleep { nanos: nap(poll, now, w.deadline) }
    }
}

impl StableWait {
    /// A wait begun at `start` for at most `timeout` nanoseconds. The settle
    /// window is clamped to the timeout, so a zero timeout accepts a single
    /// live probe.
    pub fn begin(start: u64, timeout: u64) -> (w: Self)
        requires
            start + timeout <= u64::MAX,
        ensures
            w.settle == (if timeout < RESUME_LIVE_SETTLE_NANOS {
                timeout
            } else {
                RESUME_LIVE_SETTLE_NANOS
            }),
            w.deadline == start + timeout,
            w.live_since is None,
    {
        let settle = if timeout < RESUME_LIVE_SETTLE_NANOS {
            timeout
        } else {
            RESUME_LIVE_SETTLE_NANOS
        };
        StableWait { settle, deadline: start + timeout, live_since: None }
    }

    /// Records a probe taken at `now` and decides: success once liveness has
    /// held since the start of the current live run for the settle window,
    /// failure past the deadline, else another probe.
    pub fn probe(&mut self, live: bool, now: u64, poll: u64) -> (s: WaitStep)
        ensures
            final(self).settle == old(self).settle,
            final(self).deadline == old(self).deadline,
            final(self).live_since == next_live_since(old(self).live_since, live, now),
            s == stable_step_spec(*old(self), live, now, poll),
    {
        let ghost w0 = *self;
        if live {
            let since = match self.live_since {
                Some(t) => t,
                None => now,
            };
            self.live_since = Some(since);
            let held = if since <= now {
                now - since
            } else {
                0
            };
            if held >= self.settle {
                return WaitStep::Live;
            }
        } else {
            self.live_since = None;
        }
        if now >= self.deadline {
            WaitStep::TimedOut
        } else {
            WaitStep::Sleep { nanos: nap_of(poll, now, self.deadline) }
        }
    }
}

/// Where the live run stands after a sequence of `(live, now)` probes.
pub open spec fn since_after(probes: Seq<(bool, u64)>) -> Option<u64>
    decreases probes.len(),
{
    if probes.len() == 0 {
        None
    } else {
        next_live_since(since_after(probes.drop_last()), probes.last().0, probes.last().1)
    }
}

proof fn lemma_since_after_is_live_run(probes: Seq<(bool, u64)>)
    ensures
        since_after(probes) matches Some(t) ==> exists|j: int|
            0 <= j < probes.len() && probes[j].1 == t && forall|m: int|
                j <= m < probes.len() ==> (#[trigger] probes[m]).0,
    decreases probes.len(),
{
    if probes.len() > 0 {
        let prev = probes.drop_last();
        lemma_since_after_is_live_run(prev);
        let n = probes.len() - 1;
        if probes.last().0 {
            match since_after(prev) {
                Some(t) => {
                    let j = choose|j: int|
                        0 <= j < prev.len() && prev[j].1 == t && forall|m: int|
                            j <= m < prev.len() ==> (#[trigger] prev[m]).0;
                    assert forall|m: int| j <= m < probes.len() implies (#[trigger] probes[m]).0 by {
                        if m < n {
                            assert(probes[m] == prev[m]);
                        }
                    }
                    assert(probes[j] == prev[j]);
                },
                None => {
                    assert forall|m: int| n <= m < probes.len() implies (#[trigger] probes[m]).0 by {}
                },
            }
        }
    }
}

/// A stable wait succeeds only after liveness held without a break: when the
/// last of a sequence of probes on a freshly begun wait reports success, some
/// earlier-or-equal probe began a run of live probes reaching the last one,
/// and the last probe came at least the settle window after it.
pub proof fn law_stable_wait_needs_continuous_liveness(
    settle: u64,
    deadline: u64,
    probes: Seq<(bool, u64)>,
    poll: u64,
)
    requires
        probes.len() > 0,
        stable_step_spec(
            StableWait { settle, deadline, live_since: since_after(probes.drop_last()) },
            probes.last().0,
            probes.last().1,
            poll,
        ) == WaitStep::Live,
    ensures
        exists|j: int|
            0 <= j < probes.len() && elapsed(probes.last().1, probes[j].1) >= settle && forall|m: int|
                j <= m < probes.len() ==> (#[trigger] probes[m]).0,
{
    lemma_since_after_is_live_run(probes);
    assert(since_after(probes) == next_live_since(
        since_after(probes.drop_last()),
        probes.last().0,
        probes.last().1,
    ));
}


/// What a reload's wait for a replaced handler does after one probe.
#[derive(Clone, Copy, Debug, PartialEq, Eq, Structural)]
pub enum ReplaceStep {
    /// A live handler of a new identity has held the chat for the settle
    /// window: the probed handler replaced the old one.
    Replaced,
    /// The deadline passed with a live handler that did not (stably) replace
    /// the old one.
    StillOld,
    /// The deadline passed with no live handler.
    NotLive,
    /// Probe again after this many nanoseconds.
    Sleep { nanos: u64 },
}

/// One probe of the wait for a replaced handler: the stable wait, where a
/// probe counts as live when the handler found is live and differs from the
/// one captured before the respawn.
pub open spec fn replace_step_spec(
    w: StableWait,
    before: HandlerIdentity,
    last: HandlerIdentity,
    now: u64,
    poll: u64,
) -> ReplaceStep {
    let replaced = last.live && handler_view(last) != handler_view(before);
    match stable_step_spec(w, replaced, now, poll) {
        WaitStep::Live => ReplaceStep::Replaced,
        WaitStep::TimedOut => if last.live {
            ReplaceStep::StillOld
        } else {
            ReplaceStep::NotLive
        },
        WaitStep::Sleep { nanos } => ReplaceStep::Sleep { nanos },
    }
}

/// Records the handler `last` found at `now` and decides the reload wait.
pub fn replace_wait_probe(
    w: &mut StableWait,
    before: &HandlerIdentity,
    last: &HandlerIdentity,
    now: u64,
    poll: u64,
) -> (s: ReplaceStep)
    ensures
        final(w).settle == old(w).settle,
        final(w).deadline == old(w).deadline,
        final(w).live_since == next_live_since(
            old(w).live_since,
            last.live && handler_view(*last) != handler_view(*before),
            now,
        ),
        s == replace_step_spec(*old(w), *before, *last, now, poll),
{
    let replaced = handler_replaced(last, before);
    match w.probe(replaced, now, poll) {
        WaitStep::Live => ReplaceStep::Replaced,
        WaitStep::TimedOut => if last.live {
            ReplaceStep::StillOld
        } else {
            ReplaceStep::NotLive
        },
        WaitStep::Sleep { nanos } => ReplaceStep::Sleep { nanos },
    }
}

// ---------------------------------------------------------------------------
// Reload refusals
// ---------------------------------------------------------------------------

/// The pi plugin as `ensure-pi-plugin` left it: whether it resolves from the
/// cache and whether that cache is current, with the texts the refusal shows
/// (the cache state as its status displays it).
#[derive(Debug, Clone)]
pub struct PluginState {
    pub from_cache: bool,
    pub cache_current: bool,
    pub cache_state: String,
    pub embed_digest: String,
    pub cache_digest: Option<String>,
    pub compat: String,
    pub dist_entry: String,
    pub cache_version_dir: String,
}

pub open spec fn plugin_stale_message(p: PluginState) -> Seq<char> {
    "WG-CHAT-RELOAD-PLUGIN-STALE: pi plugin cache is "@ + p.cache_state@
        + " after ensure-pi-plugin and cannot be refreshed; embed="@ + p.embed_digest@ + " cache="@
        + match p.cache_digest {
        Some(d) => d@,
        None => "<none>"@,
    } + " compat="@ + p.compat@ + " entry="@ + p.dist_entry@
        + ". Refusing to respawn against stale extension bytes. Run `wg pi-plugin install` with this binary, or check for write permission on "@
        + p.cache_version_dir@
        + ". The chat was left untouched and is resumable with `wg chat resume`."@
}

/// The checks a reload makes before it respawns the live handler: a plugin
/// served from a cache that is not current is refused, then a chat without
/// a session transcript. A refused reload leaves the chat untouched.
pub fn reload_preflight(cid: u32, plugin: &PluginState, session_file: Option<&str>) -> (r: Result<
    (),
    String,
>)
    ensures
        plugin.from_cache && !plugin.cache_current ==> (r matches Err(m) && m@ == plugin_stale_message(
            *plugin,
        )),
        !(plugin.from_cache && !plugin.cache_current) ==> match session_file {
            Some(_) => r is Ok,
            None => r matches Err(m) && m@ == session_missing_message(cid),
        },
{
    if plugin.from_cache && !plugin.cache_current {
        let mut m = owned("WG-CHAT-RELOAD-PLUGIN-STALE: pi plugin cache is ");
        m.append(plugin.cache_state.as_str());
        m.append(" after ensure-pi-plugin and cannot be refreshed; embed=");
        m.append(plugin.embed_digest.as_str());
        m.append(" cache=");
        match &plugin.cache_digest {
            Some(d) => m.append(d.as_str()),
            None => m.append("<none>"),
        }
        m.append(" compat=");
        m.append(plugin.compat.as_str());
        m.append(" entry=");
        m.append(plugin.dist_entry.as_str());
        m.append(
            ". Refusing to respawn against stale extension bytes. Run `wg pi-plugin install` with this binary, or check for write permission on ",
        );
        m.append(plugin.cache_version_dir.as_str());
        m.append(". The chat was left untouched and is resumable with `wg chat resume`.");
        return Err(m);
    }
    session_file_gate(session_file, cid)
}

/// std's `Debug` rendering of a string: quoted, with escapes.
pub uninterp spec fn debug_quoted(s: Seq<char>) -> Seq<char>;

/// `format!("{:?}", s)` for a string.
#[verifier::external_body]
fn debug_quote(s: &str) -> (r: String)
    ensures
        r@ == debug_quoted(s@),
{
    format!("{:?}", s)
}

/// `{:?}` of an optional pid.
pub open spec fn debug_pid(p: Option<u32>) -> Seq<char> {
    match p {
        Some(n) => "Some("@ + decimal(n as nat) + ")"@,
        None => "None"@,
    }
}

/// `{:?}` of an optional start time.
pub open spec fn debug_started(s: Option<Seq<char>>) -> Seq<char> {
    match s {
        Some(t) => "Some("@ + debug_quoted(t) + ")"@,
        None => "None"@,
    }
}

pub open spec fn not_replaced_message(cid: u32, timeout_secs: u64, h: HandlerIdentity, dir: Seq<char>) -> Seq<char> {
    "WG-CHAT-RELOAD-NOT-REPLACED: handler not replaced for chat "@ + decimal(cid as nat) + " within "@
        + decimal(timeout_secs as nat) + "s — the handler identity is unchanged (source="@ + h.source@
        + " pid="@ + debug_pid(h.pid) + " started_at="@ + debug_started(opt_view(h.started_at))
        + "). Supervisor accepted the respawn but the same generation is still serving the session; the chat is resumable with `wg chat resume "@
        + decimal(cid as nat) + "`. Inspect "@ + dir + "/service/daemon.log."@
}

pub open spec fn not_live_message(cid: u32, timeout_secs: u64, dir: Seq<char>) -> Seq<char> {
    "WG-CHAT-RELOAD-NOT-LIVE: supervisor accepted the respawn for chat "@ + decimal(cid as nat)
        + ", but no live handler appeared within "@ + decimal(timeout_secs as nat)
        + "s. The chat is stopped but resumable with `wg chat resume "@ + decimal(cid as nat)
        + "`; inspect "@ + dir + "/service/daemon.log for the spawn error."@
}

/// What a reload does after a probe of the respawned handler (`last`, the
/// handler found): keep waiting (`None`), proceed once a new generation
/// replaced the old one, or refuse when the same generation still serves
/// the session or no handler is live at the deadline.
pub fn reload_after_probe(
    cid: u32,
    step: ReplaceStep,
    last: &HandlerIdentity,
    timeout_secs: u64,
    dir: &str,
) -> (r: Option<Result<(), String>>)
    ensures
        match step {
            ReplaceStep::Sleep { .. } => r is None,
            ReplaceStep::Replaced => r matches Some(Ok(())),
            ReplaceStep::StillOld => r matches Some(Err(m)) && m@ == not_replaced_message(
                cid,
                timeout_secs,
                *last,
                dir@,
            ),
            ReplaceStep::NotLive => r matches Some(Err(m)) && m@ == not_live_message(
                cid,
                timeout_secs,
                dir@,
            ),
        },
{
    match step {
        ReplaceStep::Sleep { .. } => None,
        ReplaceStep::Replaced => Some(Ok(())),
        ReplaceStep::StillOld => {
            let mut m = owned("WG-CHAT-RELOAD-NOT-REPLACED: handler not replaced for chat ");
            push_decimal(&mut m, cid as u64);
            m.append(" within ");
            push_decimal(&mut m, timeout_secs);
            m.append("s — the handler identity is unchanged (source=");
            m.append(last.source.as_str());
            m.append(" pid=");
            match last.pid {
                Some(p) => {
                    m.append("Some(");
                    push_decimal(&mut m, p as u64);
                    m.append(")");
                },
                None => m.append("None"),
            }
            m.append(" started_at=");
            match &last.started_at {
                Some(t) => {
                    m.append("Some(");
                    let q = debug_quote(t.as_str());
                    m.append(q.as_str());
                    m.append(")");
                },
                None => m.append("None"),
            }
            m.append(
                "). Supervisor accepted the respawn but the same generation is still serving the session; the chat is resumable with `wg chat resume ",
            );
            push_decimal(&mut m, cid as u64);
            m.append("`. Inspect ");
            m.append(dir);
            m.append("/service/daemon.log.");
            Some(Err(m))
        },
        ReplaceStep::NotLive => {
            let mut m = owned("WG-CHAT-RELOAD-NOT-LIVE: supervisor accepted the respawn for chat ");
            push_decimal(&mut m, cid as u64);
            m.append(", but no live handler appeared within ");
            push_decimal(&mut m, timeout_secs);
            m.append("s. The chat is stopped but resumable with `wg chat resume ");
            push_decimal(&mut m, cid as u64);
            m.append("`; inspect ");
            m.append(dir);
            m.append("/service/daemon.log for the spawn error.");
            Some(Err(m))
        },
    }
}

/// Supervision is membership: a live (not deleted, not archived) chat with
/// an id, while the daemon runs, is supervised when its id appears anywhere
/// in the supervisor's list, and stopped when it appears nowhere.
pub proof fn law_supervision_is_membership(t: ChatTask, supervised: Seq<u32>, k: int)
    requires
        t.status != TaskStatus::Abandoned,
        !views(t.tags@).contains("archived"@),
        t.chat_id is Some,
    ensures
        (0 <= k < supervised.len() && supervised[k] == t.chat_id->0) ==> classify_spec(
            t,
            true,
            supervised,
        ) == ChatRuntimeStatus::Supervised,
        (forall|j: int| 0 <= j < supervised.len() ==> supervised[j] != t.chat_id->0) ==> classify_spec(
            t,
            true,
            supervised,
        ) == ChatRuntimeStatus::Stopped,
{
    if 0 <= k < supervised.len() && supervised[k] == t.chat_id->0 {
        assert(supervised.contains(t.chat_id->0));
    }
}

/// A chat's status follows its lifecycle before its runtime: an abandoned
/// chat is deleted and an archived one archived, whatever the daemon and
/// supervisor say; a live chat without an id, or while the daemon is down,
/// is dormant; only a live chat with an id and a running daemon is
/// supervised or stopped.
pub proof fn law_lifecycle_decides_before_runtime(t: ChatTask, daemon_running: bool, supervised: Seq<u32>)
    ensures
        t.status == TaskStatus::Abandoned ==> classify_spec(t, daemon_running, supervised)
            == ChatRuntimeStatus::Deleted,
        t.status != TaskStatus::Abandoned && views(t.tags@).contains("archived"@) ==> classify_spec(
            t,
            daemon_running,
            supervised,
        ) == ChatRuntimeStatus::Archived,
        t.status != TaskStatus::Abandoned && !views(t.tags@).contains("archived"@) && (
        t.chat_id is None || !daemon_running) ==> classify_spec(t, daemon_running, supervised)
            == ChatRuntimeStatus::Dormant,
        (classify_spec(t, daemon_running, supervised) == ChatRuntimeStatus::Supervised
            || classify_spec(t, daemon_running, supervised) == ChatRuntimeStatus::Stopped)
            ==> daemon_running && t.chat_id is Some,
{
}

} // verus!
