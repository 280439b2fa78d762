//! Archival of finished tasks: what may be archived, when, and how the
//! guarded automatic mode decides between archiving and holding a plan.
use vstd::prelude::*;
use crate::chat_cmd::{status_text, status_name};
use crate::text::{
    trim, parse_i64_spec, chars_of, owned, string_of, string_of_range, push_char, trim_str,
    parse_i64, str_eq,
};
use crate::clock::{
    NANOS_PER_SEC, NANOS_PER_DAY, parse_instant, parse_rfc3339, rfc3339_parts, instant_text,
    format_rfc3339,
};
use crate::text::{
    starts_with, lex_le, lex_lt, decimal, push_decimal, contains, lowercase, to_lowercase,
    str_contains,
};
use crate::order::{
    sort_positions_by_text, sorted_stably, lemma_lex_le_total_order, lemma_lex_transitive, is_permutation_of_range, lemma_perm_contains_all, text_key_le,
};

verus! {

// ---------------------------------------------------------------------------
// Model
// ---------------------------------------------------------------------------

/// Lifecycle status of a task.
#[derive(Clone, Copy, Debug, PartialEq, Eq, Structural)]
pub enum TaskStatus {
    Open,
    InProgress,
    Blocked,
    Waiting,
    PendingValidation,
    PendingEval,
    Failed,
    Done,
    Abandoned,
}

/// The fields of a graph task that archival reads.
#[derive(Clone, Debug)]
pub struct ArchiveTask {
    pub id: String,
    pub title: String,
    pub description: Option<String>,
    pub tags: Vec<String>,
    pub status: TaskStatus,
    /// The task's `Done` projection is backed by a verified v2 GraphSave
    /// completion receipt.
    pub graph_save_verified: bool,
    pub completed_at: Option<String>,
    pub created_at: Option<String>,
    /// Canonical `after` edges (predecessors).
    pub after: Vec<String>,
    /// Cached `before` edges (successors).
    pub before: Vec<String>,
    /// Digest of the complete serialized task record.
    pub digest: String,
}

/// The compact active-view marker left in place of an archived task.
#[derive(Clone, Debug)]
pub struct ArchivedBoundary {
    pub id: String,
    pub title: String,
    pub status: TaskStatus,
    pub predecessors: Vec<String>,
    pub successors: Vec<String>,
    pub archived_at: String,
}

pub open spec fn views(v: Seq<String>) -> Seq<Seq<char>> {
    v.map_values(|s: String| s@)
}

pub proof fn lemma_views_push(s: Seq<String>, x: String)
    ensures
        views(s.push(x)) == views(s).push(x@),
{
    assert(views(s.push(x)) =~= views(s).push(x@));
}

pub open spec fn opt_view(o: Option<String>) -> Option<Seq<char>> {
    match o {
        Some(s) => Some(s@),
        None => None,
    }
}

/// Whether `v` holds a string equal to `x`.
pub fn strings_contain(v: &Vec<String>, x: &str) -> (b: bool)
    ensures
        b == views(v@).contains(x@),
{
    let mut i: usize = 0;
    while i < v.len()
        invariant
            i <= v.len(),
            forall|k: int| 0 <= k < i ==> v@[k]@ != x@,
        decreases v.len() - i,
    {
        if str_eq(v[i].as_str(), x) {
            assert(views(v@)[i as int] == x@);
            return true;
        }
        i += 1;
    }
    assert forall|k: int| 0 <= k < views(v@).len() implies views(v@)[k] != x@ by {
        assert(views(v@)[k] == v@[k]@);
    }
    false
}

// ---------------------------------------------------------------------------
// Paths
// ---------------------------------------------------------------------------

/// `Path::join` of a relative path onto `base` (Unix separators).
pub open spec fn join_path(base: Seq<char>, rel: Seq<char>) -> Seq<char> {
    if base.len() == 0 {
        rel
    } else if base.last() == '/' {
        base + rel
    } else {
        base + seq!['/'] + rel
    }
}

/// `base` joined with the relative path `rel`.
pub fn join(base: &str, rel: &str) -> (out: String)
    ensures
        out@ == join_path(base@, rel@),
{
    let b = chars_of(base);
    if b.len() == 0 {
        return owned(rel);
    }
    let mut out = string_of(&b);
    if b[b.len() - 1] != '/' {
        push_char(&mut out, '/');
    }
    out.append(rel);
    out
}

/// The archive file: `<dir>/archive.jsonl`.
pub fn archive_path(dir: &str) -> (out: String)
    ensures
        out@ == join_path(dir@, "archive.jsonl"@),
{
    join(dir, "archive.jsonl")
}

/// The undo receipt of the last batch: `<dir>/archive-last-batch.json`.
pub fn last_batch_path(dir: &str) -> (out: String)
    ensures
        out@ == join_path(dir@, "archive-last-batch.json"@),
{
    join(dir, "archive-last-batch.json")
}

/// The automatic archival state: `<dir>/archive-auto-state.json`.
pub fn automatic_state_path(dir: &str) -> (out: String)
    ensures
        out@ == join_path(dir@, "archive-auto-state.json"@),
{
    join(dir, "archive-auto-state.json")
}

// ---------------------------------------------------------------------------
// Durations
// ---------------------------------------------------------------------------

#[derive(Clone, Copy, Debug, PartialEq, Eq, Structural)]
pub enum DurationUnit {
    Hours,
    Days,
    Weeks,
}

/// A parsed `--older` duration: a signed amount of a unit.
#[derive(Clone, Copy, Debug, PartialEq, Eq, Structural)]
pub struct AgeSpec {
    pub amount: i64,
    pub unit: DurationUnit,
}

#[derive(Clone, Debug)]
pub enum DurationError {
    /// The trimmed text is empty.
    Empty,
    /// The number part does not parse as an `i64`; carries that part.
    InvalidNumber(String),
}

impl DurationError {
    pub open spec fn message_spec(&self) -> Seq<char> {
        match self {
            DurationError::Empty => "Empty duration string"@,
            DurationError::InvalidNumber(n) => "Invalid number in duration: '"@ + n@ + "'"@,
        }
    }

    /// The error text of a refused duration.
    pub fn message(&self) -> (m: String)
        ensures
            m@ == self.message_spec(),
    {
        match self {
            DurationError::Empty => owned("Empty duration string"),
            DurationError::InvalidNumber(n) => {
                let mut m = owned("Invalid number in duration: '");
                m.append(n.as_str());
                m.append("'");
                m
            },
        }
    }
}

/// The unit that a trimmed duration text selects and the text of its
/// number: a trailing `d`, `w` or `h`, else days for the whole text.
pub open spec fn duration_parts(t: Seq<char>) -> (Seq<char>, DurationUnit) {
    if t.len() > 0 && t.last() == 'd' {
        (t.drop_last(), DurationUnit::Days)
    } else if t.len() > 0 && t.last() == 'w' {
        (t.drop_last(), DurationUnit::Weeks)
    } else if t.len() > 0 && t.last() == 'h' {
        (t.drop_last(), DurationUnit::Hours)
    } else {
        (t, DurationUnit::Days)
    }
}

/// What `parse_duration` yields for `s`.
pub open spec fn duration_result(s: Seq<char>) -> Result<AgeSpec, Seq<char>> {
    let t = trim(s);
    let (num, unit) = duration_parts(t);
    match parse_i64_spec(num) {
        Some(n) => Ok(AgeSpec { amount: n as i64, unit }),
        None => Err(num),
    }
}

/// Parses a duration such as `30d`, `1w`, `24h`, or a bare number of days.
pub fn parse_duration(s: &str) -> (r: Result<AgeSpec, DurationError>)
    ensures
        trim(s@).len() == 0 ==> r matches Err(DurationError::Empty),
        trim(s@).len() > 0 ==> match r {
            Ok(a) => duration_result(s@) == Ok::<AgeSpec, Seq<char>>(a),
            Err(DurationError::InvalidNumber(num)) => duration_result(s@) == Err::<
                AgeSpec,
                Seq<char>,
            >(num@),
            Err(DurationError::Empty) => false,
        },
{
    let t = trim_str(s);
    let v = chars_of(t.as_str());
    if v.len() == 0 {
        return Err(DurationError::Empty);
    }
    let last = v[v.len() - 1];
    let (num_end, unit) = if last == 'd' {
        (v.len() - 1, DurationUnit::Days)
    } else if last == 'w' {
        (v.len() - 1, DurationUnit::Weeks)
    } else if last == 'h' {
        (v.len() - 1, DurationUnit::Hours)
    } else {
        (v.len(), DurationUnit::Days)
    };
    let num = string_of_range(&v, 0, num_end);
    assert(v@.subrange(0, v@.len() - 1) =~= v@.drop_last());
    assert(v@.subrange(0, v@.len() as int) =~= v@);
    match parse_i64(num.as_str()) {
        Some(n) => Ok(AgeSpec { amount: n, unit }),
        None => Err(DurationError::InvalidNumber(num)),
    }
}

/// Seconds in one unit.
pub open spec fn unit_seconds(u: DurationUnit) -> int {
    match u {
        DurationUnit::Hours => 3600,
        DurationUnit::Days => 86_400,
        DurationUnit::Weeks => 604_800,
    }
}

/// The largest number of whole seconds that chrono's `TimeDelta` holds.
pub const MAX_DELTA_SECS: i128 = 9_223_372_036_854_775;

/// The length of an age spec in nanoseconds, when chrono's `TimeDelta` can
/// hold it (chrono panics otherwise).
pub open spec fn age_nanos(a: AgeSpec) -> Option<int> {
    let secs = a.amount * unit_seconds(a.unit);
    if -MAX_DELTA_SECS <= secs <= MAX_DELTA_SECS {
        Some(secs * NANOS_PER_SEC)
    } else {
        None
    }
}

/// The length of `a` in nanoseconds, or `None` beyond chrono's range.
pub fn age_spec_nanos(a: AgeSpec) -> (r: Option<i128>)
    ensures
        match r {
            Some(n) => age_nanos(a) == Some(n as int),
            None => age_nanos(a) is None,
        },
{
    let unit: i128 = match a.unit {
        DurationUnit::Hours => 3600,
        DurationUnit::Days => 86_400,
        DurationUnit::Weeks => 604_800,
    };
    let secs = a.amount as i128 * unit;
    if secs < -MAX_DELTA_SECS || secs > MAX_DELTA_SECS {
        None
    } else {
        Some(secs * NANOS_PER_SEC)
    }
}

// ---------------------------------------------------------------------------
// Archivability
// ---------------------------------------------------------------------------

/// Authoritative terminal evidence: explicit abandonment, or a `Done`
/// backed by a verified GraphSave receipt.
pub open spec fn archivable(t: ArchiveTask) -> bool {
    t.status == TaskStatus::Abandoned || (t.status == TaskStatus::Done && t.graph_save_verified)
}

/// The timestamp text an age is measured from: completion, else creation.
pub open spec fn timestamp_text(t: ArchiveTask) -> Option<Seq<char>> {
    match t.completed_at {
        Some(c) => Some(c@),
        None => opt_view(t.created_at),
    }
}

pub open spec fn task_instant(t: ArchiveTask) -> Option<int> {
    match timestamp_text(t) {
        Some(s) => parse_instant(s),
        None => None,
    }
}

pub fn has_archivable_terminal_evidence(t: &ArchiveTask) -> (b: bool)
    ensures
        b == archivable(*t),
{
    match t.status {
        TaskStatus::Abandoned => true,
        TaskStatus::Done => t.graph_save_verified,
        _ => false,
    }
}

/// The instant a task's age is measured from, if its timestamp parses.
pub fn task_timestamp(t: &ArchiveTask) -> (r: Option<i128>)
    ensures
        match r {
            Some(n) => task_instant(*t) == Some(n as int),
            None => task_instant(*t) is None,
        },
{
    match &t.completed_at {
        Some(c) => parse_rfc3339(c.as_str()),
        None => match &t.created_at {
            Some(c) => parse_rfc3339(c.as_str()),
            None => None,
        },
    }
}

/// Whether `--older` admits the task at instant `now`.
pub open spec fn should_archive_spec(t: ArchiveTask, older: Option<int>, now: int) -> bool {
    archivable(t) && match older {
        None => true,
        Some(min_age) => match task_instant(t) {
            Some(ts) => now - ts > min_age,
            None => false,
        },
    }
}

/// Whether a task is archived by a bulk run with the optional minimum age
/// `older` (nanoseconds) at instant `now`.
pub fn should_archive(t: &ArchiveTask, older: Option<i128>, now: i128) -> (b: bool)
    requires
        older matches Some(m) ==> -MAX_DELTA_SECS * NANOS_PER_SEC <= m <= MAX_DELTA_SECS
            * NANOS_PER_SEC,
        -0x10_0000_0000_0000_0000_0000_0000 <= now <= 0x10_0000_0000_0000_0000_0000_0000,
    ensures
        b == should_archive_spec(*t, match older {
            Some(m) => Some(m as int),
            None => None,
        }, now as int),
{
    if !has_archivable_terminal_evidence(t) {
        return false;
    }
    match older {
        None => true,
        Some(min_age) => match task_timestamp(t) {
            Some(ts) => {
                proof {
                    lemma_parsed_instant_bounds(*t);
                }
                now - ts > min_age
            },
            None => false,
        },
    }
}

/// A parsed instant is within the range of an `i64` second count.
pub proof fn lemma_parsed_instant_bounds(t: ArchiveTask)
    ensures
        task_instant(t) matches Some(n) ==> -0x1_0000_0000_0000_0000_0000_0000 <= n
            <= 0x1_0000_0000_0000_0000_0000_0000,
{
    if let Some(text) = timestamp_text(t) {
        if let Some(p) = rfc3339_parts(text) {
            let a = p.0 as int;
            let b = p.1 as int;
            assert(-0x1_0000_0000_0000_0000_0000_0000 <= a * 1_000_000_000 + b
                <= 0x1_0000_0000_0000_0000_0000_0000) by (nonlinear_arith)
                requires
                    -0x8000_0000_0000_0000 <= a < 0x8000_0000_0000_0000,
                    0 <= b < 0x1_0000_0000,
            ;
        }
    }
}

// ---------------------------------------------------------------------------
// Selections of positions
// ---------------------------------------------------------------------------

/// `order` lists, each once, exactly the positions `i < n` where `pred`
/// holds.
pub open spec fn selects_exactly(order: Seq<usize>, n: int, pred: spec_fn(int) -> bool) -> bool {
    &&& forall|p: int| 0 <= p < order.len() ==> #[trigger] order[p] < n && pred(order[p] as int)
    &&& forall|i: usize| i < n && pred(i as int) ==> #[trigger] order.contains(i)
    &&& forall|p: int, q: int| 0 <= p < q < order.len() ==> order[p] != order[q]
}

/// `order` is sorted by task id, ties kept in graph order (`sort_by` on the
/// id is stable).
pub open spec fn sorted_by_id(order: Seq<usize>, tasks: Seq<ArchiveTask>) -> bool {
    forall|p: int, q: int|
        #![trigger order[p], order[q]]
        0 <= p < q < order.len() ==> lex_le(tasks[order[p] as int].id@, tasks[order[q] as int].id@)
            && (tasks[order[p] as int].id@ == tasks[order[q] as int].id@ ==> order[p] < order[q])
}

/// Positions `i < n` where `pred` holds, in increasing order.
pub open spec fn increasing_selection(picked: Seq<usize>, n: int, pred: spec_fn(int) -> bool) -> bool {
    &&& forall|k: int| 0 <= k < picked.len() ==> #[trigger] picked[k] < n && pred(picked[k] as int)
    &&& forall|k: int, l: int| 0 <= k < l < picked.len() ==> picked[k] < picked[l]
    &&& forall|i: usize| i < n && pred(i as int) ==> #[trigger] picked.contains(i)
}

/// Sorts the selected positions `picked` stably by task id.
fn sort_selection_by_id(
    tasks: &Vec<ArchiveTask>,
    picked: &Vec<usize>,
    Ghost(pred): Ghost<spec_fn(int) -> bool>,
) -> (order: Vec<usize>)
    requires
        increasing_selection(picked@, tasks.len() as int, pred),
    ensures
        selects_exactly(order@, tasks.len() as int, pred),
        sorted_by_id(order@, tasks@),
{
    let mut keys: Vec<Vec<char>> = Vec::new();
    let mut k: usize = 0;
    while k < picked.len()
        invariant
            k <= picked.len(),
            increasing_selection(picked@, tasks.len() as int, pred),
            keys.len() == k,
            forall|m: int| 0 <= m < k ==> #[trigger] keys@[m]@ == tasks@[picked@[m] as int].id@,
        decreases picked.len() - k,
    {
        keys.push(chars_of(tasks[picked[k]].id.as_str()));
        k += 1;
    }
    let pos = sort_positions_by_text(&keys);
    proof {
        lemma_perm_contains_all(pos@, keys.len() as int);
    }
    let mut order: Vec<usize> = Vec::new();
    let mut p: usize = 0;
    while p < pos.len()
        invariant
            p <= pos.len() == keys.len() == picked.len(),
            increasing_selection(picked@, tasks.len() as int, pred),
            forall|m: int| 0 <= m < keys.len() ==> #[trigger] keys@[m]@ == tasks@[picked@[m] as int].id@,
            is_permutation_of_range(pos@, keys.len() as int),
            order.len() == p,
            forall|r: int| 0 <= r < p ==> #[trigger] order@[r] == picked@[pos@[r] as int],
        decreases pos.len() - p,
    {
        order.push(picked[pos[p]]);
        p += 1;
    }
    proof {
        assert forall|i: usize| i < tasks.len() && pred(i as int) implies #[trigger] order@.contains(i) by {
            assert(picked@.contains(i));
            let m = choose|m: int| 0 <= m < picked@.len() && picked@[m] == i;
            let mu = m as usize;
            assert(mu < keys.len());
            lemma_perm_contains_all(pos@, keys.len() as int);
            assert(pos@.contains(mu));
            let r = choose|r: int| 0 <= r < pos@.len() && pos@[r] == mu;
            assert(order@[r] == picked@[pos@[r] as int]);
            assert(order@[r] == i);
        }
        assert forall|a: int, b: int| 0 <= a < b < order@.len() implies order@[a] != order@[b] by {
            assert(pos@[a] != pos@[b]);
            if pos@[a] < pos@[b] {
                assert(picked@[pos@[a] as int] < picked@[pos@[b] as int]);
            } else {
                assert(picked@[pos@[b] as int] < picked@[pos@[a] as int]);
            }
        }
        assert forall|a: int, b: int|
            #![trigger order@[a], order@[b]]
            0 <= a < b < order@.len() implies lex_le(
            tasks@[order@[a] as int].id@,
            tasks@[order@[b] as int].id@,
        ) && (tasks@[order@[a] as int].id@ == tasks@[order@[b] as int].id@ ==> order@[a]
            < order@[b]) by {
            assert(text_key_le(keys@)(pos@[a] as int, pos@[b] as int));
            assert(keys@[pos@[a] as int]@ == tasks@[order@[a] as int].id@);
            assert(keys@[pos@[b] as int]@ == tasks@[order@[b] as int].id@);
            if tasks@[order@[a] as int].id@ == tasks@[order@[b] as int].id@ {
                assert(text_key_le(keys@)(pos@[b] as int, pos@[a] as int));
                assert(pos@[a] < pos@[b]);
                assert(picked@[pos@[a] as int] < picked@[pos@[b] as int]);
            }
        }
    }
    order
}

// ---------------------------------------------------------------------------
// Automatic eligibility
// ---------------------------------------------------------------------------

/// A task is newly eligible for automatic archival in `(lower, cutoff]`:
/// archivable, not a system task (id starting with `.`), and timestamped
/// inside the interval.
pub open spec fn eligible_automatic(t: ArchiveTask, lower: Option<int>, cutoff: int) -> bool {
    &&& archivable(t)
    &&& !starts_with(t.id@, seq!['.'])
    &&& match task_instant(t) {
        Some(ts) => ts <= cutoff && match lower {
            None => true,
            Some(l) => ts > l,
        },
        None => false,
    }
}

pub open spec fn eligible_pred(tasks: Seq<ArchiveTask>, lower: Option<int>, cutoff: int) -> spec_fn(
    int,
) -> bool {
    |i: int| eligible_automatic(tasks[i], lower, cutoff)
}

pub open spec fn opt_int(o: Option<i128>) -> Option<int> {
    match o {
        Some(x) => Some(x as int),
        None => None,
    }
}

fn is_eligible_automatic(t: &ArchiveTask, lower: Option<i128>, cutoff: i128) -> (b: bool)
    ensures
        b == eligible_automatic(*t, opt_int(lower), cutoff as int),
{
    if !has_archivable_terminal_evidence(t) {
        return false;
    }
    let id = chars_of(t.id.as_str());
    if id.len() > 0 && id[0] == '.' {
        assert(starts_with(t.id@, seq!['.'])) by {
            assert(t.id@.subrange(0, 1) =~= seq!['.']);
        }
        return false;
    }
    assert(!starts_with(t.id@, seq!['.'])) by {
        if t.id@.len() >= 1 {
            assert(t.id@.subrange(0, 1)[0] == t.id@[0]);
        }
    }
    match task_timestamp(t) {
        Some(ts) => ts <= cutoff && match lower {
            None => true,
            Some(l) => ts > l,
        },
        None => false,
    }
}

/// The archivable, non-system tasks timestamped in `(lower, cutoff]`,
/// ordered by id.
pub fn eligible_automatic_tasks(tasks: &Vec<ArchiveTask>, lower: Option<i128>, cutoff: i128) -> (order:
    Vec<usize>)
    ensures
        selects_exactly(order@, tasks.len() as int, eligible_pred(tasks@, opt_int(lower), cutoff as int)),
        sorted_by_id(order@, tasks@),
{
    let ghost pred = eligible_pred(tasks@, opt_int(lower), cutoff as int);
    let mut picked: Vec<usize> = Vec::new();
    let mut i: usize = 0;
    while i < tasks.len()
        invariant
            i <= tasks.len(),
            pred == eligible_pred(tasks@, opt_int(lower), cutoff as int),
            increasing_selection(picked@, i as int, pred),
        decreases tasks.len() - i,
    {
        let ghost before = picked@;
        if is_eligible_automatic(&tasks[i], lower, cutoff) {
            picked.push(i);
            assert(picked@.last() == i);
        }
        proof {
            assert forall|j: usize| j < i + 1 && pred(j as int) implies #[trigger] picked@.contains(j) by {
                if j < i {
                    assert(before.contains(j));
                    let m = choose|m: int| 0 <= m < before.len() && before[m] == j;
                    assert(picked@[m] == j);
                } else {
                    assert(picked@[picked@.len() - 1] == j);
                }
            }
        }
        i += 1;
    }
    proof {
        assert forall|k: int| 0 <= k < picked@.len() implies #[trigger] picked@[k] < tasks.len() && pred(
            picked@[k] as int,
        ) by {}
    }
    sort_selection_by_id(tasks, &picked, Ghost(pred))
}

// ---------------------------------------------------------------------------
// Archived boundaries
// ---------------------------------------------------------------------------

pub open spec fn strictly_sorted(s: Seq<Seq<char>>) -> bool {
    forall|i: int, j: int| 0 <= i < j < s.len() ==> lex_lt(#[trigger] s[i], #[trigger] s[j])
}

/// The distinct strings of `v`, in increasing order (`sort` then `dedup`).
pub fn sorted_unique(v: &Vec<String>) -> (out: Vec<String>)
    ensures
        strictly_sorted(views(out@)),
        views(out@).to_set() == views(v@).to_set(),
{
    let mut keys: Vec<Vec<char>> = Vec::new();
    let mut k: usize = 0;
    while k < v.len()
        invariant
            k <= v.len(),
            keys.len() == k,
            forall|m: int| 0 <= m < k ==> #[trigger] keys@[m]@ == v@[m]@,
        decreases v.len() - k,
    {
        keys.push(chars_of(v[k].as_str()));
        k += 1;
    }
    let pos = sort_positions_by_text(&keys);
    proof {
        lemma_perm_contains_all(pos@, keys.len() as int);
        lemma_lex_le_total_order();
    }
    let mut out: Vec<String> = Vec::new();
    let mut p: usize = 0;
    while p < pos.len()
        invariant
            p <= pos.len() == keys.len() == v.len(),
            forall|m: int| 0 <= m < keys.len() ==> #[trigger] keys@[m]@ == v@[m]@,
            is_permutation_of_range(pos@, keys.len() as int),
            sorted_stably(pos@, text_key_le(keys@)),
            strictly_sorted(views(out@)),
            views(out@).to_set() == Set::new(
                |s: Seq<char>| exists|r: int| 0 <= r < p && v@[pos@[r] as int]@ == s,
            ),
            p > 0 ==> out.len() > 0 && out@.last()@ == v@[pos@[p - 1] as int]@,
            p == 0 ==> out.len() == 0,
        decreases pos.len() - p,
    {
        let ghost before = out@;
        let idx = pos[p];
        let fresh = if out.len() == 0 {
            true
        } else {
            !str_eq(out[out.len() - 1].as_str(), v[idx].as_str())
        };
        if fresh {
            out.push(v[idx].clone());
            proof {
                if p > 0 {
                    assert(text_key_le(keys@)(pos@[p - 1] as int, pos@[p as int] as int));
                    let prev = v@[pos@[p - 1] as int]@;
                    let cur = v@[idx as int]@;
                    assert(lex_le(prev, cur));
                    assert(lex_lt(prev, cur));
                    assert forall|i: int, j: int| 0 <= i < j < views(out@).len() implies lex_lt(
                        #[trigger] views(out@)[i],
                        #[trigger] views(out@)[j],
                    ) by {
                        if j == views(out@).len() - 1 && i < j {
                            if i < j - 1 {
                                assert(lex_lt(views(before)[i], views(before)[j - 1]));
                                lemma_lex_transitive(views(before)[i], prev, cur);
                            }
                        } else {
                            assert(views(out@)[i] == views(before)[i]);
                            assert(views(out@)[j] == views(before)[j]);
                        }
                    }
                }
            }
        }
        proof {
            let target = Set::new(
                |s: Seq<char>| exists|r: int| 0 <= r < p + 1 && v@[pos@[r] as int]@ == s,
            );
            let prior = Set::new(
                |s: Seq<char>| exists|r: int| 0 <= r < p && v@[pos@[r] as int]@ == s,
            );
            assert(views(before).to_set() == prior);
            assert forall|s: Seq<char>| views(out@).to_set().contains(s) <==> target.contains(s) by {
                if views(out@).to_set().contains(s) {
                    let i = choose|i: int| 0 <= i < views(out@).len() && views(out@)[i] == s;
                    if i < before.len() {
                        assert(views(before)[i] == s);
                        assert(views(before).to_set().contains(s));
                        assert(prior.contains(s));
                        let r = choose|r: int| 0 <= r < p && v@[pos@[r] as int]@ == s;
                        assert(target.contains(s));
                    } else {
                        assert(v@[pos@[p as int] as int]@ == s);
                        assert(target.contains(s));
                    }
                }
                if target.contains(s) {
                    let r = choose|r: int| 0 <= r < p + 1 && v@[pos@[r] as int]@ == s;
                    if r < p {
                        assert(prior.contains(s));
                        assert(views(before).to_set().contains(s));
                        let i = choose|i: int| 0 <= i < views(before).len() && views(before)[i] == s;
                        assert(views(out@)[i] == s);
                    } else if fresh {
                        assert(views(out@)[out@.len() - 1] == s);
                    } else {
                        assert(views(out@)[out@.len() - 1] == s);
                    }
                }
            }
            assert(views(out@).to_set() =~= target);
        }
        p += 1;
    }
    proof {
        let got = Set::new(
            |s: Seq<char>| exists|r: int| 0 <= r < pos@.len() && v@[pos@[r] as int]@ == s,
        );
        assert forall|s: Seq<char>| got.contains(s) <==> views(v@).to_set().contains(s) by {
            if got.contains(s) {
                let r = choose|r: int| 0 <= r < pos@.len() && v@[pos@[r] as int]@ == s;
                assert(views(v@)[pos@[r] as int] == s);
            }
            if views(v@).to_set().contains(s) {
                let m = choose|m: int| 0 <= m < views(v@).len() && views(v@)[m] == s;
                assert(pos@.contains(m as usize));
                let r = choose|r: int| 0 <= r < pos@.len() && pos@[r] == m as usize;
                assert(v@[pos@[r] as int]@ == s);
            }
        }
        assert(got =~= views(v@).to_set());
    }
    out
}

/// The successors an archived boundary records: cached `before` edges and
/// every task whose `after` names it.
pub open spec fn successor_set(tasks: Seq<ArchiveTask>, idx: int) -> Set<Seq<char>> {
    views(tasks[idx].before@).to_set().union(
        Set::new(
            |s: Seq<char>|
                exists|c: int|
                    0 <= c < tasks.len() && #[trigger] views(tasks[c].after@).contains(tasks[idx].id@)
                        && tasks[c].id@ == s,
        ),
    )
}

/// The compact marker for archiving `tasks[idx]`, stamped `archived_at`.
pub fn archived_boundary_for(tasks: &Vec<ArchiveTask>, idx: usize, archived_at: String) -> (b:
    ArchivedBoundary)
    requires
        idx < tasks.len(),
    ensures
        b.id@ == tasks@[idx as int].id@,
        b.title@ == tasks@[idx as int].title@,
        b.status == tasks@[idx as int].status,
        views(b.predecessors@) == views(tasks@[idx as int].after@),
        strictly_sorted(views(b.successors@)),
        views(b.successors@).to_set() == successor_set(tasks@, idx as int),
        b.archived_at@ == archived_at@,
{
    let task = &tasks[idx];
    let mut cand: Vec<String> = Vec::new();
    let mut k: usize = 0;
    while k < task.before.len()
        invariant
            k <= task.before.len(),
            task == &tasks@[idx as int],
            views(cand@) == views(task.before@).take(k as int),
        decreases task.before.len() - k,
    {
        let item: String = task.before[k].clone();
        let ghost old_cand = cand@;
        cand.push(item);
        proof {
            lemma_views_push(old_cand, item);
            assert(views(task.before@).take(k + 1) =~= views(task.before@).take(k as int).push(
                item@,
            ));
        }
        k += 1;
    }
    assert(views(task.before@).take(task.before.len() as int) =~= views(task.before@));
    let ghost base = views(cand@);
    let mut c: usize = 0;
    while c < tasks.len()
        invariant
            c <= tasks.len(),
            idx < tasks.len(),
            task == &tasks@[idx as int],
            views(cand@).to_set() == base.to_set().union(
                Set::new(
                    |s: Seq<char>|
                        exists|d: int|
                            0 <= d < c && #[trigger] views(tasks@[d].after@).contains(
                                tasks@[idx as int].id@,
                            ) && tasks@[d].id@ == s,
                ),
            ),
        decreases tasks.len() - c,
    {
        let ghost old_cand = views(cand@);
        let hit = strings_contain(&tasks[c].after, task.id.as_str());
        if hit {
            cand.push(tasks[c].id.clone());
        }
        proof {
            let lhs = views(cand@).to_set();
            let rhs = base.to_set().union(
                Set::new(
                    |s: Seq<char>|
                        exists|d: int|
                            0 <= d < c + 1 && #[trigger] views(tasks@[d].after@).contains(
                                tasks@[idx as int].id@,
                            ) && tasks@[d].id@ == s,
                ),
            );
            let old_rhs = base.to_set().union(
                Set::new(
                    |s: Seq<char>|
                        exists|d: int|
                            0 <= d < c && #[trigger] views(tasks@[d].after@).contains(
                                tasks@[idx as int].id@,
                            ) && tasks@[d].id@ == s,
                ),
            );
            if hit {
                assert(views(cand@) =~= old_cand.push(tasks@[c as int].id@));
            } else {
                assert(views(cand@) =~= old_cand);
            }
            assert forall|s: Seq<char>| lhs.contains(s) <==> rhs.contains(s) by {
                if lhs.contains(s) {
                    let i = choose|i: int| 0 <= i < views(cand@).len() && views(cand@)[i] == s;
                    if i < old_cand.len() {
                        assert(old_cand[i] == s);
                        assert(old_cand.to_set().contains(s));
                        assert(old_rhs.contains(s));
                    }
                }
                if rhs.contains(s) && !base.to_set().contains(s) {
                    let d = choose|d: int|
                        0 <= d < c + 1 && #[trigger] views(tasks@[d].after@).contains(
                            tasks@[idx as int].id@,
                        ) && tasks@[d].id@ == s;
                    if d < c {
                        assert(old_rhs.contains(s));
                        assert(old_cand.to_set().contains(s));
                        let i = choose|i: int| 0 <= i < old_cand.len() && old_cand[i] == s;
                        assert(views(cand@)[i] == s);
                    } else {
                        assert(views(cand@)[views(cand@).len() - 1] == s);
                    }
                }
                if rhs.contains(s) && base.to_set().contains(s) {
                    assert(old_rhs.contains(s));
                    let i = choose|i: int| 0 <= i < old_cand.len() && old_cand[i] == s;
                    assert(views(cand@)[i] == s);
                }
            }
            assert(lhs =~= rhs);
        }
        c += 1;
    }
    let successors = sorted_unique(&cand);
    let mut predecessors: Vec<String> = Vec::new();
    let mut a: usize = 0;
    while a < task.after.len()
        invariant
            a <= task.after.len(),
            views(predecessors@) == views(task.after@).take(a as int),
        decreases task.after.len() - a,
    {
        let item: String = task.after[a].clone();
        let ghost old_pred = predecessors@;
        predecessors.push(item);
        proof {
            lemma_views_push(old_pred, item);
            assert(views(task.after@).take(a + 1) =~= views(task.after@).take(a as int).push(
                item@,
            ));
        }
        a += 1;
    }
    assert(views(task.after@).take(task.after.len() as int) =~= views(task.after@));
    proof {
        let refs = Set::new(
            |s: Seq<char>|
                exists|d: int|
                    0 <= d < tasks.len() && #[trigger] views(tasks@[d].after@).contains(
                        tasks@[idx as int].id@,
                    ) && tasks@[d].id@ == s,
        );
        assert(successor_set(tasks@, idx as int) =~= base.to_set().union(refs));
    }
    ArchivedBoundary {
        id: task.id.clone(),
        title: task.title.clone(),
        status: task.status,
        predecessors,
        successors,
        archived_at,
    }
}

// ---------------------------------------------------------------------------
// Guarded automatic archival
// ---------------------------------------------------------------------------

pub const AUTO_ARCHIVE_STATE_VERSION: u32 = 1;

/// A normal daemon tick may archive at most this many newly-eligible tasks.
/// Anything larger becomes an attended operation with an exact persisted plan.
pub const MAX_AUTOMATIC_INCREMENTAL_BATCH: usize = 10;

/// A daemon that has not advanced its archival watermark for this long is no
/// longer a routine incremental run. It must be acknowledged by an operator.
pub const MAX_AUTOMATIC_WATERMARK_GAP_SECS: i64 = 48 * 60 * 60;

#[derive(Clone, Debug)]
pub struct AutomaticArchivePlanTask {
    pub id: String,
    /// Digest of the complete task record. Confirmation refuses if the task
    /// changed after the dry-run was persisted.
    pub digest: String,
}

#[derive(Clone, Debug)]
pub struct AutomaticArchivePending {
    pub created_at: String,
    pub evaluated_cutoff: String,
    pub retention_days: u64,
    pub build_id: String,
    pub reason: String,
    pub tasks: Vec<AutomaticArchivePlanTask>,
}

#[derive(Clone, Debug)]
pub struct AutomaticArchiveReceipt {
    pub confirmed_at: String,
    pub cutoff: String,
    pub retention_days: u64,
    pub build_id: String,
    pub task_ids: Vec<String>,
}

#[derive(Clone, Debug)]
pub struct AutomaticArchiveState {
    pub version: u32,
    pub retention_days: u64,
    pub last_confirmed_cutoff: Option<String>,
    pub acknowledged_build_id: Option<String>,
    pub pending: Option<AutomaticArchivePending>,
    pub last_receipt: Option<AutomaticArchiveReceipt>,
}

#[derive(Clone, Debug)]
pub enum AutomaticArchiveOutcome {
    Disabled,
    Held { count: usize, reason: String },
    Archived { count: usize },
    Advanced,
}

impl AutomaticArchiveState {
    /// The state of a disabled archiver: retention zero, nothing held.
    pub fn disabled() -> (s: Self)
        ensures
            s.version == AUTO_ARCHIVE_STATE_VERSION,
            s.retention_days == 0,
            s.last_confirmed_cutoff is None,
            s.acknowledged_build_id is None,
            s.pending is None,
            s.last_receipt is None,
    {
        AutomaticArchiveState {
            version: AUTO_ARCHIVE_STATE_VERSION,
            retention_days: 0,
            last_confirmed_cutoff: None,
            acknowledged_build_id: None,
            pending: None,
            last_receipt: None,
        }
    }

    /// A fresh, unacknowledged state for `retention_days`.
    pub fn fresh(retention_days: u64) -> (s: Self)
        ensures
            s.version == AUTO_ARCHIVE_STATE_VERSION,
            s.retention_days == retention_days,
            s.last_confirmed_cutoff is None,
            s.acknowledged_build_id is None,
            s.pending is None,
            s.last_receipt is None,
    {
        AutomaticArchiveState {
            version: AUTO_ARCHIVE_STATE_VERSION,
            retention_days,
            last_confirmed_cutoff: None,
            acknowledged_build_id: None,
            pending: None,
            last_receipt: None,
        }
    }
}

/// What one automatic tick does: archive `archive` (graph positions, in
/// order), then persist `write` when present, and report `outcome`.
/// `window` lists the tasks a held plan names.
pub struct AutomaticPlan {
    pub archive: Vec<usize>,
    pub write: Option<AutomaticArchiveState>,
    pub window: Vec<usize>,
    pub outcome: AutomaticArchiveOutcome,
}

/// The eligibility cutoff `retention_days` before `now`.
pub open spec fn cutoff_instant(now: int, retention_days: u64) -> int {
    now - (retention_days as i64) * NANOS_PER_DAY
}

/// The last confirmed watermark, when it is recorded and parses.
pub open spec fn watermark(s: AutomaticArchiveState) -> Option<int> {
    match s.last_confirmed_cutoff {
        Some(t) => parse_instant(t@),
        None => None,
    }
}

/// Whether `order` is the exact window: the eligible tasks in
/// `(lower, cutoff]`, by id.
pub open spec fn is_window(order: Seq<usize>, tasks: Seq<ArchiveTask>, lower: Option<int>, cutoff: int) -> bool {
    selects_exactly(order, tasks.len() as int, eligible_pred(tasks, lower, cutoff))
        && sorted_by_id(order, tasks)
}

/// The window a hold evaluates: since the watermark when one is verified
/// (empty when the cutoff is not past it), else everything up to the cutoff.
pub open spec fn hold_window(order: Seq<usize>, tasks: Seq<ArchiveTask>, w: Option<int>, cutoff: int) -> bool {
    match w {
        None => is_window(order, tasks, None, cutoff),
        Some(l) => if cutoff > l {
            is_window(order, tasks, Some(l), cutoff)
        } else {
            order.len() == 0
        },
    }
}

/// `p` is the exact dry-run for the tasks at `order`.
pub open spec fn plan_matches(
    p: AutomaticArchivePending,
    tasks: Seq<ArchiveTask>,
    order: Seq<usize>,
    retention_days: u64,
    build_id: Seq<char>,
    cutoff_text: Seq<char>,
    now_text: Seq<char>,
    reason: Seq<char>,
) -> bool {
    &&& p.created_at@ == now_text
    &&& p.evaluated_cutoff@ == cutoff_text
    &&& p.retention_days == retention_days
    &&& p.build_id@ == build_id
    &&& p.reason@ == reason
    &&& p.tasks.len() == order.len()
    &&& forall|i: int|
        0 <= i < order.len() ==> (#[trigger] p.tasks[i]).id@ == tasks[order[i] as int].id@
            && p.tasks[i].digest@ == tasks[order[i] as int].digest@
}

/// `new` is `old` holding the plan `p`: only the retention and the pending
/// plan change.
pub open spec fn holds(new: AutomaticArchiveState, old: AutomaticArchiveState, p: AutomaticArchivePending) -> bool {
    &&& new.version == old.version
    &&& new.retention_days == p.retention_days
    &&& new.last_confirmed_cutoff == old.last_confirmed_cutoff
    &&& new.acknowledged_build_id == old.acknowledged_build_id
    &&& new.last_receipt == old.last_receipt
    &&& new.pending == Some(p)
}

pub open spec fn reason_no_ack() -> Seq<char> {
    "no persisted automatic archival acknowledgment (legacy/unverified startup)"@
}

pub open spec fn reason_no_watermark() -> Seq<char> {
    "automatic archival receipt has no verified watermark"@
}

pub open spec fn reason_retention_held(from: u64, to: u64) -> Seq<char> {
    "retention changed from "@ + decimal(from as nat) + "d to "@ + decimal(to as nat)
        + "d while archival was held"@
}

pub open spec fn reason_build_held(from: Seq<char>, to: Seq<char>) -> Seq<char> {
    "daemon build changed from "@ + from + " to "@ + to + " while archival was held"@
}

pub open spec fn reason_retention(from: u64, to: u64) -> Seq<char> {
    "retention changed from "@ + decimal(from as nat) + "d to "@ + decimal(to as nat) + "d"@
}

pub open spec fn reason_build(from: Option<Seq<char>>, to: Seq<char>) -> Seq<char> {
    "daemon build changed from "@ + match from {
        Some(f) => f,
        None => "unverified"@,
    } + " to "@ + to
}

pub open spec fn reason_overdue() -> Seq<char> {
    "archival watermark is overdue by more than "@ + decimal(48) + " hours"@
}

pub open spec fn reason_oversized(n: nat) -> Seq<char> {
    decimal(n) + " newly eligible tasks exceeds the unattended limit of "@ + decimal(10)
}

fn reason_text_retention_held(from: u64, to: u64) -> (r: String)
    ensures
        r@ == reason_retention_held(from, to),
{
    let mut r = String::new();
    r.append("retention changed from ");
    push_decimal(&mut r, from);
    r.append("d to ");
    push_decimal(&mut r, to);
    r.append("d while archival was held");
    r
}

fn reason_text_build_held(from: &str, to: &str) -> (r: String)
    ensures
        r@ == reason_build_held(from@, to@),
{
    let mut r = String::new();
    r.append("daemon build changed from ");
    r.append(from);
    r.append(" to ");
    r.append(to);
    r.append(" while archival was held");
    r
}

fn reason_text_retention(from: u64, to: u64) -> (r: String)
    ensures
        r@ == reason_retention(from, to),
{
    let mut r = String::new();
    r.append("retention changed from ");
    push_decimal(&mut r, from);
    r.append("d to ");
    push_decimal(&mut r, to);
    r.append("d");
    r
}

fn reason_text_build(from: &Option<String>, to: &str) -> (r: String)
    ensures
        r@ == reason_build(opt_view(*from), to@),
{
    let mut r = String::new();
    r.append("daemon build changed from ");
    match from {
        Some(f) => r.append(f.as_str()),
        None => r.append("unverified"),
    }
    r.append(" to ");
    r.append(to);
    r
}

fn reason_text_overdue() -> (r: String)
    ensures
        r@ == reason_overdue(),
{
    let mut r = String::new();
    r.append("archival watermark is overdue by more than ");
    push_decimal(&mut r, (MAX_AUTOMATIC_WATERMARK_GAP_SECS / 3600) as u64);
    r.append(" hours");
    r
}

fn reason_text_oversized(n: usize) -> (r: String)
    ensures
        r@ == reason_oversized(n as nat),
{
    let mut r = String::new();
    push_decimal(&mut r, n as u64);
    r.append(" newly eligible tasks exceeds the unattended limit of ");
    push_decimal(&mut r, MAX_AUTOMATIC_INCREMENTAL_BATCH as u64);
    r
}

/// The exact dry-run plan for the tasks at `order`.
pub fn pending_plan(
    tasks: &Vec<ArchiveTask>,
    order: &Vec<usize>,
    retention_days: u64,
    build_id: &str,
    cutoff_text: &String,
    now_text: &String,
    reason: String,
) -> (p: AutomaticArchivePending)
    requires
        forall|i: int| 0 <= i < order.len() ==> #[trigger] order@[i] < tasks.len(),
    ensures
        plan_matches(p, tasks@, order@, retention_days, build_id@, cutoff_text@, now_text@, reason@),
{
    let mut planned: Vec<AutomaticArchivePlanTask> = Vec::new();
    let mut i: usize = 0;
    while i < order.len()
        invariant
            i <= order.len(),
            forall|k: int| 0 <= k < order.len() ==> #[trigger] order@[k] < tasks.len(),
            planned.len() == i,
            forall|k: int|
                0 <= k < i ==> (#[trigger] planned@[k]).id@ == tasks@[order@[k] as int].id@
                    && planned@[k].digest@ == tasks@[order@[k] as int].digest@,
        decreases order.len() - i,
    {
        let t = &tasks[order[i]];
        planned.push(AutomaticArchivePlanTask { id: t.id.clone(), digest: t.digest.clone() });
        i += 1;
    }
    AutomaticArchivePending {
        created_at: now_text.clone(),
        evaluated_cutoff: cutoff_text.clone(),
        retention_days,
        build_id: owned(build_id),
        reason,
        tasks: planned,
    }
}

/// `state` holding `pending`: the state to persist and the outcome.
fn persist_hold(state: AutomaticArchiveState, pending: AutomaticArchivePending) -> (r: (
    AutomaticArchiveState,
    AutomaticArchiveOutcome,
))
    ensures
        holds(r.0, state, pending),
        r.1 matches AutomaticArchiveOutcome::Held { count, reason } && count == pending.tasks.len()
            && reason@ == pending.reason@,
{
    let count = pending.tasks.len();
    let reason = pending.reason.clone();
    let mut state = state;
    state.retention_days = pending.retention_days;
    state.pending = Some(pending);
    (state, AutomaticArchiveOutcome::Held { count, reason })
}

/// The window of a hold for the recorded watermark.
fn hold_window_tasks(tasks: &Vec<ArchiveTask>, state: &AutomaticArchiveState, cutoff: i128) -> (order: Vec<usize>)
    requires
        -0x10_0000_0000_0000_0000_0000_0000 <= cutoff <= 0x10_0000_0000_0000_0000_0000_0000,
    ensures
        hold_window(order@, tasks@, watermark(*state), cutoff as int),
{
    let w = match &state.last_confirmed_cutoff {
        Some(t) => parse_rfc3339(t.as_str()),
        None => None,
    };
    match w {
        None => eligible_automatic_tasks(tasks, None, cutoff),
        Some(l) => if cutoff > l {
            eligible_automatic_tasks(tasks, Some(l), cutoff)
        } else {
            Vec::new()
        },
    }
}

proof fn lemma_window_in_range(order: Seq<usize>, tasks: Seq<ArchiveTask>, w: Option<int>, cutoff: int)
    requires
        hold_window(order, tasks, w, cutoff),
    ensures
        forall|i: int| 0 <= i < order.len() ==> #[trigger] order[i] < tasks.len(),
{
}

/// The planner's decision for an enabled archiver whose graph exists, with
/// `cutoff` and both instants' texts.
pub open spec fn enabled_plan_ok(
    plan: AutomaticPlan,
    stored: Option<AutomaticArchiveState>,
    tasks: Seq<ArchiveTask>,
    retention_days: u64,
    build_id: Seq<char>,
    cutoff: int,
    cutoff_text: Seq<char>,
    now_text: Seq<char>,
) -> bool {
    match stored {
        None => {
            // First run: persist the exact window as a held plan.
            &&& plan.archive.len() == 0
            &&& is_window(plan.window@, tasks, None, cutoff)
            &&& plan.write matches Some(ns) && ns.pending matches Some(p) && holds(
                ns,
                AutomaticArchiveState::fresh_spec(retention_days),
                p,
            ) && plan_matches(
                p,
                tasks,
                plan.window@,
                retention_days,
                build_id,
                cutoff_text,
                now_text,
                reason_no_ack(),
            )
            &&& held_outcome(plan, reason_no_ack())
        },
        Some(s) => match s.pending {
            Some(held) => if held.build_id@ != build_id || held.retention_days != retention_days {
                // Re-plan the hold against the current build and retention.
                let reason = if held.retention_days != retention_days {
                    reason_retention_held(held.retention_days, retention_days)
                } else {
                    reason_build_held(held.build_id@, build_id)
                };
                &&& plan.archive.len() == 0
                &&& hold_window(plan.window@, tasks, watermark(s), cutoff)
                &&& plan.write matches Some(ns) && ns.pending matches Some(p) && holds(ns, s, p)
                    && plan_matches(
                    p,
                    tasks,
                    plan.window@,
                    retention_days,
                    build_id,
                    cutoff_text,
                    now_text,
                    reason,
                )
                &&& held_outcome(plan, reason)
            } else {
                // The identical hold stays in force; nothing is written.
                &&& plan.archive.len() == 0
                &&& plan.write is None
                &&& plan.outcome matches AutomaticArchiveOutcome::Held { count, reason } && count
                    == held.tasks.len() && reason@ == held.reason@
            },
            None => match watermark(s) {
                None => {
                    &&& plan.archive.len() == 0
                    &&& is_window(plan.window@, tasks, None, cutoff)
                    &&& plan.write matches Some(ns) && ns.pending matches Some(p) && holds(ns, s, p)
                        && plan_matches(
                        p,
                        tasks,
                        plan.window@,
                        retention_days,
                        build_id,
                        cutoff_text,
                        now_text,
                        reason_no_watermark(),
                    )
                    &&& held_outcome(plan, reason_no_watermark())
                },
                Some(w) => {
                    let changed = s.retention_days != retention_days || opt_view(
                        s.acknowledged_build_id,
                    ) != Some(build_id);
                    let reason = if s.retention_days != retention_days {
                        reason_retention(s.retention_days, retention_days)
                    } else if opt_view(s.acknowledged_build_id) != Some(build_id) {
                        reason_build(opt_view(s.acknowledged_build_id), build_id)
                    } else if (cutoff - w) / (NANOS_PER_SEC as int)
                        > MAX_AUTOMATIC_WATERMARK_GAP_SECS {
                        reason_overdue()
                    } else {
                        reason_oversized(plan.window@.len() as nat)
                    };
                    &&& hold_window(plan.window@, tasks, Some(w), cutoff)
                    &&& if !changed && cutoff <= w {
                        // Never move the watermark backwards.
                        &&& plan.archive.len() == 0
                        &&& plan.write is None
                        &&& plan.outcome is Advanced
                    } else if changed || (cutoff - w) / (NANOS_PER_SEC as int)
                        > MAX_AUTOMATIC_WATERMARK_GAP_SECS || plan.window.len()
                        > MAX_AUTOMATIC_INCREMENTAL_BATCH {
                        &&& plan.archive.len() == 0
                        &&& plan.write matches Some(ns) && ns.pending matches Some(p) && holds(
                            ns,
                            s,
                            p,
                        ) && plan_matches(
                            p,
                            tasks,
                            plan.window@,
                            retention_days,
                            build_id,
                            cutoff_text,
                            now_text,
                            reason,
                        )
                        &&& held_outcome(plan, reason)
                    } else {
                        // Acknowledged, recent and small: archive the window.
                        &&& plan.archive@ == plan.window@
                        &&& plan.write matches Some(ns) && advances(
                            ns,
                            s,
                            tasks,
                            plan.window@,
                            retention_days,
                            build_id,
                            cutoff_text,
                            now_text,
                        )
                        &&& if plan.window.len() == 0 {
                            plan.outcome is Advanced
                        } else {
                            plan.outcome matches AutomaticArchiveOutcome::Archived { count } && count
                                == plan.window.len()
                        }
                    }
                },
            },
        },
    }
}

/// The plan reports a hold of its whole window for `reason`.
pub open spec fn held_outcome(plan: AutomaticPlan, reason: Seq<char>) -> bool {
    plan.outcome matches AutomaticArchiveOutcome::Held { count, reason: r } && count
        == plan.window.len() && r@ == reason
}

/// Unattended archival is guarded: a tick archives only for an acknowledged
/// state (no held plan, a verified watermark, the same retention and build),
/// past its watermark by at most the allowed gap, and at most the allowed
/// batch; what it archives is exactly the window since the watermark.
pub proof fn law_unattended_archival_is_guarded(
    plan: AutomaticPlan,
    stored: Option<AutomaticArchiveState>,
    tasks: Seq<ArchiveTask>,
    retention_days: u64,
    build_id: Seq<char>,
    cutoff: int,
    cutoff_text: Seq<char>,
    now_text: Seq<char>,
)
    requires
        enabled_plan_ok(plan, stored, tasks, retention_days, build_id, cutoff, cutoff_text, now_text),
        plan.archive.len() > 0,
    ensures
        stored matches Some(s) && s.pending is None && s.retention_days == retention_days && opt_view(
            s.acknowledged_build_id,
        ) == Some(build_id) && (watermark(s) matches Some(w) && cutoff > w && (cutoff - w) / (
        NANOS_PER_SEC as int) <= MAX_AUTOMATIC_WATERMARK_GAP_SECS && plan.archive.len()
            <= MAX_AUTOMATIC_INCREMENTAL_BATCH && is_window(plan.archive@, tasks, Some(w), cutoff)),
{
}

/// The watermark never moves backwards: whenever a tick records a new
/// watermark it is the cutoff, later than the verified previous one; every
/// other persisted state keeps the watermark as it was.
pub proof fn law_watermark_only_advances(
    plan: AutomaticPlan,
    s: AutomaticArchiveState,
    tasks: Seq<ArchiveTask>,
    retention_days: u64,
    build_id: Seq<char>,
    cutoff: int,
    cutoff_text: Seq<char>,
    now_text: Seq<char>,
)
    requires
        enabled_plan_ok(plan, Some(s), tasks, retention_days, build_id, cutoff, cutoff_text, now_text),
        plan.write matches Some(ns) && ns.last_confirmed_cutoff != s.last_confirmed_cutoff,
    ensures
        watermark(s) matches Some(w) && cutoff > w,
        plan.write matches Some(ns) && opt_view(ns.last_confirmed_cutoff) == Some(cutoff_text),
{
}

/// Every hold persists the exact dry-run: the pending plan lists precisely
/// the tasks of the evaluated window, with their record digests.
pub proof fn law_holds_persist_exact_window(
    plan: AutomaticPlan,
    stored: Option<AutomaticArchiveState>,
    tasks: Seq<ArchiveTask>,
    retention_days: u64,
    build_id: Seq<char>,
    cutoff: int,
    cutoff_text: Seq<char>,
    now_text: Seq<char>,
)
    requires
        enabled_plan_ok(plan, stored, tasks, retention_days, build_id, cutoff, cutoff_text, now_text),
        plan.write matches Some(ns) && ns.pending is Some,
    ensures
        plan.archive.len() == 0,
        plan.write matches Some(ns) && ns.pending matches Some(p) && p.tasks.len() == plan.window.len()
            && p.retention_days == retention_days && p.build_id@ == build_id && p.evaluated_cutoff@
            == cutoff_text && forall|i: int|
            0 <= i < plan.window.len() ==> (#[trigger] p.tasks[i]).id@ == tasks[plan.window@[i] as int].id@
                && p.tasks[i].digest@ == tasks[plan.window@[i] as int].digest@,
        plan.outcome matches AutomaticArchiveOutcome::Held { count, reason } && count
            == plan.window.len(),
{
}

/// `new` records the archival of the tasks at `order`: the watermark moves
/// to the cutoff, the build is acknowledged, and a receipt names the tasks.
pub open spec fn advances(
    new: AutomaticArchiveState,
    old: AutomaticArchiveState,
    tasks: Seq<ArchiveTask>,
    order: Seq<usize>,
    retention_days: u64,
    build_id: Seq<char>,
    cutoff_text: Seq<char>,
    now_text: Seq<char>,
) -> bool {
    &&& new.version == old.version
    &&& new.retention_days == retention_days
    &&& opt_view(new.last_confirmed_cutoff) == Some(cutoff_text)
    &&& opt_view(new.acknowledged_build_id) == Some(build_id)
    &&& new.pending == old.pending
    &&& new.last_receipt matches Some(r) && r.confirmed_at@ == now_text && r.cutoff@ == cutoff_text
        && r.retention_days == retention_days && r.build_id@ == build_id && r.task_ids.len()
        == order.len() && forall|i: int|
        0 <= i < order.len() ==> #[trigger] r.task_ids[i]@ == tasks[order[i] as int].id@
}

impl AutomaticArchiveState {
    pub open spec fn fresh_spec(retention_days: u64) -> AutomaticArchiveState {
        AutomaticArchiveState {
            version: AUTO_ARCHIVE_STATE_VERSION,
            retention_days,
            last_confirmed_cutoff: None,
            acknowledged_build_id: None,
            pending: None,
            last_receipt: None,
        }
    }
}

fn ids_at(tasks: &Vec<ArchiveTask>, order: &Vec<usize>) -> (ids: Vec<String>)
    requires
        forall|i: int| 0 <= i < order.len() ==> #[trigger] order@[i] < tasks.len(),
    ensures
        ids.len() == order.len(),
        forall|i: int| 0 <= i < order.len() ==> #[trigger] ids@[i]@ == tasks@[order@[i] as int].id@,
{
    let mut ids: Vec<String> = Vec::new();
    let mut i: usize = 0;
    while i < order.len()
        invariant
            i <= order.len(),
            forall|k: int| 0 <= k < order.len() ==> #[trigger] order@[k] < tasks.len(),
            ids.len() == i,
            forall|k: int| 0 <= k < i ==> #[trigger] ids@[k]@ == tasks@[order@[k] as int].id@,
        decreases order.len() - i,
    {
        ids.push(tasks[order[i]].id.clone());
        i += 1;
    }
    ids
}

fn hold_plan(
    tasks: &Vec<ArchiveTask>,
    state: AutomaticArchiveState,
    window: Vec<usize>,
    retention_days: u64,
    build_id: &str,
    cutoff_text: &String,
    now_text: &String,
    reason: String,
) -> (plan: AutomaticPlan)
    requires
        forall|i: int| 0 <= i < window.len() ==> #[trigger] window@[i] < tasks.len(),
    ensures
        plan.archive.len() == 0,
        plan.window@ == window@,
        plan.write matches Some(ns) && ns.pending matches Some(p) && holds(ns, state, p) && plan_matches(
            p,
            tasks@,
            window@,
            retention_days,
            build_id@,
            cutoff_text@,
            now_text@,
            reason@,
        ),
        plan.outcome matches AutomaticArchiveOutcome::Held { count, reason: r } && count
            == window.len() && r@ == reason@,
{
    let pending = pending_plan(tasks, &window, retention_days, build_id, cutoff_text, now_text, reason);
    let (ns, outcome) = persist_hold(state, pending);
    AutomaticPlan { archive: Vec::new(), write: Some(ns), window, outcome }
}

/// One guarded automatic archival tick at instant `now` (nanoseconds).
///
/// A first run, build change, retention change, long watermark gap, or
/// oversized batch persists an exact dry-run and stops. Only an
/// acknowledged, small, recent interval may archive without attendance.
/// `graph` is `None` when no graph file exists. The result is `None` exactly
/// when chrono cannot represent the instant or the cutoff (where the clock
/// arithmetic would panic).
pub fn plan_automatic(
    stored: Option<AutomaticArchiveState>,
    graph: Option<&Vec<ArchiveTask>>,
    retention_days: u64,
    build_id: &str,
    now: i128,
) -> (r: Option<AutomaticPlan>)
    requires
        -0x1_0000_0000_0000_0000_0000_0000 <= now <= 0x1_0000_0000_0000_0000_0000_0000,
    ensures
        retention_days == 0 ==> (r matches Some(plan) && plan.archive.len() == 0
            && plan.outcome is Disabled && match stored {
            Some(s) => if s.retention_days != 0 || s.pending is Some {
                plan.write matches Some(ns) && ns.retention_days == 0 && ns.pending is None
                    && ns.version == s.version && ns.last_confirmed_cutoff == s.last_confirmed_cutoff
                    && ns.acknowledged_build_id == s.acknowledged_build_id && ns.last_receipt
                    == s.last_receipt
            } else {
                plan.write is None
            },
            None => plan.write is None,
        }),
        retention_days != 0 && graph is None ==> (r matches Some(plan) && plan.archive.len() == 0
            && plan.write is None && plan.outcome is Advanced),
        retention_days != 0 && graph is Some ==> {
            let cutoff = cutoff_instant(now as int, retention_days);
            match r {
                None => instant_text(now as int) is None || instant_text(cutoff) is None,
                Some(plan) => instant_text(now as int) matches Some(now_text) && instant_text(
                    cutoff,
                ) matches Some(cutoff_text) && enabled_plan_ok(
                    plan,
                    stored,
                    graph.unwrap()@,
                    retention_days,
                    build_id@,
                    cutoff,
                    cutoff_text,
                    now_text,
                ),
            }
        },
{
    if retention_days == 0 {
        let (state, changed) = match stored {
            Some(s) => {
                let changed = s.retention_days != 0 || s.pending.is_some();
                (s, changed)
            },
            None => (AutomaticArchiveState::disabled(), false),
        };
        if changed {
            let mut state = state;
            state.retention_days = 0;
            state.pending = None;
            return Some(
                AutomaticPlan {
                    archive: Vec::new(),
                    write: Some(state),
                    window: Vec::new(),
                    outcome: AutomaticArchiveOutcome::Disabled,
                },
            );
        }
        return Some(
            AutomaticPlan {
                archive: Vec::new(),
                write: None,
                window: Vec::new(),
                outcome: AutomaticArchiveOutcome::Disabled,
            },
        );
    }
    let tasks = match graph {
        None => {
            return Some(
                AutomaticPlan {
                    archive: Vec::new(),
                    write: None,
                    window: Vec::new(),
                    outcome: AutomaticArchiveOutcome::Advanced,
                },
            );
        },
        Some(t) => t,
    };
    let cutoff: i128 = now - (retention_days as i64) as i128 * NANOS_PER_DAY;
    let now_text = match format_rfc3339(now) {
        Some(t) => t,
        None => {
            return None;
        },
    };
    let cutoff_text = match format_rfc3339(cutoff) {
        Some(t) => t,
        None => {
            return None;
        },
    };
    let state = match stored {
        None => {
            let window = eligible_automatic_tasks(tasks, None, cutoff);
            let plan = hold_plan(
                tasks,
                AutomaticArchiveState::fresh(retention_days),
                window,
                retention_days,
                build_id,
                &cutoff_text,
                &now_text,
                owned("no persisted automatic archival acknowledgment (legacy/unverified startup)"),
            );
            return Some(plan);
        },
        Some(s) => s,
    };
    if let Some(held) = &state.pending {
        let same_build = str_eq(held.build_id.as_str(), build_id);
        if !same_build || held.retention_days != retention_days {
            let reason = if held.retention_days != retention_days {
                reason_text_retention_held(held.retention_days, retention_days)
            } else {
                reason_text_build_held(held.build_id.as_str(), build_id)
            };
            let window = hold_window_tasks(tasks, &state, cutoff);
            proof {
                lemma_window_in_range(window@, tasks@, watermark(state), cutoff as int);
            }
            let mut cleared = state;
            cleared.pending = None;
            let plan = hold_plan(
                tasks,
                cleared,
                window,
                retention_days,
                build_id,
                &cutoff_text,
                &now_text,
                reason,
            );
            return Some(plan);
        }
        let count = held.tasks.len();
        let reason = held.reason.clone();
        return Some(
            AutomaticPlan {
                archive: Vec::new(),
                write: None,
                window: Vec::new(),
                outcome: AutomaticArchiveOutcome::Held { count, reason },
            },
        );
    }
    let w = match &state.last_confirmed_cutoff {
        Some(t) => parse_rfc3339(t.as_str()),
        None => None,
    };
    let last = match w {
        None => {
            let window = eligible_automatic_tasks(tasks, None, cutoff);
            let plan = hold_plan(
                tasks,
                state,
                window,
                retention_days,
                build_id,
                &cutoff_text,
                &now_text,
                owned("automatic archival receipt has no verified watermark"),
            );
            return Some(plan);
        },
        Some(l) => l,
    };
    let window = if cutoff > last {
        eligible_automatic_tasks(tasks, Some(last), cutoff)
    } else {
        Vec::new()
    };
    proof {
        lemma_window_in_range(window@, tasks@, Some(last as int), cutoff as int);
    }
    let ack_matches = match &state.acknowledged_build_id {
        Some(a) => str_eq(a.as_str(), build_id),
        None => false,
    };
    if state.retention_days != retention_days || !ack_matches {
        let reason = if state.retention_days != retention_days {
            reason_text_retention(state.retention_days, retention_days)
        } else {
            reason_text_build(&state.acknowledged_build_id, build_id)
        };
        let plan = hold_plan(
            tasks,
            state,
            window,
            retention_days,
            build_id,
            &cutoff_text,
            &now_text,
            reason,
        );
        return Some(plan);
    }
    if cutoff <= last {
        return Some(
            AutomaticArchiveOutcome::Advanced.into_plan(),
        );
    }
    let gap_secs = (cutoff - last) / NANOS_PER_SEC;
    if gap_secs > MAX_AUTOMATIC_WATERMARK_GAP_SECS as i128 || window.len()
        > MAX_AUTOMATIC_INCREMENTAL_BATCH {
        let reason = if gap_secs > MAX_AUTOMATIC_WATERMARK_GAP_SECS as i128 {
            reason_text_overdue()
        } else {
            reason_text_oversized(window.len())
        };
        let plan = hold_plan(
            tasks,
            state,
            window,
            retention_days,
            build_id,
            &cutoff_text,
            &now_text,
            reason,
        );
        return Some(plan);
    }
    let task_ids = ids_at(tasks, &window);
    let count = window.len();
    let mut ns = state;
    ns.retention_days = retention_days;
    ns.last_confirmed_cutoff = Some(cutoff_text.clone());
    ns.acknowledged_build_id = Some(owned(build_id));
    ns.last_receipt = Some(
        AutomaticArchiveReceipt {
            confirmed_at: now_text,
            cutoff: cutoff_text,
            retention_days,
            build_id: owned(build_id),
            task_ids,
        },
    );
    let outcome = if count == 0 {
        AutomaticArchiveOutcome::Advanced
    } else {
        AutomaticArchiveOutcome::Archived { count }
    };
    Some(AutomaticPlan { archive: window.clone(), write: Some(ns), window, outcome })
}

impl AutomaticArchiveOutcome {
    /// A plan that only reports this outcome.
    fn into_plan(self) -> (plan: AutomaticPlan)
        ensures
            plan.archive.len() == 0,
            plan.write is None,
            plan.window.len() == 0,
            plan.outcome == self,
    {
        AutomaticPlan { archive: Vec::new(), write: None, window: Vec::new(), outcome: self }
    }
}

// ---------------------------------------------------------------------------
// Operator status of the automatic archiver
// ---------------------------------------------------------------------------

#[derive(Clone, Debug)]
pub struct AutomaticArchiveStatus {
    pub enabled: bool,
    pub retention_days: u64,
    pub pending: bool,
    pub pending_count: usize,
    pub reason: Option<String>,
    pub task_ids: Vec<String>,
    pub dry_run_command: Option<String>,
    pub confirm_command: Option<String>,
}

/// What reading the automatic archival state gave.
pub enum StateLoad {
    /// No state file exists.
    Missing,
    Loaded(AutomaticArchiveState),
    /// The state could not be read or parsed; carries the error text.
    Unreadable(String),
}

pub open spec fn dry_run_command() -> Seq<char> {
    "wg archive auto --dry-run"@
}

pub open spec fn confirm_command() -> Seq<char> {
    "wg archive auto --confirm"@
}

pub open spec fn reason_awaiting_first_pass() -> Seq<char> {
    "no persisted automatic archival acknowledgment; awaiting first daemon maintenance pass"@
}

pub open spec fn reason_unreadable(error: Seq<char>) -> Seq<char> {
    "automatic archival state is unreadable: "@ + error
}

/// The operator-facing automatic archival status. A malformed state is
/// reported as a hold rather than being ignored; no caller may infer
/// permission to archive from unreadable state.
pub fn automatic_status(retention_days: u64, load: StateLoad) -> (st: AutomaticArchiveStatus)
    ensures
        st.retention_days == retention_days,
        st.enabled == (retention_days != 0),
        retention_days == 0 ==> !st.pending && st.pending_count == 0 && st.reason is None
            && st.task_ids.len() == 0 && st.dry_run_command is None && st.confirm_command is None,
        retention_days != 0 ==> match load {
            StateLoad::Loaded(s) => match s.pending {
                Some(p) => {
                    &&& st.pending
                    &&& st.pending_count == p.tasks.len()
                    &&& opt_view(st.reason) == Some(p.reason@)
                    &&& st.task_ids.len() == p.tasks.len()
                    &&& forall|i: int| 0 <= i < p.tasks.len() ==> #[trigger] st.task_ids@[i]@ == p.tasks[i].id@
                    &&& opt_view(st.dry_run_command) == Some(dry_run_command())
                    &&& opt_view(st.confirm_command) == Some(confirm_command())
                },
                None => !st.pending && st.pending_count == 0 && st.reason is None
                    && st.task_ids.len() == 0 && st.dry_run_command is None
                    && st.confirm_command is None,
            },
            StateLoad::Missing => st.pending && st.pending_count == 0 && opt_view(st.reason) == Some(
                reason_awaiting_first_pass(),
            ) && st.task_ids.len() == 0 && opt_view(st.dry_run_command) == Some(dry_run_command())
                && opt_view(st.confirm_command) == Some(confirm_command()),
            StateLoad::Unreadable(e) => st.pending && st.pending_count == 0 && opt_view(st.reason)
                == Some(reason_unreadable(e@)) && st.task_ids.len() == 0 && opt_view(
                st.dry_run_command,
            ) == Some(dry_run_command()) && st.confirm_command is None,
        },
{
    if retention_days == 0 {
        return AutomaticArchiveStatus {
            enabled: false,
            retention_days,
            pending: false,
            pending_count: 0,
            reason: None,
            task_ids: Vec::new(),
            dry_run_command: None,
            confirm_command: None,
        };
    }
    match load {
        StateLoad::Loaded(state) => match state.pending {
            Some(p) => {
                let mut ids: Vec<String> = Vec::new();
                let mut i: usize = 0;
                while i < p.tasks.len()
                    invariant
                        i <= p.tasks.len(),
                        ids.len() == i,
                        forall|k: int| 0 <= k < i ==> #[trigger] ids@[k]@ == p.tasks@[k].id@,
                    decreases p.tasks.len() - i,
                {
                    ids.push(p.tasks[i].id.clone());
                    i += 1;
                }
                AutomaticArchiveStatus {
                    enabled: true,
                    retention_days,
                    pending: true,
                    pending_count: p.tasks.len(),
                    reason: Some(p.reason),
                    task_ids: ids,
                    dry_run_command: Some(owned("wg archive auto --dry-run")),
                    confirm_command: Some(owned("wg archive auto --confirm")),
                }
            },
            None => AutomaticArchiveStatus {
                enabled: true,
                retention_days,
                pending: false,
                pending_count: 0,
                reason: None,
                task_ids: Vec::new(),
                dry_run_command: None,
                confirm_command: None,
            },
        },
        StateLoad::Missing => AutomaticArchiveStatus {
            enabled: true,
            retention_days,
            pending: true,
            pending_count: 0,
            reason: Some(
                owned(
                    "no persisted automatic archival acknowledgment; awaiting first daemon maintenance pass",
                ),
            ),
            task_ids: Vec::new(),
            dry_run_command: Some(owned("wg archive auto --dry-run")),
            confirm_command: Some(owned("wg archive auto --confirm")),
        },
        StateLoad::Unreadable(error) => {
            let mut reason = owned("automatic archival state is unreadable: ");
            reason.append(error.as_str());
            AutomaticArchiveStatus {
                enabled: true,
                retention_days,
                pending: true,
                pending_count: 0,
                reason: Some(reason),
                task_ids: Vec::new(),
                dry_run_command: Some(owned("wg archive auto --dry-run")),
                confirm_command: None,
            }
        },
    }
}

/// A stored state is readable only in the current format version.
pub fn check_state_version(state: &AutomaticArchiveState) -> (r: Result<(), u32>)
    ensures
        r is Ok <==> state.version == AUTO_ARCHIVE_STATE_VERSION,
        r matches Err(v) ==> v == state.version,
{
    if state.version != AUTO_ARCHIVE_STATE_VERSION {
        Err(state.version)
    } else {
        Ok(())
    }
}

// ---------------------------------------------------------------------------
// Lookup by id
// ---------------------------------------------------------------------------

/// The first position at or after `i` whose task has id `id`.
pub open spec fn find_from(tasks: Seq<ArchiveTask>, id: Seq<char>, i: int) -> Option<int>
    decreases tasks.len() - i,
{
    if i < 0 || i >= tasks.len() {
        None
    } else if tasks[i].id@ == id {
        Some(i)
    } else {
        find_from(tasks, id, i + 1)
    }
}

/// The first task with id `id`.
pub open spec fn find_task_spec(tasks: Seq<ArchiveTask>, id: Seq<char>) -> Option<int> {
    find_from(tasks, id, 0)
}

/// The position of the first task with id `id`.
pub fn find_task(tasks: &Vec<ArchiveTask>, id: &str) -> (r: Option<usize>)
    ensures
        match r {
            Some(i) => find_task_spec(tasks@, id@) == Some(i as int) && i < tasks.len(),
            None => find_task_spec(tasks@, id@) is None,
        },
{
    let mut i: usize = 0;
    while i < tasks.len()
        invariant
            i <= tasks.len(),
            find_from(tasks@, id@, i as int) == find_task_spec(tasks@, id@),
        decreases tasks.len() - i,
    {
        if str_eq(tasks[i].id.as_str(), id) {
            return Some(i);
        }
        i += 1;
    }
    None
}

// ---------------------------------------------------------------------------
// Confirming a held plan
// ---------------------------------------------------------------------------

#[derive(Clone, Debug)]
pub enum ConfirmError {
    /// Automatic archival is disabled (retention zero).
    Disabled,
    /// No automatic archival state is stored.
    NoPlan,
    /// The stored state holds no plan.
    NothingPending,
    RetentionMismatch { pending: u64, current: u64 },
    BuildMismatch { pending: String, current: String },
    /// An active task changed after the dry-run.
    Changed { id: String, expected: String, actual: String },
    /// An archived task differs from the plan.
    ArchivedMismatch { id: String },
    /// A planned task is neither active nor archived.
    Missing { id: String },
}

/// What confirming a held plan does: archive the active planned tasks (graph
/// positions), record `batch_ids` as the undo receipt when non-empty, and
/// persist `state`.
pub struct ConfirmPlan {
    pub archive: Vec<usize>,
    pub batch_ids: Vec<String>,
    pub state: AutomaticArchiveState,
}

/// How one planned task stands against the graph and the archive.
pub open spec fn planned_ok(t: AutomaticArchivePlanTask, graph: Seq<ArchiveTask>, archived: Seq<ArchiveTask>) -> bool {
    match find_task_spec(graph, t.id@) {
        Some(i) => graph[i].digest@ == t.digest@,
        None => match find_task_spec(archived, t.id@) {
            Some(j) => archived[j].digest@ == t.digest@,
            None => false,
        },
    }
}

/// The error that a failing planned task gives.
pub open spec fn planned_error(
    t: AutomaticArchivePlanTask,
    graph: Seq<ArchiveTask>,
    archived: Seq<ArchiveTask>,
    e: ConfirmError,
) -> bool {
    match find_task_spec(graph, t.id@) {
        Some(i) => e matches ConfirmError::Changed { id, expected, actual } && id@ == t.id@
            && expected@ == t.digest@ && actual@ == graph[i].digest@,
        None => match find_task_spec(archived, t.id@) {
            Some(_) => e matches ConfirmError::ArchivedMismatch { id } && id@ == t.id@,
            None => e matches ConfirmError::Missing { id } && id@ == t.id@,
        },
    }
}

/// The graph positions of the active planned tasks, in plan order.
pub open spec fn active_positions(tasks: Seq<AutomaticArchivePlanTask>, graph: Seq<ArchiveTask>) -> Seq<int>
    decreases tasks.len(),
{
    if tasks.len() == 0 {
        Seq::empty()
    } else {
        let rest = active_positions(tasks.drop_last(), graph);
        match find_task_spec(graph, tasks.last().id@) {
            Some(i) => rest.push(i),
            None => rest,
        }
    }
}

/// Confirms the held plan exactly once: it must match the configured
/// retention and this build, and every planned task must be unchanged,
/// either still active or already archived identically.
#[verifier::loop_isolation(false)]
pub fn confirm_automatic(
    retention_days: u64,
    stored: Option<AutomaticArchiveState>,
    build_id: &str,
    graph: &Vec<ArchiveTask>,
    archived: &Vec<ArchiveTask>,
    now_text: String,
) -> (r: Result<ConfirmPlan, ConfirmError>)
    ensures
        retention_days == 0 ==> r matches Err(ConfirmError::Disabled),
        retention_days != 0 && stored is None ==> r matches Err(ConfirmError::NoPlan),
        retention_days != 0 ==> match stored {
        None => true,
        Some(s) => match s.pending {
            None => r matches Err(ConfirmError::NothingPending),
            Some(p) => if p.retention_days != retention_days {
                r matches Err(ConfirmError::RetentionMismatch { pending, current }) && pending
                    == p.retention_days && current == retention_days
            } else if p.build_id@ != build_id@ {
                r matches Err(ConfirmError::BuildMismatch { pending, current }) && pending@
                    == p.build_id@ && current@ == build_id@
            } else {
                match r {
                    Ok(plan) => {
                        &&& forall|k: int| 0 <= k < p.tasks.len() ==> planned_ok(
                            #[trigger] p.tasks[k],
                            graph@,
                            archived@,
                        )
                        &&& plan.archive@.map_values(|i: usize| i as int) == active_positions(
                            p.tasks@,
                            graph@,
                        )
                        &&& plan.batch_ids.len() == p.tasks.len()
                        &&& forall|k: int| 0 <= k < p.tasks.len() ==> #[trigger] plan.batch_ids@[k]@
                            == p.tasks[k].id@
                        &&& plan.state.version == s.version
                        &&& plan.state.retention_days == retention_days
                        &&& opt_view(plan.state.last_confirmed_cutoff) == Some(p.evaluated_cutoff@)
                        &&& opt_view(plan.state.acknowledged_build_id) == Some(build_id@)
                        &&& plan.state.pending is None
                        &&& plan.state.last_receipt matches Some(rc) && rc.confirmed_at@ == now_text@
                            && rc.cutoff@ == p.evaluated_cutoff@ && rc.retention_days
                            == retention_days && rc.build_id@ == build_id@ && rc.task_ids.len()
                            == p.tasks.len() && forall|k: int|
                            0 <= k < p.tasks.len() ==> #[trigger] rc.task_ids[k]@ == p.tasks[k].id@
                    },
                    Err(e) => exists|k: int|
                        0 <= k < p.tasks.len() && (forall|j: int|
                            0 <= j < k ==> planned_ok(#[trigger] p.tasks[j], graph@, archived@))
                            && !planned_ok(p.tasks[k], graph@, archived@) && planned_error(
                            p.tasks[k],
                            graph@,
                            archived@,
                            e,
                        ),
                }
            },
        },
        },
{
    if retention_days == 0 {
        return Err(ConfirmError::Disabled);
    }
    let state = match stored {
        None => {
            return Err(ConfirmError::NoPlan);
        },
        Some(s) => s,
    };
    let pending = match &state.pending {
        None => {
            return Err(ConfirmError::NothingPending);
        },
        Some(p) => p,
    };
    if pending.retention_days != retention_days {
        return Err(
            ConfirmError::RetentionMismatch {
                pending: pending.retention_days,
                current: retention_days,
            },
        );
    }
    if !str_eq(pending.build_id.as_str(), build_id) {
        return Err(
            ConfirmError::BuildMismatch { pending: pending.build_id.clone(), current: owned(build_id) },
        );
    }
    let mut active: Vec<usize> = Vec::new();
    let mut ids: Vec<String> = Vec::new();
    let mut k: usize = 0;
    while k < pending.tasks.len()
        invariant
            k <= pending.tasks.len(),
            forall|j: int| 0 <= j < k ==> planned_ok(#[trigger] pending.tasks@[j], graph@, archived@),
            active@.map_values(|i: usize| i as int) == active_positions(
                pending.tasks@.take(k as int),
                graph@,
            ),
            ids.len() == k,
            forall|j: int| 0 <= j < k ==> #[trigger] ids@[j]@ == pending.tasks@[j].id@,
        decreases pending.tasks.len() - k,
    {
        let planned = &pending.tasks[k];
        assert(pending.tasks@.take(k + 1).drop_last() =~= pending.tasks@.take(k as int));
        match find_task(graph, planned.id.as_str()) {
            Some(i) => {
                if !str_eq(graph[i].digest.as_str(), planned.digest.as_str()) {
                    return Err(
                        ConfirmError::Changed {
                            id: planned.id.clone(),
                            expected: planned.digest.clone(),
                            actual: graph[i].digest.clone(),
                        },
                    );
                }
                let ghost before = active@;
                active.push(i);
                assert(active@.map_values(|i: usize| i as int) =~= before.map_values(
                    |i: usize| i as int,
                ).push(i as int));
            },
            None => match find_task(archived, planned.id.as_str()) {
                Some(j) => {
                    if !str_eq(archived[j].digest.as_str(), planned.digest.as_str()) {
                        return Err(ConfirmError::ArchivedMismatch { id: planned.id.clone() });
                    }
                },
                None => {
                    return Err(ConfirmError::Missing { id: planned.id.clone() });
                },
            },
        }
        ids.push(planned.id.clone());
        k += 1;
    }
    assert(pending.tasks@.take(pending.tasks.len() as int) =~= pending.tasks@);
    let cutoff = pending.evaluated_cutoff.clone();
    let mut receipt_ids: Vec<String> = Vec::new();
    let mut m: usize = 0;
    while m < ids.len()
        invariant
            m <= ids.len(),
            receipt_ids.len() == m,
            forall|j: int| 0 <= j < m ==> #[trigger] receipt_ids@[j]@ == ids@[j]@,
        decreases ids.len() - m,
    {
        receipt_ids.push(ids[m].clone());
        m += 1;
    }
    let mut ns = state;
    ns.retention_days = retention_days;
    ns.last_confirmed_cutoff = Some(cutoff.clone());
    ns.acknowledged_build_id = Some(owned(build_id));
    ns.pending = None;
    ns.last_receipt = Some(
        AutomaticArchiveReceipt {
            confirmed_at: now_text,
            cutoff,
            retention_days,
            build_id: owned(build_id),
            task_ids: receipt_ids,
        },
    );
    Ok(ConfirmPlan { archive: active, batch_ids: ids, state: ns })
}

// ---------------------------------------------------------------------------
// Manual archival
// ---------------------------------------------------------------------------

#[derive(Clone, Debug)]
pub enum ArchiveSelectError {
    /// An explicitly named task is not in the graph.
    NotFound { id: String },
    /// An explicitly named task lacks archivable terminal evidence.
    NotArchivable { id: String, status: TaskStatus },
}

pub open spec fn older_int(older: Option<i128>) -> Option<int> {
    opt_int(older)
}

/// The tasks a manual run archives. Explicit ids are taken in the order
/// given, each of which must exist and be archivable; without ids, every
/// task that `should_archive` admits, in graph order.
pub fn select_tasks_to_archive(
    graph: &Vec<ArchiveTask>,
    ids: &Vec<String>,
    older: Option<i128>,
    now: i128,
) -> (r: Result<Vec<usize>, ArchiveSelectError>)
    requires
        older matches Some(m) ==> -MAX_DELTA_SECS * NANOS_PER_SEC <= m <= MAX_DELTA_SECS
            * NANOS_PER_SEC,
        -0x10_0000_0000_0000_0000_0000_0000 <= now <= 0x10_0000_0000_0000_0000_0000_0000,
    ensures
        ids.len() > 0 ==> match r {
            Ok(sel) => sel.len() == ids.len() && forall|k: int|
                0 <= k < ids.len() ==> find_task_spec(graph@, #[trigger] ids@[k]@) == Some(
                    sel@[k] as int,
                ) && archivable(graph@[sel@[k] as int]),
            Err(e) => exists|k: int|
                #![trigger ids@[k]]
                0 <= k < ids.len() && (forall|j: int|
                    0 <= j < k ==> ((#[trigger] find_task_spec(graph@, ids@[j]@)) matches Some(i)
                        && archivable(graph@[i]))) && match find_task_spec(graph@, ids@[k]@) {
                    None => e matches ArchiveSelectError::NotFound { id } && id@ == ids@[k]@,
                    Some(i) => !archivable(graph@[i]) && (e matches ArchiveSelectError::NotArchivable {
                        id,
                        status,
                    } && id@ == ids@[k]@ && status == graph@[i].status),
                },
        },
        ids.len() == 0 ==> (r matches Ok(sel) && increasing_selection(
            sel@,
            graph.len() as int,
            |i: int| should_archive_spec(graph@[i], older_int(older), now as int),
        )),
{
    if ids.len() > 0 {
        let mut sel: Vec<usize> = Vec::new();
        let mut k: usize = 0;
        while k < ids.len()
            invariant
                k <= ids.len(),
                sel.len() == k,
                forall|j: int|
                    0 <= j < k ==> find_task_spec(graph@, #[trigger] ids@[j]@) == Some(
                        sel@[j] as int,
                    ) && archivable(graph@[sel@[j] as int]),
            decreases ids.len() - k,
        {
            match find_task(graph, ids[k].as_str()) {
                None => {
                    return Err(ArchiveSelectError::NotFound { id: ids[k].clone() });
                },
                Some(i) => {
                    if !has_archivable_terminal_evidence(&graph[i]) {
                        return Err(
                            ArchiveSelectError::NotArchivable {
                                id: ids[k].clone(),
                                status: graph[i].status,
                            },
                        );
                    }
                    sel.push(i);
                },
            }
            k += 1;
        }
        return Ok(sel);
    }
    let ghost pred = |i: int| should_archive_spec(graph@[i], older_int(older), now as int);
    let mut sel: Vec<usize> = Vec::new();
    let mut i: usize = 0;
    while i < graph.len()
        invariant
            i <= graph.len(),
            pred == (|i: int| should_archive_spec(graph@[i], older_int(older), now as int)),
            older matches Some(m) ==> -MAX_DELTA_SECS * NANOS_PER_SEC <= m <= MAX_DELTA_SECS
                * NANOS_PER_SEC,
            -0x10_0000_0000_0000_0000_0000_0000 <= now <= 0x10_0000_0000_0000_0000_0000_0000,
            increasing_selection(sel@, i as int, pred),
        decreases graph.len() - i,
    {
        let ghost before = sel@;
        if should_archive(&graph[i], older, now) {
            sel.push(i);
        }
        proof {
            assert forall|j: usize| j < i + 1 && pred(j as int) implies #[trigger] sel@.contains(j) by {
                if j < i {
                    assert(before.contains(j));
                    let m = choose|m: int| 0 <= m < before.len() && before[m] == j;
                    assert(sel@[m] == j);
                } else {
                    assert(sel@[sel@.len() - 1] == j);
                }
            }
        }
        i += 1;
    }
    Ok(sel)
}

#[derive(Clone, Copy, Debug, PartialEq, Eq, Structural)]
pub enum ArchiveGate {
    /// Nothing matched.
    NothingToArchive,
    /// Only list what would be archived.
    DryRun,
    /// A bulk run without `--yes`: list and refuse.
    NeedsConfirmation,
    Proceed,
}

/// What a manual run does with its `count` selected tasks.
pub fn archive_gate(count: usize, dry_run: bool, explicit_ids: bool, yes: bool) -> (g: ArchiveGate)
    ensures
        count == 0 ==> g == ArchiveGate::NothingToArchive,
        count > 0 && dry_run ==> g == ArchiveGate::DryRun,
        count > 0 && !dry_run && !explicit_ids && !yes ==> g == ArchiveGate::NeedsConfirmation,
        count > 0 && !dry_run && (explicit_ids || yes) ==> g == ArchiveGate::Proceed,
{
    if count == 0 {
        ArchiveGate::NothingToArchive
    } else if dry_run {
        ArchiveGate::DryRun
    } else if !explicit_ids && !yes {
        ArchiveGate::NeedsConfirmation
    } else {
        ArchiveGate::Proceed
    }
}

/// Which of `tasks` to append to an archive that already holds `existing`.
/// An identical record already present is accepted (a retry after a crash);
/// a different record with the same id fails closed, naming it.
pub fn plan_archive_append(existing: &Vec<ArchiveTask>, tasks: &Vec<ArchiveTask>) -> (r: Result<
    Vec<usize>,
    String,
>)
    ensures
        match r {
            Ok(sel) => {
                &&& forall|k: int| 0 <= k < tasks.len() ==> match find_task_spec(existing@, #[trigger] tasks@[k].id@) {
                    Some(j) => existing@[j].digest@ == tasks@[k].digest@,
                    None => true,
                }
                &&& increasing_selection(
                    sel@,
                    tasks.len() as int,
                    |k: int| find_task_spec(existing@, tasks@[k].id@) is None,
                )
            },
            Err(id) => exists|k: int|
                0 <= k < tasks.len() && tasks@[k].id@ == id@ && (find_task_spec(
                    existing@,
                    tasks@[k].id@,
                ) matches Some(j) && existing@[j].digest@ != tasks@[k].digest@) && forall|m: int|
                    0 <= m < k ==> match find_task_spec(existing@, #[trigger] tasks@[m].id@) {
                        Some(j) => existing@[j].digest@ == tasks@[m].digest@,
                        None => true,
                    },
        },
{
    let ghost pred = |k: int| find_task_spec(existing@, tasks@[k].id@) is None;
    let mut sel: Vec<usize> = Vec::new();
    let mut k: usize = 0;
    while k < tasks.len()
        invariant
            k <= tasks.len(),
            pred == (|k: int| find_task_spec(existing@, tasks@[k].id@) is None),
            forall|m: int| 0 <= m < k ==> match find_task_spec(existing@, #[trigger] tasks@[m].id@) {
                Some(j) => existing@[j].digest@ == tasks@[m].digest@,
                None => true,
            },
            increasing_selection(sel@, k as int, pred),
        decreases tasks.len() - k,
    {
        let ghost before = sel@;
        match find_task(existing, tasks[k].id.as_str()) {
            Some(j) => {
                if !str_eq(existing[j].digest.as_str(), tasks[k].digest.as_str()) {
                    return Err(tasks[k].id.clone());
                }
            },
            None => {
                sel.push(k);
            },
        }
        proof {
            assert forall|j: usize| j < k + 1 && pred(j as int) implies #[trigger] sel@.contains(j) by {
                if j < k {
                    assert(before.contains(j));
                    let m = choose|m: int| 0 <= m < before.len() && before[m] == j;
                    assert(sel@[m] == j);
                } else {
                    assert(sel@[sel@.len() - 1] == j);
                }
            }
        }
        k += 1;
    }
    Ok(sel)
}

#[derive(Clone, Debug)]
pub enum RestoreError {
    NotInArchive { id: String },
    AlreadyActive { id: String },
}

/// The archived record to restore for `id`: it must be archived and not
/// already in the active graph.
pub fn plan_restore(archived: &Vec<ArchiveTask>, active: &Vec<ArchiveTask>, id: &str) -> (r: Result<
    usize,
    RestoreError,
>)
    ensures
        match find_task_spec(archived@, id@) {
            None => r matches Err(RestoreError::NotInArchive { id: e }) && e@ == id@,
            Some(j) => if find_task_spec(active@, id@) is Some {
                r matches Err(RestoreError::AlreadyActive { id: e }) && e@ == id@
            } else {
                r == Ok::<usize, RestoreError>(j as usize)
            },
        },
{
    match find_task(archived, id) {
        None => Err(RestoreError::NotInArchive { id: owned(id) }),
        Some(j) => {
            if find_task(active, id).is_some() {
                Err(RestoreError::AlreadyActive { id: owned(id) })
            } else {
                Ok(j)
            }
        },
    }
}

// ---------------------------------------------------------------------------
// Search
// ---------------------------------------------------------------------------

/// A task matches a lowercased query in its title, description or a tag,
/// compared case-insensitively.
pub open spec fn search_hit(t: ArchiveTask, q: Seq<char>) -> bool {
    ||| contains(lowercase(t.title@), q)
    ||| contains(
        lowercase(
            match t.description {
                Some(d) => d@,
                None => Seq::empty(),
            },
        ),
        q,
    )
    ||| exists|k: int| 0 <= k < t.tags.len() && contains(lowercase(#[trigger] t.tags@[k]@), q)
}

/// Positions below `n` whose task matches, in order.
pub open spec fn hits_before(tasks: Seq<ArchiveTask>, q: Seq<char>, n: int) -> Seq<usize>
    decreases n,
{
    if n <= 0 {
        Seq::empty()
    } else if search_hit(tasks[n - 1], q) {
        hits_before(tasks, q, n - 1).push((n - 1) as usize)
    } else {
        hits_before(tasks, q, n - 1)
    }
}

fn task_hits(t: &ArchiveTask, q: &str) -> (b: bool)
    ensures
        b == search_hit(*t, q@),
{
    if str_contains(to_lowercase(t.title.as_str()).as_str(), q) {
        return true;
    }
    let desc_hit = match &t.description {
        Some(d) => str_contains(to_lowercase(d.as_str()).as_str(), q),
        None => {
            proof {
                reveal_strlit("");
            }
            assert(""@ =~= Seq::<char>::empty());
            str_contains(to_lowercase("").as_str(), q)
        },
    };
    if desc_hit {
        return true;
    }
    let mut k: usize = 0;
    while k < t.tags.len()
        invariant
            k <= t.tags.len(),
            forall|j: int| 0 <= j < k ==> !contains(lowercase(#[trigger] t.tags@[j]@), q@),
        decreases t.tags.len() - k,
    {
        if str_contains(to_lowercase(t.tags[k].as_str()).as_str(), q) {
            return true;
        }
        k += 1;
    }
    false
}

/// The archived tasks matching `query` in title, description or tags,
/// case-insensitively, at most `limit` of them, in archive order.
pub fn search_matches(tasks: &Vec<ArchiveTask>, query: &str, limit: usize) -> (out: Vec<usize>)
    ensures
        out@ == hits_before(tasks@, lowercase(query@), tasks.len() as int).take(
            if limit <= hits_before(tasks@, lowercase(query@), tasks.len() as int).len() {
                limit as int
            } else {
                hits_before(tasks@, lowercase(query@), tasks.len() as int).len() as int
            },
        ),
{
    let q = to_lowercase(query);
    let mut out: Vec<usize> = Vec::new();
    let mut i: usize = 0;
    while i < tasks.len()
        invariant
            i <= tasks.len(),
            q@ == lowercase(query@),
            out@ == hits_before(tasks@, q@, i as int).take(
                if limit <= hits_before(tasks@, q@, i as int).len() {
                    limit as int
                } else {
                    hits_before(tasks@, q@, i as int).len() as int
                },
            ),
        decreases tasks.len() - i,
    {
        let ghost prev = hits_before(tasks@, q@, i as int);
        if task_hits(&tasks[i], q.as_str()) {
            if out.len() < limit {
                out.push(i);
            }
            proof {
                let next = hits_before(tasks@, q@, i + 1);
                assert(next == prev.push(i as usize));
                if prev.len() < limit {
                    assert(next.take(next.len() as int) =~= next);
                    assert(prev.take(prev.len() as int) =~= prev);
                } else {
                    assert(next.take(limit as int) =~= prev.take(limit as int));
                }
            }
        }
        i += 1;
    }
    out
}

// ---------------------------------------------------------------------------
// Undoing the last batch
// ---------------------------------------------------------------------------

/// An undo in progress, as plain values: the archive positions restored
/// and their ids, the batch ids not in the archive, those already in the
/// graph (or restored earlier in the batch), and every id found.
pub struct UndoModel {
    pub restore: Seq<int>,
    pub restored_ids: Seq<Seq<char>>,
    pub missing: Seq<Seq<char>>,
    pub present: Seq<Seq<char>>,
    pub found: Seq<Seq<char>>,
}

/// Undo over the first `n` batch ids: an id not in the archive is skipped;
/// one already in the graph, or restored earlier in the batch, is skipped;
/// any other is restored from its first archive entry.
pub open spec fn undo_fold(
    batch: Seq<Seq<char>>,
    archived: Seq<ArchiveTask>,
    active: Seq<ArchiveTask>,
    n: int,
) -> UndoModel
    decreases n,
{
    if n <= 0 {
        UndoModel {
            restore: Seq::empty(),
            restored_ids: Seq::empty(),
            missing: Seq::empty(),
            present: Seq::empty(),
            found: Seq::empty(),
        }
    } else {
        let m = undo_fold(batch, archived, active, n - 1);
        let id = batch[n - 1];
        match find_task_spec(archived, id) {
            None => UndoModel { missing: m.missing.push(id), ..m },
            Some(j) => if find_task_spec(active, id) is Some || m.restored_ids.contains(id) {
                UndoModel { present: m.present.push(id), found: m.found.push(id), ..m }
            } else {
                UndoModel {
                    restore: m.restore.push(j),
                    restored_ids: m.restored_ids.push(id),
                    found: m.found.push(id),
                    ..m
                }
            },
        }
    }
}

/// The ids found in the archive that were not skipped, in batch order:
/// those that leave the archive.
pub open spec fn archive_removals(found: Seq<Seq<char>>, skipped: Seq<Seq<char>>) -> Seq<Seq<char>>
    decreases found.len(),
{
    if found.len() == 0 {
        Seq::empty()
    } else {
        let rest = archive_removals(found.drop_last(), skipped);
        if skipped.contains(found.last()) {
            rest
        } else {
            rest.push(found.last())
        }
    }
}

/// What undoing the last batch does: the archive positions to restore into
/// the graph, in order; the ids skipped; the ids to drop from the archive.
#[derive(Debug, Clone)]
pub struct UndoPlan {
    pub restore: Vec<usize>,
    pub skipped: Vec<String>,
    pub remove_from_archive: Vec<String>,
}

proof fn lemma_find_from_bound(tasks: Seq<ArchiveTask>, id: Seq<char>, i: int)
    ensures
        find_from(tasks, id, i) matches Some(j) ==> 0 <= j < tasks.len() && tasks[j].id@ == id,
    decreases tasks.len() - i,
{
    if 0 <= i < tasks.len() && tasks[i].id@ != id {
        lemma_find_from_bound(tasks, id, i + 1);
    }
}

proof fn lemma_find_from_first(tasks: Seq<ArchiveTask>, id: Seq<char>, i: int)
    requires
        0 <= i,
    ensures
        find_from(tasks, id, i) matches Some(j) ==> i <= j < tasks.len() && tasks[j].id@ == id
            && forall|m: int| i <= m < j ==> (#[trigger] tasks[m]).id@ != id,
        find_from(tasks, id, i) is None ==> forall|m: int|
            i <= m < tasks.len() ==> (#[trigger] tasks[m]).id@ != id,
    decreases tasks.len() - i,
{
    if i < tasks.len() && tasks[i].id@ != id {
        lemma_find_from_first(tasks, id, i + 1);
    }
}

/// The first task with `id` is at `j` when `j` holds `id` and no earlier
/// task does.
proof fn lemma_find_task_at(tasks: Seq<ArchiveTask>, id: Seq<char>, j: int)
    requires
        0 <= j < tasks.len(),
        tasks[j].id@ == id,
        forall|m: int| 0 <= m < j ==> (#[trigger] tasks[m]).id@ != id,
    ensures
        find_task_spec(tasks, id) == Some(j),
{
    lemma_find_from_first(tasks, id, 0);
}

/// The tasks an accepted append added to the archive, in order.
pub open spec fn appended(existing: Seq<ArchiveTask>, tasks: Seq<ArchiveTask>, sel: Seq<usize>) -> Seq<
    ArchiveTask,
> {
    existing + Seq::new(sel.len(), |m: int| tasks[sel[m] as int])
}

/// No two of the tasks share an id.
pub open spec fn distinct_ids(tasks: Seq<ArchiveTask>) -> bool {
    forall|a: int, b: int| 0 <= a < b < tasks.len() ==> (#[trigger] tasks[a]).id@ != (#[trigger] tasks[b]).id@
}

/// Appending tasks that the archive already holds, each with the same
/// digest, is accepted (no record differs) and selects nothing to write.
pub proof fn law_archive_append_of_archived_selects_nothing(
    existing: Seq<ArchiveTask>,
    tasks: Seq<ArchiveTask>,
    sel: Seq<usize>,
)
    requires
        forall|k: int|
            0 <= k < tasks.len() ==> (find_task_spec(existing, #[trigger] tasks[k].id@) matches Some(
                j,
            ) && existing[j].digest@ == tasks[k].digest@),
        increasing_selection(
            sel,
            tasks.len() as int,
            |k: int| find_task_spec(existing, tasks[k].id@) is None,
        ),
    ensures
        sel.len() == 0,
{
    if sel.len() > 0 {
        let k = sel[0] as int;
        assert(find_task_spec(existing, tasks[k].id@) is None);
    }
}

/// An append is safe to retry: after an accepted append of tasks with
/// distinct ids (no archived record differed; the new tasks were written in
/// order), the same append over the grown archive finds every task archived
/// with its own digest, so it is accepted again and writes nothing.
pub proof fn law_archive_append_is_retry_safe(
    existing: Seq<ArchiveTask>,
    tasks: Seq<ArchiveTask>,
    sel: Seq<usize>,
)
    requires
        tasks.len() <= usize::MAX,
        distinct_ids(tasks),
        forall|k: int|
            0 <= k < tasks.len() ==> match find_task_spec(existing, #[trigger] tasks[k].id@) {
                Some(j) => existing[j].digest@ == tasks[k].digest@,
                None => true,
            },
        increasing_selection(
            sel,
            tasks.len() as int,
            |k: int| find_task_spec(existing, tasks[k].id@) is None,
        ),
    ensures
        forall|k: int|
            0 <= k < tasks.len() ==> (find_task_spec(
                appended(existing, tasks, sel),
                #[trigger] tasks[k].id@,
            ) matches Some(j) && appended(existing, tasks, sel)[j].digest@ == tasks[k].digest@),
{
    let again = appended(existing, tasks, sel);
    let added = Seq::new(sel.len(), |m: int| tasks[sel[m] as int]);
    assert forall|k: int| 0 <= k < tasks.len() implies (find_task_spec(
        again,
        #[trigger] tasks[k].id@,
    ) matches Some(j) && again[j].digest@ == tasks[k].digest@) by {
        let id = tasks[k].id@;
        lemma_find_from_first(existing, id, 0);
        match find_task_spec(existing, id) {
            Some(j) => {
                assert forall|m: int| 0 <= m < j implies (#[trigger] again[m]).id@ != id by {
                    assert(again[m] == existing[m]);
                }
                assert(again[j] == existing[j]);
                lemma_find_task_at(again, id, j);
            },
            None => {
                let pred = |x: int| find_task_spec(existing, tasks[x].id@) is None;
                let u = k as usize;
                assert(u as int == k);
                assert(pred(u as int));
                assert(sel.contains(u));
                let m = choose|m: int| 0 <= m < sel.len() && sel[m] == u;
                let at = existing.len() + m;
                assert(again[at] == added[m]);
                assert(added[m] == tasks[k]);
                assert forall|x: int| 0 <= x < at implies (#[trigger] again[x]).id@ != id by {
                    if x < existing.len() {
                        assert(again[x] == existing[x]);
                    } else {
                        let y = x - existing.len();
                        assert(again[x] == added[y]);
                        let other = sel[y] as int;
                        assert(sel[y] < sel[m]);
                        if other < k {
                            assert(tasks[other].id@ != tasks[k].id@);
                        }
                    }
                }
                lemma_find_task_at(again, id, at);
            },
        }
    }
}

/// Plans `wg archive --undo`: refused without a graph or without a batch.
pub fn plan_undo(
    graph_exists: bool,
    batch: &Vec<String>,
    archived: &Vec<ArchiveTask>,
    active: &Vec<ArchiveTask>,
) -> (r: Result<UndoPlan, String>)
    ensures
        !graph_exists ==> (r matches Err(m) && m@ == "WG not initialized. Run 'wg init' first."@),
        graph_exists && batch@.len() == 0 ==> (r matches Err(m) && m@
            == "No tasks in the last archive batch to restore."@),
        graph_exists && batch@.len() > 0 ==> (r matches Ok(p) && {
            let m = undo_fold(views(batch@), archived@, active@, batch@.len() as int);
            &&& p.restore@.len() == m.restore.len()
            &&& (forall|k: int| 0 <= k < m.restore.len() ==> #[trigger] p.restore@[k] == m.restore[k])
            &&& views(p.skipped@) == m.missing + m.present
            &&& views(p.remove_from_archive@) == archive_removals(m.found, m.missing + m.present)
        }),
{
    if !graph_exists {
        return Err(owned("WG not initialized. Run 'wg init' first."));
    }
    if batch.len() == 0 {
        return Err(owned("No tasks in the last archive batch to restore."));
    }
    let ghost ids = views(batch@);
    let mut restore: Vec<usize> = Vec::new();
    let mut restored_ids: Vec<String> = Vec::new();
    let mut missing: Vec<String> = Vec::new();
    let mut present: Vec<String> = Vec::new();
    let mut found: Vec<String> = Vec::new();
    let mut i: usize = 0;
    while i < batch.len()
        invariant
            i <= batch@.len(),
            ids == views(batch@),
            ({
                let m = undo_fold(ids, archived@, active@, i as int);
                &&& restore@.len() == m.restore.len()
                &&& (forall|k: int| 0 <= k < m.restore.len() ==> #[trigger] restore@[k] == m.restore[k])
                &&& views(restored_ids@) == m.restored_ids
                &&& views(missing@) == m.missing
                &&& views(present@) == m.present
                &&& views(found@) == m.found
            }),
        decreases batch@.len() - i,
    {
        let id = batch[i].as_str();
        assert(ids[i as int] == id@);
        match find_task(archived, id) {
            None => {
                let ghost before = missing@;
                let x = owned(id);
                missing.push(x);
                proof {
                    lemma_views_push(before, x);
                }
            },
            Some(j) => {
                let in_graph = find_task(active, id).is_some();
                let again = strings_contain(&restored_ids, id);
                if in_graph || again {
                    let ghost before = present@;
                    let x = owned(id);
                    present.push(x);
                    proof {
                        lemma_views_push(before, x);
                    }
                } else {
                    restore.push(j);
                    let ghost before = restored_ids@;
                    let x = owned(id);
                    restored_ids.push(x);
                    proof {
                        lemma_views_push(before, x);
                    }
                }
                let ghost before = found@;
                let y = owned(id);
                found.push(y);
                proof {
                    lemma_views_push(before, y);
                }
            },
        }
        i += 1;
    }
    let mut skipped: Vec<String> = Vec::new();
    let mut k: usize = 0;
    while k < missing.len()
        invariant
            k <= missing@.len(),
            views(skipped@) == views(missing@).take(k as int),
        decreases missing@.len() - k,
    {
        let ghost before = skipped@;
        let x = owned(missing[k].as_str());
        skipped.push(x);
        proof {
            lemma_views_push(before, x);
            assert(views(missing@).take(k + 1) =~= views(missing@).take(k as int).push(
                missing@[k as int]@,
            ));
        }
        k += 1;
    }
    let mut k: usize = 0;
    while k < present.len()
        invariant
            k <= present@.len(),
            views(skipped@) == views(missing@) + views(present@).take(k as int),
        decreases present@.len() - k,
    {
        let ghost before = skipped@;
        let x = owned(present[k].as_str());
        skipped.push(x);
        proof {
            lemma_views_push(before, x);
            assert(views(missing@) + views(present@).take(k + 1) =~= (views(missing@) + views(
                present@,
            ).take(k as int)).push(present@[k as int]@));
        }
        k += 1;
    }
    assert(views(missing@).take(missing@.len() as int) =~= views(missing@));
    assert(views(present@).take(present@.len() as int) =~= views(present@));
    let mut removals: Vec<String> = Vec::new();
    let mut k: usize = 0;
    while k < found.len()
        invariant
            k <= found@.len(),
            views(removals@) == archive_removals(views(found@).take(k as int), views(skipped@)),
        decreases found@.len() - k,
    {
        assert(views(found@).take(k + 1).drop_last() =~= views(found@).take(k as int));
        assert(views(found@).take(k + 1).last() == found@[k as int]@);
        if !strings_contain(&skipped, found[k].as_str()) {
            let ghost before = removals@;
            let x = owned(found[k].as_str());
            removals.push(x);
            proof {
                lemma_views_push(before, x);
            }
        }
        k += 1;
    }
    assert(views(found@).take(found@.len() as int) =~= views(found@));
    Ok(UndoPlan { restore, skipped, remove_from_archive: removals })
}

proof fn lemma_undo_fold(
    batch: Seq<Seq<char>>,
    archived: Seq<ArchiveTask>,
    active: Seq<ArchiveTask>,
    n: int,
)
    requires
        0 <= n <= batch.len(),
    ensures
        ({
            let m = undo_fold(batch, archived, active, n);
            &&& m.restore.len() == m.restored_ids.len()
            &&& forall|k: int|
                0 <= k < m.restore.len() ==> find_task_spec(archived, #[trigger] m.restored_ids[k])
                    == Some(m.restore[k])
            &&& forall|k: int|
                0 <= k < m.restore.len() ==> find_task_spec(active, #[trigger] m.restored_ids[k]) is None
            &&& forall|p: int, q: int|
                0 <= p < q < m.restored_ids.len() ==> #[trigger] m.restored_ids[p]
                    != #[trigger] m.restored_ids[q]
        }),
    decreases n,
{
    if n > 0 {
        lemma_undo_fold(batch, archived, active, n - 1);
    }
}

/// Undo restores each archived task at most once, never one already in the
/// graph: the archive positions it restores are distinct, and each holds
/// the first archived record of its id.
pub proof fn law_undo_restores_each_task_once(
    batch: Seq<Seq<char>>,
    archived: Seq<ArchiveTask>,
    active: Seq<ArchiveTask>,
)
    ensures
        ({
            let m = undo_fold(batch, archived, active, batch.len() as int);
            &&& forall|p: int, q: int|
                0 <= p < q < m.restore.len() ==> #[trigger] m.restore[p] != #[trigger] m.restore[q]
            &&& forall|k: int|
                0 <= k < m.restore.len() ==> 0 <= #[trigger] m.restore[k] < archived.len()
                    && find_task_spec(active, archived[m.restore[k]].id@) is None
        }),
{
    let m = undo_fold(batch, archived, active, batch.len() as int);
    lemma_undo_fold(batch, archived, active, batch.len() as int);
    assert forall|k: int| 0 <= k < m.restore.len() implies 0 <= #[trigger] m.restore[k]
        < archived.len() && find_task_spec(active, archived[m.restore[k]].id@) is None by {
        let id = m.restored_ids[k];
        lemma_find_from_bound(archived, id, 0);
        assert(find_task_spec(archived, id) == Some(m.restore[k]));
    }
    assert forall|p: int, q: int|
        0 <= p < q < m.restore.len() implies #[trigger] m.restore[p] != #[trigger] m.restore[q] by {
        let a = m.restored_ids[p];
        let b = m.restored_ids[q];
        lemma_find_from_bound(archived, a, 0);
        lemma_find_from_bound(archived, b, 0);
        assert(find_task_spec(archived, a) == Some(m.restore[p]));
        assert(find_task_spec(archived, b) == Some(m.restore[q]));
        if m.restore[p] == m.restore[q] {
            assert(a == archived[m.restore[p]].id@);
            assert(b == archived[m.restore[q]].id@);
            assert(a != b);
        }
    }
}

/// What an undo reports.
pub fn undo_report(restored: usize, skipped: &Vec<String>) -> (lines: Vec<String>)
    ensures
        views(lines@) == seq!["Restored "@ + decimal(restored as nat) + " tasks from last archive batch."@]
            + if skipped@.len() > 0 {
            seq![
                "Skipped "@ + decimal(skipped@.len() as nat)
                    + " tasks (not found in archive or already in graph): "@ + crate::text::join_with(
                    views(skipped@),
                    ", "@,
                ),
            ]
        } else {
            Seq::empty()
        },
{
    let mut lines: Vec<String> = Vec::new();
    let mut a = owned("Restored ");
    push_decimal(&mut a, restored as u64);
    a.append(" tasks from last archive batch.");
    let ghost a_text = a@;
    lines.push(a);
    if skipped.len() > 0 {
        let mut b = owned("Skipped ");
        push_decimal(&mut b, skipped.len() as u64);
        b.append(" tasks (not found in archive or already in graph): ");
        let joined = crate::agency_push::join_strings(skipped, ", ");
        b.append(joined.as_str());
        let ghost b_text = b@;
        lines.push(b);
        assert(views(lines@) =~= seq![a_text, b_text]);
    } else {
        assert(views(lines@) =~= seq![a_text]);
    }
    lines
}

// ---------------------------------------------------------------------------
// What restore and search print
// ---------------------------------------------------------------------------

impl ArchiveSelectError {
    pub open spec fn message_spec(&self) -> Seq<char> {
        match self {
            ArchiveSelectError::NotFound { id } => "Task '"@ + id@ + "' not found in the graph."@,
            ArchiveSelectError::NotArchivable { id, status } => "Task '"@ + id@
                + "' is not archivable: status '"@ + status_text(*status)
                + "' lacks a verified v2 GraphSave (or explicit abandonment); reconcile retained evidence first."@,
        }
    }

    /// The refusal a manual archive run gives before writing anything.
    pub fn message(&self) -> (m: String)
        ensures
            m@ == self.message_spec(),
    {
        match self {
            ArchiveSelectError::NotFound { id } => {
                let mut m = owned("Task '");
                m.append(id.as_str());
                m.append("' not found in the graph.");
                m
            },
            ArchiveSelectError::NotArchivable { id, status } => {
                let mut m = owned("Task '");
                m.append(id.as_str());
                m.append("' is not archivable: status '");
                m.append(status_name(*status));
                m.append(
                    "' lacks a verified v2 GraphSave (or explicit abandonment); reconcile retained evidence first.",
                );
                m
            },
        }
    }
}

impl RestoreError {
    pub open spec fn message_spec(&self) -> Seq<char> {
        match self {
            RestoreError::NotInArchive { id } => "Task '"@ + id@ + "' not found in archive"@,
            RestoreError::AlreadyActive { id } => "Task '"@ + id@
                + "' already exists in the active graph"@,
        }
    }

    pub fn message(&self) -> (m: String)
        ensures
            m@ == self.message_spec(),
    {
        match self {
            RestoreError::NotInArchive { id } => {
                let mut m = owned("Task '");
                m.append(id.as_str());
                m.append("' not found in archive");
                m
            },
            RestoreError::AlreadyActive { id } => {
                let mut m = owned("Task '");
                m.append(id.as_str());
                m.append("' already exists in the active graph");
                m
            },
        }
    }
}

/// The report of a restore.
pub fn restored_message(task_id: &str, title: &str, reopen: bool) -> (m: String)
    ensures
        m@ == "Restored task '"@ + task_id@ + "' ("@ + title@ + ") to active graph with status '"@
            + (if reopen {
            "open"@
        } else {
            "done"@
        }) + "'"@,
{
    let mut m = owned("Restored task '");
    m.append(task_id);
    m.append("' (");
    m.append(title);
    m.append(") to active graph with status '");
    m.append(
        if reopen {
            "open"
        } else {
            "done"
        },
    );
    m.append("'");
    m
}

/// One search hit as listed.
pub open spec fn hit_line(t: ArchiveTask) -> Seq<char> {
    "  "@ + t.id@ + " - "@ + t.title@ + " (completed: "@ + match t.completed_at {
        Some(c) => c@,
        None => "unknown"@,
    } + ")"@ + if t.tags@.len() == 0 {
        Seq::empty()
    } else {
        " ["@ + crate::text::join_with(views(t.tags@), ", "@) + "]"@
    }
}

pub open spec fn hit_lines(tasks: Seq<ArchiveTask>, hits: Seq<usize>) -> Seq<Seq<char>> {
    hits.map_values(|i: usize| hit_line(tasks[i as int]))
}

/// The text listing of a search.
pub open spec fn search_text(query: Seq<char>, tasks: Seq<ArchiveTask>, hits: Seq<usize>) -> Seq<
    Seq<char>,
> {
    if hits.len() == 0 {
        seq!["No archived tasks matching '"@ + query + "'."@]
    } else {
        seq![
            "Archived tasks matching '"@ + query + "' ("@ + decimal(hits.len()) + " result"@ + (if hits.len()
                == 1 {
                Seq::empty()
            } else {
                "s"@
            }) + "):"@,
        ] + hit_lines(tasks, hits)
    }
}

fn hit_line_of(t: &ArchiveTask) -> (l: String)
    ensures
        l@ == hit_line(*t),
{
    let mut l = owned("  ");
    l.append(t.id.as_str());
    l.append(" - ");
    l.append(t.title.as_str());
    l.append(" (completed: ");
    match &t.completed_at {
        Some(c) => l.append(c.as_str()),
        None => l.append("unknown"),
    }
    l.append(")");
    if t.tags.len() > 0 {
        l.append(" [");
        let j = crate::agency_push::join_strings(&t.tags, ", ");
        l.append(j.as_str());
        l.append("]");
    } else {
        assert(l@ + Seq::<char>::empty() =~= l@);
    }
    l
}

/// The lines a search prints for the hits found.
pub fn search_lines(query: &str, tasks: &Vec<ArchiveTask>, hits: &Vec<usize>) -> (lines: Vec<String>)
    requires
        forall|k: int| 0 <= k < hits@.len() ==> #[trigger] hits@[k] < tasks@.len(),
    ensures
        views(lines@) == search_text(query@, tasks@, hits@),
{
    let mut lines: Vec<String> = Vec::new();
    if hits.len() == 0 {
        let mut m = owned("No archived tasks matching '");
        m.append(query);
        m.append("'.");
        let ghost t = m@;
        lines.push(m);
        assert(views(lines@) =~= seq![t]);
        return lines;
    }
    let mut h = owned("Archived tasks matching '");
    h.append(query);
    h.append("' (");
    push_decimal(&mut h, hits.len() as u64);
    h.append(" result");
    if hits.len() != 1 {
        h.append("s");
    } else {
        assert(h@ + Seq::<char>::empty() =~= h@);
    }
    h.append("):");
    let ghost head = h@;
    lines.push(h);
    assert(views(lines@) =~= seq![head]);
    let mut k: usize = 0;
    while k < hits.len()
        invariant
            k <= hits@.len(),
            forall|j: int| 0 <= j < hits@.len() ==> #[trigger] hits@[j] < tasks@.len(),
            views(lines@) == seq![head] + hit_lines(tasks@, hits@.take(k as int)),
        decreases hits@.len() - k,
    {
        let l = hit_line_of(&tasks[hits[k]]);
        let ghost before = lines@;
        lines.push(l);
        proof {
            lemma_views_push(before, l);
            assert(hit_lines(tasks@, hits@.take(k + 1)) =~= hit_lines(tasks@, hits@.take(k as int)).push(
                hit_line(tasks@[hits@[k as int] as int]),
            ));
        }
        k += 1;
    }
    assert(hits@.take(hits@.len() as int) =~= hits@);
    lines
}

/// A task's age is measured from its completion: when it records
/// `completed_at`, its instant is that text's; its creation time counts
/// only when no completion is recorded. So a task completed within the
/// `--older` threshold is never selected, however long ago it was created.
pub proof fn law_archive_age_counts_from_completion(t: ArchiveTask, min_age: int, now: int)
    ensures
        t.completed_at matches Some(c) ==> task_instant(t) == parse_instant(c@),
        t.completed_at is None ==> task_instant(t) == match t.created_at {
            Some(c) => parse_instant(c@),
            None => None,
        },
        (t.completed_at matches Some(c) && parse_instant(c@) matches Some(ts) && now - ts <= min_age)
            ==> !should_archive_spec(t, Some(min_age), now),
{
}

/// Search looks at every field: a task is a hit whenever its lowercased
/// title, description, or any one of its tags (whatever its position)
/// contains the query, and only then.
pub proof fn law_search_hit_on_any_field(t: ArchiveTask, q: Seq<char>, k: int)
    ensures
        contains(lowercase(t.title@), q) ==> search_hit(t, q),
        (t.description matches Some(d) && contains(lowercase(d@), q)) ==> search_hit(t, q),
        (0 <= k < t.tags.len() && contains(lowercase(t.tags@[k]@), q)) ==> search_hit(t, q),
        search_hit(t, q) ==> (contains(lowercase(t.title@), q) || contains(
            lowercase(
                match t.description {
                    Some(d) => d@,
                    None => Seq::empty(),
                },
            ),
            q,
        ) || exists|j: int| 0 <= j < t.tags.len() && contains(lowercase(#[trigger] t.tags@[j]@), q)),
{
}

/// Among the first `n` archived tasks, the hits found are exactly the
/// positions of the tasks that match, each once, in order.
pub proof fn law_search_finds_every_hit(tasks: Seq<ArchiveTask>, q: Seq<char>, n: int, i: int)
    requires
        0 <= i < n <= tasks.len(),
        n <= usize::MAX,
    ensures
        hits_before(tasks, q, n).contains(i as usize) <==> search_hit(tasks[i], q),
    decreases n,
{
    let h = hits_before(tasks, q, n);
    let prev = hits_before(tasks, q, n - 1);
    lemma_hits_below(tasks, q, n - 1);
    if i < n - 1 {
        law_search_finds_every_hit(tasks, q, n - 1, i);
        if search_hit(tasks[n - 1], q) {
            assert(h == prev.push((n - 1) as usize));
            if h.contains(i as usize) {
                let m = choose|m: int| 0 <= m < h.len() && h[m] == i as usize;
                if m < prev.len() {
                    assert(prev[m] == i as usize);
                }
            }
            if prev.contains(i as usize) {
                let m = choose|m: int| 0 <= m < prev.len() && prev[m] == i as usize;
                assert(h[m] == i as usize);
            }
        }
    } else {
        if search_hit(tasks[i], q) {
            assert(h == prev.push(i as usize));
            assert(h[h.len() - 1] == i as usize);
        } else {
            if prev.contains(i as usize) {
                let m = choose|m: int| 0 <= m < prev.len() && prev[m] == i as usize;
                assert(prev[m] < n - 1);
            }
        }
    }
}

proof fn lemma_hits_below(tasks: Seq<ArchiveTask>, q: Seq<char>, n: int)
    requires
        0 <= n <= usize::MAX,
    ensures
        forall|m: int| 0 <= m < hits_before(tasks, q, n).len() ==> (#[trigger] hits_before(tasks, q, n)[m]) < n,
    decreases n,
{
    if n > 0 {
        lemma_hits_below(tasks, q, n - 1);
        let prev = hits_before(tasks, q, n - 1);
        let h = hits_before(tasks, q, n);
        assert(((n - 1) as usize) as int == n - 1);
        assert forall|m: int| 0 <= m < h.len() implies (#[trigger] h[m]) < n by {
            if m < prev.len() {
                assert(h[m] == prev[m]);
            }
        }
    }
}

/// Search hits come in archive order: each position once, increasing.
pub proof fn law_search_hits_in_archive_order(tasks: Seq<ArchiveTask>, q: Seq<char>, n: int, a: int, b: int)
    requires
        0 <= n <= usize::MAX,
        0 <= a < b < hits_before(tasks, q, n).len(),
    ensures
        hits_before(tasks, q, n)[a] < hits_before(tasks, q, n)[b],
    decreases n,
{
    let h = hits_before(tasks, q, n);
    let prev = hits_before(tasks, q, n - 1);
    lemma_hits_below(tasks, q, n - 1);
    if b < prev.len() {
        law_search_hits_in_archive_order(tasks, q, n - 1, a, b);
        assert(h[a] == prev[a] && h[b] == prev[b]);
    } else {
        assert(h[a] == prev[a]);
        assert(((n - 1) as usize) as int == n - 1);
        assert(h[b] == (n - 1) as usize);
    }
}

} // verus!
