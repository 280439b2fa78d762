//! Agent checkpoints: who a checkpoint belongs to, its file name, which old
//! checkpoints pruning removes, which one is the latest, and the listing.
use vstd::prelude::*;
use crate::text::{owned, str_eq, push_char, chars_of, lex_le, lex_lt, join_with};
use crate::archive::{views, opt_view, join_path, join, lemma_views_push};
use crate::agency_push::join_strings;
use crate::order::{sort_positions_by_text, is_permutation_of_range, sorted_stably, text_key_le};

verus! {

/// Checkpoint data structure for agent context preservation.
#[derive(Debug, Clone)]
pub struct Checkpoint {
    pub task_id: String,
    pub agent_id: String,
    pub timestamp: String,
    pub checkpoint_type: CheckpointType,
    pub summary: String,
    pub files_modified: Vec<String>,
    pub artifacts_registered: Vec<String>,
    pub stream_offset: Option<u64>,
    pub turn_count: Option<u64>,
    pub token_usage: Option<TokenUsage>,
}

#[derive(Debug, Clone, Copy, PartialEq, Eq, Structural)]
pub struct TokenUsage {
    pub input: u64,
    pub output: u64,
}

#[derive(Debug, Clone, Copy, PartialEq, Eq, Structural)]
pub enum CheckpointType {
    Explicit,
    Auto,
}

impl CheckpointType {
    pub open spec fn label_spec(self) -> Seq<char> {
        match self {
            CheckpointType::Explicit => "explicit"@,
            CheckpointType::Auto => "auto"@,
        }
    }

    /// The stored name: `explicit` or `auto`.
    pub fn label(&self) -> (s: &'static str)
        ensures
            s@ == self.label_spec(),
    {
        match self {
            CheckpointType::Explicit => "explicit",
            CheckpointType::Auto => "auto",
        }
    }

    pub open spec fn display_name_spec(self) -> Seq<char> {
        match self {
            CheckpointType::Explicit => "Explicit"@,
            CheckpointType::Auto => "Auto"@,
        }
    }

    /// The name the listing shows: `Explicit` or `Auto`.
    pub fn display_name(&self) -> (s: &'static str)
        ensures
            s@ == self.display_name_spec(),
    {
        match self {
            CheckpointType::Explicit => "Explicit",
            CheckpointType::Auto => "Auto",
        }
    }
}

pub open spec fn no_agent_text() -> Seq<char> {
    "No agent ID specified. Use --agent, set WG_AGENT_ID, or ensure task is assigned."@
}

pub open spec fn opt_str(o: Option<&str>) -> Option<Seq<char>> {
    match o {
        Some(s) => Some(s@),
        None => None,
    }
}

/// The agent a checkpoint belongs to: the one given, else the
/// `WG_AGENT_ID` environment value, else the task's assignee.
pub fn resolve_agent_id(explicit: Option<&str>, env_agent: Option<String>, assigned: Option<String>) -> (r:
    Result<String, String>)
    ensures
        match r {
            Ok(a) => a@ == match opt_str(explicit) {
                Some(e) => e,
                None => match opt_view(env_agent) {
                    Some(v) => v,
                    None => opt_view(assigned).unwrap(),
                },
            },
            Err(m) => explicit is None && env_agent is None && assigned is None && m@
                == no_agent_text(),
        },
        r is Err <==> explicit is None && env_agent is None && assigned is None,
{
    match explicit {
        Some(e) => Ok(owned(e)),
        None => match env_agent {
            Some(v) => Ok(v),
            None => match assigned {
                Some(a) => Ok(a),
                None => Err(
                    owned(
                        "No agent ID specified. Use --agent, set WG_AGENT_ID, or ensure task is assigned.",
                    ),
                ),
            },
        },
    }
}

/// Token usage is recorded only when both counts are given.
pub fn token_usage(input: Option<u64>, output: Option<u64>) -> (t: Option<TokenUsage>)
    ensures
        t == match (input, output) {
            (Some(i), Some(o)) => Some(TokenUsage { input: i, output: o }),
            _ => None,
        },
{
    match (input, output) {
        (Some(i), Some(o)) => Some(TokenUsage { input: i, output: o }),
        _ => None,
    }
}

/// `<dir>/agents/<agent>/checkpoints`.
pub fn checkpoint_dir(dir: &str, agent_id: &str) -> (p: String)
    ensures
        p@ == join_path(join_path(join_path(dir@, "agents"@), agent_id@), "checkpoints"@),
{
    let a = join(dir, "agents");
    let b = join(a.as_str(), agent_id);
    join(b.as_str(), "checkpoints")
}

/// The timestamp with every `:` made `-`, then `.json`.
pub open spec fn file_name_spec(timestamp: Seq<char>) -> Seq<char> {
    timestamp.map_values(|c: char| if c == ':' { '-' } else { c }) + ".json"@
}

pub fn checkpoint_file_name(timestamp: &str) -> (name: String)
    ensures
        name@ == file_name_spec(timestamp@),
{
    let v = chars_of(timestamp);
    let mut name = String::new();
    let mut i: usize = 0;
    while i < v.len()
        invariant
            i <= v.len(),
            v@ == timestamp@,
            name@ == v@.take(i as int).map_values(|c: char| if c == ':' { '-' } else { c }),
        decreases v.len() - i,
    {
        let c = if v[i] == ':' {
            '-'
        } else {
            v[i]
        };
        push_char(&mut name, c);
        assert(v@.take(i + 1).map_values(|c: char| if c == ':' { '-' } else { c }) =~= v@.take(
            i as int,
        ).map_values(|c: char| if c == ':' { '-' } else { c }).push(c));
        i += 1;
    }
    assert(v@.take(v@.len() as int) =~= v@);
    name.append(".json");
    name
}


/// A checkpoint of a task: the given fields, the task's artifacts, and
/// token usage when both counts are given.
pub fn build_checkpoint(
    task_id: &str,
    agent_id: &str,
    timestamp: &str,
    checkpoint_type: CheckpointType,
    summary: &str,
    files_modified: &Vec<String>,
    artifacts: &Vec<String>,
    stream_offset: Option<u64>,
    turn_count: Option<u64>,
    token_input: Option<u64>,
    token_output: Option<u64>,
) -> (c: Checkpoint)
    ensures
        c.task_id@ == task_id@,
        c.agent_id@ == agent_id@,
        c.timestamp@ == timestamp@,
        c.checkpoint_type == checkpoint_type,
        c.summary@ == summary@,
        views(c.files_modified@) == views(files_modified@),
        views(c.artifacts_registered@) == views(artifacts@),
        c.stream_offset == stream_offset,
        c.turn_count == turn_count,
        c.token_usage == match (token_input, token_output) {
            (Some(i), Some(o)) => Some(TokenUsage { input: i, output: o }),
            _ => None,
        },
{
    Checkpoint {
        task_id: owned(task_id),
        agent_id: owned(agent_id),
        timestamp: owned(timestamp),
        checkpoint_type,
        summary: owned(summary),
        files_modified: crate::text::clone_strings(files_modified),
        artifacts_registered: crate::text::clone_strings(artifacts),
        stream_offset,
        turn_count,
        token_usage: token_usage(token_input, token_output),
    }
}

// ---------------------------------------------------------------------------
// Checkpoint files
// ---------------------------------------------------------------------------

/// The index of the last `c` in `s`.
pub open spec fn last_index_of(s: Seq<char>, c: char) -> Option<int>
    decreases s.len(),
{
    if s.len() == 0 {
        None
    } else if s.last() == c {
        Some(s.len() - 1)
    } else {
        last_index_of(s.drop_last(), c)
    }
}

/// `Path::extension` of a file name: what follows its last `.`, unless that
/// dot starts the name (or the name is `..`).
pub open spec fn extension(name: Seq<char>) -> Option<Seq<char>> {
    if name == ".."@ {
        None
    } else {
        match last_index_of(name, '.') {
            Some(p) => if p > 0 {
                Some(name.skip(p + 1))
            } else {
                None
            },
            None => None,
        }
    }
}

proof fn lemma_last_index_of(s: Seq<char>, c: char)
    ensures
        match last_index_of(s, c) {
            Some(p) => 0 <= p < s.len() && s[p] == c && forall|k: int| p < k < s.len() ==> s[k] != c,
            None => forall|k: int| 0 <= k < s.len() ==> s[k] != c,
        },
    decreases s.len(),
{
    if s.len() > 0 && s.last() != c {
        let d = s.drop_last();
        lemma_last_index_of(d, c);
        match last_index_of(d, c) {
            Some(p) => {
                assert(s[p] == d[p]);
                assert forall|k: int| p < k < s.len() implies s[k] != c by {
                    if k < s.len() - 1 {
                        assert(s[k] == d[k]);
                    }
                }
            },
            None => {
                assert forall|k: int| 0 <= k < s.len() implies s[k] != c by {
                    if k < s.len() - 1 {
                        assert(s[k] == d[k]);
                    }
                }
            },
        }
    }
}

/// Whether a file name has the `json` extension.
pub fn has_json_extension(name: &str) -> (b: bool)
    ensures
        b == (extension(name@) == Some("json"@)),
{
    let v = chars_of(name);
    proof {
        reveal_strlit("..");
        reveal_strlit("json");
    }
    if v.len() == 2 && v[0] == '.' && v[1] == '.' {
        assert(name@ =~= ".."@);
        return false;
    }
    assert(name@ != ".."@) by {
        if name@ == ".."@ {
            assert(v@.len() == 2 && v@[0] == '.' && v@[1] == '.');
        }
    }
    let mut i = v.len();
    while i > 0 && v[i - 1] != '.'
        invariant
            i <= v.len(),
            v@ == name@,
            forall|k: int| i <= k < v.len() ==> v@[k] != '.',
        decreases i,
    {
        i -= 1;
    }
    proof {
        lemma_last_index_of(name@, '.');
        let f = last_index_of(name@, '.');
        if i > 0 {
            if f is Some {
                let p = f.unwrap();
                if p < i - 1 {
                    assert(v@[i - 1] != '.');
                } else if p > i - 1 {
                    assert(v@[p] != '.');
                }
            }
            assert(f == Some((i - 1) as int));
        } else {
            if f is Some {
                assert(v@[f.unwrap()] != '.');
            }
            assert(f is None);
        }
    }
    if i <= 1 {
        return false;
    }
    let ok = v.len() - i == 4 && v[i] == 'j' && v[i + 1] == 's' && v[i + 2] == 'o' && v[i + 3]
        == 'n';
    proof {
        let ext = name@.skip(i as int);
        if ok {
            assert(ext =~= "json"@);
        } else if ext.len() == 4 {
            assert(ext[0] != "json"@[0] || ext[1] != "json"@[1] || ext[2] != "json"@[2] || ext[3]
                != "json"@[3]);
        }
    }
    ok
}

/// Positions of the `json` files among `names`, in order.
pub open spec fn json_positions(names: Seq<Seq<char>>) -> Seq<int>
    decreases names.len(),
{
    if names.len() == 0 {
        Seq::empty()
    } else {
        let rest = json_positions(names.drop_last());
        if extension(names.last()) == Some("json"@) {
            rest.push(names.len() - 1)
        } else {
            rest
        }
    }
}

proof fn lemma_json_positions(names: Seq<Seq<char>>)
    ensures
        forall|k: int|
            0 <= k < json_positions(names).len() ==> 0 <= #[trigger] json_positions(names)[k]
                < names.len(),
    decreases names.len(),
{
    if names.len() > 0 {
        lemma_json_positions(names.drop_last());
        let rest = json_positions(names.drop_last());
        if extension(names.last()) == Some("json"@) {
            assert forall|k: int| 0 <= k < rest.len() + 1 implies 0 <= #[trigger] rest.push(
                names.len() - 1,
            )[k] < names.len() by {
                if k < rest.len() {
                    assert(rest.push(names.len() - 1)[k] == rest[k]);
                }
            }
        }
    }
}

fn json_entries(names: &Vec<String>) -> (pos: Vec<usize>)
    ensures
        pos@.len() == json_positions(views(names@)).len(),
        forall|k: int| 0 <= k < pos@.len() ==> #[trigger] pos@[k] == json_positions(views(names@))[k],
        forall|k: int| 0 <= k < pos@.len() ==> #[trigger] pos@[k] < names@.len(),
{
    let mut pos: Vec<usize> = Vec::new();
    let mut i: usize = 0;
    while i < names.len()
        invariant
            i <= names.len(),
            pos@.len() == json_positions(views(names@).take(i as int)).len(),
            forall|k: int|
                0 <= k < pos@.len() ==> #[trigger] pos@[k] == json_positions(
                    views(names@).take(i as int),
                )[k],
            forall|k: int| 0 <= k < pos@.len() ==> #[trigger] pos@[k] < i,
        decreases names.len() - i,
    {
        proof {
            assert(views(names@).take(i + 1).drop_last() =~= views(names@).take(i as int));
        }
        if has_json_extension(names[i].as_str()) {
            pos.push(i);
        }
        i += 1;
    }
    assert(views(names@).take(names@.len() as int) =~= views(names@));
    pos
}

/// The names at `pos`, as sort keys.
fn keys_at(names: &Vec<String>, pos: &Vec<usize>) -> (keys: Vec<Vec<char>>)
    requires
        forall|k: int| 0 <= k < pos@.len() ==> #[trigger] pos@[k] < names@.len(),
    ensures
        keys@.len() == pos@.len(),
        forall|k: int| 0 <= k < pos@.len() ==> #[trigger] keys@[k]@ == names@[pos@[k] as int]@,
{
    let mut keys: Vec<Vec<char>> = Vec::new();
    let mut k: usize = 0;
    while k < pos.len()
        invariant
            k <= pos.len(),
            forall|j: int| 0 <= j < pos@.len() ==> #[trigger] pos@[j] < names@.len(),
            keys@.len() == k,
            forall|j: int| 0 <= j < k ==> #[trigger] keys@[j]@ == names@[pos@[j] as int]@,
        decreases pos.len() - k,
    {
        keys.push(chars_of(names[pos[k]].as_str()));
        k += 1;
    }
    keys
}

/// The checkpoint files `names` sorted by name (timestamps sort as text),
/// as positions in `names`: `sorted[k]` is the k-th oldest.
pub open spec fn sorted_json_names(names: Seq<Seq<char>>, sorted: Seq<usize>) -> bool {
    let js = json_positions(names);
    exists|order: Seq<usize>|
        #![trigger is_permutation_of_range(order, js.len() as int)]
        is_permutation_of_range(order, js.len() as int) && sorted_stably(
            order,
            |i: int, j: int| lex_le(names[js[i]], names[js[j]]),
        ) && sorted.len() == js.len() && forall|k: int|
            0 <= k < sorted.len() ==> #[trigger] sorted[k] == js[order[k] as int]
}

fn sorted_json_entries(names: &Vec<String>) -> (sorted: Vec<usize>)
    ensures
        sorted_json_names(views(names@), sorted@),
        forall|k: int| 0 <= k < sorted@.len() ==> #[trigger] sorted@[k] < names@.len(),
{
    let pos = json_entries(names);
    let keys = keys_at(names, &pos);
    let order = sort_positions_by_text(&keys);
    let mut sorted: Vec<usize> = Vec::new();
    let mut k: usize = 0;
    let ghost js = json_positions(views(names@));
    while k < order.len()
        invariant
            k <= order.len() == pos@.len() == keys@.len() == js.len(),
            is_permutation_of_range(order@, keys@.len() as int),
            forall|j: int| 0 <= j < pos@.len() ==> #[trigger] pos@[j] == js[j],
            forall|j: int| 0 <= j < pos@.len() ==> #[trigger] pos@[j] < names@.len(),
            sorted@.len() == k,
            forall|j: int| 0 <= j < k ==> #[trigger] sorted@[j] == pos@[order@[j] as int],
        decreases order.len() - k,
    {
        sorted.push(pos[order[k]]);
        k += 1;
    }
    proof {
        let le = |i: int, j: int| lex_le(views(names@)[js[i]], views(names@)[js[j]]);
        assert forall|p: int, q: int|
            #![trigger order@[p], order@[q]]
            0 <= p < q < order@.len() implies le(order@[p] as int, order@[q] as int) && (le(
            order@[q] as int,
            order@[p] as int,
        ) ==> order@[p] < order@[q]) by {
            assert(text_key_le(keys@)(order@[p] as int, order@[q] as int));
        }
        assert(is_permutation_of_range(order@, js.len() as int));
    }
    sorted
}

/// The checkpoint files pruning removes so that at most `max` remain: the
/// oldest by name.
pub fn prune_selection(names: &Vec<String>, max: usize) -> (remove: Vec<usize>)
    ensures
        exists|sorted: Seq<usize>|
            #![trigger sorted_json_names(views(names@), sorted)]
            sorted_json_names(views(names@), sorted) && remove@ == if sorted.len() <= max {
                Seq::<usize>::empty()
            } else {
                sorted.take(sorted.len() - max)
            },
{
    let sorted = sorted_json_entries(names);
    if sorted.len() <= max {
        return Vec::new();
    }
    let mut remove: Vec<usize> = Vec::new();
    let n = sorted.len() - max;
    let mut k: usize = 0;
    while k < n
        invariant
            k <= n <= sorted@.len(),
            remove@ == sorted@.take(k as int),
        decreases n - k,
    {
        remove.push(sorted[k]);
        assert(sorted@.take(k + 1) =~= sorted@.take(k as int).push(sorted@[k as int]));
        k += 1;
    }
    remove
}

/// The latest checkpoint file: the greatest `json` name.
pub fn latest_checkpoint(names: &Vec<String>) -> (latest: Option<usize>)
    ensures
        exists|sorted: Seq<usize>|
            #![trigger sorted_json_names(views(names@), sorted)]
            sorted_json_names(views(names@), sorted) && latest == if sorted.len() == 0 {
                None
            } else {
                Some(sorted.last())
            },
{
    let sorted = sorted_json_entries(names);
    if sorted.len() == 0 {
        None
    } else {
        Some(sorted[sorted.len() - 1])
    }
}

// ---------------------------------------------------------------------------
// Listing checkpoints
// ---------------------------------------------------------------------------

/// Positions of the checkpoints of a task (every one, without a task), in
/// order.
pub open spec fn task_positions(cps: Seq<Checkpoint>, task: Option<Seq<char>>) -> Seq<int>
    decreases cps.len(),
{
    if cps.len() == 0 {
        Seq::empty()
    } else {
        let rest = task_positions(cps.drop_last(), task);
        if task is None || task == Some(cps.last().task_id@) {
            rest.push(cps.len() - 1)
        } else {
            rest
        }
    }
}

fn task_entries(cps: &Vec<Checkpoint>, task: Option<&str>) -> (pos: Vec<usize>)
    ensures
        pos@.len() == task_positions(cps@, opt_str(task)).len(),
        forall|k: int|
            0 <= k < pos@.len() ==> #[trigger] pos@[k] == task_positions(cps@, opt_str(task))[k],
        forall|k: int| 0 <= k < pos@.len() ==> #[trigger] pos@[k] < cps@.len(),
{
    let mut pos: Vec<usize> = Vec::new();
    let mut i: usize = 0;
    while i < cps.len()
        invariant
            i <= cps.len(),
            pos@.len() == task_positions(cps@.take(i as int), opt_str(task)).len(),
            forall|k: int|
                0 <= k < pos@.len() ==> #[trigger] pos@[k] == task_positions(
                    cps@.take(i as int),
                    opt_str(task),
                )[k],
            forall|k: int| 0 <= k < pos@.len() ==> #[trigger] pos@[k] < i,
        decreases cps.len() - i,
    {
        proof {
            assert(cps@.take(i + 1).drop_last() =~= cps@.take(i as int));
            assert(cps@.take(i + 1).last() == cps@[i as int]);
        }
        let keep = match task {
            None => true,
            Some(t) => str_eq(cps[i].task_id.as_str(), t),
        };
        if keep {
            pos.push(i);
        }
        i += 1;
    }
    assert(cps@.take(cps@.len() as int) =~= cps@);
    pos
}

/// The timestamps at `pos`, as sort keys.
fn timestamp_keys(cps: &Vec<Checkpoint>, pos: &Vec<usize>) -> (keys: Vec<Vec<char>>)
    requires
        forall|k: int| 0 <= k < pos@.len() ==> #[trigger] pos@[k] < cps@.len(),
    ensures
        keys@.len() == pos@.len(),
        forall|k: int| 0 <= k < pos@.len() ==> #[trigger] keys@[k]@ == cps@[pos@[k] as int].timestamp@,
{
    let mut keys: Vec<Vec<char>> = Vec::new();
    let mut k: usize = 0;
    while k < pos.len()
        invariant
            k <= pos.len(),
            forall|j: int| 0 <= j < pos@.len() ==> #[trigger] pos@[j] < cps@.len(),
            keys@.len() == k,
            forall|j: int| 0 <= j < k ==> #[trigger] keys@[j]@ == cps@[pos@[j] as int].timestamp@,
        decreases pos.len() - k,
    {
        keys.push(chars_of(cps[pos[k]].timestamp.as_str()));
        k += 1;
    }
    keys
}

/// The checkpoints of a task ordered by timestamp (ties keep their order),
/// as positions in `cps`.
pub open spec fn sorted_by_time(cps: Seq<Checkpoint>, task: Option<Seq<char>>, sorted: Seq<usize>) -> bool {
    let ps = task_positions(cps, task);
    exists|order: Seq<usize>|
        #![trigger is_permutation_of_range(order, ps.len() as int)]
        is_permutation_of_range(order, ps.len() as int) && sorted_stably(
            order,
            |i: int, j: int| lex_le(cps[ps[i]].timestamp@, cps[ps[j]].timestamp@),
        ) && sorted.len() == ps.len() && forall|k: int|
            0 <= k < sorted.len() ==> #[trigger] sorted[k] == ps[order[k] as int]
}

/// The lines of one listed checkpoint.
pub open spec fn checkpoint_lines(c: Checkpoint) -> Seq<Seq<char>> {
    seq![
        "  ["@ + c.timestamp@ + "] "@ + c.summary@ + " (task: "@ + c.task_id@ + ", type: "@
            + c.checkpoint_type.display_name_spec() + ")"@,
    ] + if c.files_modified@.len() > 0 {
        seq!["    files: "@ + join_with(views(c.files_modified@), ", "@)]
    } else {
        Seq::empty()
    }
}

pub open spec fn listed_lines(cps: Seq<Checkpoint>, sorted: Seq<usize>) -> Seq<Seq<char>>
    decreases sorted.len(),
{
    if sorted.len() == 0 {
        Seq::empty()
    } else {
        listed_lines(cps, sorted.drop_last()) + checkpoint_lines(cps[sorted.last() as int])
    }
}

/// The listing of an agent's checkpoints (of one task, when given): a
/// notice when there are none, else a header and each checkpoint by time.
pub open spec fn listing_text(
    agent: Seq<char>,
    task: Option<Seq<char>>,
    cps: Seq<Checkpoint>,
    sorted: Seq<usize>,
) -> Seq<Seq<char>> {
    if sorted.len() == 0 {
        seq!["No checkpoints found for agent '"@ + agent + "'"@] + match task {
            Some(t) => seq!["  (filtered by task: "@ + t + ")"@],
            None => Seq::empty(),
        }
    } else {
        seq!["Checkpoints for agent '"@ + agent + "':"@] + listed_lines(cps, sorted)
    }
}

fn push_line(out: &mut Vec<String>, line: String)
    ensures
        views(final(out)@) == views(old(out)@).push(line@),
{
    let ghost before = out@;
    out.push(line);
    proof {
        lemma_views_push(before, line);
    }
}

fn push_checkpoint_lines(out: &mut Vec<String>, c: &Checkpoint)
    ensures
        views(final(out)@) == views(old(out)@) + checkpoint_lines(*c),
{
    let mut head = owned("  [");
    head.append(c.timestamp.as_str());
    head.append("] ");
    head.append(c.summary.as_str());
    head.append(" (task: ");
    head.append(c.task_id.as_str());
    head.append(", type: ");
    head.append(c.checkpoint_type.display_name());
    head.append(")");
    push_line(out, head);
    if c.files_modified.len() > 0 {
        let mut files = owned("    files: ");
        let joined = join_strings(&c.files_modified, ", ");
        files.append(joined.as_str());
        push_line(out, files);
    }
    assert(views(out@) =~= views(old(out)@) + checkpoint_lines(*c));
}

/// The checkpoints of a task (every one, without a task) ordered by
/// timestamp, as positions in `cps`.
pub fn checkpoints_by_time(cps: &Vec<Checkpoint>, task_id: Option<&str>) -> (sorted: Vec<usize>)
    ensures
        sorted_by_time(cps@, opt_str(task_id), sorted@),
        forall|j: int| 0 <= j < sorted@.len() ==> #[trigger] sorted@[j] < cps@.len(),
{
    let pos = task_entries(cps, task_id);
    let keys = timestamp_keys(cps, &pos);
    let order = sort_positions_by_text(&keys);
    let ghost ps = task_positions(cps@, opt_str(task_id));
    let mut sorted: Vec<usize> = Vec::new();
    let mut k: usize = 0;
    while k < order.len()
        invariant
            k <= order.len() == pos@.len() == keys@.len() == ps.len(),
            is_permutation_of_range(order@, keys@.len() as int),
            forall|j: int| 0 <= j < pos@.len() ==> #[trigger] pos@[j] == ps[j],
            forall|j: int| 0 <= j < pos@.len() ==> #[trigger] pos@[j] < cps@.len(),
            sorted@.len() == k,
            forall|j: int| 0 <= j < k ==> #[trigger] sorted@[j] == pos@[order@[j] as int],
        decreases order.len() - k,
    {
        sorted.push(pos[order[k]]);
        k += 1;
    }
    proof {
        let le = |i: int, j: int| lex_le(cps@[ps[i]].timestamp@, cps@[ps[j]].timestamp@);
        assert forall|p: int, q: int|
            #![trigger order@[p], order@[q]]
            0 <= p < q < order@.len() implies le(order@[p] as int, order@[q] as int) && (le(
            order@[q] as int,
            order@[p] as int,
        ) ==> order@[p] < order@[q]) by {
            assert(text_key_le(keys@)(order@[p] as int, order@[q] as int));
        }
        assert(is_permutation_of_range(order@, ps.len() as int));
        assert forall|j: int| 0 <= j < sorted@.len() implies #[trigger] sorted@[j] < cps@.len() by {
            assert(order@[j] < pos@.len());
        }
    }
    sorted
}

/// The listing lines of an agent's checkpoints, ordered by timestamp.
pub fn checkpoint_listing(agent_id: &str, task_id: Option<&str>, cps: &Vec<Checkpoint>) -> (lines:
    Vec<String>)
    ensures
        exists|sorted: Seq<usize>|
            #![trigger sorted_by_time(cps@, opt_str(task_id), sorted)]
            sorted_by_time(cps@, opt_str(task_id), sorted) && views(lines@) == listing_text(
                agent_id@,
                opt_str(task_id),
                cps@,
                sorted,
            ),
{
    let sorted = checkpoints_by_time(cps, task_id);
    let mut lines: Vec<String> = Vec::new();
    if sorted.len() == 0 {
        let mut m = owned("No checkpoints found for agent '");
        m.append(agent_id);
        m.append("'");
        push_line(&mut lines, m);
        match task_id {
            Some(t) => {
                let mut f = owned("  (filtered by task: ");
                f.append(t);
                f.append(")");
                push_line(&mut lines, f);
            },
            None => {},
        }
        assert(views(lines@) =~= listing_text(agent_id@, opt_str(task_id), cps@, sorted@));
        return lines;
    }
    let mut h = owned("Checkpoints for agent '");
    h.append(agent_id);
    h.append("':");
    push_line(&mut lines, h);
    let ghost head = views(lines@);
    let mut k: usize = 0;
    assert(sorted@.take(0) =~= Seq::<usize>::empty());
    while k < sorted.len()
        invariant
            k <= sorted@.len(),
            forall|j: int| 0 <= j < sorted@.len() ==> #[trigger] sorted@[j] < cps@.len(),
            views(lines@) == head + listed_lines(cps@, sorted@.take(k as int)),
        decreases sorted@.len() - k,
    {
        assert(sorted@.take(k + 1).drop_last() =~= sorted@.take(k as int));
        assert(sorted@.take(k + 1).last() == sorted@[k as int]);
        let ghost prev = listed_lines(cps@, sorted@.take(k as int));
        push_checkpoint_lines(&mut lines, &cps[sorted[k]]);
        assert(head + prev + checkpoint_lines(cps@[sorted@[k as int] as int]) =~= head + (prev
            + checkpoint_lines(cps@[sorted@[k as int] as int])));
        k += 1;
    }
    assert(sorted@.take(sorted@.len() as int) =~= sorted@);
    lines
}

// ---------------------------------------------------------------------------
// Laws
// ---------------------------------------------------------------------------

/// Pruning removes only the oldest checkpoints: every file it removes is
/// named no later than every file it keeps, and exactly `max` files remain
/// when there were more.
pub proof fn law_prune_keeps_newest(names: Seq<Seq<char>>, sorted: Seq<usize>, max: usize)
    requires
        sorted_json_names(names, sorted),
        sorted.len() > max,
    ensures
        forall|p: int, q: int|
            #![trigger sorted[p], sorted[q]]
            0 <= p < sorted.len() - max <= q < sorted.len() ==> lex_le(
                names[sorted[p] as int],
                names[sorted[q] as int],
            ),
        sorted.len() - sorted.take(sorted.len() - max).len() == max,
{
    let js = json_positions(names);
    let order = choose|order: Seq<usize>|
        #![trigger is_permutation_of_range(order, js.len() as int)]
        is_permutation_of_range(order, js.len() as int) && sorted_stably(
            order,
            |i: int, j: int| lex_le(names[js[i]], names[js[j]]),
        ) && sorted.len() == js.len() && forall|k: int|
            0 <= k < sorted.len() ==> #[trigger] sorted[k] == js[order[k] as int];
    assert forall|p: int, q: int|
        #![trigger sorted[p], sorted[q]]
        0 <= p < sorted.len() - max <= q < sorted.len() implies lex_le(
        names[sorted[p] as int],
        names[sorted[q] as int],
    ) by {
        assert(sorted[p] == js[order[p] as int]);
        assert(sorted[q] == js[order[q] as int]);
        assert((|i: int, j: int| lex_le(names[js[i]], names[js[j]]))(
            order[p] as int,
            order[q] as int,
        ));
    }
}

} // verus!
