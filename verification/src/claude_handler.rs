//! The chat bridge's decisions: which chat refs are coordinators, the
//! system prompt a handler starts with, where a restarted handler resumes
//! its inbox, and the transcript that one turn's stream events render to.
use vstd::prelude::*;
use crate::text::{
    strip_prefix, parse_unsigned, decimal, ends_with, lines, join_with, utf8_len, char_utf8_len,
    str_strip_prefix, parse_u32, str_eq, owned, push_decimal, push_char, chars_of, lines_of,
    lemma_utf8_len_prefix_mono, trim, trim_str,
};
use crate::archive::{views, opt_view, strings_contain, lemma_views_push};
use crate::json::{
    json_parses, json_pretty_text, json_string_member, json_string_literal, parse_json, json_pretty,
    json_string_field, json_quote,
};

verus! {

// ---------------------------------------------------------------------------
// Coordinator refs and the system prompt
// ---------------------------------------------------------------------------

/// The number after `prefix` in `chat_ref`, when the rest parses as a `u32`.
pub open spec fn id_after(chat_ref: Seq<char>, prefix: Seq<char>) -> Option<u32> {
    match strip_prefix(chat_ref, prefix) {
        Some(rest) => match parse_unsigned(rest, u32::MAX as nat) {
            Some(n) => Some(n as u32),
            None => None,
        },
        None => None,
    }
}

/// The coordinator number of a chat ref: the first of `coordinator-`,
/// `chat-`, `.coordinator-`, `.chat-` that the ref starts with and whose
/// rest is a number.
pub open spec fn coordinator_id(chat_ref: Seq<char>) -> Option<u32> {
    if id_after(chat_ref, "coordinator-"@) is Some {
        id_after(chat_ref, "coordinator-"@)
    } else if id_after(chat_ref, "chat-"@) is Some {
        id_after(chat_ref, "chat-"@)
    } else if id_after(chat_ref, ".coordinator-"@) is Some {
        id_after(chat_ref, ".coordinator-"@)
    } else {
        id_after(chat_ref, ".chat-"@)
    }
}

fn id_after_prefix(chat_ref: &str, prefix: &str) -> (r: Option<u32>)
    ensures
        r == id_after(chat_ref@, prefix@),
{
    match str_strip_prefix(chat_ref, prefix) {
        Some(rest) => parse_u32(rest.as_str()),
        None => None,
    }
}

/// The coordinator number of `chat_ref`, if it names a coordinator chat.
pub fn parse_coordinator_id(chat_ref: &str) -> (r: Option<u32>)
    ensures
        r == coordinator_id(chat_ref@),
{
    let a = id_after_prefix(chat_ref, "coordinator-");
    if a.is_some() {
        return a;
    }
    let b = id_after_prefix(chat_ref, "chat-");
    if b.is_some() {
        return b;
    }
    let c = id_after_prefix(chat_ref, ".coordinator-");
    if c.is_some() {
        return c;
    }
    id_after_prefix(chat_ref, ".chat-")
}

/// The system prompt a handler starts the chat agent with.
#[derive(Clone, Debug)]
pub enum HandlerPrompt {
    /// The full coordinator prompt, built from the graph's configuration.
    Coordinator,
    /// A short role prompt, given whole.
    Text(String),
}

pub open spec fn wants_coordinator_prompt(chat_ref: Seq<char>, role: Option<Seq<char>>) -> bool {
    coordinator_id(chat_ref) is Some || role == Some("coordinator"@)
}

pub open spec fn role_prompt(role: Option<Seq<char>>) -> Seq<char> {
    match role {
        Some(r) => "You are acting in the role of: "@ + r + "."@,
        None => "You are a WG task agent."@,
    }
}

pub open spec fn opt_str_view(o: Option<&str>) -> Option<Seq<char>> {
    match o {
        Some(s) => Some(s@),
        None => None,
    }
}

/// Coordinator chats (by ref or by role) get the coordinator prompt; any
/// other role gets a one-line role prompt, and no role a task-agent line.
pub fn build_handler_system_prompt(chat_ref: &str, role: Option<&str>) -> (p: HandlerPrompt)
    ensures
        match p {
            HandlerPrompt::Coordinator => wants_coordinator_prompt(chat_ref@, opt_str_view(role)),
            HandlerPrompt::Text(t) => !wants_coordinator_prompt(chat_ref@, opt_str_view(role))
                && t@ == role_prompt(opt_str_view(role)),
        },
{
    let is_coordinator_role = match role {
        Some(r) => str_eq(r, "coordinator"),
        None => false,
    };
    if parse_coordinator_id(chat_ref).is_some() || is_coordinator_role {
        return HandlerPrompt::Coordinator;
    }
    match role {
        Some(r) => {
            let mut t = owned("You are acting in the role of: ");
            t.append(r);
            t.append(".");
            HandlerPrompt::Text(t)
        },
        None => HandlerPrompt::Text(owned("You are a WG task agent.")),
    }
}

// ---------------------------------------------------------------------------
// Where a restarted handler resumes
// ---------------------------------------------------------------------------

/// The fields of an inbox message that the resume cursor reads.
#[derive(Clone, Debug)]
pub struct InboxEntry {
    pub id: u64,
    pub request_id: String,
}

pub open spec fn is_answered(e: InboxEntry, answered: Seq<Seq<char>>) -> bool {
    answered.contains(e.request_id@)
}

/// The highest inbox id whose request already has an outbox reply, or 0:
/// everything up to it was answered, and the handler resumes after it.
pub fn last_answered_inbox_id(inbox: &Vec<InboxEntry>, answered_request_ids: &Vec<String>) -> (r:
    u64)
    ensures
        forall|k: int|
            0 <= k < inbox@.len() && is_answered(#[trigger] inbox@[k], views(answered_request_ids@))
                ==> inbox@[k].id <= r,
        r == 0 || exists|k: int|
            0 <= k < inbox@.len() && is_answered(#[trigger] inbox@[k], views(answered_request_ids@))
                && inbox@[k].id == r,
{
    let mut best: u64 = 0;
    let mut i: usize = 0;
    while i < inbox.len()
        invariant
            i <= inbox.len(),
            forall|k: int|
                0 <= k < i && is_answered(#[trigger] inbox@[k], views(answered_request_ids@))
                    ==> inbox@[k].id <= best,
            best == 0 || exists|k: int|
                0 <= k < i && is_answered(#[trigger] inbox@[k], views(answered_request_ids@))
                    && inbox@[k].id == best,
        decreases inbox.len() - i,
    {
        let e = &inbox[i];
        if strings_contain(answered_request_ids, e.request_id.as_str()) && e.id > best {
            best = e.id;
            assert(is_answered(inbox@[i as int], views(answered_request_ids@)));
        }
        i += 1;
    }
    best
}

// ---------------------------------------------------------------------------
// Usage and the collected response
// ---------------------------------------------------------------------------

/// Usage attached to one agent turn. `total_cost` is the turn's cost in
/// USD as already rendered to four decimal places (`0.0123`), when the agent
/// reported one.
#[derive(Clone, Debug)]
pub struct ClaudeUsage {
    pub input_tokens: u64,
    pub output_tokens: u64,
    pub cache_read_input_tokens: u64,
    pub cache_creation_input_tokens: u64,
    pub total_cost: Option<String>,
}

/// `[usage: I input · O output · R cache-read · W cache-write · $C]`, the
/// cache fields only when non-zero and the cost only when known.
pub open spec fn usage_text(u: ClaudeUsage) -> Seq<char> {
    "[usage: "@ + decimal(u.input_tokens as nat) + " input · "@ + decimal(u.output_tokens as nat)
        + " output"@ + (if u.cache_read_input_tokens > 0 {
        " · "@ + decimal(u.cache_read_input_tokens as nat) + " cache-read"@
    } else {
        Seq::empty()
    }) + (if u.cache_creation_input_tokens > 0 {
        " · "@ + decimal(u.cache_creation_input_tokens as nat) + " cache-write"@
    } else {
        Seq::empty()
    }) + (match u.total_cost {
        Some(c) => " · $"@ + c@,
        None => Seq::empty(),
    }) + "]"@
}

impl ClaudeUsage {
    pub fn render(&self) -> (s: String)
        ensures
            s@ == usage_text(*self),
    {
        let mut s = owned("[usage: ");
        push_decimal(&mut s, self.input_tokens);
        s.append(" input · ");
        push_decimal(&mut s, self.output_tokens);
        s.append(" output");
        let ghost head = s@;
        if self.cache_read_input_tokens > 0 {
            s.append(" · ");
            push_decimal(&mut s, self.cache_read_input_tokens);
            s.append(" cache-read");
        }
        let ghost with_read = s@;
        if self.cache_creation_input_tokens > 0 {
            s.append(" · ");
            push_decimal(&mut s, self.cache_creation_input_tokens);
            s.append(" cache-write");
        }
        let ghost with_write = s@;
        match &self.total_cost {
            Some(c) => {
                s.append(" · $");
                s.append(c.as_str());
            },
            None => {},
        }
        s.append("]");
        proof {
            let u = *self;
            let read_part = if u.cache_read_input_tokens > 0 {
                " · "@ + decimal(u.cache_read_input_tokens as nat) + " cache-read"@
            } else {
                Seq::<char>::empty()
            };
            let write_part = if u.cache_creation_input_tokens > 0 {
                " · "@ + decimal(u.cache_creation_input_tokens as nat) + " cache-write"@
            } else {
                Seq::<char>::empty()
            };
            let cost_part = match u.total_cost {
                Some(c) => " · $"@ + c@,
                None => Seq::<char>::empty(),
            };
            assert(with_read =~= head + read_part);
            assert(with_write =~= head + read_part + write_part);
            assert(s@ =~= head + read_part + write_part + cost_part + "]"@);
        }
        s
    }
}

/// One turn as the outbox stores it: the last text block, and the whole
/// interleaved transcript.
#[derive(Clone, Debug)]
pub struct CollectedResponse {
    pub summary: String,
    pub full_response: String,
}

pub open spec fn opt_usage(u: Option<&ClaudeUsage>) -> Option<ClaudeUsage> {
    match u {
        Some(x) => Some(*x),
        None => None,
    }
}

/// The transcript with the usage line appended after a blank line.
pub open spec fn with_usage(transcript: Seq<char>, usage: Option<ClaudeUsage>) -> Seq<char> {
    match usage {
        Some(u) => transcript + (if ends_with(transcript, "\n"@) {
            Seq::empty()
        } else {
            "\n"@
        }) + "\n"@ + usage_text(u) + "\n"@,
        None => transcript,
    }
}

/// The last text block, or empty when there is none.
pub open spec fn last_part(parts: Seq<Seq<char>>) -> Seq<char> {
    if parts.len() > 0 {
        parts.last()
    } else {
        Seq::empty()
    }
}

/// A turn with no text yields nothing; otherwise the last text block is
/// the summary and the transcript (with any usage line) the full response.
pub fn build_collected(parts: &Vec<String>, transcript: &str, usage: Option<&ClaudeUsage>) -> (r:
    Option<CollectedResponse>)
    ensures
        r is None <==> last_part(views(parts@)).len() == 0,
        r matches Some(c) ==> c.summary@ == last_part(views(parts@)) && c.full_response@
            == with_usage(transcript@, opt_usage(usage)),
{
    if parts.len() == 0 {
        return None;
    }
    let summary = parts[parts.len() - 1].clone();
    assert(summary@ == views(parts@).last());
    if summary.as_str().is_empty() {
        return None;
    }
    let mut full = owned(transcript);
    match usage {
        Some(u) => {
            let v = chars_of(transcript);
            let ends_nl = v.len() > 0 && v[v.len() - 1] == '\n';
            proof {
                reveal_strlit("\n");
                assert("\n"@ =~= seq!['\n']);
                let t = transcript@;
                assert(v@ == t);
                if t.len() > 0 {
                    assert(t.subrange(t.len() - 1, t.len() as int) =~= seq![t.last()]);
                    assert(ends_nl == (t.last() == '\n'));
                    if ends_nl {
                        assert(t.subrange(t.len() - 1, t.len() as int) =~= "\n"@);
                    } else {
                        assert(t.subrange(t.len() - 1, t.len() as int)[0] != "\n"@[0]);
                    }
                } else {
                    assert(!ends_with(t, "\n"@));
                }
            }
            if !ends_nl {
                full.append("\n");
            }
            full.append("\n");
            let rendered = u.render();
            full.append(rendered.as_str());
            full.append("\n");
        },
        None => {},
    }
    Some(CollectedResponse { summary, full_response: full })
}

// ---------------------------------------------------------------------------
// Tool input rendering and the user turn
// ---------------------------------------------------------------------------

pub open spec fn is_bash(name: Seq<char>) -> bool {
    name == "Bash"@ || name == "bash"@
}

/// `p` cut to its first `max` lines, with a `... (N more lines)` note,
/// when it has more.
pub open spec fn truncated_lines(p: Seq<char>, max: nat) -> Seq<char> {
    let ls = lines(p);
    if ls.len() > max {
        join_with(ls.take(max as int), "\n"@) + "\n... ("@ + decimal((ls.len() - max) as nat)
            + " more lines)"@
    } else {
        p
    }
}

/// How a tool call's input shows in the transcript: a Bash command as
/// `$ <command>`, other JSON pretty-printed and cut to eight lines, and
/// anything that is not JSON as it came.
pub open spec fn tool_input_text(name: Seq<char>, raw: Seq<char>) -> Seq<char> {
    if raw.len() == 0 {
        Seq::empty()
    } else if is_bash(name) && json_parses(raw) && json_string_member(raw, "command"@) is Some {
        "$ "@ + json_string_member(raw, "command"@).unwrap()
    } else if json_parses(raw) {
        truncated_lines(json_pretty_text(raw), 8)
    } else {
        raw
    }
}

/// The first `n` of `ls`, joined by newlines.
pub fn join_lines(ls: &Vec<String>, n: usize) -> (out: String)
    requires
        n <= ls.len(),
    ensures
        out@ == join_with(views(ls@).take(n as int), "\n"@),
{
    let mut out = String::new();
    let mut i: usize = 0;
    assert(views(ls@).take(0) =~= Seq::<Seq<char>>::empty());
    while i < n
        invariant
            i <= n <= ls.len(),
            out@ == join_with(views(ls@).take(i as int), "\n"@),
        decreases n - i,
    {
        let ghost prev = views(ls@).take(i as int);
        if i > 0 {
            out.append("\n");
        }
        out.append(ls[i].as_str());
        proof {
            let next = views(ls@).take(i + 1);
            assert(next.drop_last() =~= prev);
            assert(next.last() == ls@[i as int]@);
            if i == 0 {
                assert(next.len() == 1);
                assert(out@ =~= next[0]);
            } else {
                assert(out@ =~= join_with(prev, "\n"@) + "\n"@ + next.last());
            }
        }
        i += 1;
    }
    out
}

fn truncate_lines(p: &str, max: usize) -> (out: String)
    ensures
        out@ == truncated_lines(p@, max as nat),
{
    let ls = lines_of(p);
    assert(views(ls@) =~= lines(p@));
    if ls.len() > max {
        let mut out = join_lines(&ls, max);
        out.append("\n... (");
        push_decimal(&mut out, (ls.len() - max) as u64);
        out.append(" more lines)");
        out
    } else {
        owned(p)
    }
}

/// Renders a tool call's input for the transcript.
pub fn format_tool_input(name: &str, raw: &str) -> (out: String)
    ensures
        out@ == tool_input_text(name@, raw@),
{
    if raw.is_empty() {
        return String::new();
    }
    let bash = str_eq(name, "Bash") || str_eq(name, "bash");
    match parse_json(raw) {
        Some(doc) => {
            if bash {
                match json_string_field(&doc, "command") {
                    Some(cmd) => {
                        let mut out = owned("$ ");
                        out.append(cmd.as_str());
                        return out;
                    },
                    None => {},
                }
            }
            let pretty = json_pretty(&doc);
            truncate_lines(pretty.as_str(), 8)
        },
        None => owned(raw),
    }
}

/// One user turn on the agent's stream-json stdin: the message object with its
/// keys in map order, then a newline.
pub open spec fn user_message_line(content: Seq<char>) -> Seq<char> {
    "{\"message\":{\"content\":"@ + json_string_literal(content) + ",\"role\":\"user\"},\"type\":\"user\"}\n"@
}

pub fn format_stream_json_user_message(content: &str) -> (line: String)
    ensures
        line@ == user_message_line(content@),
{
    let mut line = owned("{\"message\":{\"content\":");
    let quoted = json_quote(content);
    line.append(quoted.as_str());
    line.append(",\"role\":\"user\"},\"type\":\"user\"}\n");
    line
}

// ---------------------------------------------------------------------------
// Collecting one turn
// ---------------------------------------------------------------------------

/// What the agent's stdout reader hands the collector.
#[derive(Clone, Debug)]
pub enum ResponseEvent {
    Text(String),
    ToolUse { name: String, input: String },
    ToolResult(String),
    SessionStarted(String),
    Usage(ClaudeUsage),
    Failure(String),
    TurnComplete,
    StreamEnd,
    /// No event came before the turn's deadline, or the reader hung up.
    RecvTimeout,
}

/// What the caller does after one event.
#[derive(Clone, Debug)]
pub enum CollectStep {
    /// Keep collecting.
    Continue,
    /// Keep collecting, after writing this partial text to the streaming file.
    Stream(String),
    /// Keep collecting, after persisting this native session id.
    PersistSession(String),
    /// The turn is over and yields this.
    Done(Option<CollectedResponse>),
}

/// A turn being collected: its text blocks, the interleaved transcript (text
/// and tool boxes), the tool box left open, the streamed text, and the
/// latest usage snapshot.
#[derive(Clone, Debug)]
pub struct Collector {
    pub text_parts: Vec<String>,
    pub transcript: String,
    pub open_tool: Option<String>,
    pub streaming_text: String,
    pub usage: Option<ClaudeUsage>,
    /// The chat agent's display name, which failure notices open with.
    pub agent: String,
}

/// `t`, ended by a newline.
pub open spec fn newline_ended(t: Seq<char>) -> Seq<char> {
    if ends_with(t, "\n"@) {
        t
    } else {
        t + "\n"@
    }
}

/// The closing line of a tool box that is still open.
pub open spec fn close_box(open: Option<String>) -> Seq<char> {
    if open is Some {
        "└─\n"@
    } else {
        Seq::empty()
    }
}

/// Each line as a `│ ` row of a tool box.
pub open spec fn boxed(ls: Seq<Seq<char>>) -> Seq<char>
    decreases ls.len(),
{
    if ls.len() == 0 {
        Seq::empty()
    } else {
        boxed(ls.drop_last()) + "│ "@ + ls.last() + "\n"@
    }
}

/// The width of a tool box's header rule: 40 columns less the tool name's
/// UTF-8 length and four, and none when that leaves nothing.
pub open spec fn rule_width(name: Seq<char>) -> nat {
    if utf8_len(name) + 4 >= 40 {
        0
    } else {
        (36 - utf8_len(name)) as nat
    }
}

pub open spec fn rule(n: nat) -> Seq<char> {
    Seq::new(n, |i: int| '─')
}

/// A tool call opens a box: any box left open is closed first.
pub open spec fn tool_use_text(open: Option<String>, name: Seq<char>, input: Seq<char>) -> Seq<
    char,
> {
    close_box(open) + "\n┌─ "@ + name + " "@ + rule(rule_width(name)) + "\n"@ + boxed(
        lines(tool_input_text(name, input)),
    )
}

/// A tool result fills and closes the open box: at most 15 lines, then a
/// count of the rest; `(no output)` when empty.
pub open spec fn tool_result_text(content: Seq<char>) -> Seq<char> {
    let ls = lines(content);
    (if ls.len() == 0 {
        "│ (no output)\n"@
    } else if ls.len() > 15 {
        boxed(ls.take(15)) + "│ ... ("@ + decimal((ls.len() - 15) as nat) + " more lines)\n"@
    } else {
        boxed(ls)
    }) + "└─\n"@
}

/// The notice a failed turn ends with, naming the chat agent.
pub open spec fn failure_text(agent: Seq<char>, detail: Seq<char>) -> Seq<char> {
    agent + " chat failed: "@ + detail + ". Please retry."@
}

/// `r` is what `build_collected` yields for these parts, transcript and usage.
pub open spec fn collected_as(
    r: Option<CollectedResponse>,
    parts: Seq<Seq<char>>,
    transcript: Seq<char>,
    usage: Option<ClaudeUsage>,
) -> bool {
    &&& r is None <==> last_part(parts).len() == 0
    &&& r matches Some(c) ==> c.summary@ == last_part(parts) && c.full_response@ == with_usage(
        transcript,
        usage,
    )
}

/// `min(utf8_len(s), cap)`, without counting past `cap`.
fn utf8_len_capped(s: &str, cap: usize) -> (n: usize)
    requires
        cap <= 1024,
    ensures
        n == if utf8_len(s@) < cap {
            utf8_len(s@)
        } else {
            cap as nat
        },
{
    let v = chars_of(s);
    let mut n: usize = 0;
    let mut i: usize = 0;
    while i < v.len()
        invariant
            i <= v.len(),
            v@ == s@,
            n == utf8_len(v@.take(i as int)),
            n < cap + 4,
            cap <= 1024,
        decreases v.len() - i,
    {
        if n >= cap {
            proof {
                lemma_utf8_len_prefix_mono(v@, i as int, v@.len() as int);
                assert(v@.take(v@.len() as int) =~= v@);
            }
            return cap;
        }
        assert(v@.take(i + 1).drop_last() =~= v@.take(i as int));
        let u = v[i] as u32;
        let w: usize = if u < 0x80 {
            1
        } else if u < 0x800 {
            2
        } else if u < 0x10000 {
            3
        } else {
            4
        };
        n = n + w;
        i += 1;
    }
    assert(v@.take(v@.len() as int) =~= v@);
    if n >= cap {
        cap
    } else {
        n
    }
}

/// Appends `count` rule characters.
fn push_rule(out: &mut String, count: usize)
    ensures
        final(out)@ == old(out)@ + rule(count as nat),
{
    let mut i: usize = 0;
    while i < count
        invariant
            i <= count,
            out@ == old(out)@ + rule(i as nat),
        decreases count - i,
    {
        push_char(out, '─');
        assert(rule((i + 1) as nat) =~= rule(i as nat).push('─'));
        i += 1;
    }
}

/// Appends the first `n` of `ls` as tool box rows.
fn push_boxed(out: &mut String, ls: &Vec<String>, n: usize)
    requires
        n <= ls.len(),
    ensures
        final(out)@ == old(out)@ + boxed(views(ls@).take(n as int)),
{
    let mut i: usize = 0;
    assert(views(ls@).take(0) =~= Seq::<Seq<char>>::empty());
    while i < n
        invariant
            i <= n <= ls.len(),
            out@ == old(out)@ + boxed(views(ls@).take(i as int)),
        decreases n - i,
    {
        out.append("│ ");
        out.append(ls[i].as_str());
        out.append("\n");
        proof {
            let next = views(ls@).take(i + 1);
            assert(next.drop_last() =~= views(ls@).take(i as int));
            assert(next.last() == ls@[i as int]@);
        }
        i += 1;
    }
}

/// Appends `t`, ended by a newline.
fn push_newline_ended(out: &mut String, t: &str)
    ensures
        final(out)@ == old(out)@ + newline_ended(t@),
{
    out.append(t);
    let v = chars_of(t);
    let ends_nl = v.len() > 0 && v[v.len() - 1] == '\n';
    proof {
        reveal_strlit("\n");
        assert("\n"@ =~= seq!['\n']);
        let w = t@;
        if w.len() > 0 {
            assert(w.subrange(w.len() - 1, w.len() as int) =~= seq![w.last()]);
            if ends_nl {
                assert(w.subrange(w.len() - 1, w.len() as int) =~= "\n"@);
            } else {
                assert(w.subrange(w.len() - 1, w.len() as int)[0] != "\n"@[0]);
            }
        }
        assert(ends_nl == ends_with(w, "\n"@));
    }
    if !ends_nl {
        out.append("\n");
    }
    proof {
        assert(final(out)@ =~= old(out)@ + newline_ended(t@)) by {
            if ends_nl {
            } else {
            }
        }
    }
}

impl Collector {
    pub fn new(agent: &str) -> (c: Self)
        ensures
            c.agent@ == agent@,
            c.text_parts@.len() == 0,
            c.transcript@.len() == 0,
            c.open_tool is None,
            c.streaming_text@.len() == 0,
            c.usage is None,
    {
        Collector {
            text_parts: Vec::new(),
            transcript: String::new(),
            open_tool: None,
            streaming_text: String::new(),
            usage: None,
            agent: owned(agent),
        }
    }

    /// The turn's deadline passed: what was collected so far, with any open
    /// tool box left as it is.
    pub fn deadline_passed(&self) -> (r: Option<CollectedResponse>)
        ensures
            collected_as(r, views(self.text_parts@), self.transcript@, self.usage),
    {
        let r = build_collected(&self.text_parts, self.transcript.as_str(), self.usage.as_ref());
        r
    }

    fn close_open_box(&mut self)
        ensures
            final(self).transcript@ == old(self).transcript@ + close_box(old(self).open_tool),
            final(self).text_parts == old(self).text_parts,
            final(self).open_tool == old(self).open_tool,
            final(self).streaming_text == old(self).streaming_text,
            final(self).usage == old(self).usage,
            final(self).agent == old(self).agent,
    {
        if self.open_tool.is_some() {
            self.transcript.append("└─\n");
        }
        proof {
            if old(self).open_tool is None {
                assert(final(self).transcript@ =~= old(self).transcript@ + close_box(
                    old(self).open_tool,
                ));
            }
        }
    }

    fn finish(&self) -> (step: CollectStep)
        ensures
            step matches CollectStep::Done(r) && collected_as(
                r,
                views(self.text_parts@),
                self.transcript@,
                self.usage,
            ),
    {
        CollectStep::Done(
            build_collected(&self.text_parts, self.transcript.as_str(), self.usage.as_ref()),
        )
    }

    /// Takes one event of the turn.
    pub fn step(&mut self, ev: ResponseEvent) -> (step: CollectStep)
        ensures
            final(self).agent == old(self).agent,
            match ev {
                ResponseEvent::Text(t) => {
                    &&& final(self).text_parts@ == old(self).text_parts@.push(t)
                    &&& final(self).transcript@ == old(self).transcript@ + newline_ended(t@)
                    &&& final(self).streaming_text@ == old(self).streaming_text@ + newline_ended(t@)
                    &&& final(self).open_tool == old(self).open_tool
                    &&& final(self).usage == old(self).usage
                    &&& step matches CollectStep::Stream(st) && st@ == final(self).streaming_text@
                },
                ResponseEvent::ToolUse { name, input } => {
                    &&& final(self).transcript@ == old(self).transcript@ + tool_use_text(
                        old(self).open_tool,
                        name@,
                        input@,
                    )
                    &&& final(self).open_tool == Some(name)
                    &&& final(self).text_parts == old(self).text_parts
                    &&& final(self).streaming_text == old(self).streaming_text
                    &&& final(self).usage == old(self).usage
                    &&& step is Continue
                },
                ResponseEvent::ToolResult(content) => {
                    &&& final(self).transcript@ == old(self).transcript@ + tool_result_text(
                        content@,
                    )
                    &&& final(self).open_tool is None
                    &&& final(self).text_parts == old(self).text_parts
                    &&& final(self).streaming_text == old(self).streaming_text
                    &&& final(self).usage == old(self).usage
                    &&& step is Continue
                },
                ResponseEvent::SessionStarted(id) => {
                    &&& *final(self) == *old(self)
                    &&& step matches CollectStep::PersistSession(p) && p == id
                },
                ResponseEvent::Usage(u) => {
                    &&& final(self).usage == Some(u)
                    &&& final(self).text_parts == old(self).text_parts
                    &&& final(self).transcript == old(self).transcript
                    &&& final(self).open_tool == old(self).open_tool
                    &&& final(self).streaming_text == old(self).streaming_text
                    &&& step is Continue
                },
                ResponseEvent::Failure(detail) => {
                    &&& final(self).text_parts@.len() == old(self).text_parts@.len() + 1
                    &&& views(final(self).text_parts@) == views(old(self).text_parts@).push(
                        failure_text(old(self).agent@, detail@),
                    )
                    &&& final(self).transcript@ == old(self).transcript@ + close_box(
                        old(self).open_tool,
                    ) + failure_text(old(self).agent@, detail@) + "\n"@
                    &&& final(self).usage == old(self).usage
                    &&& step matches CollectStep::Done(r) && collected_as(
                        r,
                        views(final(self).text_parts@),
                        final(self).transcript@,
                        final(self).usage,
                    )
                },
                ResponseEvent::TurnComplete => if old(self).text_parts@.len() == 0 {
                    &&& *final(self) == *old(self)
                    &&& step is Continue
                } else {
                    &&& final(self).transcript@ == old(self).transcript@ + close_box(
                        old(self).open_tool,
                    )
                    &&& final(self).text_parts == old(self).text_parts
                    &&& final(self).usage == old(self).usage
                    &&& step matches CollectStep::Done(r) && collected_as(
                        r,
                        views(final(self).text_parts@),
                        final(self).transcript@,
                        final(self).usage,
                    )
                },
                _ => {
                    &&& final(self).transcript@ == old(self).transcript@ + close_box(
                        old(self).open_tool,
                    )
                    &&& final(self).text_parts == old(self).text_parts
                    &&& final(self).usage == old(self).usage
                    &&& step matches CollectStep::Done(r) && collected_as(
                        r,
                        views(final(self).text_parts@),
                        final(self).transcript@,
                        final(self).usage,
                    )
                },
            },
    {
        match ev {
            ResponseEvent::Text(t) => {
                push_newline_ended(&mut self.streaming_text, t.as_str());
                push_newline_ended(&mut self.transcript, t.as_str());
                self.text_parts.push(t);
                CollectStep::Stream(self.streaming_text.clone())
            },
            ResponseEvent::ToolUse { name, input } => {
                self.close_open_box();
                self.transcript.append("\n┌─ ");
                self.transcript.append(name.as_str());
                self.transcript.append(" ");
                let width = utf8_len_capped(name.as_str(), 36);
                push_rule(&mut self.transcript, 36 - width);
                self.transcript.append("\n");
                let pretty = format_tool_input(name.as_str(), input.as_str());
                let ls = lines_of(pretty.as_str());
                assert(views(ls@) =~= lines(pretty@));
                push_boxed(&mut self.transcript, &ls, ls.len());
                assert(views(ls@).take(ls@.len() as int) =~= views(ls@));
                self.open_tool = Some(name);
                CollectStep::Continue
            },
            ResponseEvent::ToolResult(content) => {
                let ls = lines_of(content.as_str());
                assert(views(ls@) =~= lines(content@));
                if ls.len() == 0 {
                    self.transcript.append("│ (no output)\n");
                } else if ls.len() > 15 {
                    push_boxed(&mut self.transcript, &ls, 15);
                    self.transcript.append("│ ... (");
                    push_decimal(&mut self.transcript, (ls.len() - 15) as u64);
                    self.transcript.append(" more lines)\n");
                } else {
                    push_boxed(&mut self.transcript, &ls, ls.len());
                    assert(views(ls@).take(ls@.len() as int) =~= views(ls@));
                }
                self.transcript.append("└─\n");
                self.open_tool = None;
                CollectStep::Continue
            },
            ResponseEvent::SessionStarted(id) => CollectStep::PersistSession(id),
            ResponseEvent::Usage(u) => {
                self.usage = Some(u);
                CollectStep::Continue
            },
            ResponseEvent::Failure(detail) => {
                self.close_open_box();
                let mut visible = owned(self.agent.as_str());
                visible.append(" chat failed: ");
                visible.append(detail.as_str());
                visible.append(". Please retry.");
                self.transcript.append(visible.as_str());
                self.transcript.append("\n");
                let ghost before = self.text_parts@;
                self.text_parts.push(visible);
                proof {
                    lemma_views_push(before, visible);
                }
                self.finish()
            },
            ResponseEvent::TurnComplete => {
                if self.text_parts.len() == 0 {
                    return CollectStep::Continue;
                }
                self.close_open_box();
                self.finish()
            },
            _ => {
                self.close_open_box();
                self.finish()
            },
        }
    }
}

// ---------------------------------------------------------------------------
// The agent's command line
// ---------------------------------------------------------------------------

/// The arguments the chat agent runs with: stream-json in and out,
/// verbose, permissions skipped; resuming a native session when there is
/// one, else starting from the system prompt; only `wg` shell commands
/// allowed; and the model, when one is pinned.
pub open spec fn agent_args_spec(
    system_prompt: Seq<char>,
    resume: Option<Seq<char>>,
    model_arg: Option<Seq<char>>,
) -> Seq<Seq<char>> {
    seq![
        "--print"@,
        "--input-format"@,
        "stream-json"@,
        "--output-format"@,
        "stream-json"@,
        "--verbose"@,
        "--dangerously-skip-permissions"@,
    ] + match resume {
        Some(id) => seq!["--resume"@, id],
        None => seq!["--system-prompt"@, system_prompt],
    } + seq!["--allowedTools"@, "Bash(wg:*)"@] + match model_arg {
        Some(m) => seq!["--model"@, m],
        None => Seq::empty(),
    }
}

fn push_arg(out: &mut Vec<String>, a: &str)
    ensures
        views(final(out)@) == views(old(out)@).push(a@),
{
    let ghost before = out@;
    let x = owned(a);
    out.push(x);
    proof {
        lemma_views_push(before, x);
    }
}

pub fn agent_args(system_prompt: &str, resume: Option<&str>, model_arg: Option<&str>) -> (args: Vec<
    String,
>)
    ensures
        views(args@) == agent_args_spec(
            system_prompt@,
            match resume {
                Some(r) => Some(r@),
                None => None,
            },
            match model_arg {
                Some(m) => Some(m@),
                None => None,
            },
        ),
{
    let mut args: Vec<String> = Vec::new();
    push_arg(&mut args, "--print");
    push_arg(&mut args, "--input-format");
    push_arg(&mut args, "stream-json");
    push_arg(&mut args, "--output-format");
    push_arg(&mut args, "stream-json");
    push_arg(&mut args, "--verbose");
    push_arg(&mut args, "--dangerously-skip-permissions");
    match resume {
        Some(id) => {
            push_arg(&mut args, "--resume");
            push_arg(&mut args, id);
        },
        None => {
            push_arg(&mut args, "--system-prompt");
            push_arg(&mut args, system_prompt);
        },
    }
    push_arg(&mut args, "--allowedTools");
    push_arg(&mut args, "Bash(wg:*)");
    match model_arg {
        Some(m) => {
            push_arg(&mut args, "--model");
            push_arg(&mut args, m);
        },
        None => {},
    }
    assert(views(args@) =~= agent_args_spec(
        system_prompt@,
        match resume {
            Some(r) => Some(r@),
            None => None,
        },
        match model_arg {
            Some(m) => Some(m@),
            None => None,
        },
    ));
    args
}


// ---------------------------------------------------------------------------
// A failed agent process
// ---------------------------------------------------------------------------

/// The last `n` lines of `text`, joined by newlines and trimmed.
pub open spec fn tail_lines(text: Seq<char>, n: nat) -> Seq<char> {
    let ls = lines(text);
    trim(join_with(ls.skip(if ls.len() > n { ls.len() - n } else { 0 }), "\n"@))
}

/// The failure shown for an agent process that exited unsuccessfully: its
/// exit status, and the last twelve lines of its standard error when they
/// hold anything but whitespace.
pub open spec fn process_failure_text(agent: Seq<char>, status: Seq<char>, stderr: Seq<char>) -> Seq<char> {
    let tail = tail_lines(stderr, 12);
    if tail.len() == 0 {
        agent + " CLI exited "@ + status
    } else {
        agent + " CLI exited "@ + status + ": "@ + tail
    }
}

/// The detail of an agent process that exited with `status` (its rendering)
/// after writing `stderr`.
pub fn process_failure_detail(agent: &str, status: &str, stderr: &str) -> (m: String)
    ensures
        m@ == process_failure_text(agent@, status@, stderr@),
{
    let ls = lines_of(stderr);
    let start: usize = if ls.len() > 12 {
        ls.len() - 12
    } else {
        0
    };
    let mut last: Vec<String> = Vec::new();
    let mut i: usize = start;
    while i < ls.len()
        invariant
            start <= i <= ls.len(),
            views(last@) =~= views(ls@).subrange(start as int, i as int),
        decreases ls.len() - i,
    {
        let ghost before = last@;
        let item = owned(ls[i].as_str());
        last.push(item);
        proof {
            lemma_views_push(before, item);
            assert(views(ls@).subrange(start as int, i + 1) =~= views(ls@).subrange(
                start as int,
                i as int,
            ).push(ls@[i as int]@));
        }
        i += 1;
    }
    proof {
        assert(views(ls@) =~= lines(stderr@));
        assert(views(last@) =~= views(ls@).skip(start as int));
        assert(views(last@).take(last.len() as int) =~= views(last@));
    }
    let joined = join_lines(&last, last.len());
    let tail = trim_str(joined.as_str());
    let mut m = owned(agent);
    m.append(" CLI exited ");
    m.append(status);
    if !tail.as_str().is_empty() {
        m.append(": ");
        m.append(tail.as_str());
    }
    m
}

// ---------------------------------------------------------------------------
// One inbox turn
// ---------------------------------------------------------------------------

/// The request id a turn answers: the message's own, else `req-<id>`.
pub open spec fn turn_request_id_spec(id: u64, request_id: Seq<char>) -> Seq<char> {
    if request_id.len() == 0 {
        "req-"@ + decimal(id as nat)
    } else {
        request_id
    }
}

pub fn turn_request_id(id: u64, request_id: &str) -> (r: String)
    ensures
        r@ == turn_request_id_spec(id, request_id@),
{
    if request_id.is_empty() {
        let mut r = owned("req-");
        push_decimal(&mut r, id);
        r
    } else {
        owned(request_id)
    }
}

/// What the agent is sent for a message: a coordinator's message is framed
/// as `User message:`, after the graph context when there is any; other
/// chats send the message as it is.
pub open spec fn turn_content_spec(content: Seq<char>, coordinator: bool, context: Option<Seq<char>>) -> Seq<
    char,
> {
    if !coordinator {
        content
    } else {
        match context {
            Some(ctx) => if ctx.len() > 0 {
                ctx + "\n\n---\n\nUser message:\n"@ + content
            } else {
                "User message:\n"@ + content
            },
            None => "User message:\n"@ + content,
        }
    }
}

/// The text sent for one inbox message; `context` is the coordinator's
/// graph context, when it could be built.
pub fn turn_content(content: &str, coordinator: bool, context: Option<&str>) -> (r: String)
    ensures
        r@ == turn_content_spec(content@, coordinator, match context {
            Some(c) => Some(c@),
            None => None,
        }),
{
    if !coordinator {
        return owned(content);
    }
    let mut r = match context {
        Some(ctx) => if !ctx.is_empty() {
            let mut r = owned(ctx);
            r.append("\n\n---\n\nUser message:\n");
            r
        } else {
            owned("User message:\n")
        },
        None => owned("User message:\n"),
    };
    r.append(content);
    r
}

/// What a turn writes to the outbox.
#[derive(Debug, Clone)]
pub enum TurnReply {
    /// The summary, with the full transcript when it says more than the
    /// summary.
    Reply { summary: String, full_response: Option<String> },
    /// The failure notice.
    Failure(String),
}

/// The outbox entry of a turn: the response when its summary is not empty;
/// else a failure naming the agent process's failure when it exited
/// unsuccessfully, else that no text came (or, with no response at all,
/// that the turn timed out or its stream ended).
pub open spec fn turn_reply_holds(
    r: TurnReply,
    agent: Seq<char>,
    collected: Option<CollectedResponse>,
    process_failure: Option<Seq<char>>,
) -> bool {
    match collected {
        Some(resp) if resp.summary@.len() > 0 => r matches TurnReply::Reply { summary, full_response }
            && summary@ == resp.summary@ && opt_view(full_response) == (if trim(resp.full_response@)
            != trim(resp.summary@) {
            Some(resp.full_response@)
        } else {
            None
        }),
        Some(_) => r matches TurnReply::Failure(m) && m@ == failure_text(
            agent,
            match process_failure {
                Some(d) => d,
                None => agent + " produced no response text"@,
            },
        ),
        None => r matches TurnReply::Failure(m) && m@ == failure_text(
            agent,
            match process_failure {
                Some(d) => d,
                None => "response timed out or its stream ended"@,
            },
        ),
    }
}

pub fn turn_reply(agent: &str, collected: Option<&CollectedResponse>, process_failure: Option<&str>) -> (r:
    TurnReply)
    ensures
        turn_reply_holds(
            r,
            agent@,
            match collected {
                Some(c) => Some(*c),
                None => None,
            },
            match process_failure {
                Some(d) => Some(d@),
                None => None,
            },
        ),
{
    match collected {
        Some(resp) => {
            if !resp.summary.as_str().is_empty() {
                let a = trim_str(resp.full_response.as_str());
                let b = trim_str(resp.summary.as_str());
                let full = if !str_eq(a.as_str(), b.as_str()) {
                    Some(owned(resp.full_response.as_str()))
                } else {
                    None
                };
                return TurnReply::Reply { summary: owned(resp.summary.as_str()), full_response: full };
            }
        },
        None => {},
    }
    let detail = match process_failure {
        Some(d) => owned(d),
        None => match collected {
            Some(_) => {
                let mut d = owned(agent);
                d.append(" produced no response text");
                d
            },
            None => owned("response timed out or its stream ended"),
        },
    };
    let mut m = owned(agent);
    m.append(" chat failed: ");
    m.append(detail.as_str());
    m.append(". Please retry.");
    TurnReply::Failure(m)
}

} // verus!
