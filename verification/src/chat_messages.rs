//! Chat messages and sessions as the CLI shows them: the message a user
//! sends (size cap, emptiness, attachment lines), request ids, the history
//! view, sharing between coordinators, endpoint refusals, and the session
//! table and attach stream.
use vstd::prelude::*;
use crate::text::{
    trim, utf8_len, decimal, join_with, owned, str_eq, trim_str, push_decimal, chars_of,
    string_of_range, byte_prefix, byte_prefix_of, starts_with, str_starts_with, utf8_length,
    find_char_from, lemma_find_char_from,
};
use crate::archive::{views, lemma_views_push};
use crate::agency_push::join_strings;

verus! {

/// The largest message sent, in bytes (100 KiB).
pub const MAX_MESSAGE_SIZE: usize = 102400;

// ---------------------------------------------------------------------------
// The message a user sends
// ---------------------------------------------------------------------------

/// The longest prefix of `s` whose UTF-8 encoding fits in `n` bytes
/// (`str::floor_char_boundary`).
pub open spec fn floor_prefix(s: Seq<char>, n: nat) -> Seq<char> {
    s.take(floor_count(s, n, 0))
}

/// How many characters from position `k` on still fit.
pub open spec fn floor_count(s: Seq<char>, n: nat, k: int) -> int
    decreases s.len() - k,
{
    if k < 0 || k >= s.len() || utf8_len(s.take(k + 1)) > n {
        k
    } else {
        floor_count(s, n, k + 1)
    }
}

/// A message ready to send: a warning when it was cut, and its text.
#[derive(Debug, Clone)]
pub struct PreparedMessage {
    pub warning: Option<String>,
    pub text: String,
}

pub open spec fn attachment_lines(names: Seq<Seq<char>>) -> Seq<char> {
    join_with(names.map_values(|n: Seq<char>| "[Attached: "@ + n + "]"@), "\n"@)
}

/// The message cut to the size cap, then with a line per attachment; a
/// message that is blank and has no attachments is refused.
pub open spec fn prepared_text(message: Seq<char>, names: Seq<Seq<char>>) -> Option<Seq<char>> {
    let msg = if utf8_len(message) > MAX_MESSAGE_SIZE {
        floor_prefix(message, MAX_MESSAGE_SIZE as nat)
    } else {
        message
    };
    if trim(msg).len() == 0 && names.len() == 0 {
        None
    } else if names.len() == 0 {
        Some(msg)
    } else if trim(msg).len() == 0 {
        Some(attachment_lines(names))
    } else {
        Some(msg + "\n"@ + attachment_lines(names))
    }
}

pub open spec fn truncation_warning(message: Seq<char>) -> Option<Seq<char>> {
    if utf8_len(message) > MAX_MESSAGE_SIZE {
        Some(
            "Warning: Message truncated to 100KB (was "@ + decimal(utf8_len(message) / 1024)
                + "KB)"@,
        )
    } else {
        None
    }
}

fn floor_prefix_of(v: &Vec<char>, n: usize) -> (k: usize)
    requires
        n <= usize::MAX - 4,
    ensures
        k == floor_count(v@, n as nat, 0),
        k <= v@.len(),
{
    let mut k: usize = 0;
    let mut bytes: usize = 0;
    while k < v.len()
        invariant
            k <= v.len(),
            bytes == utf8_len(v@.take(k as int)),
            bytes <= n,
            n <= usize::MAX - 4,
            floor_count(v@, n as nat, 0) == floor_count(v@, n as nat, k as int),
        decreases v.len() - k,
    {
        assert(v@.take(k + 1).drop_last() =~= v@.take(k as int));
        let u = v[k] as u32;
        let w: usize = if u < 0x80 {
            1
        } else if u < 0x800 {
            2
        } else if u < 0x10000 {
            3
        } else {
            4
        };
        if bytes + w > n {
            return k;
        }
        bytes = bytes + w;
        k += 1;
    }
    k
}

/// Prepares a message: `attachment_names` are the file names of the stored
/// attachments.
pub fn prepare_message(message: &str, attachment_names: &Vec<String>) -> (r: Result<
    PreparedMessage,
    String,
>)
    requires
        message@.len() * 4 <= usize::MAX,
    ensures
        match r {
            Ok(p) => prepared_text(message@, views(attachment_names@)) == Some(p.text@) && match p.warning {
                Some(w) => truncation_warning(message@) == Some(w@),
                None => truncation_warning(message@) is None,
            },
            Err(m) => prepared_text(message@, views(attachment_names@)) is None && m@
                == "Message cannot be empty"@,
        },
{
    let len = utf8_length(message);
    let v = chars_of(message);
    let (warning, msg) = if len > MAX_MESSAGE_SIZE {
        let mut w = owned("Warning: Message truncated to 100KB (was ");
        push_decimal(&mut w, (len / 1024) as u64);
        w.append("KB)");
        let k = floor_prefix_of(&v, MAX_MESSAGE_SIZE);
        (Some(w), string_of_range(&v, 0, k))
    } else {
        (None, owned(message))
    };
    let blank = trim_str(msg.as_str()).as_str().is_empty();
    if blank && attachment_names.len() == 0 {
        return Err(owned("Message cannot be empty"));
    }
    if attachment_names.len() == 0 {
        return Ok(PreparedMessage { warning, text: msg });
    }
    let mut lines: Vec<String> = Vec::new();
    let mut i: usize = 0;
    while i < attachment_names.len()
        invariant
            i <= attachment_names.len(),
            views(lines@) == views(attachment_names@).take(i as int).map_values(
                |n: Seq<char>| "[Attached: "@ + n + "]"@,
            ),
        decreases attachment_names.len() - i,
    {
        let mut l = owned("[Attached: ");
        l.append(attachment_names[i].as_str());
        l.append("]");
        let ghost prev = lines@;
        lines.push(l);
        proof {
            lemma_views_push(prev, l);
            assert(views(attachment_names@).take(i + 1).map_values(
                |n: Seq<char>| "[Attached: "@ + n + "]"@,
            ) =~= views(attachment_names@).take(i as int).map_values(
                |n: Seq<char>| "[Attached: "@ + n + "]"@,
            ).push("[Attached: "@ + attachment_names@[i as int]@ + "]"@));
        }
        i += 1;
    }
    assert(views(attachment_names@).take(attachment_names@.len() as int) =~= views(
        attachment_names@,
    ));
    let joined = join_strings(&lines, "\n");
    if blank {
        Ok(PreparedMessage { warning, text: joined })
    } else {
        let mut text = msg;
        text.append("\n");
        text.append(joined.as_str());
        Ok(PreparedMessage { warning, text })
    }
}

/// `chat-<millis>-<pid><nanos mod 100000, five digits>`: sortable by time,
/// unique per process and instant.
pub open spec fn request_id_text(millis: u128, pid: u32, nanos: u32) -> Seq<char> {
    let suffix = (nanos % 100000) as nat;
    "chat-"@ + decimal(millis as nat) + "-"@ + decimal(pid as nat) + Seq::new(
        (5 - decimal(suffix).len()) as nat,
        |i: int| '0',
    ) + decimal(suffix)
}

fn decimal_u128(n: u128) -> (s: String)
    ensures
        s@ == decimal(n as nat),
    decreases n,
{
    let mut s = if n >= 10 {
        decimal_u128(n / 10)
    } else {
        String::new()
    };
    let d = (n % 10) as u64;
    let c = crate::text::digit_to_char(d);
    crate::text::push_char(&mut s, c);
    proof {
        if n >= 10 {
            assert(decimal(n as nat) == decimal((n / 10) as nat).push(crate::text::digit_char((n % 10) as nat)));
        } else {
            assert(decimal(n as nat) == seq![crate::text::digit_char(n as nat)]);
        }
    }
    s
}

proof fn lemma_decimal_len_small(n: nat)
    ensures
        1 <= decimal(n).len(),
        n < 10 ==> decimal(n).len() <= 1,
        n < 100 ==> decimal(n).len() <= 2,
        n < 1000 ==> decimal(n).len() <= 3,
        n < 10000 ==> decimal(n).len() <= 4,
        n < 100000 ==> decimal(n).len() <= 5,
    decreases n,
{
    if n >= 10 {
        lemma_decimal_len_small(n / 10);
    }
}

/// The id correlating a chat request with its response.
pub fn request_id(millis: u128, pid: u32, nanos: u32) -> (id: String)
    ensures
        id@ == request_id_text(millis, pid, nanos),
{
    let mut id = owned("chat-");
    let m = decimal_u128(millis);
    id.append(m.as_str());
    id.append("-");
    push_decimal(&mut id, pid as u64);
    let suffix = nanos % 100000;
    let digits = decimal_u128(suffix as u128);
    proof {
        lemma_decimal_len_small(suffix as nat);
    }
    let pad = 5 - digits.as_str().unicode_len();
    let ghost before = id@;
    let mut i: usize = 0;
    while i < pad
        invariant
            i <= pad,
            id@ == before + Seq::new(i as nat, |j: int| '0'),
        decreases pad - i,
    {
        crate::text::push_char(&mut id, '0');
        assert(Seq::new((i + 1) as nat, |j: int| '0') =~= Seq::new(i as nat, |j: int| '0').push('0'));
        i += 1;
    }
    id.append(digits.as_str());
    id
}

// ---------------------------------------------------------------------------
// History
// ---------------------------------------------------------------------------

/// The time shown for a history entry: the eight bytes after the first `T`
/// of its timestamp (fewer when the rest is shorter), or the whole
/// timestamp without a `T`.
pub open spec fn history_time(ts: Seq<char>) -> Seq<char> {
    match find_char_from(ts, 'T', 0) {
        Some(p) => {
            let rest = ts.skip(p + 1);
            if utf8_len(rest) >= 8 {
                byte_prefix(rest, 8).unwrap()
            } else {
                rest
            }
        },
        None => ts,
    }
}

/// Whether showing the timestamp slices at a character boundary.
pub open spec fn history_time_ok(ts: Seq<char>) -> bool {
    match find_char_from(ts, 'T', 0) {
        Some(p) => utf8_len(ts.skip(p + 1)) >= 8 ==> byte_prefix(ts.skip(p + 1), 8) is Some,
        None => true,
    }
}

pub fn history_time_of(ts: &str) -> (t: String)
    requires
        history_time_ok(ts@),
        ts@.len() * 4 <= usize::MAX,
    ensures
        t@ == history_time(ts@),
{
    let v = chars_of(ts);
    let mut p: usize = 0;
    while p < v.len() && v[p] != 'T'
        invariant
            p <= v.len(),
            v@ == ts@,
            forall|k: int| 0 <= k < p ==> v@[k] != 'T',
        decreases v.len() - p,
    {
        p += 1;
    }
    proof {
        lemma_find_char_from(ts@, 'T', 0);
        let f = find_char_from(ts@, 'T', 0);
        if p < v.len() {
            if f is None {
                assert(v@[p as int] != 'T');
            } else {
                let q = f.unwrap();
                if q < p {
                    assert(v@[q] != 'T');
                } else if q > p {
                    assert(v@[p as int] != 'T');
                }
            }
        } else if f is Some {
            assert(v@[f.unwrap()] != 'T');
        }
    }
    if p == v.len() {
        return owned(ts);
    }
    let rest = string_of_range(&v, p + 1, v.len());
    assert(rest@ =~= ts@.skip(p + 1));
    let n = utf8_length(rest.as_str());
    if n >= 8 {
        match byte_prefix_of(rest.as_str(), 8) {
            Some(t) => t,
            None => String::new(),
        }
    } else {
        rest
    }
}

/// The entries a history view shows: the last `depth`, or all.
pub open spec fn history_window(len: nat, depth: Option<usize>) -> (int, int) {
    match depth {
        Some(n) => (if len > n {
            len - n
        } else {
            0
        }, len as int),
        None => (0, len as int),
    }
}

pub fn history_window_of(len: usize, depth: Option<usize>) -> (w: (usize, usize))
    ensures
        (w.0 as int, w.1 as int) == history_window(len as nat, depth),
{
    match depth {
        Some(n) => (len.saturating_sub(n), len),
        None => (0, len),
    }
}

/// One shown history entry: `[time] role: content`, then a line per
/// attachment (its file name and MIME type).
pub fn history_lines(time: &str, role: &str, content: &str, attachments: &Vec<(String, String)>) -> (lines:
    Vec<String>)
    ensures
        lines@.len() == attachments@.len() + 1,
        lines@[0]@ == "["@ + time@ + "] "@ + role@ + ": "@ + content@,
        forall|k: int|
            0 <= k < attachments@.len() ==> #[trigger] lines@[k + 1]@ == "        [Attached: "@
                + attachments@[k].0@ + " ("@ + attachments@[k].1@ + ")]"@,
{
    let mut lines: Vec<String> = Vec::new();
    let mut head = owned("[");
    head.append(time);
    head.append("] ");
    head.append(role);
    head.append(": ");
    head.append(content);
    lines.push(head);
    let mut i: usize = 0;
    while i < attachments.len()
        invariant
            i <= attachments.len(),
            lines@.len() == i + 1,
            lines@[0]@ == "["@ + time@ + "] "@ + role@ + ": "@ + content@,
            forall|k: int|
                0 <= k < i ==> #[trigger] lines@[k + 1]@ == "        [Attached: "@
                    + attachments@[k].0@ + " ("@ + attachments@[k].1@ + ")]"@,
        decreases attachments.len() - i,
    {
        let mut l = owned("        [Attached: ");
        l.append(attachments[i].0.as_str());
        l.append(" (");
        l.append(attachments[i].1.as_str());
        l.append(")]");
        lines.push(l);
        i += 1;
    }
    lines
}

// ---------------------------------------------------------------------------
// Coordinators and endpoints
// ---------------------------------------------------------------------------

/// The task of coordinator `cid`: `.coordinator` for 0, else
/// `.coordinator-<cid>`.
pub fn coordinator_task_id(cid: u32) -> (id: String)
    ensures
        id@ == if cid == 0 {
            ".coordinator"@
        } else {
            ".coordinator-"@ + decimal(cid as nat)
        },
{
    if cid == 0 {
        owned(".coordinator")
    } else {
        let mut id = owned(".coordinator-");
        push_decimal(&mut id, cid as u64);
        id
    }
}

/// Context is shared between two different coordinators only.
pub fn share_check(from_id: u32, to_id: u32) -> (r: Result<(), String>)
    ensures
        r is Ok <==> from_id != to_id,
        r matches Err(m) ==> m@ == "Source and target coordinator must be different (both are "@
            + decimal(from_id as nat) + ")"@,
{
    if from_id == to_id {
        let mut m = owned("Source and target coordinator must be different (both are ");
        push_decimal(&mut m, from_id as u64);
        m.append(")");
        return Err(m);
    }
    Ok(())
}

/// The refusal for an unknown endpoint, listing those configured.
pub fn endpoint_not_found(name: &str, available: &Vec<String>) -> (m: String)
    ensures
        m@ == if available@.len() == 0 {
            "Endpoint '"@ + name@
                + "' not found. No endpoints configured.\nAdd one with: wg endpoints add <name> --provider <provider>"@
        } else {
            "Endpoint '"@ + name@ + "' not found. Available endpoints:\n"@ + join_with(
                views(available@).map_values(|e: Seq<char>| "  - "@ + e),
                "\n"@,
            )
        },
{
    let mut m = owned("Endpoint '");
    m.append(name);
    if available.len() == 0 {
        m.append(
            "' not found. No endpoints configured.\nAdd one with: wg endpoints add <name> --provider <provider>",
        );
        return m;
    }
    m.append("' not found. Available endpoints:\n");
    let mut items: Vec<String> = Vec::new();
    let mut i: usize = 0;
    while i < available.len()
        invariant
            i <= available.len(),
            views(items@) == views(available@).take(i as int).map_values(
                |e: Seq<char>| "  - "@ + e,
            ),
        decreases available.len() - i,
    {
        let mut l = owned("  - ");
        l.append(available[i].as_str());
        let ghost prev = items@;
        items.push(l);
        proof {
            lemma_views_push(prev, l);
            assert(views(available@).take(i + 1).map_values(|e: Seq<char>| "  - "@ + e)
                =~= views(available@).take(i as int).map_values(|e: Seq<char>| "  - "@ + e).push(
                "  - "@ + available@[i as int]@,
            ));
        }
        i += 1;
    }
    assert(views(available@).take(available@.len() as int) =~= views(available@));
    let list = join_strings(&items, "\n");
    m.append(list.as_str());
    m
}

/// The refusal for an endpoint without a model.
pub fn endpoint_without_model(name: &str) -> (m: String)
    ensures
        m@ == "Endpoint '"@ + name@ + "' has no model configured. Set one with:\n  wg endpoints update "@
            + name@ + " --model <model>"@,
{
    let mut m = owned("Endpoint '");
    m.append(name);
    m.append("' has no model configured. Set one with:\n  wg endpoints update ");
    m.append(name);
    m.append(" --model <model>");
    m
}

// ---------------------------------------------------------------------------
// Sessions
// ---------------------------------------------------------------------------

/// `s` padded with spaces to `width` characters (`{:<width}`).
pub open spec fn pad_right(s: Seq<char>, width: nat) -> Seq<char> {
    if s.len() >= width {
        s
    } else {
        s + Seq::new((width - s.len()) as nat, |i: int| ' ')
    }
}

fn push_padded(out: &mut String, s: &str, width: usize)
    ensures
        final(out)@ == old(out)@ + pad_right(s@, width as nat),
{
    out.append(s);
    let v = chars_of(s);
    let ghost base = out@;
    if v.len() < width {
        let mut i: usize = v.len();
        while i < width
            invariant
                v.len() <= i <= width,
                out@ == base + Seq::new((i - v.len()) as nat, |j: int| ' '),
            decreases width - i,
        {
            crate::text::push_char(out, ' ');
            assert(Seq::new((i + 1 - v.len()) as nat, |j: int| ' ') =~= Seq::new(
                (i - v.len()) as nat,
                |j: int| ' ',
            ).push(' '));
            i += 1;
        }
    } else {
        assert(out@ =~= base);
    }
}

/// A row of the session table: the id's first eight bytes, the kind, the
/// aliases (comma-joined, `-` when none) and the label.
pub open spec fn session_row_text(uuid: Seq<char>, kind: Seq<char>, aliases: Seq<Seq<char>>, label: Seq<char>) -> Seq<char> {
    let short = if utf8_len(uuid) <= 8 {
        uuid
    } else {
        byte_prefix(uuid, 8).unwrap()
    };
    pad_right(short, 12) + " "@ + pad_right(kind, 12) + " "@ + pad_right(
        if aliases.len() == 0 {
            "-"@
        } else {
            join_with(aliases, ","@)
        },
        40,
    ) + " "@ + label
}

pub fn session_row(uuid: &str, kind: &str, aliases: &Vec<String>, label: &str) -> (row: String)
    requires
        uuid@.len() * 4 <= usize::MAX,
        utf8_len(uuid@) > 8 ==> byte_prefix(uuid@, 8) is Some,
    ensures
        row@ == session_row_text(uuid@, kind@, views(aliases@), label@),
{
    let short = if utf8_length(uuid) <= 8 {
        owned(uuid)
    } else {
        match byte_prefix_of(uuid, 8) {
            Some(p) => p,
            None => String::new(),
        }
    };
    let mut row = String::new();
    push_padded(&mut row, short.as_str(), 12);
    row.append(" ");
    push_padded(&mut row, kind, 12);
    row.append(" ");
    let list = if aliases.len() == 0 {
        owned("-")
    } else {
        join_strings(aliases, ",")
    };
    push_padded(&mut row, list.as_str(), 40);
    row.append(" ");
    row.append(label);
    row
}

/// What attaching prints when the streaming file changes: the new tail
/// when it extends what was shown, else a fresh start (a newline, then all
/// of it); nothing when unchanged.
pub open spec fn streaming_delta_spec(last: Seq<char>, current: Seq<char>) -> Option<Seq<char>> {
    if current == last {
        None
    } else if starts_with(current, last) {
        Some(current.skip(last.len() as int))
    } else {
        Some("\n"@ + current)
    }
}

pub fn streaming_delta(last: &str, current: &str) -> (d: Option<String>)
    ensures
        match d {
            Some(t) => streaming_delta_spec(last@, current@) == Some(t@),
            None => streaming_delta_spec(last@, current@) is None,
        },
{
    if str_eq(current, last) {
        return None;
    }
    if str_starts_with(current, last) {
        let v = chars_of(current);
        let lv = chars_of(last);
        let t = string_of_range(&v, lv.len(), v.len());
        assert(t@ =~= current@.skip(last@.len() as int));
        Some(t)
    } else {
        let mut t = owned("\n");
        t.append(current);
        Some(t)
    }
}

// ---------------------------------------------------------------------------
// Resolving and calling an endpoint
// ---------------------------------------------------------------------------

/// A configured endpoint, with its API key already resolved (from the
/// config, a key file or the environment) when it has one.
#[derive(Debug, Clone)]
pub struct EndpointConfig {
    pub name: String,
    pub provider: String,
    pub url: Option<String>,
    pub model: Option<String>,
    pub api_key: Option<String>,
}

/// What a chat needs of an endpoint.
#[derive(Debug, Clone)]
pub struct ResolvedEndpoint {
    pub provider: String,
    pub model: String,
    pub url: Option<String>,
    pub api_key: Option<String>,
}

pub open spec fn endpoint_names(es: Seq<EndpointConfig>) -> Seq<Seq<char>> {
    es.map_values(|e: EndpointConfig| e.name@)
}

/// The first endpoint of that name.
pub open spec fn endpoint_index(es: Seq<EndpointConfig>, name: Seq<char>) -> Option<int>
    decreases es.len(),
{
    if es.len() == 0 {
        None
    } else {
        match endpoint_index(es.drop_last(), name) {
            Some(i) => Some(i),
            None => if es.last().name@ == name {
                Some(es.len() - 1)
            } else {
                None
            },
        }
    }
}

proof fn lemma_endpoint_index(es: Seq<EndpointConfig>, name: Seq<char>)
    ensures
        endpoint_index(es, name) matches Some(i) ==> 0 <= i < es.len() && es[i].name@ == name,
    decreases es.len(),
{
    if es.len() > 0 {
        lemma_endpoint_index(es.drop_last(), name);
    }
}

fn opt_copy(o: &Option<String>) -> (r: Option<String>)
    ensures
        crate::archive::opt_view(r) == crate::archive::opt_view(*o),
{
    match o {
        Some(v) => Some(owned(v.as_str())),
        None => None,
    }
}

/// Resolves a named endpoint: refused when no endpoint has that name
/// (listing the configured ones) or when it has no model.
pub fn resolve_endpoint(endpoints: &Vec<EndpointConfig>, name: &str) -> (r: Result<
    ResolvedEndpoint,
    String,
>)
    ensures
        match endpoint_index(endpoints@, name@) {
            None => r matches Err(m) && m@ == if endpoints@.len() == 0 {
                "Endpoint '"@ + name@
                    + "' not found. No endpoints configured.\nAdd one with: wg endpoints add <name> --provider <provider>"@
            } else {
                "Endpoint '"@ + name@ + "' not found. Available endpoints:\n"@ + join_with(
                    endpoint_names(endpoints@).map_values(|e: Seq<char>| "  - "@ + e),
                    "\n"@,
                )
            },
            Some(i) => match endpoints@[i].model {
                None => r matches Err(m) && m@ == "Endpoint '"@ + name@
                    + "' has no model configured. Set one with:\n  wg endpoints update "@ + name@
                    + " --model <model>"@,
                Some(model) => r matches Ok(e) && e.provider@ == endpoints@[i].provider@
                    && e.model@ == model@ && crate::archive::opt_view(e.url)
                    == crate::archive::opt_view(endpoints@[i].url) && crate::archive::opt_view(
                    e.api_key,
                ) == crate::archive::opt_view(endpoints@[i].api_key),
            },
        },
{
    let mut i: usize = 0;
    while i < endpoints.len()
        invariant
            i <= endpoints@.len(),
            endpoint_index(endpoints@.take(i as int), name@) is None,
        decreases endpoints@.len() - i,
    {
        assert(endpoints@.take(i + 1).drop_last() =~= endpoints@.take(i as int));
        assert(endpoints@.take(i + 1).last() == endpoints@[i as int]);
        if str_eq(endpoints[i].name.as_str(), name) {
            proof {
                lemma_endpoint_index_extends(endpoints@, name@, i + 1);
            }
            let e = &endpoints[i];
            return match &e.model {
                Some(model) => Ok(
                    ResolvedEndpoint {
                        provider: owned(e.provider.as_str()),
                        model: owned(model.as_str()),
                        url: opt_copy(&e.url),
                        api_key: opt_copy(&e.api_key),
                    },
                ),
                None => Err(endpoint_without_model(name)),
            };
        }
        i += 1;
    }
    assert(endpoints@.take(endpoints@.len() as int) =~= endpoints@);
    let mut names: Vec<String> = Vec::new();
    let mut k: usize = 0;
    while k < endpoints.len()
        invariant
            k <= endpoints@.len(),
            views(names@) == endpoint_names(endpoints@.take(k as int)),
        decreases endpoints@.len() - k,
    {
        let ghost before = names@;
        let n = owned(endpoints[k].name.as_str());
        names.push(n);
        proof {
            lemma_views_push(before, n);
            assert(endpoint_names(endpoints@.take(k + 1)) =~= endpoint_names(
                endpoints@.take(k as int),
            ).push(endpoints@[k as int].name@));
        }
        k += 1;
    }
    assert(endpoints@.take(endpoints@.len() as int) =~= endpoints@);
    Err(endpoint_not_found(name, &names))
}

proof fn lemma_endpoint_index_extends(es: Seq<EndpointConfig>, name: Seq<char>, n: int)
    requires
        0 <= n <= es.len(),
        endpoint_index(es.take(n), name) is Some,
    ensures
        endpoint_index(es, name) == endpoint_index(es.take(n), name),
    decreases es.len() - n,
{
    if n < es.len() {
        assert(es.take(n + 1).drop_last() =~= es.take(n));
        lemma_endpoint_index_extends(es, name, n + 1);
    } else {
        assert(es.take(n) =~= es);
    }
}

/// Which client a direct endpoint call uses.
#[derive(Debug, Clone, Copy, PartialEq, Eq, Structural)]
pub enum ClientKind {
    Anthropic,
    OpenAiCompatible,
}

/// Where that client's key comes from.
#[derive(Debug, Clone, Copy, PartialEq, Eq, Structural)]
pub enum ClientKey {
    /// The endpoint's resolved key.
    Given,
    /// The fixed key `local` of a local server.
    Local,
    /// The provider's variable in the environment.
    FromEnv,
}

pub open spec fn is_local_provider(p: Seq<char>) -> bool {
    p == "local"@ || p == "ollama"@ || p == "llamacpp"@ || p == "vllm"@
}

/// The client of an endpoint call: `anthropic` has its own, every other
/// provider an OpenAI-compatible one; the key is the endpoint's when it has
/// one, else `local` for a local server (OpenAI-compatible only), else the
/// environment's.
pub fn endpoint_client(provider: &str, has_key: bool) -> (r: (ClientKind, ClientKey))
    ensures
        r.0 == if provider@ == "anthropic"@ {
            ClientKind::Anthropic
        } else {
            ClientKind::OpenAiCompatible
        },
        r.1 == if has_key {
            ClientKey::Given
        } else if provider@ != "anthropic"@ && is_local_provider(provider@) {
            ClientKey::Local
        } else {
            ClientKey::FromEnv
        },
{
    let anthropic = str_eq(provider, "anthropic");
    let kind = if anthropic {
        ClientKind::Anthropic
    } else {
        ClientKind::OpenAiCompatible
    };
    let key = if has_key {
        ClientKey::Given
    } else if !anthropic && (str_eq(provider, "local") || str_eq(provider, "ollama") || str_eq(
        provider,
        "llamacpp",
    ) || str_eq(provider, "vllm")) {
        ClientKey::Local
    } else {
        ClientKey::FromEnv
    };
    (kind, key)
}

pub open spec fn concat_texts(blocks: Seq<Option<String>>) -> Seq<char>
    decreases blocks.len(),
{
    if blocks.len() == 0 {
        Seq::empty()
    } else {
        concat_texts(blocks.drop_last()) + match blocks.last() {
            Some(t) => t@,
            None => Seq::empty(),
        }
    }
}

/// The reply of an endpoint: its text blocks (`Some`) joined, trimmed;
/// refused when that is empty.
pub fn endpoint_reply(endpoint_name: &str, blocks: &Vec<Option<String>>) -> (r: Result<String, String>)
    ensures
        match r {
            Ok(t) => t@ == trim(concat_texts(blocks@)) && t@.len() > 0,
            Err(m) => trim(concat_texts(blocks@)).len() == 0 && m@ == "Empty response from endpoint '"@
                + endpoint_name@ + "'"@,
        },
{
    let mut all = String::new();
    let mut i: usize = 0;
    while i < blocks.len()
        invariant
            i <= blocks@.len(),
            all@ == concat_texts(blocks@.take(i as int)),
        decreases blocks@.len() - i,
    {
        assert(blocks@.take(i + 1).drop_last() =~= blocks@.take(i as int));
        assert(blocks@.take(i + 1).last() == blocks@[i as int]);
        match &blocks[i] {
            Some(t) => all.append(t.as_str()),
            None => {
                assert(all@ + Seq::<char>::empty() =~= all@);
            },
        }
        i += 1;
    }
    assert(blocks@.take(blocks@.len() as int) =~= blocks@);
    let t = trim_str(all.as_str());
    if t.as_str().is_empty() {
        let mut m = owned("Empty response from endpoint '");
        m.append(endpoint_name);
        m.append("'");
        return Err(m);
    }
    Ok(t)
}

// ---------------------------------------------------------------------------
// The interactive prompt and the housekeeping reports
// ---------------------------------------------------------------------------

/// A line typed at the interactive prompt: trimmed; nothing to send when
/// blank; cut to the size cap (with a warning) when longer.
pub open spec fn repl_message(input: Seq<char>) -> Option<(Seq<char>, Option<Seq<char>>)> {
    let t = trim(input);
    if t.len() == 0 {
        None
    } else if utf8_len(t) > MAX_MESSAGE_SIZE {
        Some((floor_prefix(t, MAX_MESSAGE_SIZE as nat), Some("Warning: Message truncated to 100KB"@)))
    } else {
        Some((t, None))
    }
}

pub fn repl_input(input: &str) -> (r: Option<(String, Option<String>)>)
    requires
        input@.len() * 4 <= usize::MAX,
    ensures
        match r {
            Some((m, w)) => repl_message(input@) == Some((m@, crate::archive::opt_view(w))),
            None => repl_message(input@) is None,
        },
{
    let t = trim_str(input);
    if t.as_str().is_empty() {
        return None;
    }
    proof {
        crate::text::lemma_first_non_ws_bounds(input@, 0);
        crate::text::lemma_last_non_ws_bounds(input@, input@.len() as int);
    }
    let len = utf8_length(t.as_str());
    if len > MAX_MESSAGE_SIZE {
        let v = chars_of(t.as_str());
        let k = floor_prefix_of(&v, MAX_MESSAGE_SIZE);
        let m = string_of_range(&v, 0, k);
        assert(v@.subrange(0, k as int) =~= v@.take(k as int));
        Some((m, Some(owned("Warning: Message truncated to 100KB"))))
    } else {
        Some((t, None))
    }
}

/// The failure an unaccepted chat request reports.
pub fn chat_failure(error: Option<&str>) -> (m: String)
    ensures
        m@ == "Chat failed: "@ + match error {
            Some(e) => e@,
            None => "Unknown error"@,
        },
{
    let mut m = owned("Chat failed: ");
    match error {
        Some(e) => m.append(e),
        None => m.append("Unknown error"),
    }
    m
}

/// What `wg chat` says when the coordinator did not answer in time.
pub fn send_timeout_lines(timeout_secs: u64) -> (lines: Vec<String>)
    ensures
        views(lines@) == seq![
            "Timeout: coordinator did not respond within "@ + decimal(timeout_secs as nat) + "s."@,
            "Your message was stored in the inbox. The response will appear when the coordinator processes it."@,
            "Use 'wg chat --history' to view past messages."@,
        ],
{
    let mut lines: Vec<String> = Vec::new();
    let mut a = owned("Timeout: coordinator did not respond within ");
    push_decimal(&mut a, timeout_secs);
    a.append("s.");
    push_report(&mut lines, a);
    push_report(
        &mut lines,
        owned(
            "Your message was stored in the inbox. The response will appear when the coordinator processes it.",
        ),
    );
    push_report(&mut lines, owned("Use 'wg chat --history' to view past messages."));
    assert(views(lines@) =~= seq![
        "Timeout: coordinator did not respond within "@ + decimal(timeout_secs as nat) + "s."@,
        "Your message was stored in the inbox. The response will appear when the coordinator processes it."@,
        "Use 'wg chat --history' to view past messages."@,
    ]);
    lines
}

fn push_report(out: &mut Vec<String>, line: String)
    ensures
        views(final(out)@) == views(old(out)@).push(line@),
{
    let ghost before = out@;
    out.push(line);
    proof {
        lemma_views_push(before, line);
    }
}

/// The report of `wg chat --clear`.
pub fn clear_line(cid: u32) -> (m: String)
    ensures
        m@ == "Chat history cleared for coordinator "@ + decimal(cid as nat) + "."@,
{
    let mut m = owned("Chat history cleared for coordinator ");
    push_decimal(&mut m, cid as u64);
    m.append(".");
    m
}

pub open spec fn cleanup_text(cid: u32, cleaned: usize) -> Seq<char> {
    if cleaned > 0 {
        "Cleaned up "@ + decimal(cleaned as nat) + " expired archive(s) for coordinator "@ + decimal(
            cid as nat,
        ) + "."@
    } else {
        "No expired archives to clean up for coordinator "@ + decimal(cid as nat) + "."@
    }
}

/// The report of `wg chat --cleanup`.
pub fn cleanup_line(cid: u32, cleaned: usize) -> (m: String)
    ensures
        m@ == cleanup_text(cid, cleaned),
{
    if cleaned > 0 {
        let mut m = owned("Cleaned up ");
        push_decimal(&mut m, cleaned as u64);
        m.append(" expired archive(s) for coordinator ");
        push_decimal(&mut m, cid as u64);
        m.append(".");
        m
    } else {
        let mut m = owned("No expired archives to clean up for coordinator ");
        push_decimal(&mut m, cid as u64);
        m.append(".");
        m
    }
}

/// The report of `wg chat --rotate`: whether files were rotated (and how
/// many archives there are), then any expired archives cleaned.
pub open spec fn rotate_text(cid: u32, rotated: bool, archives: usize, cleaned: usize) -> Seq<Seq<char>> {
    (if rotated {
        seq![
            "Chat files rotated to archive for coordinator "@ + decimal(cid as nat) + "."@,
            decimal(archives as nat) + " archived file(s) total."@,
        ]
    } else {
        seq!["No chat files to rotate for coordinator "@ + decimal(cid as nat) + "."@]
    }) + if cleaned > 0 {
        seq!["Cleaned up "@ + decimal(cleaned as nat) + " expired archive(s)."@]
    } else {
        Seq::empty()
    }
}

pub fn rotate_lines(cid: u32, rotated: bool, archives: usize, cleaned: usize) -> (lines: Vec<String>)
    ensures
        views(lines@) == rotate_text(cid, rotated, archives, cleaned),
{
    let mut lines: Vec<String> = Vec::new();
    if rotated {
        let mut a = owned("Chat files rotated to archive for coordinator ");
        push_decimal(&mut a, cid as u64);
        a.append(".");
        push_report(&mut lines, a);
        let mut b = String::new();
        push_decimal(&mut b, archives as u64);
        b.append(" archived file(s) total.");
        push_report(&mut lines, b);
    } else {
        let mut a = owned("No chat files to rotate for coordinator ");
        push_decimal(&mut a, cid as u64);
        a.append(".");
        push_report(&mut lines, a);
    }
    if cleaned > 0 {
        let mut c = owned("Cleaned up ");
        push_decimal(&mut c, cleaned as u64);
        c.append(" expired archive(s).");
        push_report(&mut lines, c);
    }
    assert(views(lines@) =~= rotate_text(cid, rotated, archives, cleaned));
    lines
}

/// What `wg chat --share` reports: the source (labelled by its
/// coordinator task's title, or `Unknown`), the target and the size shared.
pub fn share_lines(from_id: u32, label: Option<&str>, to_id: u32, bytes: usize) -> (lines: Vec<
    String,
>)
    ensures
        views(lines@) == seq![
            "Shared context from coordinator "@ + decimal(from_id as nat) + " ("@ + match label {
                Some(l) => l@,
                None => "Unknown"@,
            } + ") → coordinator "@ + decimal(to_id as nat),
            "("@ + decimal(bytes as nat) + " bytes of imported context)"@,
            "The target coordinator will consume this on its next turn."@,
        ],
{
    let mut lines: Vec<String> = Vec::new();
    let mut a = owned("Shared context from coordinator ");
    push_decimal(&mut a, from_id as u64);
    a.append(" (");
    match label {
        Some(l) => a.append(l),
        None => a.append("Unknown"),
    }
    a.append(") → coordinator ");
    push_decimal(&mut a, to_id as u64);
    push_report(&mut lines, a);
    let mut b = owned("(");
    push_decimal(&mut b, bytes as u64);
    b.append(" bytes of imported context)");
    push_report(&mut lines, b);
    push_report(&mut lines, owned("The target coordinator will consume this on its next turn."));
    let ghost expected = seq![
        "Shared context from coordinator "@ + decimal(from_id as nat) + " ("@ + match label {
            Some(l) => l@,
            None => "Unknown"@,
        } + ") → coordinator "@ + decimal(to_id as nat),
        "("@ + decimal(bytes as nat) + " bytes of imported context)"@,
        "The target coordinator will consume this on its next turn."@,
    ];
    assert(views(lines@) =~= expected);
    lines
}

// ---------------------------------------------------------------------------
// Session locks: status and release
// ---------------------------------------------------------------------------

/// The holder of a session lock: whether its process lives, its pid, the
/// label of its kind (when known) and when it started.
#[derive(Debug, Clone)]
pub struct LockHolder {
    pub alive: bool,
    pub pid: u32,
    pub kind: Option<String>,
    pub started_at: String,
}

pub open spec fn kind_text(k: Option<String>) -> Seq<char> {
    match k {
        Some(v) => v@,
        None => "unknown"@,
    }
}

/// `wg session status`: the session and its holder.
pub fn session_status_line(session: &str, holder: Option<&LockHolder>) -> (m: String)
    ensures
        m@ == session@ + match holder {
            None => ": no handler"@,
            Some(h) => ": "@ + (if h.alive {
                "live"@
            } else {
                "STALE"@
            }) + " pid="@ + decimal(h.pid as nat) + " kind="@ + kind_text(h.kind) + " started="@
                + h.started_at@,
        },
{
    let mut m = owned(session);
    match holder {
        None => m.append(": no handler"),
        Some(h) => {
            m.append(": ");
            m.append(
                if h.alive {
                    "live"
                } else {
                    "STALE"
                },
            );
            m.append(" pid=");
            push_decimal(&mut m, h.pid as u64);
            m.append(" kind=");
            match &h.kind {
                Some(k) => m.append(k.as_str()),
                None => m.append("unknown"),
            }
            m.append(" started=");
            m.append(h.started_at.as_str());
        },
    }
    m
}

/// What `wg session release` does first.
#[derive(Debug, Clone)]
pub enum ReleaseStep {
    /// No handler holds the session: print this and stop.
    Nothing(String),
    /// The lock's process is gone: print this and remove the lock.
    ClearStale(String),
    /// Print this and ask the live handler to release.
    Ask(String),
}

pub fn release_step(session: &str, holder: Option<&LockHolder>) -> (r: ReleaseStep)
    ensures
        match holder {
            None => r matches ReleaseStep::Nothing(m) && m@ == "\x1b[2m[wg session]\x1b[0m "@
                + session@ + " has no live handler — nothing to release"@,
            Some(h) => if !h.alive {
                r matches ReleaseStep::ClearStale(m) && m@ == "\x1b[33m[wg session]\x1b[0m "@
                    + session@ + " lock is stale (pid "@ + decimal(h.pid as nat)
                    + " not running) — clearing"@
            } else {
                r matches ReleaseStep::Ask(m) && m@
                    == "\x1b[1;33m[wg session]\x1b[0m asking handler (pid="@ + decimal(h.pid as nat)
                    + " kind="@ + kind_text(h.kind) + ") on "@ + session@ + " to release..."@
            },
        },
{
    match holder {
        None => {
            let mut m = owned("\x1b[2m[wg session]\x1b[0m ");
            m.append(session);
            m.append(" has no live handler — nothing to release");
            ReleaseStep::Nothing(m)
        },
        Some(h) => {
            if !h.alive {
                let mut m = owned("\x1b[33m[wg session]\x1b[0m ");
                m.append(session);
                m.append(" lock is stale (pid ");
                push_decimal(&mut m, h.pid as u64);
                m.append(" not running) — clearing");
                ReleaseStep::ClearStale(m)
            } else {
                let mut m = owned("\x1b[1;33m[wg session]\x1b[0m asking handler (pid=");
                push_decimal(&mut m, h.pid as u64);
                m.append(" kind=");
                match &h.kind {
                    Some(k) => m.append(k.as_str()),
                    None => m.append("unknown"),
                }
                m.append(") on ");
                m.append(session);
                m.append(" to release...");
                ReleaseStep::Ask(m)
            }
        },
    }
}

/// After asking: not waiting, released, or not released in time.
pub fn release_outcome_lines(session: &str, wait_secs: u64, released: bool) -> (lines: Vec<String>)
    ensures
        views(lines@) == if wait_secs == 0 {
            seq!["\x1b[2m[wg session]\x1b[0m release requested (not waiting for completion)"@]
        } else if released {
            seq!["\x1b[32m[wg session]\x1b[0m "@ + session@ + " released"@]
        } else {
            seq![
                "\x1b[33m[wg session]\x1b[0m "@ + session@ + " handler did not release within "@
                    + decimal(wait_secs as nat) + "s — may be mid-tool-call"@,
                "\x1b[2m  The release marker is still set; handler will exit at its next turn boundary\x1b[0m"@,
            ]
        },
{
    let mut lines: Vec<String> = Vec::new();
    if wait_secs == 0 {
        push_report(
            &mut lines,
            owned("\x1b[2m[wg session]\x1b[0m release requested (not waiting for completion)"),
        );
    } else if released {
        let mut m = owned("\x1b[32m[wg session]\x1b[0m ");
        m.append(session);
        m.append(" released");
        push_report(&mut lines, m);
    } else {
        let mut m = owned("\x1b[33m[wg session]\x1b[0m ");
        m.append(session);
        m.append(" handler did not release within ");
        push_decimal(&mut m, wait_secs);
        m.append("s — may be mid-tool-call");
        push_report(&mut lines, m);
        push_report(
            &mut lines,
            owned(
                "\x1b[2m  The release marker is still set; handler will exit at its next turn boundary\x1b[0m",
            ),
        );
    }
    assert(views(lines@) =~= if wait_secs == 0 {
        seq!["\x1b[2m[wg session]\x1b[0m release requested (not waiting for completion)"@]
    } else if released {
        seq!["\x1b[32m[wg session]\x1b[0m "@ + session@ + " released"@]
    } else {
        seq![
            "\x1b[33m[wg session]\x1b[0m "@ + session@ + " handler did not release within "@
                + decimal(wait_secs as nat) + "s — may be mid-tool-call"@,
            "\x1b[2m  The release marker is still set; handler will exit at its next turn boundary\x1b[0m"@,
        ]
    });
    lines
}

} // verus!
