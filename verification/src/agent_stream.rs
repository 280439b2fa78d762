//! Decoding the chat agent's stream-json stdout: which events one output
//! line carries, in order, for the collector.
use vstd::prelude::*;
use crate::text::{trim, trim_str, join_with, str_eq, owned};
use crate::archive::{opt_view, views, lemma_views_push};
use crate::claude_handler::{ResponseEvent, ClaudeUsage};
use crate::json::{
    JsonDoc, parse_json, json_parses, json_member, json_string_value, json_u64_value,
    json_bool_value, json_array_items, json_compact_text, json_member_doc, json_str, json_u64,
    json_bool, json_compact, json_items,
};

verus! {

// ---------------------------------------------------------------------------
// One output line, as plain values
// ---------------------------------------------------------------------------

/// A block inside tool-result content: its `type` and `text`, each when a
/// string.
#[derive(Clone, Debug)]
pub struct TextBlock {
    pub block_type: Option<String>,
    pub text: Option<String>,
}

/// Tool-result content nested in a message block: a string, an array of
/// blocks, or any other value.
#[derive(Clone, Debug)]
pub enum InnerContent {
    Text(String),
    Blocks(Vec<TextBlock>),
    Other,
}

/// A content block: its `type`, `text` and `name` (each when a string),
/// its `input` rendered as compact JSON (when present), and its `content`
/// (when present).
#[derive(Clone, Debug)]
pub struct StreamBlock {
    pub block_type: Option<String>,
    pub text: Option<String>,
    pub name: Option<String>,
    pub input: Option<String>,
    pub content: Option<InnerContent>,
}

/// A `content` value: a string, an array of blocks, or any other value.
#[derive(Clone, Debug)]
pub enum ContentValue {
    Text(String),
    Blocks(Vec<StreamBlock>),
    Other,
}

/// The token counts of a `usage` value, each when it is a `u64`.
#[derive(Clone, Debug)]
pub struct UsageCounts {
    pub input_tokens: Option<u64>,
    pub output_tokens: Option<u64>,
    pub cache_read_input_tokens: Option<u64>,
    pub cache_creation_input_tokens: Option<u64>,
}

/// A `message` value: its `content` and `usage` (when present) and its
/// `stop_reason` (when a string).
#[derive(Clone, Debug)]
pub struct StreamMessage {
    pub content: Option<ContentValue>,
    pub stop_reason: Option<String>,
    pub usage: Option<UsageCounts>,
}

/// One stdout line parsed as JSON, as the decoder reads it. Strings are
/// given when the member is a string; `result` is `Some(None)` when the
/// member is present but not a string; `total_cost` is `total_cost_usd`
/// rendered to four decimal places when it is a number.
#[derive(Clone, Debug)]
pub struct StreamLine {
    pub line_type: Option<String>,
    pub session_id: Option<String>,
    pub usage: Option<UsageCounts>,
    pub total_cost: Option<String>,
    pub message: Option<StreamMessage>,
    pub content: Option<ContentValue>,
    pub name: Option<String>,
    pub input: Option<String>,
    pub output: Option<String>,
    pub is_error: Option<bool>,
    pub subtype: Option<String>,
    pub result: Option<Option<String>>,
    pub error: Option<String>,
}

// ---------------------------------------------------------------------------
// The events, as plain values
// ---------------------------------------------------------------------------

/// An event as plain values.
pub enum EventModel {
    Text(Seq<char>),
    ToolUse(Seq<char>, Seq<char>),
    ToolResult(Seq<char>),
    SessionStarted(Seq<char>),
    Usage(u64, u64, u64, u64, Option<Seq<char>>),
    Failure(Seq<char>),
    TurnComplete,
    StreamEnd,
    RecvTimeout,
}

pub open spec fn event_model(e: ResponseEvent) -> EventModel {
    match e {
        ResponseEvent::Text(t) => EventModel::Text(t@),
        ResponseEvent::ToolUse { name, input } => EventModel::ToolUse(name@, input@),
        ResponseEvent::ToolResult(t) => EventModel::ToolResult(t@),
        ResponseEvent::SessionStarted(s) => EventModel::SessionStarted(s@),
        ResponseEvent::Usage(u) => EventModel::Usage(
            u.input_tokens,
            u.output_tokens,
            u.cache_read_input_tokens,
            u.cache_creation_input_tokens,
            opt_view(u.total_cost),
        ),
        ResponseEvent::Failure(d) => EventModel::Failure(d@),
        ResponseEvent::TurnComplete => EventModel::TurnComplete,
        ResponseEvent::StreamEnd => EventModel::StreamEnd,
        ResponseEvent::RecvTimeout => EventModel::RecvTimeout,
    }
}

pub open spec fn event_models(v: Seq<ResponseEvent>) -> Seq<EventModel> {
    v.map_values(|e: ResponseEvent| event_model(e))
}

proof fn lemma_event_models_push(v: Seq<ResponseEvent>, e: ResponseEvent)
    ensures
        event_models(v.push(e)) == event_models(v).push(event_model(e)),
{
    assert(event_models(v.push(e)) =~= event_models(v).push(event_model(e)));
}

// ---------------------------------------------------------------------------
// What a line carries
// ---------------------------------------------------------------------------

pub open spec fn is_str(o: Option<String>, s: Seq<char>) -> bool {
    o matches Some(v) && v@ == s
}

pub open spec fn text_or(o: Option<String>, fallback: Seq<char>) -> Seq<char> {
    match o {
        Some(v) => v@,
        None => fallback,
    }
}

/// The texts of the `text` blocks, in order.
pub open spec fn text_block_texts(blocks: Seq<TextBlock>) -> Seq<Seq<char>>
    decreases blocks.len(),
{
    if blocks.len() == 0 {
        Seq::empty()
    } else {
        let rest = text_block_texts(blocks.drop_last());
        let b = blocks.last();
        if is_str(b.block_type, "text"@) && b.text is Some {
            rest.push(b.text.unwrap()@)
        } else {
            rest
        }
    }
}

/// The text of nested tool-result content: the string itself, or the text
/// blocks joined by newlines.
pub open spec fn inner_text(c: InnerContent) -> Seq<char> {
    match c {
        InnerContent::Text(s) => s@,
        InnerContent::Blocks(bs) => join_with(text_block_texts(bs@), "\n"@),
        InnerContent::Other => Seq::empty(),
    }
}

/// The texts of the `text` blocks of a top-level content array.
pub open spec fn stream_block_texts(blocks: Seq<StreamBlock>) -> Seq<Seq<char>>
    decreases blocks.len(),
{
    if blocks.len() == 0 {
        Seq::empty()
    } else {
        let rest = stream_block_texts(blocks.drop_last());
        let b = blocks.last();
        if is_str(b.block_type, "text"@) && b.text is Some {
            rest.push(b.text.unwrap()@)
        } else {
            rest
        }
    }
}

/// The text of top-level tool-result content.
pub open spec fn content_text(c: ContentValue) -> Seq<char> {
    match c {
        ContentValue::Text(s) => s@,
        ContentValue::Blocks(bs) => join_with(stream_block_texts(bs@), "\n"@),
        ContentValue::Other => Seq::empty(),
    }
}

/// The usage a line reports: its own `usage`, else its message's; the
/// counts default to zero and the cost is the line's.
pub open spec fn line_usage(line: StreamLine) -> Option<EventModel> {
    let counts = match line.usage {
        Some(u) => Some(u),
        None => match line.message {
            Some(m) => m.usage,
            None => None,
        },
    };
    match counts {
        Some(u) => Some(
            EventModel::Usage(
                count_or_zero(u.input_tokens),
                count_or_zero(u.output_tokens),
                count_or_zero(u.cache_read_input_tokens),
                count_or_zero(u.cache_creation_input_tokens),
                opt_view(line.total_cost),
            ),
        ),
        None => None,
    }
}

pub open spec fn count_or_zero(c: Option<u64>) -> u64 {
    match c {
        Some(n) => n,
        None => 0,
    }
}

pub open spec fn usage_events(line: StreamLine) -> Seq<EventModel> {
    match line_usage(line) {
        Some(u) => seq![u],
        None => Seq::empty(),
    }
}

/// A tool call: its name (`unknown` when missing) and its input JSON.
pub open spec fn tool_use_model(name: Option<String>, input: Option<String>) -> EventModel {
    EventModel::ToolUse(text_or(name, "unknown"@), text_or(input, Seq::empty()))
}

/// The events of an assistant message's blocks: each text block's text and
/// each tool call, in order.
pub open spec fn assistant_block_events(blocks: Seq<StreamBlock>) -> Seq<EventModel>
    decreases blocks.len(),
{
    if blocks.len() == 0 {
        Seq::empty()
    } else {
        let rest = assistant_block_events(blocks.drop_last());
        let b = blocks.last();
        if is_str(b.block_type, "text"@) {
            match b.text {
                Some(t) => rest.push(EventModel::Text(t@)),
                None => rest,
            }
        } else if is_str(b.block_type, "tool_use"@) {
            rest.push(tool_use_model(b.name, b.input))
        } else {
            rest
        }
    }
}

/// The events of a user message's blocks: the non-empty text of each tool
/// result, in order.
pub open spec fn user_block_events(blocks: Seq<StreamBlock>) -> Seq<EventModel>
    decreases blocks.len(),
{
    if blocks.len() == 0 {
        Seq::empty()
    } else {
        let rest = user_block_events(blocks.drop_last());
        let b = blocks.last();
        if is_str(b.block_type, "tool_result"@) && b.content is Some && inner_text(
            b.content.unwrap(),
        ).len() > 0 {
            rest.push(EventModel::ToolResult(inner_text(b.content.unwrap())))
        } else {
            rest
        }
    }
}

pub open spec fn blocks_of(c: Option<ContentValue>) -> Seq<StreamBlock> {
    match c {
        Some(ContentValue::Blocks(bs)) => bs@,
        _ => Seq::empty(),
    }
}

/// The content a user line's tool results are read from: the message's,
/// when it has one, else the line's own.
pub open spec fn user_content(line: StreamLine) -> Option<ContentValue> {
    match line.message {
        Some(m) => if m.content is Some {
            m.content
        } else {
            line.content
        },
        None => line.content,
    }
}

/// A tool-result line's text: its content's text when non-empty, else its
/// `output`.
pub open spec fn tool_result_line_text(line: StreamLine) -> Seq<char> {
    let from_content = match line.content {
        Some(c) => content_text(c),
        None => Seq::empty(),
    };
    if from_content.len() > 0 {
        from_content
    } else {
        text_or(line.output, Seq::empty())
    }
}

/// Whether a result line reports an error: `is_error`, or a subtype other
/// than `success`.
pub open spec fn result_is_error(line: StreamLine) -> bool {
    line.is_error == Some(true) || (line.subtype matches Some(s) && s@ != "success"@)
}

/// The error a result line reports: its `result`, else its `error`, else a
/// notice naming the agent.
pub open spec fn result_detail(line: StreamLine, agent: Seq<char>) -> Seq<char> {
    let fallback = agent + " reported an unspecified error"@;
    match line.result {
        Some(Some(r)) => r@,
        Some(None) => fallback,
        None => text_or(line.error, fallback),
    }
}

/// The events one line carries: a native session id when non-blank, then
/// by the line's type: an assistant message's usage, blocks and (on
/// `end_turn` or `stop_sequence`) the end of the turn; a user message's
/// tool results; a lone tool call or tool result; a result's usage, error
/// and end of turn. Other lines carry nothing more.
pub open spec fn line_events(line: StreamLine, agent: Seq<char>) -> Seq<EventModel> {
    let session = match line.session_id {
        Some(s) => if trim(s@).len() > 0 {
            seq![EventModel::SessionStarted(s@)]
        } else {
            Seq::empty()
        },
        None => Seq::empty(),
    };
    session + if is_str(line.line_type, "assistant"@) {
        usage_events(line) + match line.message {
            Some(m) => assistant_block_events(blocks_of(m.content)) + if is_str(
                m.stop_reason,
                "end_turn"@,
            ) || is_str(m.stop_reason, "stop_sequence"@) {
                seq![EventModel::TurnComplete]
            } else {
                Seq::empty()
            },
            None => Seq::empty(),
        }
    } else if is_str(line.line_type, "user"@) {
        user_block_events(blocks_of(user_content(line)))
    } else if is_str(line.line_type, "tool_use"@) {
        seq![tool_use_model(line.name, line.input)]
    } else if is_str(line.line_type, "tool_result"@) {
        if tool_result_line_text(line).len() > 0 {
            seq![EventModel::ToolResult(tool_result_line_text(line))]
        } else {
            Seq::empty()
        }
    } else if is_str(line.line_type, "result"@) {
        usage_events(line) + (if result_is_error(line) {
            seq![EventModel::Failure(result_detail(line, agent))]
        } else {
            Seq::empty()
        }) + seq![EventModel::TurnComplete]
    } else {
        Seq::empty()
    }
}

// ---------------------------------------------------------------------------
// Decoding
// ---------------------------------------------------------------------------

fn opt_is(o: &Option<String>, s: &str) -> (b: bool)
    ensures
        b == is_str(*o, s@),
{
    match o {
        Some(v) => str_eq(v.as_str(), s),
        None => false,
    }
}

fn opt_text(o: &Option<String>, fallback: &str) -> (r: String)
    ensures
        r@ == text_or(*o, fallback@),
{
    match o {
        Some(v) => owned(v.as_str()),
        None => owned(fallback),
    }
}

fn count_of(c: Option<u64>) -> (n: u64)
    ensures
        n == count_or_zero(c),
{
    match c {
        Some(n) => n,
        None => 0,
    }
}

fn push_event(out: &mut Vec<ResponseEvent>, e: ResponseEvent)
    ensures
        event_models(final(out)@) == event_models(old(out)@).push(event_model(e)),
{
    let ghost before = out@;
    out.push(e);
    proof {
        lemma_event_models_push(before, e);
    }
}

/// Joins the texts of the `text` blocks with newlines.
fn join_texts(parts: &Vec<String>) -> (r: String)
    ensures
        r@ == join_with(views(parts@), "\n"@),
{
    crate::agency_push::join_strings(parts, "\n")
}

fn inner_text_of(c: &InnerContent) -> (r: String)
    ensures
        r@ == inner_text(*c),
{
    match c {
        InnerContent::Text(s) => owned(s.as_str()),
        InnerContent::Blocks(bs) => {
            let mut parts: Vec<String> = Vec::new();
            let mut i: usize = 0;
            while i < bs.len()
                invariant
                    i <= bs.len(),
                    views(parts@) == text_block_texts(bs@.take(i as int)),
                decreases bs.len() - i,
            {
                assert(bs@.take(i + 1).drop_last() =~= bs@.take(i as int));
                let b = &bs[i];
                if opt_is(&b.block_type, "text") {
                    match &b.text {
                        Some(t) => {
                            let ghost before = parts@;
                            let x = owned(t.as_str());
                            parts.push(x);
                            proof {
                                lemma_views_push(before, x);
                            }
                        },
                        None => {},
                    }
                }
                i += 1;
            }
            assert(bs@.take(bs@.len() as int) =~= bs@);
            join_texts(&parts)
        },
        InnerContent::Other => String::new(),
    }
}

fn content_text_of(c: &ContentValue) -> (r: String)
    ensures
        r@ == content_text(*c),
{
    match c {
        ContentValue::Text(s) => owned(s.as_str()),
        ContentValue::Blocks(bs) => {
            let mut parts: Vec<String> = Vec::new();
            let mut i: usize = 0;
            while i < bs.len()
                invariant
                    i <= bs.len(),
                    views(parts@) == stream_block_texts(bs@.take(i as int)),
                decreases bs.len() - i,
            {
                assert(bs@.take(i + 1).drop_last() =~= bs@.take(i as int));
                let b = &bs[i];
                if opt_is(&b.block_type, "text") {
                    match &b.text {
                        Some(t) => {
                            let ghost before = parts@;
                            let x = owned(t.as_str());
                            parts.push(x);
                            proof {
                                lemma_views_push(before, x);
                            }
                        },
                        None => {},
                    }
                }
                i += 1;
            }
            assert(bs@.take(bs@.len() as int) =~= bs@);
            join_texts(&parts)
        },
        ContentValue::Other => String::new(),
    }
}

fn push_usage(out: &mut Vec<ResponseEvent>, line: &StreamLine)
    ensures
        event_models(final(out)@) == event_models(old(out)@) + usage_events(*line),
{
    let counts = match &line.usage {
        Some(u) => Some(u),
        None => match &line.message {
            Some(m) => m.usage.as_ref(),
            None => None,
        },
    };
    match counts {
        Some(u) => {
            let total_cost = match &line.total_cost {
                Some(c) => Some(owned(c.as_str())),
                None => None,
            };
            let usage = ClaudeUsage {
                input_tokens: count_of(u.input_tokens),
                output_tokens: count_of(u.output_tokens),
                cache_read_input_tokens: count_of(u.cache_read_input_tokens),
                cache_creation_input_tokens: count_of(u.cache_creation_input_tokens),
                total_cost,
            };
            push_event(out, ResponseEvent::Usage(usage));
            assert(event_models(out@) =~= event_models(old(out)@) + usage_events(*line));
        },
        None => {
            assert(event_models(out@) =~= event_models(old(out)@) + usage_events(*line));
        },
    }
}

fn push_assistant_blocks(out: &mut Vec<ResponseEvent>, blocks: &Vec<StreamBlock>)
    ensures
        event_models(final(out)@) == event_models(old(out)@) + assistant_block_events(blocks@),
{
    let ghost start = event_models(out@);
    let mut i: usize = 0;
    assert(start + assistant_block_events(blocks@.take(0)) =~= start);
    while i < blocks.len()
        invariant
            i <= blocks.len(),
            event_models(out@) == start + assistant_block_events(blocks@.take(i as int)),
        decreases blocks.len() - i,
    {
        assert(blocks@.take(i + 1).drop_last() =~= blocks@.take(i as int));
        assert(blocks@.take(i + 1).last() == blocks@[i as int]);
        let ghost prev = assistant_block_events(blocks@.take(i as int));
        let b = &blocks[i];
        if opt_is(&b.block_type, "text") {
            match &b.text {
                Some(t) => {
                    push_event(out, ResponseEvent::Text(owned(t.as_str())));
                    assert(start + prev.push(EventModel::Text(t@)) =~= (start + prev).push(
                        EventModel::Text(t@),
                    ));
                },
                None => {},
            }
        } else if opt_is(&b.block_type, "tool_use") {
            let name = opt_text(&b.name, "unknown");
            let input = opt_text(&b.input, "");
            proof {
                reveal_strlit("");
                assert(""@ =~= Seq::<char>::empty());
            }
            push_event(out, ResponseEvent::ToolUse { name, input });
            assert(start + prev.push(tool_use_model(b.name, b.input)) =~= (start + prev).push(
                tool_use_model(b.name, b.input),
            ));
        }
        i += 1;
    }
    assert(blocks@.take(blocks@.len() as int) =~= blocks@);
}

fn push_user_blocks(out: &mut Vec<ResponseEvent>, blocks: &Vec<StreamBlock>)
    ensures
        event_models(final(out)@) == event_models(old(out)@) + user_block_events(blocks@),
{
    let ghost start = event_models(out@);
    let mut i: usize = 0;
    assert(start + user_block_events(blocks@.take(0)) =~= start);
    while i < blocks.len()
        invariant
            i <= blocks.len(),
            event_models(out@) == start + user_block_events(blocks@.take(i as int)),
        decreases blocks.len() - i,
    {
        assert(blocks@.take(i + 1).drop_last() =~= blocks@.take(i as int));
        assert(blocks@.take(i + 1).last() == blocks@[i as int]);
        let ghost prev = user_block_events(blocks@.take(i as int));
        let b = &blocks[i];
        if opt_is(&b.block_type, "tool_result") {
            match &b.content {
                Some(c) => {
                    let text = inner_text_of(c);
                    if !text.as_str().is_empty() {
                        let ghost t = text@;
                        push_event(out, ResponseEvent::ToolResult(text));
                        assert(start + prev.push(EventModel::ToolResult(t)) =~= (start
                            + prev).push(EventModel::ToolResult(t)));
                    }
                },
                None => {},
            }
        }
        i += 1;
    }
    assert(blocks@.take(blocks@.len() as int) =~= blocks@);
}

fn blocks_in(c: &Option<ContentValue>) -> (r: Option<&Vec<StreamBlock>>)
    ensures
        match r {
            Some(bs) => blocks_of(*c) == bs@,
            None => blocks_of(*c) == Seq::<StreamBlock>::empty(),
        },
{
    match c {
        Some(ContentValue::Blocks(bs)) => Some(bs),
        _ => None,
    }
}

/// The events that one stdout line carries, in order. `agent` names the
/// chat agent in the notice of an unspecified error.
pub fn decode_stream_line(line: &StreamLine, agent: &str) -> (events: Vec<ResponseEvent>)
    ensures
        event_models(events@) == line_events(*line, agent@),
{
    let mut out: Vec<ResponseEvent> = Vec::new();
    match &line.session_id {
        Some(s) => {
            let t = trim_str(s.as_str());
            if !t.as_str().is_empty() {
                push_event(&mut out, ResponseEvent::SessionStarted(owned(s.as_str())));
            }
        },
        None => {},
    }
    let ghost session = event_models(out@);
    assert(session == match line.session_id {
        Some(s) => if trim(s@).len() > 0 {
            seq![EventModel::SessionStarted(s@)]
        } else {
            Seq::<EventModel>::empty()
        },
        None => Seq::<EventModel>::empty(),
    }) by {
        assert(event_models(Seq::<ResponseEvent>::empty()) =~= Seq::<EventModel>::empty());
    }
    if opt_is(&line.line_type, "assistant") {
        push_usage(&mut out, line);
        let ghost with_usage = event_models(out@);
        match &line.message {
            Some(m) => {
                match blocks_in(&m.content) {
                    Some(bs) => push_assistant_blocks(&mut out, bs),
                    None => {
                        assert(assistant_block_events(blocks_of(m.content)) =~= Seq::<
                            EventModel,
                        >::empty());
                    },
                }
                assert(event_models(out@) =~= with_usage + assistant_block_events(
                    blocks_of(m.content),
                ));
                let ghost with_blocks = event_models(out@);
                if opt_is(&m.stop_reason, "end_turn") || opt_is(&m.stop_reason, "stop_sequence") {
                    push_event(&mut out, ResponseEvent::TurnComplete);
                    assert(event_models(out@) =~= with_blocks + seq![EventModel::TurnComplete]);
                } else {
                    assert(event_models(out@) =~= with_blocks + Seq::<EventModel>::empty());
                }
            },
            None => {
                assert(event_models(out@) =~= with_usage + Seq::<EventModel>::empty());
            },
        }
        assert(event_models(out@) =~= session + (usage_events(*line) + match line.message {
            Some(m) => assistant_block_events(blocks_of(m.content)) + if is_str(
                m.stop_reason,
                "end_turn"@,
            ) || is_str(m.stop_reason, "stop_sequence"@) {
                seq![EventModel::TurnComplete]
            } else {
                Seq::empty()
            },
            None => Seq::empty(),
        }));
    } else if opt_is(&line.line_type, "user") {
        let content = match &line.message {
            Some(m) => if m.content.is_some() {
                &m.content
            } else {
                &line.content
            },
            None => &line.content,
        };
        assert(*content == user_content(*line));
        match blocks_in(content) {
            Some(bs) => push_user_blocks(&mut out, bs),
            None => {
                assert(user_block_events(blocks_of(*content)) =~= Seq::<EventModel>::empty());
            },
        }
        assert(event_models(out@) =~= session + user_block_events(blocks_of(user_content(*line))));
    } else if opt_is(&line.line_type, "tool_use") {
        let name = opt_text(&line.name, "unknown");
        let input = opt_text(&line.input, "");
        proof {
            reveal_strlit("");
            assert(""@ =~= Seq::<char>::empty());
        }
        push_event(&mut out, ResponseEvent::ToolUse { name, input });
        assert(event_models(out@) =~= session + seq![tool_use_model(line.name, line.input)]);
    } else if opt_is(&line.line_type, "tool_result") {
        let from_content = match &line.content {
            Some(c) => content_text_of(c),
            None => String::new(),
        };
        let text = if !from_content.as_str().is_empty() {
            from_content
        } else {
            opt_text(&line.output, "")
        };
        proof {
            reveal_strlit("");
            assert(""@ =~= Seq::<char>::empty());
        }
        assert(text@ == tool_result_line_text(*line));
        if !text.as_str().is_empty() {
            push_event(&mut out, ResponseEvent::ToolResult(text));
            assert(event_models(out@) =~= session + seq![
                EventModel::ToolResult(tool_result_line_text(*line)),
            ]);
        } else {
            assert(event_models(out@) =~= session + Seq::<EventModel>::empty());
        }
    } else if opt_is(&line.line_type, "result") {
        push_usage(&mut out, line);
        let ghost with_usage = event_models(out@);
        let is_error = match line.is_error {
            Some(true) => true,
            _ => match &line.subtype {
                Some(s) => !str_eq(s.as_str(), "success"),
                None => false,
            },
        };
        assert(is_error == result_is_error(*line));
        if is_error {
            let mut fallback = owned(agent);
            fallback.append(" reported an unspecified error");
            let detail = match &line.result {
                Some(Some(r)) => owned(r.as_str()),
                Some(None) => fallback,
                None => match &line.error {
                    Some(e) => owned(e.as_str()),
                    None => fallback,
                },
            };
            assert(detail@ == result_detail(*line, agent@));
            push_event(&mut out, ResponseEvent::Failure(detail));
            assert(event_models(out@) =~= with_usage + seq![
                EventModel::Failure(result_detail(*line, agent@)),
            ]);
        } else {
            assert(event_models(out@) =~= with_usage + Seq::<EventModel>::empty());
        }
        let ghost with_error = event_models(out@);
        push_event(&mut out, ResponseEvent::TurnComplete);
        assert(event_models(out@) =~= with_error + seq![EventModel::TurnComplete]);
    } else {
        assert(event_models(out@) =~= session + Seq::<EventModel>::empty());
    }
    assert(event_models(out@) =~= line_events(*line, agent@));
    out
}

// ---------------------------------------------------------------------------
// Laws
// ---------------------------------------------------------------------------

/// A result line always ends the turn, after any failure it reports; a
/// non-blank native session id always comes first.
pub proof fn law_result_line_ends_the_turn(line: StreamLine, agent: Seq<char>)
    requires
        is_str(line.line_type, "result"@),
    ensures
        line_events(line, agent).len() > 0,
        line_events(line, agent).last() == EventModel::TurnComplete,
        (line.session_id matches Some(s) && trim(s@).len() > 0) ==> line_events(line, agent)[0]
            == EventModel::SessionStarted(line.session_id.unwrap()@),
{
    reveal_strlit("result");
    reveal_strlit("assistant");
    reveal_strlit("user");
    reveal_strlit("tool_use");
    reveal_strlit("tool_result");
    let t = line.line_type.unwrap()@;
    assert(t != "assistant"@ && t != "user"@ && t != "tool_use"@ && t != "tool_result"@) by {
        assert(t.len() == 6);
    }
    let session = match line.session_id {
        Some(s) => if trim(s@).len() > 0 {
            seq![EventModel::SessionStarted(s@)]
        } else {
            Seq::<EventModel>::empty()
        },
        None => Seq::<EventModel>::empty(),
    };
    let body = usage_events(line) + (if result_is_error(line) {
        seq![EventModel::Failure(result_detail(line, agent))]
    } else {
        Seq::<EventModel>::empty()
    }) + seq![EventModel::TurnComplete];
    assert(line_events(line, agent) == session + body);
    assert((session + body).last() == EventModel::TurnComplete);
}

/// Tool results never end a turn: a user or tool-result line carries only
/// tool results (after a possible session id).
pub proof fn law_tool_results_never_end_the_turn(line: StreamLine, agent: Seq<char>)
    requires
        is_str(line.line_type, "user"@) || is_str(line.line_type, "tool_result"@),
    ensures
        forall|k: int|
            0 <= k < line_events(line, agent).len() ==> (#[trigger] line_events(line, agent)[k]
                is ToolResult || line_events(line, agent)[k] is SessionStarted),
{
    reveal_strlit("assistant");
    reveal_strlit("user");
    reveal_strlit("tool_result");
    let t = line.line_type.unwrap()@;
    assert(t != "assistant"@) by {
        if t == "user"@ {
            assert(t.len() == 4);
        } else {
            assert(t.len() == 11);
        }
    }
    if is_str(line.line_type, "user"@) {
        lemma_user_events_are_results(blocks_of(user_content(line)));
    } else {
        reveal_strlit("tool_use");
        assert(t != "user"@ && t != "tool_use"@) by {
            assert(t.len() == 11);
        }
    }
}

proof fn lemma_user_events_are_results(blocks: Seq<StreamBlock>)
    ensures
        forall|k: int|
            0 <= k < user_block_events(blocks).len() ==> #[trigger] user_block_events(blocks)[k] is ToolResult,
    decreases blocks.len(),
{
    if blocks.len() > 0 {
        lemma_user_events_are_results(blocks.drop_last());
    }
}

// ---------------------------------------------------------------------------
// Reading a stdout line as JSON
// ---------------------------------------------------------------------------

/// Member `k` of `t`, when it is a string.
pub open spec fn member_str(t: Seq<char>, k: Seq<char>) -> Option<Seq<char>> {
    match json_member(t, k) {
        Some(m) => json_string_value(m),
        None => None,
    }
}

/// Member `k` of `t`, when it is a `u64`.
pub open spec fn member_u64(t: Seq<char>, k: Seq<char>) -> Option<u64> {
    match json_member(t, k) {
        Some(m) => json_u64_value(m),
        None => None,
    }
}

/// Member `k` of `t`, when it is a boolean.
pub open spec fn member_bool(t: Seq<char>, k: Seq<char>) -> Option<bool> {
    match json_member(t, k) {
        Some(m) => json_bool_value(m),
        None => None,
    }
}

/// Member `k` of `t` rendered as compact JSON, when present.
pub open spec fn member_compact(t: Seq<char>, k: Seq<char>) -> Option<Seq<char>> {
    match json_member(t, k) {
        Some(m) => Some(json_compact_text(m)),
        None => None,
    }
}

/// `b` is the block that JSON text `t` describes.
pub open spec fn text_block_of_json(b: TextBlock, t: Seq<char>) -> bool {
    opt_view(b.block_type) == member_str(t, "type"@) && opt_view(b.text) == member_str(t, "text"@)
}

/// `c` is the nested content `t`: its string, its array of blocks, or other.
pub open spec fn inner_of_json(c: InnerContent, t: Seq<char>) -> bool {
    if json_string_value(t) is Some {
        c matches InnerContent::Text(s) && json_string_value(t) == Some(s@)
    } else if json_array_items(t) is Some {
        c matches InnerContent::Blocks(bs) && bs@.len() == json_array_items(t)->0.len() && forall|
            k: int,
        |
            0 <= k < bs@.len() ==> text_block_of_json(#[trigger] bs@[k], json_array_items(t)->0[k])
    } else {
        c is Other
    }
}

pub open spec fn opt_inner_of_json(c: Option<InnerContent>, m: Option<Seq<char>>) -> bool {
    match c {
        Some(x) => m matches Some(t) && inner_of_json(x, t),
        None => m is None,
    }
}

/// `b` is the content block `t`.
pub open spec fn stream_block_of_json(b: StreamBlock, t: Seq<char>) -> bool {
    &&& opt_view(b.block_type) == member_str(t, "type"@)
    &&& opt_view(b.text) == member_str(t, "text"@)
    &&& opt_view(b.name) == member_str(t, "name"@)
    &&& opt_view(b.input) == member_compact(t, "input"@)
    &&& opt_inner_of_json(b.content, json_member(t, "content"@))
}

/// `c` is the content `t`: its string, its array of blocks, or other.
pub open spec fn content_of_json(c: ContentValue, t: Seq<char>) -> bool {
    if json_string_value(t) is Some {
        c matches ContentValue::Text(s) && json_string_value(t) == Some(s@)
    } else if json_array_items(t) is Some {
        c matches ContentValue::Blocks(bs) && bs@.len() == json_array_items(t)->0.len() && forall|
            k: int,
        |
            0 <= k < bs@.len() ==> stream_block_of_json(#[trigger] bs@[k], json_array_items(t)->0[k])
    } else {
        c is Other
    }
}

pub open spec fn opt_content_of_json(c: Option<ContentValue>, m: Option<Seq<char>>) -> bool {
    match c {
        Some(x) => m matches Some(t) && content_of_json(x, t),
        None => m is None,
    }
}

/// `u` holds the token counts of the usage object `t`.
pub open spec fn usage_of_json(u: UsageCounts, t: Seq<char>) -> bool {
    &&& u.input_tokens == member_u64(t, "input_tokens"@)
    &&& u.output_tokens == member_u64(t, "output_tokens"@)
    &&& u.cache_read_input_tokens == member_u64(t, "cache_read_input_tokens"@)
    &&& u.cache_creation_input_tokens == member_u64(t, "cache_creation_input_tokens"@)
}

pub open spec fn opt_usage_of_json(u: Option<UsageCounts>, m: Option<Seq<char>>) -> bool {
    match u {
        Some(x) => m matches Some(t) && usage_of_json(x, t),
        None => m is None,
    }
}

/// `msg` is the message object `t`.
pub open spec fn message_of_json(msg: StreamMessage, t: Seq<char>) -> bool {
    &&& opt_content_of_json(msg.content, json_member(t, "content"@))
    &&& opt_view(msg.stop_reason) == member_str(t, "stop_reason"@)
    &&& opt_usage_of_json(msg.usage, json_member(t, "usage"@))
}

pub open spec fn opt_message_of_json(msg: Option<StreamMessage>, m: Option<Seq<char>>) -> bool {
    match msg {
        Some(x) => m matches Some(t) && message_of_json(x, t),
        None => m is None,
    }
}

/// `l` is the stdout line `t`, with `total_cost` the rendering of its cost
/// given by the caller.
pub open spec fn line_of_json(l: StreamLine, t: Seq<char>, total_cost: Option<Seq<char>>) -> bool {
    &&& opt_view(l.line_type) == member_str(t, "type"@)
    &&& opt_view(l.session_id) == member_str(t, "session_id"@)
    &&& opt_usage_of_json(l.usage, json_member(t, "usage"@))
    &&& opt_view(l.total_cost) == total_cost
    &&& opt_message_of_json(l.message, json_member(t, "message"@))
    &&& opt_content_of_json(l.content, json_member(t, "content"@))
    &&& opt_view(l.name) == member_str(t, "name"@)
    &&& opt_view(l.input) == member_compact(t, "input"@)
    &&& opt_view(l.output) == member_str(t, "output"@)
    &&& l.is_error == member_bool(t, "is_error"@)
    &&& opt_view(l.subtype) == member_str(t, "subtype"@)
    &&& match json_member(t, "result"@) {
        Some(r) => l.result matches Some(o) && opt_view(o) == json_string_value(r),
        None => l.result is None,
    }
    &&& opt_view(l.error) == member_str(t, "error"@)
}

fn member_str_of(doc: &JsonDoc, key: &str) -> (r: Option<String>)
    ensures
        opt_view(r) == member_str(doc@, key@),
{
    match json_member_doc(doc, key) {
        Some(m) => json_str(&m),
        None => None,
    }
}

fn member_u64_of(doc: &JsonDoc, key: &str) -> (r: Option<u64>)
    ensures
        r == member_u64(doc@, key@),
{
    match json_member_doc(doc, key) {
        Some(m) => json_u64(&m),
        None => None,
    }
}

fn member_bool_of(doc: &JsonDoc, key: &str) -> (r: Option<bool>)
    ensures
        r == member_bool(doc@, key@),
{
    match json_member_doc(doc, key) {
        Some(m) => json_bool(&m),
        None => None,
    }
}

fn member_compact_of(doc: &JsonDoc, key: &str) -> (r: Option<String>)
    ensures
        opt_view(r) == member_compact(doc@, key@),
{
    match json_member_doc(doc, key) {
        Some(m) => Some(json_compact(&m)),
        None => None,
    }
}

fn text_block_from(doc: &JsonDoc) -> (b: TextBlock)
    ensures
        text_block_of_json(b, doc@),
{
    TextBlock { block_type: member_str_of(doc, "type"), text: member_str_of(doc, "text") }
}

fn inner_from(doc: &JsonDoc) -> (c: InnerContent)
    ensures
        inner_of_json(c, doc@),
{
    match json_str(doc) {
        Some(s) => InnerContent::Text(s),
        None => match json_items(doc) {
            Some(items) => {
                let mut bs: Vec<TextBlock> = Vec::new();
                let mut i: usize = 0;
                while i < items.len()
                    invariant
                        i <= items@.len(),
                        bs@.len() == i,
                        forall|k: int| 0 <= k < i ==> text_block_of_json(#[trigger] bs@[k], items@[k]@),
                    decreases items.len() - i,
                {
                    bs.push(text_block_from(&items[i]));
                    i += 1;
                }
                InnerContent::Blocks(bs)
            },
            None => InnerContent::Other,
        },
    }
}

fn opt_inner_from(doc: &JsonDoc, key: &str) -> (c: Option<InnerContent>)
    ensures
        opt_inner_of_json(c, json_member(doc@, key@)),
{
    match json_member_doc(doc, key) {
        Some(m) => Some(inner_from(&m)),
        None => None,
    }
}

fn stream_block_from(doc: &JsonDoc) -> (b: StreamBlock)
    ensures
        stream_block_of_json(b, doc@),
{
    StreamBlock {
        block_type: member_str_of(doc, "type"),
        text: member_str_of(doc, "text"),
        name: member_str_of(doc, "name"),
        input: member_compact_of(doc, "input"),
        content: opt_inner_from(doc, "content"),
    }
}

fn content_from(doc: &JsonDoc) -> (c: ContentValue)
    ensures
        content_of_json(c, doc@),
{
    match json_str(doc) {
        Some(s) => ContentValue::Text(s),
        None => match json_items(doc) {
            Some(items) => {
                let mut bs: Vec<StreamBlock> = Vec::new();
                let mut i: usize = 0;
                while i < items.len()
                    invariant
                        i <= items@.len(),
                        bs@.len() == i,
                        forall|k: int|
                            0 <= k < i ==> stream_block_of_json(#[trigger] bs@[k], items@[k]@),
                    decreases items.len() - i,
                {
                    bs.push(stream_block_from(&items[i]));
                    i += 1;
                }
                ContentValue::Blocks(bs)
            },
            None => ContentValue::Other,
        },
    }
}

fn opt_content_from(doc: &JsonDoc, key: &str) -> (c: Option<ContentValue>)
    ensures
        opt_content_of_json(c, json_member(doc@, key@)),
{
    match json_member_doc(doc, key) {
        Some(m) => Some(content_from(&m)),
        None => None,
    }
}

fn opt_usage_from(doc: &JsonDoc, key: &str) -> (u: Option<UsageCounts>)
    ensures
        opt_usage_of_json(u, json_member(doc@, key@)),
{
    match json_member_doc(doc, key) {
        Some(m) => Some(
            UsageCounts {
                input_tokens: member_u64_of(&m, "input_tokens"),
                output_tokens: member_u64_of(&m, "output_tokens"),
                cache_read_input_tokens: member_u64_of(&m, "cache_read_input_tokens"),
                cache_creation_input_tokens: member_u64_of(&m, "cache_creation_input_tokens"),
            },
        ),
        None => None,
    }
}

fn opt_message_from(doc: &JsonDoc, key: &str) -> (r: Option<StreamMessage>)
    ensures
        opt_message_of_json(r, json_member(doc@, key@)),
{
    match json_member_doc(doc, key) {
        Some(m) => Some(
            StreamMessage {
                content: opt_content_from(&m, "content"),
                stop_reason: member_str_of(&m, "stop_reason"),
                usage: opt_usage_from(&m, "usage"),
            },
        ),
        None => None,
    }
}

/// The plain values of a parsed stdout line. The cost is a float, so the
/// caller gives it already rendered.
pub fn stream_line_from(doc: &JsonDoc, total_cost: Option<String>) -> (l: StreamLine)
    ensures
        line_of_json(l, doc@, opt_view(total_cost)),
{
    let result = match json_member_doc(doc, "result") {
        Some(r) => Some(json_str(&r)),
        None => None,
    };
    StreamLine {
        line_type: member_str_of(doc, "type"),
        session_id: member_str_of(doc, "session_id"),
        usage: opt_usage_from(doc, "usage"),
        total_cost,
        message: opt_message_from(doc, "message"),
        content: opt_content_from(doc, "content"),
        name: member_str_of(doc, "name"),
        input: member_compact_of(doc, "input"),
        output: member_str_of(doc, "output"),
        is_error: member_bool_of(doc, "is_error"),
        subtype: member_str_of(doc, "subtype"),
        result,
        error: member_str_of(doc, "error"),
    }
}

/// The events of one raw stdout line of the agent: none for a blank line or
/// one that is not JSON; else those of the line that its trimmed text
/// describes. `total_cost` is the line's `total_cost_usd` rendered to four
/// decimal places (a float, read by the caller).
pub fn decode_stdout_line(line: &str, agent: &str, total_cost: Option<String>) -> (events: Vec<
    ResponseEvent,
>)
    ensures
        trim(line@).len() == 0 || !json_parses(trim(line@)) ==> events@.len() == 0,
        trim(line@).len() > 0 && json_parses(trim(line@)) ==> exists|l: StreamLine|
            #![trigger line_of_json(l, trim(line@), opt_view(total_cost))]
            line_of_json(l, trim(line@), opt_view(total_cost)) && event_models(events@)
                == line_events(l, agent@),
{
    let t = trim_str(line);
    if t.as_str().is_empty() {
        return Vec::new();
    }
    match parse_json(t.as_str()) {
        Some(doc) => {
            let l = stream_line_from(&doc, total_cost);
            decode_stream_line(&l, agent)
        },
        None => Vec::new(),
    }
}

/// A result line reports an error whenever it says so: with `is_error`
/// true, or a subtype other than `success`, its events end with a failure
/// carrying the result text (or the error, or a notice naming the agent)
/// and then the end of the turn; otherwise no failure is reported at all.
pub proof fn law_result_errors_are_reported(line: StreamLine, agent: Seq<char>)
    requires
        is_str(line.line_type, "result"@),
    ensures
        (line.is_error == Some(true) || (line.subtype matches Some(s) && s@ != "success"@)) ==> ({
            let ev = line_events(line, agent);
            &&& ev.len() >= 2
            &&& ev[ev.len() - 2] == EventModel::Failure(
                match line.result {
                    Some(Some(r)) => r@,
                    Some(None) => agent + " reported an unspecified error"@,
                    None => match line.error {
                        Some(e) => e@,
                        None => agent + " reported an unspecified error"@,
                    },
                },
            )
            &&& ev[ev.len() - 1] == EventModel::TurnComplete
        }),
        !(line.is_error == Some(true) || (line.subtype matches Some(s) && s@ != "success"@)) ==> forall|
            k: int,
        | 0 <= k < line_events(line, agent).len() ==> !(#[trigger] line_events(line, agent)[k] is Failure),
{
    reveal_strlit("result");
    reveal_strlit("assistant");
    reveal_strlit("user");
    reveal_strlit("tool_use");
    reveal_strlit("tool_result");
    let t = line.line_type.unwrap()@;
    assert(t != "assistant"@ && t != "user"@ && t != "tool_use"@ && t != "tool_result"@) by {
        assert(t.len() == 6);
    }
    let session = match line.session_id {
        Some(s) => if trim(s@).len() > 0 {
            seq![EventModel::SessionStarted(s@)]
        } else {
            Seq::<EventModel>::empty()
        },
        None => Seq::<EventModel>::empty(),
    };
    let fail = if result_is_error(line) {
        seq![EventModel::Failure(result_detail(line, agent))]
    } else {
        Seq::<EventModel>::empty()
    };
    let ev = session + usage_events(line) + fail + seq![EventModel::TurnComplete];
    assert(line_events(line, agent) == session + (usage_events(line) + fail + seq![EventModel::TurnComplete]));
    assert(line_events(line, agent) =~= ev);
    assert forall|k: int| 0 <= k < session.len() implies (#[trigger] session[k]) is SessionStarted by {}
    assert forall|k: int| 0 <= k < usage_events(line).len() implies (#[trigger] usage_events(line)[k]) is Usage by {}
}

} // verus!
