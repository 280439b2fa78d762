//! JSON documents as the command modules read them: whether a text parses,
//! a string member of its top-level object, its pretty rendering, and the
//! JSON literal of a string. serde_json does the work; what it returns is
//! named over the source text.
use vstd::prelude::*;
use crate::archive::{opt_view, views};

verus! {

#[verifier::external_type_specification]
#[verifier::external_body]
pub struct ExJsonValue(serde_json::Value);

/// Whether serde_json parses `text` as one JSON value.
pub uninterp spec fn json_parses(text: Seq<char>) -> bool;

/// serde_json's pretty rendering (`to_string_pretty`) of the value that
/// `text` parses to.
pub uninterp spec fn json_pretty_text(text: Seq<char>) -> Seq<char>;

/// The string that member `key` of the object `text` parses to holds, when
/// `text` is an object and that member is a string.
pub uninterp spec fn json_string_member(text: Seq<char>, key: Seq<char>) -> Option<Seq<char>>;

/// serde_json's rendering of a string as a JSON string literal.
pub uninterp spec fn json_string_literal(s: Seq<char>) -> Seq<char>;

/// The strings that serde_json parses `text` to as a `Vec<String>`.
pub uninterp spec fn json_string_array(text: Seq<char>) -> Option<Seq<Seq<char>>>;

/// `serde_json::from_str::<Vec<String>>`.
#[verifier::external_body]
pub(crate) fn parse_json_string_list(text: &str) -> (r: Option<Vec<String>>)
    ensures
        match r {
            Some(v) => json_string_array(text@) == Some(views(v@)),
            None => json_string_array(text@) is None,
        },
{
    serde_json::from_str::<Vec<String>>(text).ok()
}

/// A parsed JSON value together with the text it was parsed from.
pub struct JsonDoc {
    value: serde_json::Value,
    text: Ghost<Seq<char>>,
}

impl JsonDoc {
    /// The text of a document is one that serde_json parses. (The value is
    /// built alongside the text, by `parse_json` from the text itself, or
    /// by the member and item readers below from the value whose rendering
    /// the text is.)
    #[verifier::type_invariant]
    spec fn parsed(self) -> bool {
        json_parses(self.text@)
    }
}

impl View for JsonDoc {
    type V = Seq<char>;

    closed spec fn view(&self) -> Seq<char> {
        self.text@
    }
}

/// `serde_json::from_str::<Value>`: `Some` exactly when the text parses.
#[verifier::external_body]
fn parse_json_value(text: &str) -> (r: Option<serde_json::Value>)
    ensures
        r is Some <==> json_parses(text@),
{
    serde_json::from_str::<serde_json::Value>(text).ok()
}

/// Parses `text`, keeping the text as the document's view.
pub fn parse_json(text: &str) -> (r: Option<JsonDoc>)
    ensures
        r is Some <==> json_parses(text@),
        r matches Some(d) ==> d@ == text@,
{
    match parse_json_value(text) {
        Some(value) => Some(JsonDoc { value, text: Ghost(text@) }),
        None => None,
    }
}

/// `serde_json::to_string_pretty` of a parsed value. A `Value` always
/// serializes (its map keys are strings), so the result is the rendering.
#[verifier::external_body]
pub(crate) fn json_pretty(doc: &JsonDoc) -> (r: String)
    ensures
        r@ == json_pretty_text(doc@),
{
    serde_json::to_string_pretty(&doc.value).unwrap_or_default()
}

/// `Value::get(key)` then `Value::as_str`: the string member `key`.
#[verifier::external_body]
pub(crate) fn json_string_field(doc: &JsonDoc, key: &str) -> (r: Option<String>)
    ensures
        opt_view(r) == json_string_member(doc@, key@),
{
    doc.value.get(key).and_then(|v| v.as_str()).map(String::from)
}

/// `serde_json::to_string` of a string: its JSON literal, quotes included.
/// A string always serializes.
#[verifier::external_body]
pub(crate) fn json_quote(s: &str) -> (r: String)
    ensures
        r@ == json_string_literal(s@),
{
    serde_json::to_string(s).unwrap_or_default()
}


/// serde_json's rendering of a list of strings as a JSON array.
pub uninterp spec fn json_string_list_text(items: Seq<Seq<char>>) -> Seq<char>;

/// `serde_json::to_string` of a `&[String]`. A list of strings always
/// serializes.
#[verifier::external_body]
pub(crate) fn json_string_list(items: &Vec<String>) -> (r: String)
    ensures
        r@ == json_string_list_text(views(items@)),
{
    serde_json::to_string(items).unwrap_or_default()
}

// ---------------------------------------------------------------------------
// Reading inside a document
// ---------------------------------------------------------------------------

/// Member `key` of the object that `text` parses to (`Value::get`), given
/// by its compact serde_json rendering; `None` when `text` is not an object
/// or has no such member.
pub uninterp spec fn json_member(text: Seq<char>, key: Seq<char>) -> Option<Seq<char>>;

/// The string that `text` parses to (`Value::as_str`), when it is one.
pub uninterp spec fn json_string_value(text: Seq<char>) -> Option<Seq<char>>;

/// The `u64` that `text` parses to (`Value::as_u64`), when it is one.
pub uninterp spec fn json_u64_value(text: Seq<char>) -> Option<u64>;

/// The boolean that `text` parses to (`Value::as_bool`), when it is one.
pub uninterp spec fn json_bool_value(text: Seq<char>) -> Option<bool>;

/// The elements of the array that `text` parses to (`Value::as_array`), each
/// by its compact rendering, when it is an array.
pub uninterp spec fn json_array_items(text: Seq<char>) -> Option<Seq<Seq<char>>>;

/// The compact serde_json rendering (`serde_json::to_string`) of the value
/// that `text` parses to.
pub uninterp spec fn json_compact_text(text: Seq<char>) -> Seq<char>;

/// `Value::get(key)`, cloned. What serde_json renders always parses back.
#[verifier::external_body]
fn member_value(doc: &JsonDoc, key: &str) -> (r: Option<serde_json::Value>)
    ensures
        r is Some <==> json_member(doc@, key@) is Some,
        r is Some ==> json_parses(json_member(doc@, key@)->0),
{
    doc.value.get(key).cloned()
}

/// The member `key` of a document, as a document of its own.
pub fn json_member_doc(doc: &JsonDoc, key: &str) -> (r: Option<JsonDoc>)
    ensures
        match r {
            Some(d) => json_member(doc@, key@) == Some(d@),
            None => json_member(doc@, key@) is None,
        },
{
    match member_value(doc, key) {
        Some(value) => Some(JsonDoc { value, text: Ghost(json_member(doc@, key@)->0) }),
        None => None,
    }
}

/// `Value::as_str`, owned.
#[verifier::external_body]
pub(crate) fn json_str(doc: &JsonDoc) -> (r: Option<String>)
    ensures
        opt_view(r) == json_string_value(doc@),
{
    doc.value.as_str().map(String::from)
}

/// `Value::as_u64`.
#[verifier::external_body]
pub(crate) fn json_u64(doc: &JsonDoc) -> (r: Option<u64>)
    ensures
        r == json_u64_value(doc@),
{
    doc.value.as_u64()
}

/// `Value::as_bool`.
#[verifier::external_body]
pub(crate) fn json_bool(doc: &JsonDoc) -> (r: Option<bool>)
    ensures
        r == json_bool_value(doc@),
{
    doc.value.as_bool()
}

/// `serde_json::to_string` of the document's value. A `Value` always
/// serializes.
#[verifier::external_body]
pub(crate) fn json_compact(doc: &JsonDoc) -> (r: String)
    ensures
        r@ == json_compact_text(doc@),
{
    serde_json::to_string(&doc.value).unwrap_or_default()
}

/// `Value::as_array`, its elements cloned. What serde_json renders always
/// parses back.
#[verifier::external_body]
fn array_values(doc: &JsonDoc) -> (r: Option<Vec<serde_json::Value>>)
    ensures
        r is Some <==> json_array_items(doc@) is Some,
        r matches Some(v) ==> v@.len() == json_array_items(doc@)->0.len() && forall|k: int|
            0 <= k < v@.len() ==> json_parses(#[trigger] json_array_items(doc@)->0[k]),
{
    doc.value.as_array().cloned()
}

/// The elements of an array document, each a document of its own.
pub fn json_items(doc: &JsonDoc) -> (r: Option<Vec<JsonDoc>>)
    ensures
        match r {
            Some(v) => json_array_items(doc@) matches Some(items) && v@.len() == items.len()
                && forall|k: int| 0 <= k < v@.len() ==> (#[trigger] v@[k])@ == items[k],
            None => json_array_items(doc@) is None,
        },
{
    match array_values(doc) {
        Some(mut values) => {
            let ghost items = json_array_items(doc@)->0;
            let n = values.len();
            let mut out: Vec<JsonDoc> = Vec::new();
            let mut i: usize = 0;
            while i < n
                invariant
                    i <= n == items.len(),
                    values@.len() == n - i,
                    out@.len() == i,
                    forall|k: int| 0 <= k < n ==> json_parses(#[trigger] items[k]),
                    forall|k: int| 0 <= k < i ==> (#[trigger] out@[k])@ == items[k],
                decreases n - i,
            {
                let value = values.remove(0);
                let d = JsonDoc { value, text: Ghost(items[i as int]) };
                out.push(d);
                i += 1;
            }
            Some(out)
        },
        None => None,
    }
}

} // verus!
