//! What a warm-up response says: the last text that the model streamed or returned.

use vstd::prelude::*;

use crate::text::{
    chars_of, is_blank, spec_is_blank, spec_split, spec_starts_with, spec_trim, split_chars,
    starts_with, str_eq, string_from_chars, sub_chars, trim_chars,
};
use crate::types::{opt_view, str_views};

verus! {

/// A JSON value as far as the warm-up logic reads it: structure and strings (a number's value is
/// not read).
#[derive(Debug)]
pub enum JsonValue {
    Null,
    Bool(bool),
    Number,
    Str(String),
    Array(Vec<JsonValue>),
    /// The members in the parser's order.
    Object(Vec<(String, JsonValue)>),
}

/// The key of a member whose string is model text.
pub open spec fn spec_is_text_key(key: Seq<char>) -> bool {
    key == "text"@ || key == "delta"@ || key == "output_text"@
}

/// How many children a value has.
pub open spec fn spec_width(v: JsonValue) -> int {
    match v {
        JsonValue::Array(items) => items@.len() as int,
        JsonValue::Object(members) => members@.len() as int,
        _ => 0,
    }
}

/// The last non-empty string under a text key met walking `v` depth first, in order, starting
/// from `last` (kept when none is met).
pub open spec fn spec_walk(v: JsonValue, last: Option<Seq<char>>) -> Option<Seq<char>>
    decreases v, spec_width(v) + 1,
{
    match v {
        JsonValue::Array(items) => spec_walk_children(v, items@.len() as int, last),
        JsonValue::Object(members) => spec_walk_children(v, members@.len() as int, last),
        _ => last,
    }
}

/// The walk over the first `n` children of `v`.
pub open spec fn spec_walk_children(v: JsonValue, n: int, last: Option<Seq<char>>) -> Option<
    Seq<char>,
>
    decreases v, n,
{
    if n <= 0 || n > spec_width(v) {
        last
    } else {
        let before = spec_walk_children(v, n - 1, last);
        match v {
            JsonValue::Array(items) => spec_walk(items@[n - 1], before),
            JsonValue::Object(members) => {
                let key = members@[n - 1].0;
                let child = members@[n - 1].1;
                let found = if spec_is_text_key(key@) && (child is Str) && child->Str_0@.len() > 0 {
                    Some(child->Str_0@)
                } else {
                    before
                };
                spec_walk(child, found)
            },
            _ => last,
        }
    }
}

/// The last model text in a value (see `spec_walk`).
pub open spec fn spec_last_text(v: JsonValue) -> Option<Seq<char>> {
    spec_walk(v, None)
}

fn walk(v: &JsonValue, last: Option<String>) -> (r: Option<String>)
    ensures
        opt_view(r) == spec_walk(*v, opt_view(last)),
    decreases v, spec_width(*v) + 1,
{
    match v {
        JsonValue::Array(items) => {
            let mut cur = last;
            let mut i: usize = 0;
            while i < items.len()
                invariant
                    i <= items@.len(),
                    *v == JsonValue::Array(*items),
                    opt_view(cur) == spec_walk_children(*v, i as int, opt_view(last)),
                decreases items@.len() - i,
            {
                cur = walk(&items[i], cur);
                i += 1;
            }
            cur
        },
        JsonValue::Object(members) => {
            let mut cur = last;
            let mut i: usize = 0;
            while i < members.len()
                invariant
                    i <= members@.len(),
                    *v == JsonValue::Object(*members),
                    opt_view(cur) == spec_walk_children(*v, i as int, opt_view(last)),
                decreases members@.len() - i,
            {
                let key = &members[i].0;
                let child = &members[i].1;
                let is_key = str_eq(key.as_str(), "text") || str_eq(key.as_str(), "delta")
                    || str_eq(key.as_str(), "output_text");
                proof {
                    reveal_strlit("text");
                    reveal_strlit("delta");
                    reveal_strlit("output_text");
                }
                assert(is_key == spec_is_text_key(key@));
                let found = match child {
                    JsonValue::Str(t) => if is_key && chars_of(t.as_str()).len() > 0 {
                        Some(t.clone())
                    } else {
                        cur
                    },
                    _ => cur,
                };
                cur = walk(child, found);
                i += 1;
            }
            cur
        },
        _ => last,
    }
}

/// The last non-empty string under a `text`, `delta` or `output_text` key, walking the value
/// depth first.
pub fn last_text(v: &JsonValue) -> (r: Option<String>)
    ensures
        opt_view(r) == spec_last_text(*v),
{
    walk(v, None)
}

/// The text after the `data:` prefixes of an SSE line (`trim_start_matches("data:")`).
pub open spec fn spec_strip_data_prefixes(s: Seq<char>) -> Seq<char>
    decreases s.len(),
{
    if s.len() >= 5 && spec_starts_with(s, "data:"@) {
        spec_strip_data_prefixes(s.skip(5))
    } else {
        s
    }
}

/// The payload of one line of an SSE body: a trimmed `data:` line, without its prefixes and
/// trimmed again, unless that is empty or `[DONE]`.
pub open spec fn spec_sse_payload(line: Seq<char>) -> Option<Seq<char>> {
    let t = spec_trim(line);
    if !spec_starts_with(t, "data:"@) {
        None
    } else {
        let d = spec_trim(spec_strip_data_prefixes(t));
        if d.len() == 0 || d == "[DONE]"@ {
            None
        } else {
            Some(d)
        }
    }
}

/// The payloads of some lines, in order.
pub open spec fn spec_sse_payloads(lines: Seq<Seq<char>>) -> Seq<Seq<char>>
    decreases lines.len(),
{
    if lines.len() == 0 {
        Seq::empty()
    } else {
        let prev = spec_sse_payloads(lines.drop_last());
        match spec_sse_payload(lines.last()) {
            Some(d) => prev.push(d),
            None => prev,
        }
    }
}

/// The data payloads of an SSE body, line by line (the lines as `str::lines` gives them: the
/// `\r` it drops and the empty last line it leaves out are trimmed or skipped here anyway).
pub open spec fn spec_sse_data(body: Seq<char>) -> Seq<Seq<char>> {
    spec_sse_payloads(spec_split(body, '\n'))
}

fn strip_data_prefixes(s: Vec<char>) -> (r: Vec<char>)
    ensures
        r@ == spec_strip_data_prefixes(s@),
    decreases s@.len(),
{
    let prefix = chars_of("data:");
    proof {
        reveal_strlit("data:");
    }
    if starts_with(s.as_slice(), prefix.as_slice()) {
        let rest = sub_chars(s.as_slice(), 5, s.len());
        assert(rest@ =~= s@.skip(5));
        strip_data_prefixes(rest)
    } else {
        s
    }
}

fn sse_payload(line: &[char]) -> (r: Option<String>)
    ensures
        opt_view(r) == spec_sse_payload(line@),
{
    let t = trim_chars(line);
    let prefix = chars_of("data:");
    if !starts_with(t.as_slice(), prefix.as_slice()) {
        return None;
    }
    let d = trim_chars(strip_data_prefixes(t).as_slice());
    let text = string_from_chars(d.as_slice());
    if d.len() == 0 || str_eq(text.as_str(), "[DONE]") {
        None
    } else {
        Some(text)
    }
}

/// The data payloads of an SSE response body: each line trimmed, those starting with `data:`
/// kept, the prefix stripped and the rest trimmed; empty payloads and `[DONE]` are skipped.
pub fn sse_data_payloads(body: &str) -> (r: Vec<String>)
    ensures
        str_views(r@) == spec_sse_data(body@),
{
    let chars = chars_of(body);
    let lines = split_chars(chars.as_slice(), '\n');
    let ghost ls = crate::text::char_views(lines@);
    let mut out: Vec<String> = Vec::new();
    let mut i: usize = 0;
    while i < lines.len()
        invariant
            i <= lines@.len(),
            ls == crate::text::char_views(lines@),
            ls == spec_split(body@, '\n'),
            str_views(out@) == spec_sse_payloads(ls.take(i as int)),
        decreases lines@.len() - i,
    {
        let p = sse_payload(lines[i].as_slice());
        assert(ls.take(i + 1).drop_last() =~= ls.take(i as int));
        assert(ls[i as int] == lines@[i as int]@);
        match p {
            Some(d) => {
                out.push(d);
                assert(str_views(out@) =~= spec_sse_payloads(ls.take(i + 1)));
            },
            None => {},
        }
        i += 1;
    }
    assert(ls.take(lines@.len() as int) =~= ls);
    out
}

#[verifier::external_type_specification]
#[verifier::external_body]
pub struct ExSerdeJsonValue(serde_json::Value);

/// Name for the value `serde_json::from_str::<serde_json::Value>` reads from a text, as a
/// `JsonValue`; `None` when the text is not JSON.
pub uninterp spec fn spec_parse_json(text: Seq<char>) -> Option<JsonValue>;

/// `serde_json::from_str::<serde_json::Value>`, converted by `json_model`. The result is named.
#[verifier::external_body]
fn parse_json(text: &str) -> (r: Option<JsonValue>)
    ensures
        r == spec_parse_json(text@),
{
    serde_json::from_str::<serde_json::Value>(text).ok().map(|v| json_model(&v))
}

/// The `JsonValue` of a `serde_json::Value`, variant for variant: a number's value is dropped,
/// an object's members come in the map's order. Only `parse_json` converts with it.
#[verifier::external_body]
fn json_model(v: &serde_json::Value) -> JsonValue {
    match v {
        serde_json::Value::Null => JsonValue::Null,
        serde_json::Value::Bool(b) => JsonValue::Bool(*b),
        serde_json::Value::Number(_) => JsonValue::Number,
        serde_json::Value::String(s) => JsonValue::Str(s.clone()),
        serde_json::Value::Array(items) => JsonValue::Array(items.iter().map(json_model).collect()),
        serde_json::Value::Object(map) => JsonValue::Object(
            map.iter().map(|(k, x)| (k.clone(), json_model(x))).collect(),
        ),
    }
}

/// The last model text over the parsed payloads of a stream (a payload that did not parse is
/// `None` and skipped).
pub open spec fn spec_stream_text(parsed: Seq<Option<JsonValue>>) -> Option<Seq<char>>
    decreases parsed.len(),
{
    if parsed.len() == 0 {
        None
    } else {
        let prev = spec_stream_text(parsed.drop_last());
        match parsed.last() {
            Some(v) => match spec_last_text(v) {
                Some(t) => Some(t),
                None => prev,
            },
            None => prev,
        }
    }
}

/// A message, unless it is blank.
pub open spec fn spec_nonblank(m: Option<Seq<char>>) -> Option<Seq<char>> {
    match m {
        Some(t) => if spec_is_blank(t) {
            None
        } else {
            Some(t)
        },
        None => None,
    }
}

/// The message of a streamed warm-up response, from its parsed data payloads: the last model
/// text of the last payload that has one, dropped when it is blank.
pub fn stream_message(parsed: &Vec<Option<JsonValue>>) -> (r: Option<String>)
    ensures
        opt_view(r) == spec_nonblank(spec_stream_text(parsed@)),
{
    let mut last: Option<String> = None;
    let mut i: usize = 0;
    while i < parsed.len()
        invariant
            i <= parsed@.len(),
            opt_view(last) == spec_stream_text(parsed@.take(i as int)),
        decreases parsed@.len() - i,
    {
        assert(parsed@.take(i + 1).drop_last() =~= parsed@.take(i as int));
        match &parsed[i] {
            Some(v) => {
                match last_text(v) {
                    Some(t) => {
                        last = Some(t);
                    },
                    None => {},
                }
            },
            None => {},
        }
        i += 1;
    }
    assert(parsed@.take(parsed@.len() as int) =~= parsed@);
    match last {
        Some(t) => if is_blank(t.as_str()) {
            None
        } else {
            Some(t)
        },
        None => None,
    }
}

/// The parse of each payload.
pub open spec fn spec_parse_all(payloads: Seq<Seq<char>>) -> Seq<Option<JsonValue>> {
    Seq::new(payloads.len(), |i: int| spec_parse_json(payloads[i]))
}

/// The message of a streamed (SSE) warm-up response body.
pub fn extract_text_from_sse(body: &str) -> (r: Option<String>)
    ensures
        opt_view(r) == spec_nonblank(spec_stream_text(spec_parse_all(spec_sse_data(body@)))),
{
    let payloads = sse_data_payloads(body);
    let mut parsed: Vec<Option<JsonValue>> = Vec::new();
    let mut i: usize = 0;
    while i < payloads.len()
        invariant
            i <= payloads@.len(),
            parsed@ == spec_parse_all(str_views(payloads@)).take(i as int),
        decreases payloads@.len() - i,
    {
        parsed.push(parse_json(payloads[i].as_str()));
        i += 1;
        assert(parsed@ =~= spec_parse_all(str_views(payloads@)).take(i as int));
    }
    assert(parsed@ =~= spec_parse_all(str_views(payloads@)));
    stream_message(&parsed)
}

/// The message of a JSON warm-up response body: its last model text.
pub fn extract_text_from_json(body: &str) -> (r: Option<String>)
    ensures
        opt_view(r) == match spec_parse_json(body@) {
            Some(v) => spec_last_text(v),
            None => None,
        },
{
    match parse_json(body) {
        Some(v) => last_text(&v),
        None => None,
    }
}

} // verus!
