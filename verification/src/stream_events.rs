//! Decoding one NDJSON line of a response stream into a stream event.
//!
//! A line is a JSON object with a string `type`: `start`, `update`,
//! `completion`, the `tool_use_*` events, `error`, or `keepalive` (which is
//! skipped). The event keeps its name, the text delta of `payload.content`,
//! the response id, model and stop reason, and the usage and tool-call
//! payloads once their shape is checked.

use vstd::prelude::*;

use crate::agent_refs::{byte_len, char_at_byte, char_index_at_byte, prefix_byte_len};
use crate::errors::Error;
use crate::http_errors::{
    entries_get, get, json_get, json_parse_result, json_str, parse_json_text, str_value, JsonValue,
};
use crate::text::{chars_of, decimal, extend_chars, extend_str, slice_chars, string_of, trim, trim_chars};

verus! {

/// The kinds of stream events, by the record's `type`.
#[derive(Debug, Clone, Copy, PartialEq, Eq)]
pub enum StreamEventKind {
    MessageStart,
    MessageDelta,
    MessageStop,
    ToolUseStart,
    ToolUseDelta,
    ToolUseStop,
    /// Any other record type (its name is kept in the event).
    Other,
}

/// The kind of a record type.
pub open spec fn event_kind_of(name: Seq<char>) -> StreamEventKind {
    if name == "start"@ {
        StreamEventKind::MessageStart
    } else if name == "update"@ {
        StreamEventKind::MessageDelta
    } else if name == "completion"@ {
        StreamEventKind::MessageStop
    } else if name == "tool_use_start"@ {
        StreamEventKind::ToolUseStart
    } else if name == "tool_use_delta"@ {
        StreamEventKind::ToolUseDelta
    } else if name == "tool_use_stop"@ {
        StreamEventKind::ToolUseStop
    } else {
        StreamEventKind::Other
    }
}

/// The kind of a record type.
pub fn kind_from_event_name(name: &str) -> (r: StreamEventKind)
    ensures
        r == event_kind_of(name@),
{
    let c = chars_of(name);
    proof {
        reveal_strlit("start");
        reveal_strlit("update");
        reveal_strlit("completion");
        reveal_strlit("tool_use_start");
        reveal_strlit("tool_use_delta");
        reveal_strlit("tool_use_stop");
    }
    if crate::text::eq_str(c.as_slice(), "start") {
        StreamEventKind::MessageStart
    } else if crate::text::eq_str(c.as_slice(), "update") {
        StreamEventKind::MessageDelta
    } else if crate::text::eq_str(c.as_slice(), "completion") {
        StreamEventKind::MessageStop
    } else if crate::text::eq_str(c.as_slice(), "tool_use_start") {
        StreamEventKind::ToolUseStart
    } else if crate::text::eq_str(c.as_slice(), "tool_use_delta") {
        StreamEventKind::ToolUseDelta
    } else if crate::text::eq_str(c.as_slice(), "tool_use_stop") {
        StreamEventKind::ToolUseStop
    } else {
        StreamEventKind::Other
    }
}

/// A decoded stream event.
#[derive(Debug)]
pub struct StreamEvent {
    pub kind: StreamEventKind,
    /// The record's `type`.
    pub event: String,
    /// The text of `payload.content`.
    pub text_delta: Option<String>,
    /// The `tool_call_delta` payload, as sent.
    pub tool_call_delta: Option<JsonValue>,
    /// The `tool_calls` payload as sent, or a list of the single
    /// `tool_call` when there is one.
    pub tool_calls: Option<JsonValue>,
    /// The record's `request_id`.
    pub response_id: Option<String>,
    /// The record's `model`, trimmed, when not empty.
    pub model: Option<String>,
    /// The record's `stop_reason`.
    pub stop_reason: Option<String>,
    /// The `usage` payload, when it has the shape of a usage (token counts
    /// that are non-negative integers where given).
    pub usage: Option<JsonValue>,
    /// The request id of the stream.
    pub request_id: Option<String>,
    /// The raw line.
    pub raw: String,
}

pub open spec fn opt_text(o: Option<String>) -> Option<Seq<char>> {
    match o {
        Some(s) => Some(s@),
        None => None,
    }
}

/// The raw line as an error carries it: whole up to 200 bytes, else its
/// first 200 bytes, `... (`, its length in bytes and ` bytes total)`.
pub open spec fn truncated_raw(data: Seq<char>) -> Seq<char> {
    if byte_len(data) <= 200 {
        data
    } else {
        data.subrange(0, char_at_byte(data, 200)) + "... ("@ + decimal(byte_len(data)) + " bytes total)"@
    }
}

/// A list of JSON objects.
pub open spec fn array_of_objects(v: JsonValue) -> bool {
    v matches JsonValue::Array(items) && forall|i: int| 0 <= i < items@.len() ==> (#[trigger] items@[i]) is Object
}

/// The error a record's tool-call payloads give, if any: a tool-call delta
/// that is not an object, a `tool_calls` list that is not a list of
/// objects, or a single `tool_call` that is not an object (checked in that
/// order).
pub open spec fn payload_error(v: JsonValue) -> Option<Seq<char>> {
    if json_get(v, "tool_call_delta"@) matches Some(d) && !(d is Object) {
        Some("failed to parse tool_call_delta: expected an object"@)
    } else if json_get(v, "tool_calls"@) matches Some(c) && !array_of_objects(c) {
        Some("failed to parse tool_calls: expected an array of objects"@)
    } else if json_get(v, "tool_call"@) matches Some(c) && !(c is Object) {
        Some("failed to parse tool_call: expected an object"@)
    } else {
        None
    }
}

/// The message of the protocol error a line gives, if any: when it is not
/// JSON, not an object, or has no string `type`; then, unless it is a
/// keepalive, when a tool-call payload has the wrong shape.
pub open spec fn event_error(parsed: Result<JsonValue, Seq<char>>) -> Option<Seq<char>> {
    match parsed {
        Err(e) => Some("failed to parse NDJSON: "@ + e),
        Ok(v) => if !(v is Object) {
            Some("NDJSON event is not an object"@)
        } else if json_str(json_get(v, "type"@)) is None {
            Some("NDJSON event missing 'type' field"@)
        } else if json_str(json_get(v, "type"@)) == Some("keepalive"@) {
            None
        } else {
            payload_error(v)
        },
    }
}

/// A token count of a usage object: absent, or a non-negative integer.
pub open spec fn count_ok(u: JsonValue, key: Seq<char>) -> bool {
    match json_get(u, key) {
        None => true,
        Some(JsonValue::Number(Some(_))) => true,
        _ => false,
    }
}

/// The usage a record reports: its `usage` object when that has the shape
/// of a usage (token counts that are non-negative integers where given),
/// else none.
pub open spec fn usage_of(v: JsonValue) -> Option<JsonValue> {
    match json_get(v, "usage"@) {
        Some(u) => if u is Object && count_ok(u, "input_tokens"@) && count_ok(u, "output_tokens"@)
            && count_ok(u, "total_tokens"@) {
            Some(u)
        } else {
            None
        },
        None => None,
    }
}

/// The text of an optional member: `Some` only for a string.
pub open spec fn member_text(v: JsonValue, key: Seq<char>) -> Option<Seq<char>> {
    json_str(json_get(v, key))
}

/// The model a record names: its `model` text trimmed, when not empty.
pub open spec fn model_of(v: JsonValue) -> Option<Seq<char>> {
    match member_text(v, "model"@) {
        Some(m) => if trim(m).len() > 0 {
            Some(trim(m))
        } else {
            None
        },
        None => None,
    }
}

/// The text delta a record carries: the text of `payload.content`.
pub open spec fn text_delta_of(v: JsonValue) -> Option<Seq<char>> {
    match json_get(v, "payload"@) {
        Some(p) => member_text(p, "content"@),
        None => None,
    }
}

/// Whether `e` is the event that the object `v` (with a string `type` other
/// than `keepalive`) gives on the line `data` of the stream `request_id`.
/// The tool calls are a list of the single `tool_call` when there is one,
/// else the `tool_calls` payload as sent.
pub open spec fn event_matches(e: StreamEvent, v: JsonValue, data: Seq<char>, request_id: Option<Seq<char>>) -> bool {
    let name = member_text(v, "type"@)->Some_0;
    &&& e.kind == event_kind_of(name)
    &&& e.event@ == name
    &&& opt_text(e.text_delta) == text_delta_of(v)
    &&& e.tool_call_delta == json_get(v, "tool_call_delta"@)
    &&& match json_get(v, "tool_call"@) {
        Some(c) => e.tool_calls matches Some(JsonValue::Array(items)) && items@ == seq![c],
        None => e.tool_calls == json_get(v, "tool_calls"@),
    }
    &&& opt_text(e.response_id) == member_text(v, "request_id"@)
    &&& opt_text(e.model) == model_of(v)
    &&& opt_text(e.stop_reason) == member_text(v, "stop_reason"@)
    &&& e.usage == usage_of(v)
    &&& opt_text(e.request_id) == request_id
    &&& e.raw@ == data
}

/// Whether the original's truncation of the raw line for an error would cut
/// inside a character (where it would panic).
pub open spec fn cuts_inside_char(data: Seq<char>) -> bool {
    byte_len(data) > 200 && char_at_byte(data, 200) < 0
}

/// Looking a key up after the first entry of another key was removed.
proof fn lemma_remove_keeps_other_keys(s: Seq<(String, JsonValue)>, i: int, key: Seq<char>, k: Seq<char>)
    requires
        0 <= i < s.len(),
        s[i].0@ == key,
        forall|j: int| 0 <= j < i ==> s[j].0@ != key,
        k != key,
    ensures
        entries_get(s.remove(i), k) == entries_get(s, k),
    decreases i,
{
    if i > 0 {
        if s[0].0@ != k {
            lemma_remove_keeps_other_keys(s.drop_first(), i - 1, key, k);
            assert(s.remove(i).drop_first() =~= s.drop_first().remove(i - 1));
        }
    } else {
        assert(s.remove(0) =~= s.drop_first());
    }
}

/// The value of the first entry named `i`... found at position `i`.
proof fn lemma_entries_get_at(s: Seq<(String, JsonValue)>, i: int, key: Seq<char>)
    requires
        0 <= i < s.len(),
        s[i].0@ == key,
        forall|j: int| 0 <= j < i ==> s[j].0@ != key,
    ensures
        entries_get(s, key) == Some(s[i].1),
    decreases i,
{
    if i > 0 {
        lemma_entries_get_at(s.drop_first(), i - 1, key);
    }
}

/// No entry named `key`.
proof fn lemma_entries_get_none(s: Seq<(String, JsonValue)>, key: Seq<char>)
    requires
        forall|j: int| 0 <= j < s.len() ==> s[j].0@ != key,
    ensures
        entries_get(s, key) is None,
    decreases s.len(),
{
    if s.len() > 0 {
        lemma_entries_get_none(s.drop_first(), key);
    }
}

/// Takes out the value of the first entry named `key`; the other keys look
/// up as before.
fn take_member(entries: &mut Vec<(String, JsonValue)>, key: &str) -> (r: Option<JsonValue>)
    ensures
        r == entries_get(old(entries)@, key@),
        forall|k: Seq<char>| k != key@ ==> entries_get(final(entries)@, k) == entries_get(old(entries)@, k),
{
    let mut i: usize = 0;
    while i < entries.len()
        invariant
            i <= entries@.len(),
            entries@ == old(entries)@,
            forall|j: int| 0 <= j < i ==> entries@[j].0@ != key@,
        decreases entries@.len() - i,
    {
        if crate::text::str_eq(entries[i].0.as_str(), key) {
            let ghost before = entries@;
            proof {
                lemma_entries_get_at(before, i as int, key@);
                assert forall|k: Seq<char>| k != key@ implies entries_get(before.remove(i as int), k)
                    == entries_get(before, k) by {
                    lemma_remove_keeps_other_keys(before, i as int, key@, k);
                }
            }
            let (_, x) = entries.remove(i);
            return Some(x);
        }
        i += 1;
    }
    proof {
        lemma_entries_get_none(entries@, key@);
    }
    None
}

/// The raw line as an error carries it.
pub fn truncate_for_error(data: &str) -> (r: String)
    requires
        !cuts_inside_char(data@),
    ensures
        r@ == truncated_raw(data@),
{
    let v = chars_of(data);
    assert(v@.take(v@.len() as int) =~= v@);
    let n = prefix_byte_len(v.as_slice(), v.len());
    if n <= 200 {
        return string_of(v.as_slice());
    }
    match char_index_at_byte(v.as_slice(), 200) {
        Some(j) => {
            proof {
                crate::agent_refs::lemma_char_at_byte_bound(v@, 200);
            }
            let mut out = slice_chars(v.as_slice(), 0, j);
            extend_str(&mut out, "... (");
            let d = crate::text::decimal_chars_wide(n);
            extend_chars(&mut out, d.as_slice());
            extend_str(&mut out, " bytes total)");
            string_of(out.as_slice())
        },
        None => {
            string_of(v.as_slice())
        },
    }
}

/// The parse result as plain values.
pub open spec fn parsed_view(p: Result<JsonValue, String>) -> Result<JsonValue, Seq<char>> {
    match p {
        Ok(v) => Ok(v),
        Err(t) => Err(t@),
    }
}

/// What a line whose parse is `parsed` gives: a protocol error carrying the
/// (truncated) line; nothing for a keepalive; else the event.
pub open spec fn event_result(
    parsed: Result<JsonValue, Seq<char>>,
    data: Seq<char>,
    request_id: Option<Seq<char>>,
    r: Result<Option<StreamEvent>, Error>,
) -> bool {
    match event_error(parsed) {
        Some(m) => r matches Err(Error::StreamProtocol { message, raw_data }) && message@ == m
            && (raw_data matches Some(t) && t@ == truncated_raw(data)),
        None => if member_text(parsed->Ok_0, "type"@) == Some("keepalive"@) {
            r matches Ok(None)
        } else {
            r matches Ok(Some(e)) && event_matches(e, parsed->Ok_0, data, request_id)
        },
    }
}

fn protocol_error(message: Vec<char>, data: &str) -> (r: Error)
    requires
        !cuts_inside_char(data@),
    ensures
        r matches Error::StreamProtocol { message: m, raw_data } && m@ == message@
            && (raw_data matches Some(t) && t@ == truncated_raw(data@)),
{
    Error::StreamProtocol { message: string_of(message.as_slice()), raw_data: Some(truncate_for_error(data)) }
}

fn is_object(v: &JsonValue) -> (r: bool)
    ensures
        r == (*v is Object),
{
    match v {
        JsonValue::Object(_) => true,
        _ => false,
    }
}

fn objects_only(v: &JsonValue) -> (r: bool)
    ensures
        r == array_of_objects(*v),
{
    match v {
        JsonValue::Array(items) => {
            let mut i: usize = 0;
            while i < items.len()
                invariant
                    i <= items@.len(),
                    *v == JsonValue::Array(*items),
                    forall|j: int| 0 <= j < i ==> (#[trigger] items@[j]) is Object,
                decreases items@.len() - i,
            {
                if !is_object(&items[i]) {
                    assert(!(items@[i as int] is Object));
                    return false;
                }
                i += 1;
            }
            true
        },
        _ => false,
    }
}

/// The error a record's tool-call payloads give, if any.
fn payload_check(v: &JsonValue) -> (r: Option<Vec<char>>)
    ensures
        match r {
            Some(m) => payload_error(*v) == Some(m@),
            None => payload_error(*v) is None,
        },
{
    proof {
        reveal_strlit("tool_call_delta");
        reveal_strlit("tool_call");
        reveal_strlit("tool_calls");
    }
    if let Some(d) = get(v, "tool_call_delta") {
        if !is_object(d) {
            return Some(chars_of("failed to parse tool_call_delta: expected an object"));
        }
    }
    if let Some(c) = get(v, "tool_calls") {
        if !objects_only(c) {
            return Some(chars_of("failed to parse tool_calls: expected an array of objects"));
        }
    }
    if let Some(c) = get(v, "tool_call") {
        if !is_object(c) {
            return Some(chars_of("failed to parse tool_call: expected an object"));
        }
    }
    None
}

fn count_is_ok(u: &JsonValue, key: &str) -> (r: bool)
    ensures
        r == count_ok(*u, key@),
{
    match get(u, key) {
        None => true,
        Some(JsonValue::Number(Some(_))) => true,
        _ => false,
    }
}

/// The usage a record reports, when it has the shape of one.
fn usage_checked(u: Option<JsonValue>) -> (r: Option<JsonValue>)
    ensures
        r == match u {
            Some(x) => if x is Object && count_ok(x, "input_tokens"@) && count_ok(x, "output_tokens"@)
                && count_ok(x, "total_tokens"@) {
                Some(x)
            } else {
                None
            },
            None => None,
        },
{
    match u {
        Some(x) => {
            if is_object(&x) && count_is_ok(&x, "input_tokens") && count_is_ok(&x, "output_tokens")
                && count_is_ok(&x, "total_tokens") {
                Some(x)
            } else {
                None
            }
        },
        None => None,
    }
}

/// Whether a line with this parse is refused.
fn line_refused(parsed: &Result<JsonValue, String>) -> (r: bool)
    ensures
        r == event_error(parsed_view(*parsed)) is Some,
{
    proof {
        reveal_strlit("keepalive");
    }
    match parsed {
        Err(_) => true,
        Ok(v) => {
            if !is_object(v) {
                return true;
            }
            match str_value(get(v, "type")) {
                None => true,
                Some(n) => {
                    if crate::text::str_eq(n.as_str(), "keepalive") {
                        false
                    } else {
                        payload_check(v).is_some()
                    }
                },
            }
        },
    }
}

/// Maps the parse of an NDJSON line to a stream event, as `event_result`
/// says. Where the line is refused, the line must not be longer than 200
/// bytes with byte 200 inside a character (the error's excerpt cuts there).
pub fn event_from_json(parsed: Result<JsonValue, String>, data: &str, request_id: Option<String>) -> (r: Result<
    Option<StreamEvent>,
    Error,
>)
    requires
        event_error(parsed_view(parsed)) is Some ==> !cuts_inside_char(data@),
    ensures
        event_result(parsed_view(parsed), data@, opt_text(request_id), r),
{
    proof {
        reveal_strlit("failed to parse NDJSON: ");
        reveal_strlit("NDJSON event is not an object");
        reveal_strlit("NDJSON event missing 'type' field");
        reveal_strlit("keepalive");
        reveal_strlit("tool_call_delta");
        reveal_strlit("tool_call");
        reveal_strlit("tool_calls");
        reveal_strlit("usage");
    }
    let v = match parsed {
        Ok(v) => v,
        Err(t) => {
            let mut m = chars_of("failed to parse NDJSON: ");
            extend_chars(&mut m, chars_of(t.as_str()).as_slice());
            return Err(protocol_error(m, data));
        },
    };
    let ghost v0 = v;
    if !matches!(v, JsonValue::Object(_)) {
        return Err(protocol_error(chars_of("NDJSON event is not an object"), data));
    }
    let name = match str_value(get(&v, "type")) {
        Some(n) => n,
        None => {
            return Err(protocol_error(chars_of("NDJSON event missing 'type' field"), data));
        },
    };
    if crate::text::str_eq(name.as_str(), "keepalive") {
        return Ok(None);
    }
    if let Some(m) = payload_check(&v) {
        return Err(protocol_error(m, data));
    }
    let kind = kind_from_event_name(name.as_str());
    let response_id = str_value(get(&v, "request_id"));
    let model = match str_value(get(&v, "model")) {
        Some(m) => {
            let t = trim_chars(chars_of(m.as_str()).as_slice());
            if t.len() > 0 {
                Some(string_of(t.as_slice()))
            } else {
                None
            }
        },
        None => None,
    };
    let stop_reason = str_value(get(&v, "stop_reason"));
    let text_delta = match get(&v, "payload") {
        Some(p) => str_value(get(p, "content")),
        None => None,
    };
    let mut entries = match v {
        JsonValue::Object(m) => m,
        _ => {
            proof {
                assert(false);
            }
            return Ok(None);
        },
    };
    let ghost m0 = entries@;
    let tool_call_delta = take_member(&mut entries, "tool_call_delta");
    let ghost m1 = entries@;
    let single = take_member(&mut entries, "tool_call");
    let ghost m2 = entries@;
    let listed = take_member(&mut entries, "tool_calls");
    let ghost m3 = entries@;
    let reported = take_member(&mut entries, "usage");
    proof {
        assert("tool_call"@.len() != "tool_call_delta"@.len());
        assert("tool_call"@ != "tool_call_delta"@);
        assert("tool_calls"@[9] != "tool_call_delta"@[9]);
        assert("tool_calls"@ != "tool_call_delta"@);
        assert("tool_calls"@ != "tool_call"@);
        assert("usage"@ != "tool_call_delta"@);
        assert("usage"@ != "tool_call"@);
        assert("usage"@.len() != "tool_calls"@.len());
        assert("usage"@ != "tool_calls"@);
        assert(entries_get(m1, "tool_call"@) == entries_get(m0, "tool_call"@));
        assert(entries_get(m1, "tool_calls"@) == entries_get(m0, "tool_calls"@));
        assert(entries_get(m2, "tool_calls"@) == entries_get(m1, "tool_calls"@));
        assert(entries_get(m1, "usage"@) == entries_get(m0, "usage"@));
        assert(entries_get(m2, "usage"@) == entries_get(m1, "usage"@));
        assert(entries_get(m3, "usage"@) == entries_get(m2, "usage"@));
    }
    let usage = usage_checked(reported);
    let tool_calls = match single {
        Some(c) => {
            let mut items: Vec<JsonValue> = Vec::new();
            items.push(c);
            Some(JsonValue::Array(items))
        },
        None => listed,
    };
    let e = StreamEvent {
        kind,
        event: name,
        text_delta,
        tool_call_delta,
        tool_calls,
        response_id,
        model,
        stop_reason,
        usage,
        request_id,
        raw: crate::text::owned(data),
    };
    Ok(Some(e))
}

/// Whether truncating `data` for an error would cut inside a character.
fn cuts_inside(data: &str) -> (r: bool)
    ensures
        r == cuts_inside_char(data@),
{
    let v = chars_of(data);
    assert(v@.take(v@.len() as int) =~= v@);
    let n = prefix_byte_len(v.as_slice(), v.len());
    n > 200 && char_index_at_byte(v.as_slice(), 200).is_none()
}

/// Decodes one NDJSON line (trimmed, as the stream hands it out) of the
/// stream `request_id`: the line is parsed with `serde_json`, then mapped as
/// [`event_from_json`] says.
pub fn map_event(data: &str, request_id: Option<String>) -> (r: Result<Option<StreamEvent>, Error>)
    requires
        event_error(json_parse_result(data@)) is Some ==> !cuts_inside_char(data@),
    ensures
        event_result(json_parse_result(data@), data@, opt_text(request_id), r),
{
    let parsed = parse_json_text(data);
    event_from_json(parsed, data, request_id)
}

/// [`map_event`] on any line: `None` exactly when the line is refused and
/// its excerpt for the error would cut inside a character.
pub fn map_event_checked(data: &str, request_id: Option<String>) -> (r: Option<
    Result<Option<StreamEvent>, Error>,
>)
    ensures
        (event_error(json_parse_result(data@)) is Some && cuts_inside_char(data@)) <==> r is None,
        r matches Some(x) ==> event_result(json_parse_result(data@), data@, opt_text(request_id), x),
{
    let parsed = parse_json_text(data);
    let fails = line_refused(&parsed);
    if fails && cuts_inside(data) {
        return None;
    }
    Some(map_event(data, request_id))
}

/// What a stream has told so far about the response it carries, while its
/// events are collected.
pub struct CollectState {
    /// The text deltas of the message, joined.
    pub content: String,
    pub response_id: Option<String>,
    pub model: Option<String>,
    pub usage: Option<JsonValue>,
    pub stop_reason: Option<String>,
    /// The complete tool calls, as last sent.
    pub tool_calls: Option<JsonValue>,
    /// The tool-call deltas, in order, for assembling calls that were only
    /// streamed in pieces.
    pub tool_call_deltas: Vec<JsonValue>,
}

/// `o` when it holds a value, else `fallback`.
pub open spec fn or_else<T>(o: Option<T>, fallback: Option<T>) -> Option<T> {
    if o is Some {
        o
    } else {
        fallback
    }
}

/// The text a delta event adds.
pub open spec fn added_text(t: Option<String>) -> Seq<char> {
    match t {
        Some(s) => s@,
        None => Seq::empty(),
    }
}

/// One step of collecting, from `s` to `t` on the event `e`; `done` when the
/// message stop has come.
pub open spec fn collect_step_spec(s: CollectState, e: StreamEvent, t: CollectState, done: bool) -> bool {
    match e.kind {
        StreamEventKind::MessageDelta => !done && t.content@ == s.content@ + added_text(e.text_delta)
            && t.response_id == or_else(s.response_id, e.response_id) && t.model == or_else(
            s.model,
            e.model,
        ) && t.usage == s.usage && t.stop_reason == s.stop_reason && t.tool_calls == s.tool_calls
            && t.tool_call_deltas@ == s.tool_call_deltas@,
        StreamEventKind::MessageStart => !done && t.content@ == s.content@ && t.response_id
            == or_else(s.response_id, e.response_id) && t.model == or_else(s.model, e.model)
            && t.usage == s.usage && t.stop_reason == s.stop_reason && t.tool_calls == s.tool_calls
            && t.tool_call_deltas@ == s.tool_call_deltas@,
        StreamEventKind::ToolUseStart | StreamEventKind::ToolUseDelta => !done && t.content@
            == s.content@ && t.response_id == s.response_id && t.model == s.model && t.usage
            == s.usage && t.stop_reason == s.stop_reason && t.tool_calls == s.tool_calls
            && t.tool_call_deltas@ == match e.tool_call_delta {
            Some(d) => s.tool_call_deltas@.push(d),
            None => s.tool_call_deltas@,
        },
        StreamEventKind::ToolUseStop => !done && t.content@ == s.content@ && t.response_id
            == s.response_id && t.model == s.model && t.usage == s.usage && t.stop_reason
            == s.stop_reason && t.tool_calls == or_else(e.tool_calls, s.tool_calls)
            && t.tool_call_deltas@ == s.tool_call_deltas@,
        StreamEventKind::MessageStop => done && t.content@ == s.content@ && t.response_id
            == or_else(e.response_id, s.response_id) && t.model == or_else(e.model, s.model)
            && t.usage == or_else(e.usage, s.usage) && t.stop_reason == or_else(
            e.stop_reason,
            s.stop_reason,
        ) && t.tool_calls == or_else(e.tool_calls, s.tool_calls) && t.tool_call_deltas@
            == s.tool_call_deltas@,
        StreamEventKind::Other => !done && t == s,
    }
}

fn first_of<T>(a: Option<T>, b: Option<T>) -> (r: Option<T>)
    ensures
        r == or_else(a, b),
{
    match a {
        Some(x) => Some(x),
        None => b,
    }
}

impl CollectState {
    /// Nothing collected yet.
    pub fn new() -> (r: Self)
        ensures
            r.content@ == Seq::<char>::empty(),
            r.response_id is None,
            r.model is None,
            r.usage is None,
            r.stop_reason is None,
            r.tool_calls is None,
            r.tool_call_deltas@ == Seq::<JsonValue>::empty(),
    {
        CollectState {
            content: String::new(),
            response_id: None,
            model: None,
            usage: None,
            stop_reason: None,
            tool_calls: None,
            tool_call_deltas: Vec::new(),
        }
    }

    /// Takes one event into account. Deltas append their text and fill in
    /// the response id and model when still unknown; tool-use events keep
    /// their deltas and complete calls; the message stop overrides what it
    /// carries and ends the collection (`true`).
    pub fn collect_step(&mut self, e: StreamEvent) -> (done: bool)
        ensures
            collect_step_spec(*old(self), e, *final(self), done),
    {
        let ghost e0 = e;
        match e.kind {
            StreamEventKind::MessageDelta => {
                if let Some(d) = e.text_delta {
                    let mut c = chars_of(self.content.as_str());
                    extend_chars(&mut c, chars_of(d.as_str()).as_slice());
                    self.content = string_of(c.as_slice());
                } else {
                    assert(added_text(e0.text_delta) =~= Seq::<char>::empty());
                    assert(self.content@ + Seq::<char>::empty() =~= self.content@);
                }
                let rid = self.response_id.take();
                self.response_id = first_of(rid, e.response_id);
                let m = self.model.take();
                self.model = first_of(m, e.model);
                false
            },
            StreamEventKind::MessageStart => {
                let rid = self.response_id.take();
                self.response_id = first_of(rid, e.response_id);
                let m = self.model.take();
                self.model = first_of(m, e.model);
                false
            },
            StreamEventKind::ToolUseStart | StreamEventKind::ToolUseDelta => {
                if let Some(d) = e.tool_call_delta {
                    self.tool_call_deltas.push(d);
                }
                false
            },
            StreamEventKind::ToolUseStop => {
                let tc = self.tool_calls.take();
                self.tool_calls = first_of(e.tool_calls, tc);
                false
            },
            StreamEventKind::MessageStop => {
                let x = self.stop_reason.take();
                self.stop_reason = first_of(e.stop_reason, x);
                let u = self.usage.take();
                self.usage = first_of(e.usage, u);
                let rid = self.response_id.take();
                self.response_id = first_of(e.response_id, rid);
                let m = self.model.take();
                self.model = first_of(e.model, m);
                let tc = self.tool_calls.take();
                self.tool_calls = first_of(e.tool_calls, tc);
                true
            },
            StreamEventKind::Other => false,
        }
    }
}

/// The response a collected stream describes.
pub struct CollectedResponse {
    /// The response id, or else the stream's request id.
    pub id: String,
    pub stop_reason: Option<String>,
    pub model: String,
    /// The assistant's text.
    pub text: String,
    pub tool_calls: Option<JsonValue>,
    pub tool_call_deltas: Vec<JsonValue>,
    pub usage: Option<JsonValue>,
    pub request_id: Option<String>,
}

/// Ends a collection: the response needs an id (the response id, else the
/// stream's request id) and a model; otherwise a protocol error says which
/// is missing (the id first).
pub fn finish_collect(s: CollectState, request_id: Option<String>) -> (r: Result<CollectedResponse, Error>)
    ensures
        or_else(s.response_id, request_id) is None ==> (r matches Err(Error::StreamProtocol { message, raw_data })
            && message@ == "stream completed without response_id or request_id"@ && raw_data is None),
        or_else(s.response_id, request_id) is Some && s.model is None ==> (r matches Err(
            Error::StreamProtocol { message, raw_data },
        ) && message@ == "stream completed without model information"@ && raw_data is None),
        or_else(s.response_id, request_id) is Some && s.model is Some ==> (r matches Ok(c) && Some(c.id)
            == or_else(s.response_id, request_id) && Some(c.model) == s.model && c.text == s.content
            && c.stop_reason == s.stop_reason && c.tool_calls == s.tool_calls && c.tool_call_deltas
            == s.tool_call_deltas && c.usage == s.usage && c.request_id == request_id),
{
    let id = match first_of(s.response_id, request_id.clone()) {
        Some(id) => id,
        None => {
            return Err(Error::StreamProtocol {
                message: crate::text::owned("stream completed without response_id or request_id"),
                raw_data: None,
            });
        },
    };
    let model = match s.model {
        Some(m) => m,
        None => {
            return Err(Error::StreamProtocol {
                message: crate::text::owned("stream completed without model information"),
                raw_data: None,
            });
        },
    };
    Ok(CollectedResponse {
        id,
        stop_reason: s.stop_reason,
        model,
        text: s.content,
        tool_calls: s.tool_calls,
        tool_call_deltas: s.tool_call_deltas,
        usage: s.usage,
        request_id,
    })
}

/// The text the delta events of `events` carry, joined in order.
pub open spec fn delta_texts(events: Seq<StreamEvent>) -> Seq<char>
    decreases events.len(),
{
    if events.len() == 0 {
        Seq::empty()
    } else {
        delta_texts(events.drop_last()) + if events.last().kind == StreamEventKind::MessageDelta {
            added_text(events.last().text_delta)
        } else {
            Seq::empty()
        }
    }
}

/// Collecting keeps the text in order: after any run of steps, the
/// collected text is what it was, followed by the delta texts of the events
/// in the order they came. A response id, once known, is replaced only by a
/// message stop that carries one.
pub proof fn lemma_collect_appends_in_order(
    states: Seq<CollectState>,
    events: Seq<StreamEvent>,
    dones: Seq<bool>,
)
    requires
        states.len() == events.len() + 1,
        dones.len() == events.len(),
        forall|i: int| 0 <= i < events.len() ==> collect_step_spec(#[trigger] states[i], events[i], states[i + 1], dones[i]),
    ensures
        states.last().content@ == states[0].content@ + delta_texts(events),
        states[0].response_id is Some && (forall|i: int| 0 <= i < events.len() ==> (#[trigger] events[i]).kind != StreamEventKind::MessageStop)
            ==> states.last().response_id == states[0].response_id,
    decreases events.len(),
{
    if events.len() == 0 {
        assert(states[0].content@ + Seq::<char>::empty() =~= states[0].content@);
    } else {
        let n = events.len() - 1;
        let s2 = states.drop_last();
        let e2 = events.drop_last();
        let d2 = dones.drop_last();
        assert forall|i: int| 0 <= i < e2.len() implies collect_step_spec(#[trigger] s2[i], e2[i], s2[i + 1], d2[i]) by {
            assert(collect_step_spec(states[i], events[i], states[i + 1], dones[i]));
        }
        lemma_collect_appends_in_order(s2, e2, d2);
        assert(collect_step_spec(states[n], events[n], states[n + 1], dones[n]));
        assert(s2.last() == states[n]);
        assert(states.last() == states[n + 1]);
        assert(e2 =~= events.drop_last());
        let t = if events.last().kind == StreamEventKind::MessageDelta {
            added_text(events.last().text_delta)
        } else {
            Seq::<char>::empty()
        };
        assert(states[0].content@ + delta_texts(e2) + t =~= states[0].content@ + (delta_texts(e2) + t));
        if events.last().kind != StreamEventKind::MessageDelta {
            assert(states[n].content@ + Seq::<char>::empty() =~= states[n].content@);
        }
        if states[0].response_id is Some && (forall|i: int| 0 <= i < events.len() ==> (#[trigger] events[i]).kind != StreamEventKind::MessageStop) {
            assert forall|i: int| 0 <= i < e2.len() implies (#[trigger] e2[i]).kind != StreamEventKind::MessageStop by {
                assert(e2[i] == events[i]);
            }
            assert(events[n].kind != StreamEventKind::MessageStop);
        }
    }
}

/// Whether an event hands over complete tool calls: a tool-use stop or the
/// message stop that carries them.
pub open spec fn sets_tool_calls(e: StreamEvent) -> bool {
    (e.kind == StreamEventKind::ToolUseStop || e.kind == StreamEventKind::MessageStop) && e.tool_calls is Some
}

/// Complete tool calls, once handed over, are what is collected: after an
/// event that carries them (a tool-use stop or the message stop), the
/// collected tool calls are those calls, until a later such event replaces
/// them; when no event hands any over, the collected tool calls stay as
/// they were.
pub proof fn lemma_collected_tool_calls_are_the_last_handed_over(
    states: Seq<CollectState>,
    events: Seq<StreamEvent>,
    dones: Seq<bool>,
)
    requires
        states.len() == events.len() + 1,
        dones.len() == events.len(),
        forall|i: int| 0 <= i < events.len() ==> collect_step_spec(#[trigger] states[i], events[i], states[i + 1], dones[i]),
    ensures
        forall|i: int|
            0 <= i < events.len() && sets_tool_calls(#[trigger] events[i]) && (forall|j: int|
                i < j < events.len() ==> !sets_tool_calls(#[trigger] events[j])) ==> states.last().tool_calls
                == events[i].tool_calls,
        (forall|j: int| 0 <= j < events.len() ==> !sets_tool_calls(#[trigger] events[j])) ==> states.last().tool_calls
            == states[0].tool_calls,
    decreases events.len(),
{
    if events.len() > 0 {
        let n = events.len() - 1;
        let s2 = states.drop_last();
        let e2 = events.drop_last();
        let d2 = dones.drop_last();
        assert forall|i: int| 0 <= i < e2.len() implies collect_step_spec(#[trigger] s2[i], e2[i], s2[i + 1], d2[i]) by {
            assert(collect_step_spec(states[i], events[i], states[i + 1], dones[i]));
        }
        lemma_collected_tool_calls_are_the_last_handed_over(s2, e2, d2);
        assert(collect_step_spec(states[n], events[n], states[n + 1], dones[n]));
        assert(s2.last() == states[n]);
        assert(states.last() == states[n + 1]);
        assert forall|i: int|
            0 <= i < events.len() && sets_tool_calls(#[trigger] events[i]) && (forall|j: int|
                i < j < events.len() ==> !sets_tool_calls(#[trigger] events[j])) implies states.last().tool_calls
            == events[i].tool_calls by {
            if i < n {
                assert(!sets_tool_calls(events[n]));
                assert(e2[i] == events[i]);
                assert forall|j: int| i < j < e2.len() implies !sets_tool_calls(#[trigger] e2[j]) by {
                    assert(e2[j] == events[j]);
                }
            }
        }
        if forall|j: int| 0 <= j < events.len() ==> !sets_tool_calls(#[trigger] events[j]) {
            assert forall|j: int| 0 <= j < e2.len() implies !sets_tool_calls(#[trigger] e2[j]) by {
                assert(e2[j] == events[j]);
            }
            assert(!sets_tool_calls(events[n]));
        }
    }
}

/// Ends the collection of a blocking stream, which never fails: the id is
/// the response id, else the stream's request id, else `stream`; the model
/// is empty when none was named.
pub fn finish_collect_blocking(s: CollectState, request_id: Option<String>) -> (r: CollectedResponse)
    ensures
        r.id@ == match or_else(s.response_id, request_id) {
            Some(id) => id@,
            None => "stream"@,
        },
        r.model@ == match s.model {
            Some(m) => m@,
            None => Seq::<char>::empty(),
        },
        r.text == s.content,
        r.stop_reason == s.stop_reason,
        r.tool_calls == s.tool_calls,
        r.tool_call_deltas == s.tool_call_deltas,
        r.usage == s.usage,
        r.request_id == request_id,
{
    let id = match first_of(s.response_id, request_id.clone()) {
        Some(id) => id,
        None => crate::text::owned("stream"),
    };
    let model = match s.model {
        Some(m) => m,
        None => String::new(),
    };
    CollectedResponse {
        id,
        stop_reason: s.stop_reason,
        model,
        text: s.content,
        tool_calls: s.tool_calls,
        tool_call_deltas: s.tool_call_deltas,
        usage: s.usage,
        request_id,
    }
}

} // verus!
