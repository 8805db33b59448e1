//! Records of a structured JSON stream: which ones carry a payload, which
//! end the stream with an error, when the stream has ended properly, and
//! which payload a drained stream stands for.
//!
//! A record's payload is read by the caller into its own type from the
//! record's `payload` member; everything else a record says is decided here.

use vstd::prelude::*;

use crate::bash_tokenizer::strings_view;
use crate::errors::{APIError, Error, TransportError, TransportErrorKind};
use crate::http_errors::{get, json_get, json_str, json_u64, opt_view, str_value, JsonValue};
use crate::plugin_markdown::{to_lowercase, unicode_lowercase};
use crate::plugins::dedup;
use crate::text::{chars_of, str_eq, string_of, trim, trim_chars};

verus! {

/// Kind of structured record.
#[derive(Debug, Clone, Copy, PartialEq, Eq)]
pub enum StructuredRecordKind {
    Update,
    Completion,
}

/// Structured JSON event (parsed from NDJSON envelope).
#[derive(Debug, Clone)]
pub struct StructuredJSONEvent<T> {
    pub kind: StructuredRecordKind,
    pub payload: T,
    pub request_id: Option<String>,
    pub complete_fields: Vec<String>,
}

/// What one record of a structured stream is, its payload aside.
#[derive(Debug)]
pub enum StructuredRecord {
    /// An update or the completion; the caller reads its payload.
    Event {
        kind: StructuredRecordKind,
        request_id: Option<String>,
        complete_fields: Vec<String>,
    },
    /// An `error` record: the stream ends with this error.
    ApiError(APIError),
    /// A record that breaks the stream's protocol.
    Invalid(Error),
    /// A record the stream passes over.
    Skip,
}

/// The texts of the string items, in order; other items are left out.
pub open spec fn string_items(items: Seq<JsonValue>) -> Seq<Seq<char>>
    decreases items.len(),
{
    if items.len() == 0 {
        seq![]
    } else {
        let rest = string_items(items.drop_last());
        match items.last() {
            JsonValue::Str(s) => rest.push(s@),
            _ => rest,
        }
    }
}

/// The fields a record marks complete: the strings of its
/// `complete_fields` array, none when it has no such array.
pub open spec fn complete_fields_of(v: JsonValue) -> Seq<Seq<char>> {
    match json_get(v, "complete_fields"@) {
        Some(JsonValue::Array(items)) => string_items(items@),
        _ => seq![],
    }
}

/// The record's `type` member when it is a string, else empty.
pub open spec fn record_type(v: JsonValue) -> Seq<char> {
    match json_str(json_get(v, "type"@)) {
        Some(t) => t,
        None => seq![],
    }
}

/// The request id of a record: its own, else the stream's.
pub open spec fn record_request_id(own: Option<String>, stream: Option<String>) -> Option<Seq<char>> {
    match own {
        Some(r) => Some(r@),
        None => opt_view(stream),
    }
}

/// The API error an `error` record stands for: its status (as a 16-bit
/// number; 500 when absent), code and message (a fixed text when absent).
pub open spec fn is_record_error(e: APIError, v: JsonValue, request_id: Option<Seq<char>>) -> bool {
    &&& e.status == (match json_u64(json_get(v, "status"@)) {
        Some(n) => n as u16,
        None => 500u16,
    })
    &&& opt_view(e.code) == json_str(json_get(v, "code"@))
    &&& e.message@ == (match json_str(json_get(v, "message"@)) {
        Some(m) => m,
        None => "structured stream error"@,
    })
    &&& opt_view(e.request_id) == request_id
    &&& e.fields@.len() == 0
    &&& e.retries is None
    &&& e.raw_body is None
}

/// An event record of the given kind, request id and complete fields.
pub open spec fn is_event(
    r: StructuredRecord,
    kind: StructuredRecordKind,
    request_id: Option<Seq<char>>,
    fields: Seq<Seq<char>>,
) -> bool {
    &&& r matches StructuredRecord::Event { kind: k, request_id: rid, complete_fields: cf }
    &&& k == kind
    &&& opt_view(rid) == request_id
    &&& strings_view(cf@) == fields
}

/// The transport error of a stream that breaks its protocol.
pub open spec fn is_request_error(e: Error, message: Seq<char>) -> bool {
    e matches Error::Transport(t) && (t.kind == TransportErrorKind::Request && t.message@ == message
        && t.retries is None)
}

fn request_error(message: &str) -> (e: Error)
    ensures
        is_request_error(e, message@),
{
    Error::Transport(
        TransportError {
            kind: TransportErrorKind::Request,
            message: crate::text::owned(message),
            retries: None,
        },
    )
}

fn string_items_of(items: &Vec<JsonValue>) -> (r: Vec<String>)
    ensures
        strings_view(r@) == string_items(items@),
{
    let ghost l = items@;
    let mut out: Vec<String> = Vec::new();
    let mut i: usize = 0;
    assert(l.take(0) =~= Seq::<JsonValue>::empty());
    assert(strings_view(out@) =~= Seq::<Seq<char>>::empty());
    while i < items.len()
        invariant
            i <= l.len(),
            l == items@,
            strings_view(out@) == string_items(l.take(i as int)),
        decreases l.len() - i,
    {
        assert(l.take(i + 1).drop_last() =~= l.take(i as int));
        assert(l.take(i + 1).last() == l[i as int]);
        match &items[i] {
            JsonValue::Str(s) => {
                let ghost before = out@;
                out.push(s.clone());
                assert(strings_view(out@) =~= strings_view(before).push(s@));
            },
            _ => {},
        }
        i += 1;
    }
    assert(l.take(l.len() as int) =~= l);
    out
}

fn complete_fields(v: &JsonValue) -> (r: Vec<String>)
    ensures
        strings_view(r@) == complete_fields_of(*v),
{
    match get(v, "complete_fields") {
        Some(JsonValue::Array(items)) => string_items_of(items),
        _ => {
            let out: Vec<String> = Vec::new();
            assert(strings_view(out@) =~= Seq::<Seq<char>>::empty());
            out
        },
    }
}

fn choose_request_id(own: Option<String>, stream: Option<String>) -> (r: Option<String>)
    ensures
        opt_view(r) == record_request_id(own, stream),
{
    match own {
        Some(x) => Some(x),
        None => stream,
    }
}

fn record_error(v: &JsonValue, request_id: Option<String>) -> (e: APIError)
    ensures
        is_record_error(e, *v, opt_view(request_id)),
{
    let status: u16 = match get(v, "status") {
        Some(JsonValue::Number(Some(n))) => *n as u16,
        _ => 500,
    };
    let message = match str_value(get(v, "message")) {
        Some(m) => m,
        None => crate::text::owned("structured stream error"),
    };
    APIError {
        status,
        code: str_value(get(v, "code")),
        message,
        request_id,
        fields: Vec::new(),
        retries: None,
        raw_body: None,
    }
}

/// A record of a responses stream: `update` and `completion` records are
/// events, `error` records end the stream with an API error, and anything
/// else (including data that is not an object) is passed over. The record
/// type is matched exactly.
pub fn parse_structured_record(
    data: &Option<JsonValue>,
    event_request_id: Option<String>,
    stream_request_id: Option<String>,
) -> (r: StructuredRecord)
    ensures
        match *data {
            Some(JsonValue::Object(m)) => {
                let v = JsonValue::Object(m);
                let t = record_type(v);
                let rid = record_request_id(event_request_id, stream_request_id);
                if t == "update"@ {
                    is_event(r, StructuredRecordKind::Update, rid, complete_fields_of(v))
                } else if t == "completion"@ {
                    is_event(r, StructuredRecordKind::Completion, rid, complete_fields_of(v))
                } else if t == "error"@ {
                    r matches StructuredRecord::ApiError(e) && is_record_error(e, v, rid)
                } else {
                    r is Skip
                }
            },
            _ => r is Skip,
        },
{
    let v = match data {
        Some(v) => v,
        None => {
            return StructuredRecord::Skip;
        },
    };
    match v {
        JsonValue::Object(_) => {},
        _ => {
            return StructuredRecord::Skip;
        },
    }
    let t = match str_value(get(v, "type")) {
        Some(t) => t,
        None => String::new(),
    };
    let request_id = choose_request_id(event_request_id, stream_request_id);
    if str_eq(t.as_str(), "update") {
        StructuredRecord::Event {
            kind: StructuredRecordKind::Update,
            request_id,
            complete_fields: complete_fields(v),
        }
    } else if str_eq(t.as_str(), "completion") {
        StructuredRecord::Event {
            kind: StructuredRecordKind::Completion,
            request_id,
            complete_fields: complete_fields(v),
        }
    } else if str_eq(t.as_str(), "error") {
        StructuredRecord::ApiError(record_error(v, request_id))
    } else {
        StructuredRecord::Skip
    }
}

fn dedup_strings(v: Vec<String>) -> (r: Vec<String>)
    ensures
        strings_view(r@) == dedup(strings_view(v@)),
{
    let ghost sv = strings_view(v@);
    let mut out: Vec<String> = Vec::new();
    let mut i: usize = 0;
    assert(sv.take(0) =~= Seq::<Seq<char>>::empty());
    assert(strings_view(out@) =~= Seq::<Seq<char>>::empty());
    while i < v.len()
        invariant
            i <= v@.len(),
            sv == strings_view(v@),
            strings_view(out@) == dedup(sv.take(i as int)),
        decreases v@.len() - i,
    {
        assert(sv.take(i + 1).drop_last() =~= sv.take(i as int));
        assert(sv.take(i + 1).last() == v@[i as int]@);
        let ghost ov = strings_view(out@);
        let mut seen = false;
        let mut j: usize = 0;
        while j < out.len()
            invariant
                j <= out@.len(),
                ov == strings_view(out@),
                i < v@.len(),
                seen == (exists|k: int| 0 <= k < j && ov[k] == v@[i as int]@),
            decreases out@.len() - j,
        {
            if str_eq(out[j].as_str(), v[i].as_str()) {
                seen = true;
            }
            assert(ov[j as int] == out@[j as int]@);
            j += 1;
        }
        assert(seen == ov.contains(v@[i as int]@));
        if !seen {
            let s = v[i].clone();
            out.push(s);
            assert(strings_view(out@) =~= ov.push(v@[i as int]@));
        }
        i += 1;
    }
    assert(sv.take(v@.len() as int) =~= sv);
    out
}

/// The record type a chat stream reads: the `type` member trimmed and
/// lower-cased when it is a string, else empty.
pub open spec fn chat_record_type(v: JsonValue) -> Seq<char> {
    match json_str(json_get(v, "type"@)) {
        Some(t) => unicode_lowercase(trim(t)),
        None => seq![],
    }
}

/// A record of a chat stream. Data that is not an object, an empty or
/// `start` type, and unknown types are passed over; `update` and
/// `completion` records must carry a `payload` member (else the stream is
/// broken) and mark each complete field once; `error` records end the
/// stream with an API error.
pub fn parse_chat_structured_record(
    data: &Option<JsonValue>,
    event_request_id: Option<String>,
    stream_request_id: Option<String>,
) -> (r: StructuredRecord)
    ensures
        match *data {
            Some(JsonValue::Object(m)) => {
                let v = JsonValue::Object(m);
                let t = chat_record_type(v);
                let rid = record_request_id(event_request_id, stream_request_id);
                let fields = dedup(complete_fields_of(v));
                if t == "update"@ || t == "completion"@ {
                    if json_get(v, "payload"@) is None {
                        r matches StructuredRecord::Invalid(e) && is_request_error(
                            e,
                            "structured stream record missing payload"@,
                        )
                    } else if t == "update"@ {
                        is_event(r, StructuredRecordKind::Update, rid, fields)
                    } else {
                        is_event(r, StructuredRecordKind::Completion, rid, fields)
                    }
                } else if t == "error"@ {
                    r matches StructuredRecord::ApiError(e) && is_record_error(e, v, rid)
                } else {
                    r is Skip
                }
            },
            _ => r is Skip,
        },
{
    let v = match data {
        Some(v) => v,
        None => {
            return StructuredRecord::Skip;
        },
    };
    match v {
        JsonValue::Object(_) => {},
        _ => {
            return StructuredRecord::Skip;
        },
    }
    let t = match str_value(get(v, "type")) {
        Some(raw) => {
            let c = chars_of(raw.as_str());
            let trimmed = string_of(trim_chars(c.as_slice()).as_slice());
            to_lowercase(trimmed.as_str())
        },
        None => String::new(),
    };
    let is_update = str_eq(t.as_str(), "update");
    let is_completion = str_eq(t.as_str(), "completion");
    if is_update || is_completion {
        if get(v, "payload").is_none() {
            return StructuredRecord::Invalid(
                request_error("structured stream record missing payload"),
            );
        }
        let kind = if is_update {
            StructuredRecordKind::Update
        } else {
            StructuredRecordKind::Completion
        };
        StructuredRecord::Event {
            kind,
            request_id: choose_request_id(event_request_id, stream_request_id),
            complete_fields: dedup_strings(complete_fields(v)),
        }
    } else if str_eq(t.as_str(), "error") {
        StructuredRecord::ApiError(
            record_error(v, choose_request_id(event_request_id, stream_request_id)),
        )
    } else {
        StructuredRecord::Skip
    }
}

/// Whether a record counts as a proper end of the stream.
pub open spec fn ends_properly(r: StructuredRecord) -> bool {
    ||| r matches StructuredRecord::Event { kind: StructuredRecordKind::Completion, .. }
    ||| r is ApiError
}

/// Where a structured stream stands: whether it has run out, and whether a
/// completion or an error record was seen.
#[derive(Debug, Clone, Copy, PartialEq, Eq)]
pub struct StructuredStreamState {
    pub finished: bool,
    pub saw_completion: bool,
}

impl StructuredStreamState {
    pub fn new() -> (s: Self)
        ensures
            !s.finished,
            !s.saw_completion,
    {
        StructuredStreamState { finished: false, saw_completion: false }
    }

    /// Takes note of a record handed to the caller.
    pub fn observe(&mut self, record: &StructuredRecord)
        ensures
            final(self).finished == old(self).finished,
            final(self).saw_completion == (old(self).saw_completion || ends_properly(*record)),
    {
        match record {
            StructuredRecord::Event { kind: StructuredRecordKind::Completion, .. } => {
                self.saw_completion = true;
            },
            StructuredRecord::ApiError(_) => {
                self.saw_completion = true;
            },
            _ => {},
        }
    }

    /// The stream ran out of records: later reads yield nothing, and it is
    /// an error unless a completion or an error record was seen.
    pub fn finish(&mut self) -> (r: Result<(), Error>)
        ensures
            final(self).finished,
            final(self).saw_completion == old(self).saw_completion,
            r is Ok <==> old(self).saw_completion,
            r matches Err(e) ==> is_request_error(
                e,
                "structured stream ended without completion or error"@,
            ),
    {
        self.finished = true;
        if self.saw_completion {
            Ok(())
        } else {
            Err(request_error("structured stream ended without completion or error"))
        }
    }
}

/// Drains a structured stream into one payload: that of the first
/// completion, else that of the last update.
#[derive(Debug)]
pub struct StructuredCollector<T> {
    pub last: Option<T>,
}

impl<T> StructuredCollector<T> {
    pub fn new() -> (c: Self)
        ensures
            c.last is None,
    {
        StructuredCollector { last: None }
    }

    /// Takes an event: a completion's payload is the result; an update's
    /// payload is kept as the latest.
    pub fn push(&mut self, event: StructuredJSONEvent<T>) -> (r: Option<T>)
        ensures
            event.kind == StructuredRecordKind::Completion ==> r == Some(event.payload)
                && final(self).last == old(self).last,
            event.kind == StructuredRecordKind::Update ==> r is None && final(self).last == Some(
                event.payload,
            ),
    {
        match event.kind {
            StructuredRecordKind::Completion => Some(event.payload),
            StructuredRecordKind::Update => {
                self.last = Some(event.payload);
                None
            },
        }
    }

    /// The stream ended without a completion: the latest update's payload,
    /// or an error when there was none.
    pub fn finish(self) -> (r: Result<T, Error>)
        ensures
            self.last matches Some(p) ==> r == Ok::<T, Error>(p),
            self.last is None ==> (r matches Err(e) && is_request_error(
                e,
                "structured stream ended without completion or error"@,
            )),
    {
        match self.last {
            Some(p) => Ok(p),
            None => Err(request_error("structured stream ended without completion or error")),
        }
    }
}

} // verus!
