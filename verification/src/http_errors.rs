//! Turning a failed HTTP response into an `APIError`: the request id from
//! the headers, and the error envelope read from the JSON body.

use vstd::prelude::*;

use crate::errors::{APIError, Error, FieldError, RetryMetadata};

verus! {

/// A JSON value as the error envelope reads it. Numbers keep only their
/// value as an unsigned 64-bit integer, when they have one.
#[derive(Debug)]
pub enum JsonValue {
    Null,
    Bool(bool),
    Number(Option<u64>),
    Str(String),
    Array(Vec<JsonValue>),
    Object(Vec<(String, JsonValue)>),
}

#[verifier::external_type_specification]
#[verifier::external_body]
pub struct ExJsonValue(serde_json::Value);

/// What `serde_json::from_str::<serde_json::Value>` makes of `text`, in
/// this library's JSON model, or the text of its error.
pub uninterp spec fn json_parse_result(text: Seq<char>) -> Result<JsonValue, Seq<char>>;

/// The parsed value of `text`, or `None` when it is not JSON.
pub open spec fn json_parse(text: Seq<char>) -> Option<JsonValue> {
    match json_parse_result(text) {
        Ok(v) => Some(v),
        Err(_) => None,
    }
}

/// Converts a `serde_json::Value` into the library's JSON model, variant by
/// variant, keeping the map's entries in its order.
#[verifier::external_body]
fn json_value_of(v: &serde_json::Value) -> JsonValue {
    match v {
        serde_json::Value::Null => JsonValue::Null,
        serde_json::Value::Bool(b) => JsonValue::Bool(*b),
        serde_json::Value::Number(n) => JsonValue::Number(n.as_u64()),
        serde_json::Value::String(s) => JsonValue::Str(s.clone()),
        serde_json::Value::Array(a) => JsonValue::Array(a.iter().map(json_value_of).collect()),
        serde_json::Value::Object(m) => JsonValue::Object(
            m.iter().map(|(k, x)| (k.clone(), json_value_of(x))).collect(),
        ),
    }
}

/// Parses `text` with `serde_json::from_str`. What it returns is a function
/// of the text alone, named `json_parse_result`; the JSON grammar and the
/// error texts are not spelled out.
#[verifier::external_body]
pub(crate) fn parse_json_text(text: &str) -> (r: Result<JsonValue, String>)
    ensures
        json_parse_result(text@) == (match r {
            Ok(v) => Ok(v),
            Err(t) => Err(t@),
        }),
{
    match serde_json::from_str::<serde_json::Value>(text) {
        Ok(v) => Ok(json_value_of(&v)),
        Err(e) => Err(e.to_string()),
    }
}

/// Parses `text` as JSON: `None` when it is not JSON.
pub(crate) fn parse_json(text: &str) -> (r: Option<JsonValue>)
    ensures
        r == json_parse(text@),
{
    match parse_json_text(text) {
        Ok(v) => Some(v),
        Err(_) => None,
    }
}

/// The value of the first entry named `key`.
pub open spec fn entries_get(entries: Seq<(String, JsonValue)>, key: Seq<char>) -> Option<JsonValue>
    decreases entries.len(),
{
    if entries.len() == 0 {
        None
    } else if entries[0].0@ == key {
        Some(entries[0].1)
    } else {
        entries_get(entries.drop_first(), key)
    }
}

/// The member `key` of an object (`None` for any other value).
pub open spec fn json_get(v: JsonValue, key: Seq<char>) -> Option<JsonValue> {
    match v {
        JsonValue::Object(m) => entries_get(m@, key),
        _ => None,
    }
}

/// The text of a string value.
pub open spec fn json_str(v: Option<JsonValue>) -> Option<Seq<char>> {
    match v {
        Some(JsonValue::Str(s)) => Some(s@),
        _ => None,
    }
}

/// The value of a non-negative integer.
pub open spec fn json_u64(v: Option<JsonValue>) -> Option<u64> {
    match v {
        Some(JsonValue::Number(n)) => n,
        _ => None,
    }
}

/// An optional string as serde reads one: missing or null is `None`, a
/// string is kept, anything else is refused (outer `None`).
pub open spec fn json_opt_str(v: Option<JsonValue>) -> Option<Option<Seq<char>>> {
    match v {
        None => Some(None),
        Some(JsonValue::Null) => Some(None),
        Some(JsonValue::Str(s)) => Some(Some(s@)),
        _ => None,
    }
}

/// A field error as plain values: the field, if any, and the message.
pub type FieldErrorView = (Option<Seq<char>>, Seq<char>);

/// A field error as serde reads one: an object with an optional `field`
/// and a `message` (other members ignored), or a pair `[field, message]`.
pub open spec fn decode_field_error(v: JsonValue) -> Option<FieldErrorView> {
    match v {
        JsonValue::Object(m) => match json_opt_str(entries_get(m@, "field"@)) {
            Some(f) => match json_str(entries_get(m@, "message"@)) {
                Some(msg) => Some((f, msg)),
                None => None,
            },
            None => None,
        },
        JsonValue::Array(a) => if a@.len() == 2 {
            match json_opt_str(Some(a@[0])) {
                Some(f) => match json_str(Some(a@[1])) {
                    Some(msg) => Some((f, msg)),
                    None => None,
                },
                None => None,
            }
        } else {
            None
        },
        _ => None,
    }
}

/// All items decoded, or `None` when one of them is not a field error.
pub open spec fn decode_all(items: Seq<JsonValue>) -> Option<Seq<FieldErrorView>>
    decreases items.len(),
{
    if items.len() == 0 {
        Some(seq![])
    } else {
        match decode_all(items.drop_last()) {
            None => None,
            Some(done) => match decode_field_error(items.last()) {
                Some(f) => Some(done.push(f)),
                None => None,
            },
        }
    }
}

/// The field errors of a `fields` member: empty unless it is an array of
/// field errors.
pub open spec fn decode_fields(v: Option<JsonValue>) -> Seq<FieldErrorView> {
    match v {
        Some(JsonValue::Array(items)) => match decode_all(items@) {
            Some(fs) => fs,
            None => seq![],
        },
        _ => seq![],
    }
}

/// An API error as plain values (its retry metadata aside).
pub struct ApiErrorView {
    pub status: u16,
    pub code: Option<Seq<char>>,
    pub message: Seq<char>,
    pub request_id: Option<Seq<char>>,
    pub fields: Seq<FieldErrorView>,
    pub raw_body: Option<Seq<char>>,
}

/// The field errors as plain values.
pub open spec fn field_errors_view(v: Seq<FieldError>) -> Seq<FieldErrorView> {
    v.map_values(
        |f: FieldError|
            (
                match f.field {
                    Some(s) => Some(s@),
                    None => None,
                },
                f.message@,
            ),
    )
}

/// An optional string, by its view.
pub open spec fn opt_view(o: Option<String>) -> Option<Seq<char>> {
    match o {
        Some(s) => Some(s@),
        None => None,
    }
}

/// The API error as plain values.
pub open spec fn api_error_view(e: APIError) -> ApiErrorView {
    ApiErrorView {
        status: e.status,
        code: opt_view(e.code),
        message: e.message@,
        request_id: opt_view(e.request_id),
        fields: field_errors_view(e.fields@),
        raw_body: opt_view(e.raw_body),
    }
}

/// The error reported for a failed response: with an empty body, the
/// status text; else, when the body is JSON holding an `error` object, that
/// object's code, message (the status text when missing), status (when
/// it has one) and fields; else, when it holds a string `message`, that
/// message with the top-level code and fields; else the body itself as
/// message. A `request_id` (or, when absent, `requestId`) string of the
/// body takes precedence over the header's request id.
pub open spec fn api_error_envelope(
    status: u16,
    status_text: Seq<char>,
    header_id: Option<Seq<char>>,
    body: Seq<char>,
    parsed: Option<JsonValue>,
) -> ApiErrorView {
    let fallback = ApiErrorView {
        status,
        code: None,
        message: body,
        request_id: header_id,
        fields: seq![],
        raw_body: Some(body),
    };
    if body.len() == 0 {
        ApiErrorView {
            status,
            code: None,
            message: status_text,
            request_id: header_id,
            fields: seq![],
            raw_body: None,
        }
    } else {
        match parsed {
            None => fallback,
            Some(value) => {
                let rid_value = match json_get(value, "request_id"@) {
                    Some(x) => Some(x),
                    None => json_get(value, "requestId"@),
                };
                let rid = match json_str(rid_value) {
                    Some(s) => Some(s),
                    None => header_id,
                };
                match json_get(value, "error"@) {
                    Some(JsonValue::Object(m)) => {
                        let e = JsonValue::Object(m);
                        ApiErrorView {
                            status: match json_u64(json_get(e, "status"@)) {
                                Some(v) => (v % 65536) as u16,
                                None => status,
                            },
                            code: json_str(json_get(e, "code"@)),
                            message: match json_str(json_get(e, "message"@)) {
                                Some(msg) => msg,
                                None => status_text,
                            },
                            request_id: rid,
                            fields: decode_fields(json_get(e, "fields"@)),
                            raw_body: Some(body),
                        }
                    },
                    _ => match json_str(json_get(value, "message"@)) {
                        Some(msg) => ApiErrorView {
                            status,
                            code: json_str(json_get(value, "code"@)),
                            message: msg,
                            request_id: rid,
                            fields: decode_fields(json_get(value, "fields"@)),
                            raw_body: Some(body),
                        },
                        None => fallback,
                    },
                }
            },
        }
    }
}

/// The request id of a response: the first non-empty one of the
/// `X-ModelRelay-Request-Id` and `X-Request-Id` header values (each given
/// when present and readable as text).
pub fn request_id_from_headers(primary: Option<String>, secondary: Option<String>) -> (r: Option<String>)
    ensures
        opt_view(r) == (if primary matches Some(p) && p@.len() > 0 {
            opt_view(primary)
        } else if secondary matches Some(s) && s@.len() > 0 {
            opt_view(secondary)
        } else {
            None
        }),
{
    if let Some(p) = &primary {
        if !p.as_str().is_empty() {
            return primary;
        }
    }
    if let Some(s) = &secondary {
        if !s.as_str().is_empty() {
            return secondary;
        }
    }
    None
}

fn entries_lookup<'a>(entries: &'a Vec<(String, JsonValue)>, key: &str) -> (r: Option<&'a JsonValue>)
    ensures
        match r {
            Some(x) => entries_get(entries@, key@) == Some(*x),
            None => entries_get(entries@, key@) is None,
        },
{
    let ghost l = entries@;
    let mut k: usize = 0;
    assert(l.skip(0) =~= l);
    while k < entries.len()
        invariant
            k <= entries@.len(),
            l == entries@,
            entries_get(l, key@) == entries_get(l.skip(k as int), key@),
        decreases entries@.len() - k,
    {
        assert(l.skip(k as int)[0] == l[k as int]);
        if crate::text::str_eq(entries[k].0.as_str(), key) {
            return Some(&entries[k].1);
        }
        assert(l.skip(k as int).drop_first() =~= l.skip(k + 1));
        k += 1;
    }
    None
}

pub(crate) fn get<'a>(v: &'a JsonValue, key: &str) -> (r: Option<&'a JsonValue>)
    ensures
        match r {
            Some(x) => json_get(*v, key@) == Some(*x),
            None => json_get(*v, key@) is None,
        },
{
    match v {
        JsonValue::Object(m) => entries_lookup(m, key),
        _ => None,
    }
}

pub(crate) fn str_value(v: Option<&JsonValue>) -> (r: Option<String>)
    ensures
        opt_view(r) == json_str(
            match v {
                Some(x) => Some(*x),
                None => None,
            },
        ),
{
    match v {
        Some(JsonValue::Str(s)) => Some(s.clone()),
        _ => None,
    }
}

fn opt_str_value(v: Option<&JsonValue>) -> (r: Option<Option<String>>)
    ensures
        match r {
            Some(o) => json_opt_str(
                match v {
                    Some(x) => Some(*x),
                    None => None,
                },
            ) == Some(opt_view(o)),
            None => json_opt_str(
                match v {
                    Some(x) => Some(*x),
                    None => None,
                },
            ) is None,
        },
{
    match v {
        None => Some(None),
        Some(JsonValue::Null) => Some(None),
        Some(JsonValue::Str(s)) => Some(Some(s.clone())),
        _ => None,
    }
}

fn decode_one(v: &JsonValue) -> (r: Option<FieldError>)
    ensures
        match r {
            Some(f) => decode_field_error(*v) == Some(
                (
                    match f.field {
                        Some(s) => Some(s@),
                        None => None,
                    },
                    f.message@,
                ),
            ),
            None => decode_field_error(*v) is None,
        },
{
    match v {
        JsonValue::Object(m) => {
            let field = match opt_str_value(entries_lookup(m, "field")) {
                Some(f) => f,
                None => {
                    return None;
                },
            };
            match str_value(entries_lookup(m, "message")) {
                Some(message) => Some(FieldError { field, message }),
                None => None,
            }
        },
        JsonValue::Array(a) => {
            if a.len() != 2 {
                return None;
            }
            let field = match opt_str_value(Some(&a[0])) {
                Some(f) => f,
                None => {
                    return None;
                },
            };
            match str_value(Some(&a[1])) {
                Some(message) => Some(FieldError { field, message }),
                None => None,
            }
        },
        _ => None,
    }
}

fn no_fields() -> (r: Vec<FieldError>)
    ensures
        field_errors_view(r@) == Seq::<FieldErrorView>::empty(),
{
    let r: Vec<FieldError> = Vec::new();
    assert(field_errors_view(r@) =~= Seq::<FieldErrorView>::empty());
    r
}

#[verifier::loop_isolation(false)]
fn fields_value(v: Option<&JsonValue>) -> (r: Vec<FieldError>)
    ensures
        field_errors_view(r@) == decode_fields(
            match v {
                Some(x) => Some(*x),
                None => None,
            },
        ),
{
    let items = match v {
        Some(JsonValue::Array(items)) => items,
        _ => {
            return no_fields();
        },
    };
    let ghost iv = items@;
    let mut out: Vec<FieldError> = Vec::new();
    let mut i: usize = 0;
    assert(iv.take(0) =~= Seq::<JsonValue>::empty());
    while i < items.len()
        invariant
            i <= items@.len(),
            iv == items@,
            decode_all(iv.take(i as int)) == Some(field_errors_view(out@)),
        decreases items@.len() - i,
    {
        assert(iv.take(i + 1).drop_last() =~= iv.take(i as int));
        assert(iv.take(i + 1).last() == items@[i as int]);
        match decode_one(&items[i]) {
            Some(f) => {
                let ghost o = out@;
                out.push(f);
                assert(field_errors_view(out@) =~= field_errors_view(o).push(
                    field_errors_view(out@).last(),
                ));
            },
            None => {
                proof {
                    lemma_decode_all_prefix(iv, i + 1);
                }
                return no_fields();
            },
        }
        i += 1;
    }
    assert(iv.take(iv.len() as int) =~= iv);
    out
}

proof fn lemma_decode_all_prefix(items: Seq<JsonValue>, n: int)
    requires
        0 <= n <= items.len(),
        decode_all(items.take(n)) is None,
    ensures
        decode_all(items) is None,
    decreases items.len() - n,
{
    if n < items.len() {
        assert(items.take(n + 1).drop_last() =~= items.take(n));
        lemma_decode_all_prefix(items, n + 1);
    } else {
        assert(items.take(n) =~= items);
    }
}

fn u64_value(v: Option<&JsonValue>) -> (r: Option<u64>)
    ensures
        r == json_u64(
            match v {
                Some(x) => Some(*x),
                None => None,
            },
        ),
{
    match v {
        Some(JsonValue::Number(n)) => *n,
        _ => None,
    }
}

fn truncate_u16(v: u64) -> (r: u16)
    ensures
        r == (v % 65536) as u16,
{
    (v % 65536) as u16
}

/// Builds the API error of a failed response from its status, the status's
/// canonical reason (if it has one), the request id header, its body, and
/// what the body parsed to as JSON.
pub fn api_error_from_parts(
    status: u16,
    canonical_reason: Option<String>,
    header_id: Option<String>,
    body: String,
    parsed: Option<JsonValue>,
    retries: Option<RetryMetadata>,
) -> (r: APIError)
    ensures
        api_error_view(r) == api_error_envelope(
            status,
            match canonical_reason {
                Some(s) => s@,
                None => "request failed"@,
            },
            opt_view(header_id),
            body@,
            parsed,
        ),
        r.retries == retries,
{
    let status_text = match canonical_reason {
        Some(s) => s,
        None => crate::text::owned("request failed"),
    };
    if body.as_str().is_empty() {
        return APIError {
            status,
            code: None,
            message: status_text,
            request_id: header_id,
            fields: no_fields(),
            retries,
            raw_body: None,
        };
    }
    let value = match &parsed {
        Some(v) => v,
        None => {
            return APIError {
                status,
                code: None,
                message: body.clone(),
                request_id: header_id,
                fields: no_fields(),
                retries,
                raw_body: Some(body),
            };
        },
    };
    let rid_value = match get(value, "request_id") {
        Some(x) => Some(x),
        None => get(value, "requestId"),
    };
    let rid = match str_value(rid_value) {
        Some(s) => Some(s),
        None => header_id.clone(),
    };
    match get(value, "error") {
        Some(e) if matches!(e, JsonValue::Object(_)) => {
            let status_override = match u64_value(get(e, "status")) {
                Some(v) => truncate_u16(v),
                None => status,
            };
            let message = match str_value(get(e, "message")) {
                Some(m) => m,
                None => status_text,
            };
            return APIError {
                status: status_override,
                code: str_value(get(e, "code")),
                message,
                request_id: rid,
                fields: fields_value(get(e, "fields")),
                retries,
                raw_body: Some(body),
            };
        },
        _ => {},
    }
    match str_value(get(value, "message")) {
        Some(message) => APIError {
            status,
            code: str_value(get(value, "code")),
            message,
            request_id: rid,
            fields: fields_value(get(value, "fields")),
            retries,
            raw_body: Some(body),
        },
        None => APIError {
            status,
            code: None,
            message: body.clone(),
            request_id: header_id,
            fields: no_fields(),
            retries,
            raw_body: Some(body),
        },
    }
}

/// Builds the error of a failed response, parsing its body as JSON.
pub fn parse_api_error_parts(
    status: u16,
    canonical_reason: Option<String>,
    header_id: Option<String>,
    body: String,
    retries: Option<RetryMetadata>,
) -> (r: Error)
    ensures
        r matches Error::Api(e) && api_error_view(e) == api_error_envelope(
            status,
            match canonical_reason {
                Some(s) => s@,
                None => "request failed"@,
            },
            opt_view(header_id),
            body@,
            json_parse(body@),
        ) && e.retries == retries,
{
    let parsed = parse_json(body.as_str());
    Error::Api(api_error_from_parts(status, canonical_reason, header_id, body, parsed, retries))
}

/// What `reqwest::StatusCode::canonical_reason` gives for a status code:
/// the reason phrase registered for it, if any.
pub uninterp spec fn status_canonical_reason(code: u16) -> Option<Seq<char>>;

/// Calls `reqwest::StatusCode::from_u16` (which accepts 100 to 999) and
/// `canonical_reason` on the status. What it gives is named
/// `status_canonical_reason`; the table of phrases is left unsaid.
#[verifier::external_body]
pub(crate) fn canonical_reason_of(status: u16) -> (r: Option<String>)
    requires
        100 <= status <= 999,
    ensures
        opt_view(r) == status_canonical_reason(status),
{
    match reqwest::StatusCode::from_u16(status) {
        Ok(code) => code.canonical_reason().map(|t| t.to_string()),
        Err(_) => None,
    }
}

/// The error of a failed response with status `status` (which a response
/// always has in 100..=999), the values of its `X-ModelRelay-Request-Id` and
/// `X-Request-Id` headers, and its body: the envelope is read as in
/// [`parse_api_error_parts`], with the status's canonical reason.
pub fn parse_api_error(
    status: u16,
    request_id_header: Option<String>,
    fallback_request_id_header: Option<String>,
    body: String,
    retries: Option<RetryMetadata>,
) -> (r: Error)
    requires
        100 <= status <= 999,
    ensures
        r matches Error::Api(e) && api_error_view(e) == api_error_envelope(
            status,
            match status_canonical_reason(status) {
                Some(s) => s,
                None => "request failed"@,
            },
            (if request_id_header matches Some(p) && p@.len() > 0 {
                opt_view(request_id_header)
            } else if fallback_request_id_header matches Some(s) && s@.len() > 0 {
                opt_view(fallback_request_id_header)
            } else {
                None
            }),
            body@,
            json_parse(body@),
        ) && e.retries == retries,
{
    let header_id = request_id_from_headers(request_id_header, fallback_request_id_header);
    let reason = canonical_reason_of(status);
    parse_api_error_parts(status, reason, header_id, body, retries)
}

} // verus!
