//! Error types surfaced by the SDK.
//!
//! `Display` output is available through each type's `to_string` method,
//! whose contract gives the exact text.

use vstd::prelude::*;

use crate::text::{chars_of, decimal, decimal_chars, extend_chars, extend_str, opt_eq_str, string_of};

verus! {

/// Retry metadata surfaced on transport/API errors when retries were attempted.
#[derive(Debug, Clone, PartialEq, Eq)]
pub struct RetryMetadata {
    pub attempts: u32,
    pub last_status: Option<u16>,
    pub last_error: Option<String>,
}

/// Field-level validation error returned by the API.
#[derive(Debug, Clone, PartialEq, Eq)]
pub struct FieldError {
    pub field: Option<String>,
    pub message: String,
}

/// Workflow semantic validation error returned by the API compiler (`/workflows/compile`).
#[derive(Debug, Clone, PartialEq, Eq)]
pub struct WorkflowValidationIssue {
    pub code: String,
    pub path: String,
    pub message: String,
}

/// Typed workflow validation error surfaced by the SDK.
///
/// Note: `request_id` and `retries` are populated from HTTP metadata when available;
/// they are not part of the server's JSON payload.
#[derive(Debug, Clone, PartialEq, Eq)]
pub struct WorkflowValidationError {
    pub issues: Vec<WorkflowValidationIssue>,
    pub request_id: Option<String>,
    pub retries: Option<RetryMetadata>,
}

/// Text of a workflow validation error: the first issue, and how many follow.
pub open spec fn workflow_error_text(issues: Seq<WorkflowValidationIssue>) -> Seq<char> {
    if issues.len() == 0 {
        "workflow validation error"@
    } else if issues.len() == 1 {
        issues[0].path@ + ": "@ + issues[0].message@
    } else {
        issues[0].path@ + ": "@ + issues[0].message@ + " (and "@ + decimal((issues.len() - 1) as nat)
            + " more)"@
    }
}

impl WorkflowValidationError {
    /// The `Display` text of this error.
    pub fn to_string(&self) -> (r: String)
        ensures
            r@ == workflow_error_text(self.issues@),
    {
        if self.issues.len() == 0 {
            return crate::text::owned("workflow validation error");
        }
        let first = &self.issues[0];
        let mut out = chars_of(first.path.as_str());
        extend_str(&mut out, ": ");
        let m = chars_of(first.message.as_str());
        extend_chars(&mut out, m.as_slice());
        if self.issues.len() > 1 {
            extend_str(&mut out, " (and ");
            let n = decimal_chars((self.issues.len() - 1) as u64);
            extend_chars(&mut out, n.as_slice());
            extend_str(&mut out, " more)");
        }
        string_of(out.as_slice())
    }
}

/// Structured validation/build error returned by the SDK.
#[derive(Debug, Clone, PartialEq, Eq)]
pub struct ValidationError {
    pub message: String,
    pub field: Option<String>,
}

pub open spec fn validation_error_text(e: ValidationError) -> Seq<char> {
    match e.field {
        Some(f) => f@ + ": "@ + e.message@,
        None => e.message@,
    }
}

impl ValidationError {
    pub fn new(message: &str) -> (r: Self)
        ensures
            r.message@ == message@,
            r.field is None,
    {
        Self { message: crate::text::owned(message), field: None }
    }

    pub fn with_field(self, field: &str) -> (r: Self)
        ensures
            r.message == self.message,
            r.field matches Some(f) && f@ == field@,
    {
        let mut s = self;
        s.field = Some(crate::text::owned(field));
        s
    }

    /// The `Display` text: `field: message`, or the message alone.
    pub fn to_string(&self) -> (r: String)
        ensures
            r@ == validation_error_text(*self),
    {
        match &self.field {
            Some(f) => {
                let mut out = chars_of(f.as_str());
                extend_str(&mut out, ": ");
                let m = chars_of(self.message.as_str());
                extend_chars(&mut out, m.as_slice());
                string_of(out.as_slice())
            },
            None => self.message.clone(),
        }
    }
}

/// Structured error envelope returned by the API.
#[derive(Debug, Clone, PartialEq, Eq)]
pub struct APIError {
    pub status: u16,
    pub code: Option<String>,
    pub message: String,
    pub request_id: Option<String>,
    pub fields: Vec<FieldError>,
    pub retries: Option<RetryMetadata>,
    /// Raw response body for debugging (when available).
    pub raw_body: Option<String>,
}

/// `code` is present and equal to `lit`.
pub open spec fn code_is(code: Option<String>, lit: &str) -> bool {
    code matches Some(c) && c@ == lit@
}

pub open spec fn api_error_text(e: APIError) -> Seq<char> {
    match e.code {
        Some(c) => c@ + " ("@ + decimal(e.status as nat) + "): "@ + e.message@,
        None => decimal(e.status as nat) + ": "@ + e.message@,
    }
}

impl APIError {
    pub fn new(status: u16, message: &str) -> (r: Self)
        ensures
            r.status == status,
            r.code is None,
            r.message@ == message@,
            r.request_id is None,
            r.fields@.len() == 0,
            r.retries is None,
            r.raw_body is None,
    {
        Self {
            status,
            code: None,
            message: crate::text::owned(message),
            request_id: None,
            fields: Vec::new(),
            retries: None,
            raw_body: None,
        }
    }

    /// Returns true if the error is a not found error.
    pub fn is_not_found(&self) -> (r: bool)
        ensures
            r == code_is(self.code, "NOT_FOUND"),
    {
        opt_eq_str(&self.code, "NOT_FOUND")
    }

    /// Returns true if the error is a validation error.
    pub fn is_validation(&self) -> (r: bool)
        ensures
            r == (code_is(self.code, "VALIDATION_ERROR") || code_is(self.code, "INVALID_INPUT")),
    {
        opt_eq_str(&self.code, "VALIDATION_ERROR") || opt_eq_str(&self.code, "INVALID_INPUT")
    }

    /// Returns true if the error is a rate limit error.
    pub fn is_rate_limit(&self) -> (r: bool)
        ensures
            r == code_is(self.code, "RATE_LIMIT"),
    {
        opt_eq_str(&self.code, "RATE_LIMIT")
    }

    /// Returns true if the error is an unauthorized error.
    pub fn is_unauthorized(&self) -> (r: bool)
        ensures
            r == code_is(self.code, "UNAUTHORIZED"),
    {
        opt_eq_str(&self.code, "UNAUTHORIZED")
    }

    /// Returns true if the error is a forbidden error.
    pub fn is_forbidden(&self) -> (r: bool)
        ensures
            r == code_is(self.code, "FORBIDDEN"),
    {
        opt_eq_str(&self.code, "FORBIDDEN")
    }

    /// Returns true if the error is a service unavailable error.
    pub fn is_unavailable(&self) -> (r: bool)
        ensures
            r == code_is(self.code, "SERVICE_UNAVAILABLE"),
    {
        opt_eq_str(&self.code, "SERVICE_UNAVAILABLE")
    }

    /// The `Display` text: `code (status): message`, or `status: message`.
    pub fn to_string(&self) -> (r: String)
        ensures
            r@ == api_error_text(*self),
    {
        let status = decimal_chars(self.status as u64);
        let mut out: Vec<char> = Vec::new();
        match &self.code {
            Some(c) => {
                out = chars_of(c.as_str());
                extend_str(&mut out, " (");
                extend_chars(&mut out, status.as_slice());
                extend_str(&mut out, "): ");
            },
            None => {
                extend_chars(&mut out, status.as_slice());
                extend_str(&mut out, ": ");
            },
        }
        let m = chars_of(self.message.as_str());
        extend_chars(&mut out, m.as_slice());
        string_of(out.as_slice())
    }
}

/// Broad transport error kinds for classification.
#[derive(Debug, Clone, Copy, PartialEq, Eq)]
pub enum TransportErrorKind {
    Timeout,
    Connect,
    Request,
    /// Response was received but contained no content.
    EmptyResponse,
    Other,
}

pub open spec fn transport_kind_text(k: TransportErrorKind) -> Seq<char> {
    match k {
        TransportErrorKind::Timeout => "timeout"@,
        TransportErrorKind::Connect => "connect"@,
        TransportErrorKind::Request => "request"@,
        TransportErrorKind::EmptyResponse => "empty response"@,
        TransportErrorKind::Other => "transport"@,
    }
}

impl TransportErrorKind {
    /// The `Display` label of the kind.
    pub fn to_string(&self) -> (r: String)
        ensures
            r@ == transport_kind_text(*self),
    {
        match self {
            TransportErrorKind::Timeout => crate::text::owned("timeout"),
            TransportErrorKind::Connect => crate::text::owned("connect"),
            TransportErrorKind::Request => crate::text::owned("request"),
            TransportErrorKind::EmptyResponse => crate::text::owned("empty response"),
            TransportErrorKind::Other => crate::text::owned("transport"),
        }
    }
}

/// Transport-level error (timeouts, DNS/TLS/connectivity).
///
/// The HTTP client's own error value is not carried here; its text is part of
/// `message`.
#[derive(Debug, Clone, PartialEq, Eq)]
pub struct TransportError {
    pub kind: TransportErrorKind,
    pub message: String,
    pub retries: Option<RetryMetadata>,
}

/// How a status code is shown: the code, a space, and its canonical reason
/// (or `<unknown status code>`).
pub open spec fn status_display(status: u16) -> Seq<char> {
    crate::text::decimal(status as nat) + " "@ + match crate::http_errors::status_canonical_reason(status) {
        Some(r) => r,
        None => "<unknown status code>"@,
    }
}

impl TransportError {
    /// Create a transport error without a source.
    pub fn other(message: &str) -> (r: Error)
        ensures
            r matches Error::Transport(t) && (t.kind == TransportErrorKind::Other && t.message@
                == message@ && t.retries is None),
    {
        Error::Transport(
            TransportError {
                kind: TransportErrorKind::Other,
                message: crate::text::owned(message),
                retries: None,
            },
        )
    }

    /// Create an error from a failed HTTP response: `context (status): body`,
    /// the status shown as its code and its canonical reason.
    pub fn http_failure(context: &str, status: u16, body: String) -> (r: Error)
        requires
            100 <= status <= 999,
        ensures
            r matches Error::Transport(t) && (t.kind == TransportErrorKind::Other && t.message@
                == context@ + " ("@ + status_display(status) + "): "@ + body@ && t.retries is None),
    {
        let mut m = chars_of(context);
        extend_str(&mut m, " (");
        let d = crate::text::decimal_chars(status as u64);
        extend_chars(&mut m, d.as_slice());
        extend_str(&mut m, " ");
        match crate::http_errors::canonical_reason_of(status) {
            Some(reason) => extend_chars(&mut m, chars_of(reason.as_str()).as_slice()),
            None => extend_str(&mut m, "<unknown status code>"),
        }
        extend_str(&mut m, "): ");
        extend_chars(&mut m, chars_of(body.as_str()).as_slice());
        Error::Transport(
            TransportError {
                kind: TransportErrorKind::Other,
                message: crate::text::string_of(m.as_slice()),
                retries: None,
            },
        )
    }

    /// Create a timeout error.
    pub fn timeout(message: &str) -> (r: Error)
        ensures
            r matches Error::Transport(t) && (t.kind == TransportErrorKind::Timeout && t.message@
                == message@ && t.retries is None),
    {
        Error::Transport(
            TransportError {
                kind: TransportErrorKind::Timeout,
                message: crate::text::owned(message),
                retries: None,
            },
        )
    }

    /// The `Display` text: `kind: message`.
    pub fn to_string(&self) -> (r: String)
        ensures
            r@ == transport_kind_text(self.kind) + ": "@ + self.message@,
    {
        let k = self.kind.to_string();
        let mut out = chars_of(k.as_str());
        extend_str(&mut out, ": ");
        let m = chars_of(self.message.as_str());
        extend_chars(&mut out, m.as_slice());
        string_of(out.as_slice())
    }
}

/// Which streaming timeout triggered.
#[derive(Debug, Clone, Copy, PartialEq, Eq)]
pub enum StreamTimeoutKind {
    Ttft,
    Idle,
    Total,
}

pub open spec fn stream_timeout_kind_text(k: StreamTimeoutKind) -> Seq<char> {
    match k {
        StreamTimeoutKind::Ttft => "ttft"@,
        StreamTimeoutKind::Idle => "idle"@,
        StreamTimeoutKind::Total => "total"@,
    }
}

impl StreamTimeoutKind {
    /// The `Display` label of the kind.
    pub fn to_string(&self) -> (r: String)
        ensures
            r@ == stream_timeout_kind_text(*self),
    {
        match self {
            StreamTimeoutKind::Ttft => crate::text::owned("ttft"),
            StreamTimeoutKind::Idle => crate::text::owned("idle"),
            StreamTimeoutKind::Total => crate::text::owned("total"),
        }
    }
}

/// Typed error for streaming timeouts; the limit that was exceeded is in
/// milliseconds.
#[derive(Debug, Clone, Copy, PartialEq, Eq)]
pub struct StreamTimeoutError {
    pub kind: StreamTimeoutKind,
    pub timeout_ms: u64,
}

/// Unified error type surfaced by the SDK.
#[derive(Debug, Clone, PartialEq, Eq)]
pub enum Error {
    Validation(ValidationError),
    WorkflowValidation(WorkflowValidationError),
    Api(APIError),
    Transport(TransportError),
    StreamBackpressure { dropped: usize },
    StreamClosed,
    StreamProtocol {
        message: String,
        /// The raw data that failed to parse (truncated for logging).
        raw_data: Option<String>,
    },
    StreamTimeout(StreamTimeoutError),
    AgentMaxTurns { max_turns: usize },
}

/// A validation error with the given message and no field.
pub open spec fn is_validation_message(e: Error, msg: Seq<char>) -> bool {
    e matches Error::Validation(v) && (v.message@ == msg && v.field is None)
}

/// A validation error with the given message and field.
pub open spec fn is_field_error(e: Error, msg: Seq<char>, field: Seq<char>) -> bool {
    &&& e matches Error::Validation(v)
    &&& v.message@ == msg
    &&& v.field matches Some(f)
    &&& f@ == field
}

/// `Error::Validation` with `message` and no field.
pub fn validation(message: &str) -> (r: Error)
    ensures
        is_validation_message(r, message@),
{
    Error::Validation(ValidationError::new(message))
}

/// `Error::Validation` with `message` attached to `field`.
pub fn field_validation(message: &str, field: &str) -> (r: Error)
    ensures
        is_field_error(r, message@, field@),
{
    Error::Validation(ValidationError::new(message).with_field(field))
}

} // verus!
