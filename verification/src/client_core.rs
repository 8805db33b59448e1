//! Runtime-agnostic client logic: retry bookkeeping and decisions, key
//! checks, and NDJSON line framing.

use vstd::prelude::*;

use crate::api_key::ApiKey;
use crate::errors::{is_validation_message, validation, Error, RetryMetadata};
use crate::http::{delay_in_range, retry_status, allowed_for_method, HeaderList, Method, RetryConfig};
use crate::text::{
    ascii_lower_seq, chars_of, slice_chars, starts_with_str, string_of, to_ascii_lowercase,
    trim, trim_chars,
};

verus! {

/// Tracks retry state across attempts for both async and blocking clients.
#[derive(Debug, Clone, PartialEq, Eq)]
pub struct RetryState {
    pub attempts: u32,
    pub last_status: Option<u16>,
    pub last_error: Option<String>,
}

impl RetryState {
    pub fn new() -> (r: Self)
        ensures
            r.attempts == 0,
            r.last_status is None,
            r.last_error is None,
    {
        Self { attempts: 0, last_status: None, last_error: None }
    }

    pub fn record_attempt(&mut self, attempt: u32)
        ensures
            *final(self) == (RetryState { attempts: attempt, ..*old(self) }),
    {
        self.attempts = attempt;
    }

    pub fn record_status(&mut self, status: u16)
        ensures
            *final(self) == (RetryState { last_status: Some(status), ..*old(self) }),
    {
        self.last_status = Some(status);
    }

    /// Records the text of the last transport error.
    pub fn record_error(&mut self, message: String)
        ensures
            *final(self) == (RetryState { last_error: Some(message), ..*old(self) }),
    {
        self.last_error = Some(message);
    }

    /// Metadata to attach to an error: only when more than one attempt was made.
    pub fn metadata(&self) -> (r: Option<RetryMetadata>)
        ensures
            self.attempts <= 1 ==> r is None,
            self.attempts > 1 ==> r == Some(
                RetryMetadata {
                    attempts: self.attempts,
                    last_status: self.last_status,
                    last_error: self.last_error,
                },
            ),
    {
        if self.attempts <= 1 {
            None
        } else {
            Some(
                RetryMetadata {
                    attempts: self.attempts,
                    last_status: self.last_status,
                    last_error: self.last_error.clone(),
                },
            )
        }
    }
}

/// Validates that an API key is present and is a secret key (mr_sk_*).
///
/// Used for privileged operations like customer management, tier checkout, etc.
pub fn validate_secret_key(api_key: &Option<ApiKey>) -> (r: Result<(), Error>)
    ensures
        match api_key {
            Some(ApiKey::Secret(_)) => r is Ok,
            Some(_) => r matches Err(e) && is_validation_message(
                e,
                "secret key (mr_sk_*) required for this operation"@,
            ),
            None => r matches Err(e) && is_validation_message(e, "API key is required"@),
        },
{
    match api_key {
        Some(ApiKey::Secret(_)) => Ok(()),
        Some(_) => Err(validation("secret key (mr_sk_*) required for this operation")),
        None => Err(validation("API key is required")),
    }
}

/// Validates that an API key is present and is either publishable (mr_pk_*) or secret (mr_sk_*).
pub fn validate_api_key(api_key: &Option<ApiKey>) -> (r: Result<(), Error>)
    ensures
        match api_key {
            Some(_) => r is Ok,
            None => r matches Err(e) && is_validation_message(e, "API key is required"@),
        },
{
    match api_key {
        Some(_) => Ok(()),
        None => Err(validation("API key is required")),
    }
}

/// Number of occurrences of `c` in `s`.
pub open spec fn count_char(s: Seq<char>, c: char) -> nat
    decreases s.len(),
{
    if s.len() == 0 {
        0
    } else {
        count_char(s.drop_last(), c) + if s.last() == c {
            1nat
        } else {
            0nat
        }
    }
}

/// A base64url character: an ASCII letter or digit, `-` or `_`.
pub open spec fn is_base64url(c: char) -> bool {
    crate::text::is_ascii_alnum(c) || c == '-' || c == '_'
}

/// `t` is exactly three non-empty base64url segments separated by dots.
pub open spec fn three_segments(t: Seq<char>) -> bool {
    &&& t.len() > 0
    &&& count_char(t, '.') == 2
    &&& forall|i: int| 0 <= i < t.len() ==> is_base64url(#[trigger] t[i]) || t[i] == '.'
    &&& t[0] != '.'
    &&& t.last() != '.'
    &&& forall|i: int| 0 < i < t.len() && #[trigger] t[i] == '.' ==> t[i - 1] != '.'
}

/// A bearer token that looks like a JWT: once trimmed, three non-empty
/// base64url segments separated by dots, and not a ModelRelay API key (in
/// any letter case).
pub open spec fn jwt_like(token: Seq<char>) -> bool {
    let t = trim(token);
    let lower = ascii_lower_seq(t);
    &&& !"mr_sk_"@.is_prefix_of(lower)
    &&& !"mr_pk_"@.is_prefix_of(lower)
    &&& three_segments(t)
}

/// ModelRelay API keys never count as JWTs: the text of a parsed secret or
/// publishable key is not JWT-like, whatever dots it holds.
pub proof fn lemma_api_key_text_is_not_jwt(raw: Seq<char>)
    requires
        crate::api_key::key_text_ok(trim(raw), "mr_sk_"@) || crate::api_key::key_text_ok(
            trim(raw),
            "mr_pk_"@,
        ),
    ensures
        !jwt_like(trim(raw)),
{
    crate::text::lemma_trim_idempotent(raw);
    let t = trim(raw);
    let lower = ascii_lower_seq(t);
    reveal_strlit("mr_sk_");
    reveal_strlit("mr_pk_");
    let p = if "mr_sk_"@.is_prefix_of(t) {
        "mr_sk_"@
    } else {
        "mr_pk_"@
    };
    assert forall|i: int| 0 <= i < 6 implies lower[i] == p[i] by {
        assert(t[i] == p[i]);
        assert(!crate::text::is_ascii_upper(p[i]));
        assert(lower[i] == crate::text::ascii_lower(t[i]));
    }
    assert(p.is_prefix_of(lower));
}

/// Checks if a token looks like a JWT (3 base64url segments separated by '.').
///
/// Returns `false` for ModelRelay API keys (mr_sk_*, mr_pk_*) even if passed as bearer tokens.
pub fn is_jwt_token(token: &str) -> (r: bool)
    ensures
        r == jwt_like(token@),
{
    let v = chars_of(token);
    let t = trim_chars(v.as_slice());
    if t.len() == 0 {
        return false;
    }
    let lower = to_ascii_lowercase(t.as_slice());
    if starts_with_str(lower.as_slice(), "mr_sk_") || starts_with_str(lower.as_slice(), "mr_pk_") {
        return false;
    }
    if t[0] == '.' || t[t.len() - 1] == '.' {
        return false;
    }
    let mut n: usize = 0;
    let mut i: usize = 0;
    assert(t@.take(0) =~= Seq::<char>::empty());
    while i < t.len()
        invariant
            i <= t@.len(),
            t@.len() > 0,
            t@ == trim(token@),
            n == count_char(t@.take(i as int), '.'),
            n <= 2,
            forall|j: int| 0 <= j < i ==> is_base64url(#[trigger] t@[j]) || t@[j] == '.',
            forall|j: int| 0 < j < i && #[trigger] t@[j] == '.' ==> t@[j - 1] != '.',
        decreases t@.len() - i,
    {
        assert(t@.take(i + 1).drop_last() =~= t@.take(i as int));
        let c = t[i];
        if c == '.' {
            if n == 2 || (i > 0 && t[i - 1] == '.') {
                proof {
                    if n == 2 {
                        lemma_count_char_prefix(t@, '.', i + 1);
                    }
                }
                return false;
            }
            n += 1;
        } else if !(crate::text::is_ascii_alphanumeric(c) || c == '-' || c == '_') {
            return false;
        }
        i += 1;
    }
    assert(t@.take(t@.len() as int) =~= t@);
    n == 2
}

/// Counting in a prefix never gives more than counting in the whole.
proof fn lemma_count_char_prefix(s: Seq<char>, c: char, k: int)
    requires
        0 <= k <= s.len(),
    ensures
        count_char(s.take(k), c) <= count_char(s, c),
    decreases s.len() - k,
{
    if k < s.len() {
        lemma_count_char_prefix(s, c, k + 1);
        assert(s.take(k + 1).drop_last() =~= s.take(k));
    } else {
        assert(s.take(k) =~= s);
    }
}

/// Shared client configuration used by both async and blocking clients.
#[derive(Clone, Debug)]
pub struct ClientConfig {
    /// Base URL for API requests.
    pub base_url: String,
    /// API key for authentication (mr_sk_* or mr_pk_*).
    pub api_key: Option<ApiKey>,
    /// Bearer token for customer-scoped requests.
    pub access_token: Option<String>,
    /// Custom client header for identification.
    pub client_header: Option<String>,
    /// Request timeout in milliseconds.
    pub request_timeout_ms: u64,
    /// Retry configuration for failed requests.
    pub retry: RetryConfig,
    /// Default headers to include on all requests.
    pub default_headers: Option<HeaderList>,
}

impl ClientConfig {
    /// Checks if authentication is configured.
    pub fn has_auth(&self) -> (r: bool)
        ensures
            r == (self.api_key is Some || self.access_token is Some),
    {
        self.api_key.is_some() || self.access_token.is_some()
    }

    /// Validates that authentication is configured.
    pub fn ensure_auth(&self) -> (r: Result<(), Error>)
        ensures
            (self.api_key is Some || self.access_token is Some) ==> r is Ok,
            !(self.api_key is Some || self.access_token is Some) ==> (r matches Err(e)
                && is_validation_message(e, "api key or access token is required"@)),
    {
        if self.has_auth() {
            Ok(())
        } else {
            Err(validation("api key or access token is required"))
        }
    }

    /// Checks if the access token looks like a JWT.
    pub fn has_jwt_access_token(&self) -> (r: bool)
        ensures
            r == (self.access_token matches Some(t) && jwt_like(t@)),
    {
        match &self.access_token {
            Some(t) => is_jwt_token(t.as_str()),
            None => false,
        }
    }
}

/// Result of evaluating a single HTTP attempt for retry decisions.
#[derive(Clone, Copy, Debug, PartialEq, Eq)]
pub enum AttemptOutcome {
    /// Request succeeded with a successful status code.
    Success,
    /// Request completed but returned an error status code.
    ErrorStatus(u16),
    /// Request failed due to a transport error (timeout, connection, etc.).
    TransportError { is_timeout: bool, is_connect: bool, is_request: bool },
}

/// Decision from retry evaluation - what the caller should do next.
#[derive(Clone, Copy, Debug, PartialEq, Eq)]
pub enum RetryDecision {
    /// Request succeeded, return the response.
    Succeed,
    /// Should retry after the specified delay (milliseconds).
    Retry { delay_ms: u64 },
    /// Should not retry, fail with the current result.
    Fail,
}

/// Whether an outcome calls for another attempt, the budget aside.
pub open spec fn outcome_retryable(o: AttemptOutcome, retry: RetryConfig, method: Method) -> bool {
    match o {
        AttemptOutcome::Success => false,
        AttemptOutcome::ErrorStatus(s) => retry_status(retry, method, s),
        AttemptOutcome::TransportError { is_timeout, is_connect, is_request } => (is_timeout
            || is_connect || is_request) && allowed_for_method(retry, method),
    }
}

/// Pure function to decide whether to retry an HTTP request.
///
/// It contains no I/O - it takes the outcome of an attempt (1-indexed) and
/// returns what the caller should do next.
pub fn decide_retry(
    outcome: &AttemptOutcome,
    attempt: u32,
    max_attempts: u32,
    retry: &RetryConfig,
    method: Method,
) -> (r: RetryDecision)
    ensures
        *outcome is Success ==> r is Succeed,
        !(*outcome is Success) && outcome_retryable(*outcome, *retry, method) && attempt
            < max_attempts ==> (r matches RetryDecision::Retry { delay_ms } && delay_in_range(
            *retry,
            attempt,
            delay_ms,
        )),
        !(*outcome is Success) && !(outcome_retryable(*outcome, *retry, method) && attempt
            < max_attempts) ==> r is Fail,
{
    match outcome {
        AttemptOutcome::Success => RetryDecision::Succeed,
        AttemptOutcome::ErrorStatus(status) => {
            let should_retry = retry.should_retry_status(method, *status);
            if should_retry && attempt < max_attempts {
                RetryDecision::Retry { delay_ms: retry.backoff_delay(attempt) }
            } else {
                RetryDecision::Fail
            }
        },
        AttemptOutcome::TransportError { is_timeout, is_connect, is_request } => {
            let should_retry = if *is_timeout || *is_connect || *is_request {
                if matches!(method, Method::Post) {
                    retry.retry_post
                } else {
                    true
                }
            } else {
                false
            };
            if should_retry && attempt < max_attempts {
                RetryDecision::Retry { delay_ms: retry.backoff_delay(attempt) }
            } else {
                RetryDecision::Fail
            }
        },
    }
}

/// Raw NDJSON event before parsing.
#[derive(Clone, Debug, PartialEq, Eq)]
pub struct RawEvent {
    pub data: String,
}

/// Index of the first `c` in `s`, or -1.
pub open spec fn first_index_of(s: Seq<char>, c: char) -> int
    decreases s.len(),
{
    if s.len() == 0 {
        -1
    } else if s[0] == c {
        0
    } else {
        let r = first_index_of(s.drop_first(), c);
        if r < 0 {
            -1
        } else {
            r + 1
        }
    }
}

/// The non-blank complete lines of `buf`, trimmed (a line is complete when a
/// newline follows it).
pub open spec fn ndjson_lines(buf: Seq<char>) -> Seq<Seq<char>>
    decreases buf.len(),
{
    let k = first_index_of(buf, '\n');
    if 0 <= k < buf.len() {
        let line = trim(buf.subrange(0, k));
        let rest = ndjson_lines(buf.subrange(k + 1, buf.len() as int));
        if line.len() == 0 {
            rest
        } else {
            seq![line] + rest
        }
    } else {
        Seq::empty()
    }
}

/// What follows the last newline of `buf` (all of `buf` when it has none).
pub open spec fn ndjson_remainder(buf: Seq<char>) -> Seq<char>
    decreases buf.len(),
{
    let k = first_index_of(buf, '\n');
    if 0 <= k < buf.len() {
        ndjson_remainder(buf.subrange(k + 1, buf.len() as int))
    } else {
        buf
    }
}

pub(crate) proof fn lemma_first_index_of(s: Seq<char>, c: char)
    ensures
        -1 <= first_index_of(s, c) < s.len(),
        first_index_of(s, c) >= 0 ==> s[first_index_of(s, c)] == c,
        forall|j: int| 0 <= j < s.len() && (first_index_of(s, c) < 0 || j < first_index_of(s, c)) ==> s[j] != c,
    decreases s.len(),
{
    if s.len() > 0 && s[0] != c {
        let t = s.drop_first();
        lemma_first_index_of(t, c);
        assert forall|j: int| 0 <= j < s.len() && (first_index_of(s, c) < 0 || j < first_index_of(s, c)) implies s[j] != c by {
            if j > 0 {
                assert(s[j] == t[j - 1]);
            }
        }
    }
}

pub(crate) proof fn lemma_first_index_of_found(s: Seq<char>, c: char, k: int)
    requires
        0 <= k < s.len(),
        s[k] == c,
        forall|j: int| 0 <= j < k ==> s[j] != c,
    ensures
        first_index_of(s, c) == k,
    decreases k,
{
    if k > 0 {
        let t = s.drop_first();
        assert forall|j: int| 0 <= j < k - 1 implies t[j] != c by {
            assert(t[j] == s[j + 1]);
        }
        lemma_first_index_of_found(t, c, k - 1);
    }
}

pub(crate) proof fn lemma_first_index_of_none(s: Seq<char>, c: char)
    requires
        forall|j: int| 0 <= j < s.len() ==> s[j] != c,
    ensures
        first_index_of(s, c) == -1,
    decreases s.len(),
{
    if s.len() > 0 {
        let t = s.drop_first();
        assert forall|j: int| 0 <= j < t.len() implies t[j] != c by {
            assert(t[j] == s[j + 1]);
        }
        lemma_first_index_of_none(t, c);
    }
}

pub open spec fn raw_events_view(v: Seq<RawEvent>) -> Seq<Seq<char>> {
    v.map_values(|e: RawEvent| e.data@)
}

/// Consumes complete NDJSON lines from a buffer.
///
/// Returns the trimmed non-blank lines as raw events and the remaining incomplete buffer.
pub fn consume_ndjson_buffer(buffer: &str) -> (r: (Vec<RawEvent>, String))
    ensures
        raw_events_view(r.0@) == ndjson_lines(buffer@),
        r.1@ == ndjson_remainder(buffer@),
{
    let v = chars_of(buffer);
    let ghost whole = v@;
    let mut events: Vec<RawEvent> = Vec::new();
    let mut start: usize = 0;
    assert(v@.subrange(0, v@.len() as int) =~= v@);
    assert(raw_events_view(events@) =~= Seq::<Seq<char>>::empty());
    loop
        invariant
            start <= v@.len(),
            whole == v@,
            v@ == buffer@,
            ndjson_lines(whole) == raw_events_view(events@) + ndjson_lines(
                v@.subrange(start as int, v@.len() as int),
            ),
            ndjson_remainder(whole) == ndjson_remainder(v@.subrange(start as int, v@.len() as int)),
        decreases v@.len() - start,
    {
        let ghost rest = v@.subrange(start as int, v@.len() as int);
        let mut k = start;
        while k < v.len() && v[k] != '\n'
            invariant
                start <= k <= v@.len(),
                forall|j: int| start <= j < k ==> v@[j] != '\n',
            decreases v@.len() - k,
        {
            k += 1;
        }
        if k == v.len() {
            proof {
                assert forall|j: int| 0 <= j < rest.len() implies rest[j] != '\n' by {
                    assert(rest[j] == v@[start + j]);
                }
                lemma_first_index_of_none(rest, '\n');
                assert(ndjson_lines(rest) =~= Seq::<Seq<char>>::empty());
                assert(raw_events_view(events@) + Seq::<Seq<char>>::empty() =~= raw_events_view(events@));
            }
            let rem = slice_chars(v.as_slice(), start, v.len());
            return (events, string_of(rem.as_slice()));
        }
        proof {
            assert forall|j: int| 0 <= j < k - start implies rest[j] != '\n' by {
                assert(rest[j] == v@[start + j]);
            }
            lemma_first_index_of_found(rest, '\n', k - start);
            assert(rest.subrange(0, k - start) =~= v@.subrange(start as int, k as int));
            assert(rest.subrange(k - start + 1, rest.len() as int) =~= v@.subrange(
                k + 1,
                v@.len() as int,
            ));
        }
        let line = slice_chars(v.as_slice(), start, k);
        let trimmed = trim_chars(line.as_slice());
        if trimmed.len() > 0 {
            let ghost e0 = events@;
            events.push(RawEvent { data: string_of(trimmed.as_slice()) });
            assert(raw_events_view(events@) =~= raw_events_view(e0).push(trimmed@));
            assert(raw_events_view(e0) + (seq![trimmed@] + ndjson_lines(
                v@.subrange(k + 1, v@.len() as int),
            )) =~= raw_events_view(e0).push(trimmed@) + ndjson_lines(
                v@.subrange(k + 1, v@.len() as int),
            ));
        }
        start = k + 1;
    }
}

/// A customer id for customer-scoped calls: trimmed, and required.
pub fn normalize_customer_id(raw: &str) -> (r: Result<String, Error>)
    ensures
        match r {
            Ok(s) => trim(raw@).len() > 0 && s@ == trim(raw@),
            Err(e) => trim(raw@).len() == 0 && crate::errors::is_field_error(
                e,
                "customer_id is required"@,
                "customer_id"@,
            ),
        },
{
    let v = chars_of(raw);
    let t = trim_chars(v.as_slice());
    if t.len() == 0 {
        return Err(crate::errors::field_validation("customer_id is required", "customer_id"));
    }
    Ok(crate::text::string_of(t.as_slice()))
}

/// The path that lists models: with a `capability` query (URL-encoded)
/// when the trimmed capability is not empty.
pub open spec fn models_path_text(capability: Seq<char>) -> Seq<char> {
    if trim(capability).len() == 0 {
        "/models"@
    } else {
        "/models?capability="@ + crate::text::url_encoded(trim(capability))
    }
}

/// The request path of a model listing filtered by `capability`.
pub fn models_list_path(capability: &str) -> (r: String)
    ensures
        r@ == models_path_text(capability@),
{
    let v = chars_of(capability);
    let t = trim_chars(v.as_slice());
    if t.len() == 0 {
        return crate::text::owned("/models");
    }
    let cap = string_of(t.as_slice());
    let enc = crate::text::url_encode(cap.as_str());
    let mut out = chars_of("/models?capability=");
    let e = chars_of(enc.as_str());
    crate::text::extend_chars(&mut out, e.as_slice());
    string_of(out.as_slice())
}


/// The header carrying a caller-chosen request id.
pub const REQUEST_ID_HEADER: &'static str = "X-ModelRelay-Request-Id";

/// The header carrying the API key.
pub const API_KEY_HEADER: &'static str = "X-ModelRelay-Api-Key";

/// The header naming the client.
pub const CLIENT_HEADER: &'static str = "X-ModelRelay-Client";

/// The token sent as bearer credentials: the access token trimmed, without
/// a leading `Bearer ` or `bearer `.
pub open spec fn bearer_token(token: Seq<char>) -> Seq<char> {
    let t = trim(token);
    if "Bearer "@.is_prefix_of(t) || "bearer "@.is_prefix_of(t) {
        t.subrange(7, t.len() as int)
    } else {
        t
    }
}

/// Header entries with their names and values trimmed.
pub open spec fn trimmed_pairs(v: Seq<(Seq<char>, Seq<char>)>) -> Seq<(Seq<char>, Seq<char>)> {
    v.map_values(|p: (Seq<char>, Seq<char>)| (trim(p.0), trim(p.1)))
}

/// An optional header.
pub open spec fn opt_header(name: Seq<char>, value: Option<Seq<char>>) -> Seq<(Seq<char>, Seq<char>)> {
    match value {
        Some(v) => seq![(name, v)],
        None => seq![],
    }
}

/// The headers of a request, in the order they are set: `accept` when one
/// is asked for, the request id when it is not blank, the client header, the
/// bearer token of the access token, the API key, then the configured
/// default headers and the call's own headers, each trimmed.
pub open spec fn request_headers_view(
    cfg: ClientConfig,
    request_id: Option<Seq<char>>,
    headers: Seq<(Seq<char>, Seq<char>)>,
    accept: Option<Seq<char>>,
) -> Seq<(Seq<char>, Seq<char>)> {
    opt_header("accept"@, accept) + (match request_id {
        Some(r) => if trim(r).len() > 0 {
            seq![("X-ModelRelay-Request-Id"@, r)]
        } else {
            seq![]
        },
        None => seq![],
    }) + opt_header("X-ModelRelay-Client"@, crate::http_errors::opt_view(cfg.client_header))
        + (match cfg.access_token {
        Some(t) => seq![("authorization"@, "Bearer "@ + bearer_token(t@))],
        None => seq![],
    }) + (match cfg.api_key {
        Some(k) => seq![("X-ModelRelay-Api-Key"@, k@)],
        None => seq![],
    }) + (match cfg.default_headers {
        Some(d) => trimmed_pairs(d@),
        None => seq![],
    }) + trimmed_pairs(headers)
}

/// `bearer_token(token)`.
pub fn bearer_token_of(token: &str) -> (r: String)
    ensures
        r@ == bearer_token(token@),
{
    let c = chars_of(token);
    let t = trim_chars(c.as_slice());
    if starts_with_str(t.as_slice(), "Bearer ") || starts_with_str(t.as_slice(), "bearer ") {
        proof {
            reveal_strlit("Bearer ");
            reveal_strlit("bearer ");
        }
        string_of(slice_chars(t.as_slice(), 7, t.len()).as_slice())
    } else {
        string_of(t.as_slice())
    }
}

fn push_header(out: &mut Vec<(String, String)>, name: &str, value: String)
    ensures
        crate::local_tools_common::pairs_view(final(out)@) == crate::local_tools_common::pairs_view(
            old(out)@,
        ).push((name@, value@)),
{
    let ghost before = out@;
    out.push((crate::text::owned(name), value));
    assert(crate::local_tools_common::pairs_view(out@) =~= crate::local_tools_common::pairs_view(
        before,
    ).push((name@, value@)));
}

fn push_trimmed_entries(out: &mut Vec<(String, String)>, entries: &[crate::http::HeaderEntry])
    ensures
        crate::local_tools_common::pairs_view(final(out)@) == crate::local_tools_common::pairs_view(
            old(out)@,
        ) + trimmed_pairs(crate::http::entries_view(entries@)),
{
    let ghost o = crate::local_tools_common::pairs_view(out@);
    let ghost ev = crate::http::entries_view(entries@);
    let mut i: usize = 0;
    assert(trimmed_pairs(ev).take(0) =~= Seq::<(Seq<char>, Seq<char>)>::empty());
    assert(o + trimmed_pairs(ev).take(0) =~= o);
    while i < entries.len()
        invariant
            i <= entries@.len(),
            ev == crate::http::entries_view(entries@),
            crate::local_tools_common::pairs_view(out@) == o + trimmed_pairs(ev).take(i as int),
        decreases entries@.len() - i,
    {
        let k = chars_of(entries[i].key.as_str());
        let v = chars_of(entries[i].value.as_str());
        let name = string_of(trim_chars(k.as_slice()).as_slice());
        let value = string_of(trim_chars(v.as_slice()).as_slice());
        let ghost before = out@;
        out.push((name, value));
        assert(trimmed_pairs(ev)[i as int] == (trim(entries@[i as int].key@), trim(
            entries@[i as int].value@,
        )));
        assert(crate::local_tools_common::pairs_view(out@) =~= crate::local_tools_common::pairs_view(
            before,
        ).push(trimmed_pairs(ev)[i as int]));
        assert(trimmed_pairs(ev).take(i + 1) =~= trimmed_pairs(ev).take(i as int).push(
            trimmed_pairs(ev)[i as int],
        ));
        i += 1;
    }
    assert(trimmed_pairs(ev).take(entries@.len() as int) =~= trimmed_pairs(ev));
}

/// The headers a request is sent with. Whether each name and value is
/// acceptable to HTTP is checked where the request is built.
pub fn request_headers(
    cfg: &ClientConfig,
    request_id: Option<&str>,
    headers: &HeaderList,
    accept: Option<&str>,
) -> (r: Vec<(String, String)>)
    ensures
        crate::local_tools_common::pairs_view(r@) == request_headers_view(
            *cfg,
            match request_id {
                Some(x) => Some(x@),
                None => None,
            },
            headers@,
            match accept {
                Some(x) => Some(x@),
                None => None,
            },
        ),
{
    let mut out: Vec<(String, String)> = Vec::new();
    let ghost e = Seq::<(Seq<char>, Seq<char>)>::empty();
    assert(crate::local_tools_common::pairs_view(out@) =~= e);
    if let Some(a) = accept {
        push_header(&mut out, "accept", crate::text::owned(a));
    }
    let ghost p1 = crate::local_tools_common::pairs_view(out@);
    if let Some(rid) = request_id {
        let c = chars_of(rid);
        if trim_chars(c.as_slice()).len() > 0 {
            push_header(&mut out, REQUEST_ID_HEADER, crate::text::owned(rid));
        }
    }
    let ghost p2 = crate::local_tools_common::pairs_view(out@);
    if let Some(ch) = &cfg.client_header {
        push_header(&mut out, CLIENT_HEADER, ch.clone());
    }
    let ghost p3 = crate::local_tools_common::pairs_view(out@);
    if let Some(t) = &cfg.access_token {
        let b = bearer_token_of(t.as_str());
        let mut v = chars_of("Bearer ");
        let bc = chars_of(b.as_str());
        crate::text::extend_chars(&mut v, bc.as_slice());
        push_header(&mut out, "authorization", string_of(v.as_slice()));
    }
    let ghost p4 = crate::local_tools_common::pairs_view(out@);
    if let Some(k) = &cfg.api_key {
        push_header(&mut out, API_KEY_HEADER, crate::text::owned(k.as_str()));
    }
    let ghost p5 = crate::local_tools_common::pairs_view(out@);
    if let Some(d) = &cfg.default_headers {
        push_trimmed_entries(&mut out, d.entries());
    }
    let ghost p6 = crate::local_tools_common::pairs_view(out@);
    push_trimmed_entries(&mut out, headers.entries());
    let ghost rid_v = match request_id {
        Some(x) => Some(x@),
        None => None,
    };
    let ghost acc_v = match accept {
        Some(x) => Some(x@),
        None => None,
    };
    assert(p1 =~= opt_header("accept"@, acc_v));
    assert(p2 =~= p1 + (match rid_v {
        Some(r) => if trim(r).len() > 0 {
            seq![("X-ModelRelay-Request-Id"@, r)]
        } else {
            seq![]
        },
        None => seq![],
    }));
    assert(p3 =~= p2 + opt_header(
        "X-ModelRelay-Client"@,
        crate::http_errors::opt_view(cfg.client_header),
    ));
    assert(p4 =~= p3 + (match cfg.access_token {
        Some(t) => seq![("authorization"@, "Bearer "@ + bearer_token(t@))],
        None => seq![],
    }));
    assert(p5 =~= p4 + (match cfg.api_key {
        Some(k) => seq![("X-ModelRelay-Api-Key"@, k@)],
        None => seq![],
    }));
    assert(p6 =~= p5 + (match cfg.default_headers {
        Some(d) => trimmed_pairs(d@),
        None => seq![],
    }));
    out
}


/// The header carrying the customer id of a customer-scoped request.
pub const CUSTOMER_ID_HEADER: &'static str = "X-ModelRelay-Customer-Id";

/// Whether a header name is the customer id header, ignoring ASCII case.
pub open spec fn is_customer_header(name: Seq<char>) -> bool {
    ascii_lower_seq(name) == ascii_lower_seq("X-ModelRelay-Customer-Id"@)
}

/// The position of the first customer id header, or -1.
pub open spec fn customer_header_index(headers: Seq<(Seq<char>, Seq<char>)>) -> int
    decreases headers.len(),
{
    if headers.len() == 0 {
        -1
    } else if is_customer_header(headers[0].0) {
        0
    } else {
        let r = customer_header_index(headers.drop_first());
        if r < 0 {
            -1
        } else {
            r + 1
        }
    }
}

/// Makes a request carry the customer's id: a customer id header already
/// set must hold exactly that id (else the request is refused and left as
/// it is); without one, the header is added.
pub fn ensure_customer_header(headers: &mut Vec<(String, String)>, customer_id: &str) -> (r: Result<
    (),
    Error,
>)
    ensures
        ({
            let old_v = crate::local_tools_common::pairs_view(old(headers)@);
            let k = customer_header_index(old_v);
            &&& k >= 0 && old_v[k].1 == customer_id@ ==> r is Ok && final(headers)@ == old(
                headers,
            )@
            &&& k >= 0 && old_v[k].1 != customer_id@ ==> (r matches Err(e)
                && crate::errors::is_field_error(e, "customer_id mismatch"@, "customer_id"@))
                && final(headers)@ == old(headers)@
            &&& k < 0 ==> r is Ok && crate::local_tools_common::pairs_view(final(headers)@)
                == old_v.push((CUSTOMER_ID_HEADER@, customer_id@))
        }),
{
    let ghost v = crate::local_tools_common::pairs_view(headers@);
    let target = to_ascii_lowercase(chars_of(CUSTOMER_ID_HEADER).as_slice());
    let mut i: usize = 0;
    assert(v.skip(0) =~= v);
    while i < headers.len()
        invariant
            i <= headers@.len(),
            v == crate::local_tools_common::pairs_view(headers@),
            target@ == ascii_lower_seq(CUSTOMER_ID_HEADER@),
            customer_header_index(v) == (if customer_header_index(v.skip(i as int)) < 0 {
                -1
            } else {
                customer_header_index(v.skip(i as int)) + i
            }),
        decreases headers@.len() - i,
    {
        assert(v.skip(i as int)[0] == v[i as int]);
        assert(v.skip(i as int).drop_first() =~= v.skip(i + 1));
        let name = to_ascii_lowercase(chars_of(headers[i].0.as_str()).as_slice());
        if crate::text::chars_eq(name.as_slice(), target.as_slice()) {
            if crate::text::str_eq(headers[i].1.as_str(), customer_id) {
                return Ok(());
            }
            return Err(crate::errors::field_validation("customer_id mismatch", "customer_id"));
        }
        i += 1;
    }
    let ghost before = headers@;
    headers.push((crate::text::owned(CUSTOMER_ID_HEADER), crate::text::owned(customer_id)));
    assert(crate::local_tools_common::pairs_view(headers@) =~= crate::local_tools_common::pairs_view(
        before,
    ).push((CUSTOMER_ID_HEADER@, customer_id@)));
    Ok(())
}

} // verus!
