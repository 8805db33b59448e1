//! Request options, retry policy and header handling.
//!
//! Durations are kept in milliseconds.

use vstd::prelude::*;

use crate::text::{chars_of, trim, trim_chars};

verus! {

/// HTTP request methods the SDK issues.
#[derive(Clone, Copy, Debug, PartialEq, Eq)]
pub enum Method {
    Get,
    Post,
    Put,
    Patch,
    Delete,
    Head,
    Options,
}

/// A uniformly random value in `low..=high` (`fastrand::u64`).
#[verifier::external_body]
fn random_u64_inclusive(low: u64, high: u64) -> (r: u64)
    requires
        low <= high,
    ensures
        low <= r <= high,
{
    fastrand::u64(low..=high)
}

/// Retry/backoff configuration (defaults use 3 attempts + jittered exponential backoff).
#[derive(Clone, Copy, Debug, PartialEq, Eq)]
pub struct RetryConfig {
    pub max_attempts: u32,
    pub base_backoff_ms: u64,
    pub max_backoff_ms: u64,
    pub retry_post: bool,
}

/// The configuration [`RetryConfig::default`] returns.
pub open spec fn default_retry() -> RetryConfig {
    RetryConfig { max_attempts: 3, base_backoff_ms: 300, max_backoff_ms: 5000, retry_post: true }
}

/// Retries are allowed for every method but POST, and for POST when `retry_post` is set.
pub open spec fn allowed_for_method(c: RetryConfig, m: Method) -> bool {
    m == Method::Post ==> c.retry_post
}

/// 429, 408 and 5xx responses are retried when the method allows it.
pub open spec fn retry_status(c: RetryConfig, m: Method, status: u16) -> bool {
    (status == 429 || status == 408 || (500 <= status <= 599)) && allowed_for_method(c, m)
}

/// Exponent of the backoff for a 1-indexed attempt (capped at 10).
pub open spec fn backoff_exp(attempt: u32) -> nat {
    if attempt == 0 {
        0
    } else if attempt - 1 <= 10 {
        (attempt - 1) as nat
    } else {
        10
    }
}

pub open spec fn pow2(e: nat) -> nat
    decreases e,
{
    if e == 0 {
        1
    } else {
        2 * pow2((e - 1) as nat)
    }
}

/// `base * 2^exp` saturating at `u64::MAX`, capped by `max_backoff_ms`.
pub open spec fn backoff_cap(c: RetryConfig, attempt: u32) -> u64 {
    let raw = c.base_backoff_ms * pow2(backoff_exp(attempt));
    let sat = if raw > u64::MAX {
        u64::MAX as int
    } else {
        raw
    };
    if sat < c.max_backoff_ms {
        sat as u64
    } else {
        c.max_backoff_ms
    }
}

/// The bounds every jittered delay lies in: from half the capped backoff up
/// to (not including) one and a half times it, in whole milliseconds (zero
/// when the capped backoff is zero), and never above `max_backoff_ms`.
pub open spec fn delay_in_range(c: RetryConfig, attempt: u32, d: u64) -> bool {
    let cap = backoff_cap(c, attempt);
    &&& cap / 2 <= d
    &&& cap == 0 ==> d == 0
    &&& cap > 0 ==> d < cap + cap / 2
    &&& d <= c.max_backoff_ms
}

/// The inclusive range a jittered delay is drawn from, for a capped backoff
/// of `capped` milliseconds: from half of it to just below one and a half
/// times it (saturating at `u64::MAX`); only 0 for a zero backoff.
pub fn jitter_bounds(capped: u64) -> (r: (u64, u64))
    ensures
        capped == 0 ==> r == (0u64, 0u64),
        capped > 0 ==> r.0 == capped / 2 && r.1 == (if capped + capped / 2 > u64::MAX {
            u64::MAX as int
        } else {
            capped + capped / 2
        }) - 1,
        r.0 <= r.1,
{
    if capped == 0 {
        return (0, 0);
    }
    let half = capped / 2;
    (half, capped.saturating_add(half) - 1)
}

/// A drawn delay, never above the largest backoff.
pub fn clamp_delay(drawn: u64, max_backoff_ms: u64) -> (r: u64)
    ensures
        r == if drawn < max_backoff_ms {
            drawn
        } else {
            max_backoff_ms
        },
{
    if drawn < max_backoff_ms {
        drawn
    } else {
        max_backoff_ms
    }
}

impl RetryConfig {
    pub fn default() -> (r: Self)
        ensures
            r == default_retry(),
    {
        RetryConfig { max_attempts: 3, base_backoff_ms: 300, max_backoff_ms: 5000, retry_post: true }
    }

    pub fn disabled() -> (r: Self)
        ensures
            r == (RetryConfig { max_attempts: 1, ..default_retry() }),
    {
        RetryConfig { max_attempts: 1, ..Self::default() }
    }

    /// Whether the given status code should trigger a retry for this method.
    pub fn should_retry_status(&self, method: Method, status: u16) -> (r: bool)
        ensures
            r == retry_status(*self, method, status),
    {
        if status == 429 || status == 408 {
            return self.allow_for_method(method);
        }
        if 500 <= status && status <= 599 {
            return self.allow_for_method(method);
        }
        false
    }

    /// Whether a transport failure with these characteristics should trigger a retry.
    pub fn should_retry_error(
        &self,
        method: Method,
        is_timeout: bool,
        is_connect: bool,
        is_request: bool,
    ) -> (r: bool)
        ensures
            r == ((is_timeout || is_connect || is_request) && allowed_for_method(*self, method)),
    {
        if is_timeout || is_connect || is_request {
            return self.allow_for_method(method);
        }
        false
    }

    /// Jittered exponential backoff for the given attempt (1-indexed), in milliseconds.
    pub fn backoff_delay(&self, attempt: u32) -> (r: u64)
        ensures
            delay_in_range(*self, attempt, r),
    {
        let exp: u32 = if attempt == 0 {
            0
        } else if attempt - 1 <= 10 {
            attempt - 1
        } else {
            10
        };
        let mut factor: u64 = 1;
        let mut k: u32 = 0;
        while k < exp
            invariant
                k <= exp <= 10,
                factor == pow2(k as nat),
                1 <= factor <= 1024,
            decreases exp - k,
        {
            proof {
                lemma_pow2_le(k as nat + 1, 10);
                reveal_with_fuel(pow2, 11);
            }
            factor = factor * 2;
            k += 1;
        }
        let b = self.base_backoff_ms;
        let base: u64 = if b > u64::MAX / factor {
            proof {
                assert(b * factor > u64::MAX) by (nonlinear_arith)
                    requires
                        b > u64::MAX / factor,
                        factor >= 1,
                ;
            }
            u64::MAX
        } else {
            proof {
                assert(b * factor <= u64::MAX) by (nonlinear_arith)
                    requires
                        b <= u64::MAX / factor,
                        factor >= 1,
                ;
            }
            b * factor
        };
        let capped = if base < self.max_backoff_ms {
            base
        } else {
            self.max_backoff_ms
        };
        assert(capped == backoff_cap(*self, attempt));
        let (low, high) = jitter_bounds(capped);
        let drawn = random_u64_inclusive(low, high);
        clamp_delay(drawn, self.max_backoff_ms)
    }

    fn allow_for_method(&self, method: Method) -> (r: bool)
        ensures
            r == allowed_for_method(*self, method),
    {
        if matches!(method, Method::Post) {
            return self.retry_post;
        }
        true
    }
}

/// Which responses are retried: for a request whose method the config
/// allows (every method but POST, and POST when `retry_post` is set), every
/// server error 500..=599, every 429 and every 408; no other status, and
/// nothing at all for a POST when `retry_post` is off.
pub proof fn lemma_retried_statuses(c: RetryConfig, m: Method, status: u16)
    ensures
        (m != Method::Post || c.retry_post) && 500 <= status && status <= 599 ==> retry_status(c, m, status),
        (m != Method::Post || c.retry_post) && (status == 429 || status == 408) ==> retry_status(c, m, status),
        (status < 500 || status > 599) && status != 429 && status != 408 ==> !retry_status(c, m, status),
        m == Method::Post && !c.retry_post ==> !retry_status(c, m, status),
{
}

proof fn lemma_pow2_le(a: nat, b: nat)
    requires
        a <= b,
    ensures
        pow2(a) <= pow2(b),
    decreases b,
{
    if a < b {
        lemma_pow2_le(a, (b - 1) as nat);
    }
}

/// A header/metadata entry.
#[derive(Debug)]
pub struct HeaderEntry {
    pub key: String,
    pub value: String,
}

impl Clone for HeaderEntry {
    fn clone(&self) -> (r: Self)
        ensures
            r.key == self.key,
            r.value == self.value,
    {
        HeaderEntry { key: self.key.clone(), value: self.value.clone() }
    }
}

/// Key and value both hold something besides whitespace.
pub open spec fn entry_valid(key: Seq<char>, value: Seq<char>) -> bool {
    trim(key).len() > 0 && trim(value).len() > 0
}

impl HeaderEntry {
    pub fn new(key: String, value: String) -> (r: Self)
        ensures
            r.key == key,
            r.value == value,
    {
        Self { key, value }
    }

    pub fn is_valid(&self) -> (r: bool)
        ensures
            r == entry_valid(self.key@, self.value@),
    {
        let k = chars_of(self.key.as_str());
        let v = chars_of(self.value.as_str());
        let tk = trim_chars(k.as_slice());
        let tv = trim_chars(v.as_slice());
        !(tk.len() == 0 || tv.len() == 0)
    }
}

/// Structured header/metadata list with validation.
#[derive(Debug)]
pub struct HeaderList(Vec<HeaderEntry>);

impl Clone for HeaderList {
    fn clone(&self) -> (r: Self)
        ensures
            r@ == self@,
    {
        proof {
            use_type_invariant(self);
        }
        let mut v: Vec<HeaderEntry> = Vec::new();
        let mut i: usize = 0;
        while i < self.0.len()
            invariant
                i <= self.0@.len(),
                v@.len() == i,
                forall|j: int| 0 <= j < i ==> (#[trigger] v@[j]).key == self.0@[j].key && v@[j].value == self.0@[j].value,
                forall|j: int| 0 <= j < self.0@.len() ==> entry_valid(#[trigger] self.0@[j].key@, self.0@[j].value@),
            decreases self.0@.len() - i,
        {
            v.push(self.0[i].clone());
            i += 1;
        }
        assert(entries_view(v@) =~= entries_view(self.0@));
        HeaderList(v)
    }
}

pub open spec fn entries_view(v: Seq<HeaderEntry>) -> Seq<(Seq<char>, Seq<char>)> {
    v.map_values(|e: HeaderEntry| (e.key@, e.value@))
}

impl View for HeaderList {
    type V = Seq<(Seq<char>, Seq<char>)>;

    closed spec fn view(&self) -> Seq<(Seq<char>, Seq<char>)> {
        entries_view(self.0@)
    }
}

impl HeaderList {
    #[verifier::type_invariant]
    closed spec fn wf(self) -> bool {
        forall|i: int| 0 <= i < self.0@.len() ==> entry_valid(#[trigger] self.0@[i].key@, self.0@[i].value@)
    }

    pub fn new() -> (r: Self)
        ensures
            r@.len() == 0,
    {
        let r = Self(Vec::new());
        assert(entries_view(r.0@) =~= Seq::empty());
        r
    }

    /// Add a header entry. The key and value must each hold something besides
    /// whitespace.
    pub fn push(&mut self, entry: HeaderEntry)
        requires
            entry_valid(entry.key@, entry.value@),
        ensures
            final(self)@ == old(self)@.push((entry.key@, entry.value@)),
    {
        proof {
            use_type_invariant(&*self);
        }
        let ghost e = (entry.key@, entry.value@);
        let mut v: Vec<HeaderEntry> = Vec::new();
        std::mem::swap(&mut v, &mut self.0);
        v.push(entry);
        assert(entries_view(v@) =~= entries_view(old(self).0@).push(e));
        self.0 = v;
    }

    /// The entries, in insertion order.
    pub fn iter(&self) -> (r: std::slice::Iter<'_, HeaderEntry>)
        ensures
            exists|s: &[HeaderEntry]|
                r == vstd::std_specs::slice::spec_slice_iter(s) && entries_view(s@) == self@,
    {
        let s = self.0.as_slice();
        let r = s.iter();
        assert(r == vstd::std_specs::slice::spec_slice_iter(s) && entries_view(s@) == self@);
        r
    }

    /// The entries as a slice, in insertion order.
    pub fn entries(&self) -> (r: &[HeaderEntry])
        ensures
            entries_view(r@) == self@,
            forall|i: int| 0 <= i < r@.len() ==> entry_valid(#[trigger] r@[i].key@, r@[i].value@),
    {
        proof {
            use_type_invariant(self);
        }
        self.0.as_slice()
    }

    /// Every entry in the list is valid.
    pub fn all_valid(&self) -> (r: bool)
        ensures
            r,
            forall|i: int| 0 <= i < self@.len() ==> entry_valid(#[trigger] self@[i].0, self@[i].1),
    {
        proof {
            use_type_invariant(self);
            assert forall|i: int| 0 <= i < self@.len() implies entry_valid(
                #[trigger] self@[i].0,
                self@[i].1,
            ) by {
                assert(self@[i] == (self.0@[i].key@, self.0@[i].value@));
            }
        }
        true
    }
}

/// Optional headers for proxy calls.
#[derive(Clone, Debug)]
pub struct ProxyOptions {
    pub request_id: Option<String>,
    pub headers: HeaderList,
    pub timeout_ms: Option<u64>,
    pub retry: Option<RetryConfig>,
}

impl ProxyOptions {
    /// No request id, no headers, no timeout or retry override.
    pub fn default() -> (r: Self)
        ensures
            r.request_id is None,
            r.headers@.len() == 0,
            r.timeout_ms is None,
            r.retry is None,
    {
        ProxyOptions { request_id: None, headers: HeaderList::new(), timeout_ms: None, retry: None }
    }

    pub fn with_request_id(self, request_id: &str) -> (r: Self)
        ensures
            r.request_id matches Some(id) && id@ == request_id@,
            r.headers@ == self.headers@,
            r.timeout_ms == self.timeout_ms,
            r.retry == self.retry,
    {
        let mut s = self;
        s.request_id = Some(crate::text::owned(request_id));
        s
    }

    /// Adds a header; the key and value must each hold something besides whitespace.
    pub fn with_header(self, key: &str, value: &str) -> (r: Self)
        requires
            entry_valid(key@, value@),
        ensures
            r.headers@ == self.headers@.push((key@, value@)),
            r.request_id == self.request_id,
            r.timeout_ms == self.timeout_ms,
            r.retry == self.retry,
    {
        let mut s = self;
        s.headers.push(HeaderEntry::new(crate::text::owned(key), crate::text::owned(value)));
        s
    }

    /// Override the overall request timeout for this call.
    pub fn with_timeout(self, timeout_ms: u64) -> (r: Self)
        ensures
            r.timeout_ms == Some(timeout_ms),
            r.request_id == self.request_id,
            r.headers@ == self.headers@,
            r.retry == self.retry,
    {
        let mut s = self;
        s.timeout_ms = Some(timeout_ms);
        s
    }

    /// Override the retry policy for this call.
    pub fn with_retry(self, retry: RetryConfig) -> (r: Self)
        ensures
            r.retry == Some(retry),
            r.request_id == self.request_id,
            r.headers@ == self.headers@,
            r.timeout_ms == self.timeout_ms,
    {
        let mut s = self;
        s.retry = Some(retry);
        s
    }

    /// Disable retries for this call.
    pub fn disable_retry(self) -> (r: Self)
        ensures
            r.retry == Some(RetryConfig { max_attempts: 1, ..default_retry() }),
            r.request_id == self.request_id,
            r.headers@ == self.headers@,
            r.timeout_ms == self.timeout_ms,
    {
        let mut s = self;
        s.retry = Some(RetryConfig::disabled());
        s
    }
}

} // verus!
