//! Setting a client up from its options: authentication, the base URL
//! (parsed, and kept as a directory so relative paths join under it), the
//! client header and the defaults of the timeouts and the retry policy.

use vstd::prelude::*;

use crate::api_key::ApiKey;
use crate::client_core::ClientConfig;
use crate::errors::{is_validation_message, Error, ValidationError};
use crate::http::{default_retry, HeaderList, RetryConfig};
use crate::plugin_source::{opt_text, parse_url, url_parse_result};
use crate::plugins::{either, strip_end_chars, trim_end_by};
use crate::text::{chars_of, extend_chars, extend_str, string_of, trim, trim_chars};

verus! {

/// Default API base URL.
pub const DEFAULT_BASE_URL: &'static str = "https://api.modelrelay.ai/api/v1";

/// Default value of the client header.
pub const DEFAULT_CLIENT_HEADER: &'static str = "modelrelay-rust/0.1.0";

/// Default connection timeout, in milliseconds.
pub const DEFAULT_CONNECT_TIMEOUT_MS: u64 = 5_000;

/// Default request timeout, in milliseconds.
pub const DEFAULT_REQUEST_TIMEOUT_MS: u64 = 60_000;

/// The options a client is made from. Absent values take their defaults.
#[derive(Clone, Debug)]
pub struct Config {
    /// Base URL for the API (defaults to [`DEFAULT_BASE_URL`]).
    pub base_url: Option<String>,
    /// API key for authentication.
    pub api_key: Option<ApiKey>,
    /// Bearer token for authentication (alternative to an API key).
    pub access_token: Option<String>,
    /// Client identifier sent in a header.
    pub client_header: Option<String>,
    /// Connect timeout in milliseconds.
    pub connect_timeout_ms: Option<u64>,
    /// Request timeout in milliseconds.
    pub timeout_ms: Option<u64>,
    /// Retry/backoff policy.
    pub retry: Option<RetryConfig>,
    /// Extra headers applied to all requests.
    pub default_headers: Option<HeaderList>,
}

/// `o` when it holds a text that is not blank.
pub open spec fn non_blank(o: Option<Seq<char>>) -> Option<Seq<char>> {
    match o {
        Some(t) => if trim(t).len() > 0 {
            Some(t)
        } else {
            None
        },
        None => None,
    }
}

/// The text the base URL is parsed from: the given base (or the default)
/// without trailing slashes, then one slash.
pub open spec fn base_url_text(base: Option<Seq<char>>) -> Seq<char> {
    let src = match base {
        Some(b) => b,
        None => DEFAULT_BASE_URL@,
    };
    trim_end_by(src, either('/', '/')) + "/"@
}

/// Whether the options authenticate: an API key, or a token that is not
/// blank.
pub open spec fn has_credentials(cfg: Config) -> bool {
    cfg.api_key is Some || non_blank(opt_text(cfg.access_token)) is Some
}

/// What a client is set up with, from options whose base URL parsed to
/// `href`, together with the connect timeout in milliseconds.
pub open spec fn setup_matches(cfg: Config, href: Seq<char>, c: ClientConfig, connect_ms: u64) -> bool {
    &&& c.base_url@ == href
    &&& c.api_key == cfg.api_key
    &&& opt_text(c.access_token) == non_blank(opt_text(cfg.access_token))
    &&& opt_text(c.client_header) == Some(
        match non_blank(opt_text(cfg.client_header)) {
            Some(h) => h,
            None => DEFAULT_CLIENT_HEADER@,
        },
    )
    &&& c.request_timeout_ms == (match cfg.timeout_ms {
        Some(t) => t,
        None => DEFAULT_REQUEST_TIMEOUT_MS,
    })
    &&& c.retry == (match cfg.retry {
        Some(r) => r,
        None => default_retry(),
    })
    &&& c.default_headers == cfg.default_headers
    &&& connect_ms == (match cfg.connect_timeout_ms {
        Some(t) => t,
        None => DEFAULT_CONNECT_TIMEOUT_MS,
    })
}

/// The result of setting up from `cfg` once authentication is settled:
/// refused when the base URL does not parse, else as `setup_matches` says.
pub open spec fn setup_result(cfg: Config, r: Result<(ClientConfig, u64), Error>) -> bool {
    match url_parse_result(base_url_text(opt_text(cfg.base_url))) {
        Err(t) => r matches Err(e) && is_validation_message(e, "invalid base url: "@ + t),
        Ok(p) => r matches Ok((c, ct)) && setup_matches(cfg, p.0, c, ct),
    }
}

fn non_blank_text(o: Option<String>) -> (r: Option<String>)
    ensures
        opt_text(r) == non_blank(opt_text(o)),
{
    match o {
        Some(t) => {
            let c = chars_of(t.as_str());
            if trim_chars(c.as_slice()).len() > 0 {
                Some(t)
            } else {
                None
            }
        },
        None => None,
    }
}

/// Sets up a blocking client: the options need no credentials; the base
/// URL must parse.
pub fn blocking_client_config(cfg: Config) -> (r: Result<(ClientConfig, u64), Error>)
    ensures
        setup_result(cfg, r),
{
    proof {
        reveal_strlit("/");
        reveal_strlit("invalid base url: ");
    }
    let src = match &cfg.base_url {
        Some(b) => chars_of(b.as_str()),
        None => chars_of(DEFAULT_BASE_URL),
    };
    let mut base = strip_end_chars(src.as_slice(), '/', '/');
    extend_str(&mut base, "/");
    let text = string_of(base.as_slice());
    let href = match parse_url(text.as_str()) {
        Ok(parts) => parts.href,
        Err(t) => {
            let mut m = chars_of("invalid base url: ");
            extend_chars(&mut m, chars_of(t.as_str()).as_slice());
            return Err(Error::Validation(ValidationError { message: string_of(m.as_slice()), field: None }));
        },
    };
    let client_header = match non_blank_text(cfg.client_header) {
        Some(h) => h,
        None => crate::text::owned(DEFAULT_CLIENT_HEADER),
    };
    let c = ClientConfig {
        base_url: href,
        api_key: cfg.api_key,
        access_token: non_blank_text(cfg.access_token),
        client_header: Some(client_header),
        request_timeout_ms: match cfg.timeout_ms {
            Some(t) => t,
            None => DEFAULT_REQUEST_TIMEOUT_MS,
        },
        retry: match cfg.retry {
            Some(r) => r,
            None => RetryConfig::default(),
        },
        default_headers: cfg.default_headers,
    };
    let connect = match cfg.connect_timeout_ms {
        Some(t) => t,
        None => DEFAULT_CONNECT_TIMEOUT_MS,
    };
    Ok((c, connect))
}

/// Sets up an asynchronous client: the options must hold an API key or a
/// token that is not blank (checked first); the base URL must parse.
pub fn client_config(cfg: Config) -> (r: Result<(ClientConfig, u64), Error>)
    ensures
        !has_credentials(cfg) ==> (r matches Err(e) && is_validation_message(
            e,
            "api key or access token is required"@,
        )),
        has_credentials(cfg) ==> setup_result(cfg, r),
{
    let has_key = cfg.api_key.is_some();
    let has_token = match &cfg.access_token {
        Some(t) => trim_chars(chars_of(t.as_str()).as_slice()).len() > 0,
        None => false,
    };
    if !has_key && !has_token {
        return Err(crate::errors::validation("api key or access token is required"));
    }
    blocking_client_config(cfg)
}

} // verus!
