//! Sessions: the query a session listing is sent with.

use vstd::prelude::*;

use crate::bash_policy::{join, join_strings};
use crate::bash_tokenizer::strings_view;
use crate::errors::{field_validation, is_field_error, Error};
use crate::http_errors::opt_view;
use crate::text::{
    chars_of, extend_chars, extend_str, i32_decimal_chars, signed_decimal, str_eq, string_of, trim,
    trim_chars, url_encode, url_encoded,
};

verus! {

/// Options for listing sessions.
#[derive(Debug, Clone, PartialEq, Eq)]
pub struct ListSessionsOptions {
    /// Maximum number of sessions to return (default: 50, max: 100).
    pub limit: Option<i32>,
    /// Number of sessions to skip (for pagination).
    pub offset: Option<i32>,
    /// Pagination cursor from a previous response's next_cursor field.
    pub cursor: Option<String>,
    /// Filter sessions by customer ID.
    pub customer_id: Option<String>,
}

impl Default for ListSessionsOptions {
    fn default() -> (r: Self)
        ensures
            r.limit is None,
            r.offset is None,
            r.cursor is None,
            r.customer_id is None,
    {
        ListSessionsOptions { limit: None, offset: None, cursor: None, customer_id: None }
    }
}

/// `key=value` with the value URL-encoded, when there is a value.
pub open spec fn query_param(key: Seq<char>, value: Option<Seq<char>>) -> Seq<Seq<char>> {
    match value {
        Some(v) => seq![key + "="@ + url_encoded(v)],
        None => seq![],
    }
}

/// An optional integer as its decimal text.
pub open spec fn opt_decimal(n: Option<i32>) -> Option<Seq<char>> {
    match n {
        Some(x) => Some(signed_decimal(x as int)),
        None => None,
    }
}

/// The query parameters of a listing, in this order: `limit`, `offset`,
/// `cursor`, `customer_id`, each when set.
pub open spec fn session_query_params(o: ListSessionsOptions) -> Seq<Seq<char>> {
    query_param("limit"@, opt_decimal(o.limit)) + query_param("offset"@, opt_decimal(o.offset))
        + query_param("cursor"@, opt_view(o.cursor)) + query_param(
        "customer_id"@,
        opt_view(o.customer_id),
    )
}

/// The path of a session listing: `/sessions`, with its parameters joined
/// by `&` after a `?` when there are any.
pub open spec fn sessions_list_path_text(o: ListSessionsOptions) -> Seq<char> {
    let params = session_query_params(o);
    if params.len() == 0 {
        "/sessions"@
    } else {
        "/sessions?"@ + join(params, "&"@)
    }
}

fn push_param(params: &mut Vec<String>, key: &str, value: &str)
    ensures
        strings_view(final(params)@) == strings_view(old(params)@).push(
            key@ + "="@ + url_encoded(value@),
        ),
{
    let mut out = chars_of(key);
    extend_str(&mut out, "=");
    let enc = url_encode(value);
    let e = chars_of(enc.as_str());
    extend_chars(&mut out, e.as_slice());
    let ghost before = params@;
    params.push(string_of(out.as_slice()));
    assert(strings_view(params@) =~= strings_view(before).push(key@ + "="@ + url_encoded(value@)));
}

fn push_int_param(params: &mut Vec<String>, key: &str, value: Option<i32>)
    ensures
        strings_view(final(params)@) == strings_view(old(params)@) + query_param(
            key@,
            opt_decimal(value),
        ),
{
    match value {
        Some(n) => {
            let d = i32_decimal_chars(n);
            let text = string_of(d.as_slice());
            push_param(params, key, text.as_str());
            assert(strings_view(old(params)@).push(key@ + "="@ + url_encoded(text@)) =~= strings_view(
                old(params)@,
            ) + query_param(key@, opt_decimal(value)));
        },
        None => {
            assert(strings_view(params@) =~= strings_view(params@) + query_param(
                key@,
                opt_decimal(value),
            ));
        },
    }
}

fn push_text_param(params: &mut Vec<String>, key: &str, value: &Option<String>)
    ensures
        strings_view(final(params)@) == strings_view(old(params)@) + query_param(
            key@,
            opt_view(*value),
        ),
{
    match value {
        Some(v) => {
            push_param(params, key, v.as_str());
            assert(strings_view(old(params)@).push(key@ + "="@ + url_encoded(v@)) =~= strings_view(
                old(params)@,
            ) + query_param(key@, opt_view(*value)));
        },
        None => {
            assert(strings_view(params@) =~= strings_view(params@) + query_param(
                key@,
                opt_view(*value),
            ));
        },
    }
}

/// The request path of a session listing.
pub fn sessions_list_path(opts: &ListSessionsOptions) -> (r: String)
    ensures
        r@ == sessions_list_path_text(*opts),
{
    let mut params: Vec<String> = Vec::new();
    assert(strings_view(params@) =~= Seq::<Seq<char>>::empty());
    push_int_param(&mut params, "limit", opts.limit);
    push_int_param(&mut params, "offset", opts.offset);
    push_text_param(&mut params, "cursor", &opts.cursor);
    push_text_param(&mut params, "customer_id", &opts.customer_id);
    assert(strings_view(params@) =~= session_query_params(*opts));
    if params.len() == 0 {
        return crate::text::owned("/sessions");
    }
    let mut out = chars_of("/sessions?");
    let j = join_strings(&params, "&");
    extend_chars(&mut out, j.as_slice());
    string_of(out.as_slice())
}


/// A session id is required (not blank).
pub fn validate_session_id(session_id: &str) -> (r: Result<(), Error>)
    ensures
        trim(session_id@).len() == 0 ==> (r matches Err(e) && is_field_error(
            e,
            "session_id is required"@,
            "session_id"@,
        )),
        trim(session_id@).len() > 0 ==> r is Ok,
{
    let c = chars_of(session_id);
    if trim_chars(c.as_slice()).len() == 0 {
        return Err(field_validation("session_id is required", "session_id"));
    }
    Ok(())
}

/// The roles a session message may have.
pub open spec fn is_message_role(role: Seq<char>) -> bool {
    role == "user"@ || role == "assistant"@ || role == "tool"@
}

/// Checks a message before it is added to a session, in this order: a
/// session id, a role (trimmed) that is `user`, `assistant` or `tool`, and
/// some content. The role is sent trimmed; it is what comes back.
pub fn check_session_message(session_id: &str, role: &str, content_is_empty: bool) -> (r: Result<
    String,
    Error,
>)
    ensures
        trim(session_id@).len() == 0 ==> (r matches Err(e) && is_field_error(
            e,
            "session_id is required"@,
            "session_id"@,
        )),
        trim(session_id@).len() > 0 && trim(role@).len() == 0 ==> (r matches Err(e)
            && is_field_error(e, "role is required"@, "role"@)),
        trim(session_id@).len() > 0 && trim(role@).len() > 0 && !is_message_role(trim(role@)) ==> (
        r matches Err(e) && is_field_error(
            e,
            "invalid role '"@ + trim(role@) + "' (must be user, assistant, or tool)"@,
            "role"@,
        )),
        trim(session_id@).len() > 0 && is_message_role(trim(role@)) && content_is_empty ==> (
        r matches Err(e) && is_field_error(e, "content is required"@, "content"@)),
        trim(session_id@).len() > 0 && is_message_role(trim(role@)) && !content_is_empty ==> (
        r matches Ok(x) && x@ == trim(role@)),
{
    validate_session_id(session_id)?;
    proof {
        reveal_strlit("user");
        reveal_strlit("assistant");
        reveal_strlit("tool");
    }
    let rc = chars_of(role);
    let t = string_of(trim_chars(rc.as_slice()).as_slice());
    if t.as_str().unicode_len() == 0 {
        return Err(field_validation("role is required", "role"));
    }
    if !(str_eq(t.as_str(), "user") || str_eq(t.as_str(), "assistant") || str_eq(t.as_str(), "tool")) {
        let mut m = chars_of("invalid role '");
        extend_str(&mut m, t.as_str());
        extend_str(&mut m, "' (must be user, assistant, or tool)");
        let msg = string_of(m.as_slice());
        return Err(field_validation(msg.as_str(), "role"));
    }
    if content_is_empty {
        return Err(field_validation("content is required", "content"));
    }
    Ok(t)
}

} // verus!
