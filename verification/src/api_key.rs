//! ModelRelay API keys: publishable (`mr_pk_*`) and secret (`mr_sk_*`).

use vstd::prelude::*;

use crate::errors::{is_validation_message, validation, Error};
use crate::text::{chars_of, lemma_trim_idempotent, starts_with_str, string_of, trim, trim_chars};

verus! {

/// The text a key of the given prefix is parsed from: trimmed, with the
/// prefix and at least one character after it.
pub open spec fn key_text_ok(v: Seq<char>, prefix: Seq<char>) -> bool {
    prefix.is_prefix_of(v) && v.len() > prefix.len()
}

/// A publishable key (`mr_pk_` followed by at least one character).
#[derive(Debug, PartialEq, Eq, Hash)]
pub struct PublishableKey(String);

impl Clone for PublishableKey {
    fn clone(&self) -> (r: Self)
        ensures
            r@ == self@,
    {
        proof {
            use_type_invariant(self);
        }
        PublishableKey(self.0.clone())
    }
}

impl View for PublishableKey {
    type V = Seq<char>;

    closed spec fn view(&self) -> Seq<char> {
        self.0@
    }
}

/// Parsing is idempotent: the text a key was parsed into is accepted
/// again, as the same text.
pub proof fn lemma_parsed_key_text_reparses(raw: Seq<char>, prefix: Seq<char>)
    requires
        key_text_ok(trim(raw), prefix),
    ensures
        key_text_ok(trim(trim(raw)), prefix),
        trim(trim(raw)) == trim(raw),
{
    lemma_trim_idempotent(raw);
}

impl PublishableKey {
    #[verifier::type_invariant]
    closed spec fn wf(self) -> bool {
        key_text_ok(self.0@, "mr_pk_"@) && trim(self.0@) == self.0@
    }

    pub fn parse(raw: &str) -> (r: Result<Self, Error>)
        ensures
            match r {
                Ok(k) => key_text_ok(trim(raw@), "mr_pk_"@) && k@ == trim(raw@),
                Err(e) => !key_text_ok(trim(raw@), "mr_pk_"@) && is_validation_message(
                    e,
                    "invalid publishable key (expected mr_pk_*)"@,
                ),
            },
    {
        let v = chars_of(raw);
        let t = trim_chars(v.as_slice());
        let pre = chars_of("mr_pk_");
        if starts_with_str(t.as_slice(), "mr_pk_") && t.len() > pre.len() {
            proof {
                lemma_trim_idempotent(raw@);
            }
            return Ok(Self(string_of(t.as_slice())));
        }
        Err(validation("invalid publishable key (expected mr_pk_*)"))
    }

    /// The key text; it always holds the prefix, at least one more character,
    /// and no surrounding whitespace.
    pub fn as_str(&self) -> (r: &str)
        ensures
            r@ == self@,
            key_text_ok(r@, "mr_pk_"@),
            trim(r@) == r@,
    {
        proof {
            use_type_invariant(self);
        }
        self.0.as_str()
    }

    /// The `Display` text: the key text.
    pub fn to_string(&self) -> (r: String)
        ensures
            r@ == self@,
            key_text_ok(r@, "mr_pk_"@),
            trim(r@) == r@,
    {
        crate::text::owned(self.as_str())
    }
}

/// A secret key (`mr_sk_` followed by at least one character).
#[derive(Debug, PartialEq, Eq, Hash)]
pub struct SecretKey(String);

impl Clone for SecretKey {
    fn clone(&self) -> (r: Self)
        ensures
            r@ == self@,
    {
        proof {
            use_type_invariant(self);
        }
        SecretKey(self.0.clone())
    }
}

impl View for SecretKey {
    type V = Seq<char>;

    closed spec fn view(&self) -> Seq<char> {
        self.0@
    }
}

impl SecretKey {
    #[verifier::type_invariant]
    closed spec fn wf(self) -> bool {
        key_text_ok(self.0@, "mr_sk_"@) && trim(self.0@) == self.0@
    }

    pub fn parse(raw: &str) -> (r: Result<Self, Error>)
        ensures
            match r {
                Ok(k) => key_text_ok(trim(raw@), "mr_sk_"@) && k@ == trim(raw@),
                Err(e) => !key_text_ok(trim(raw@), "mr_sk_"@) && is_validation_message(
                    e,
                    "invalid secret key (expected mr_sk_*)"@,
                ),
            },
    {
        let v = chars_of(raw);
        let t = trim_chars(v.as_slice());
        let pre = chars_of("mr_sk_");
        if starts_with_str(t.as_slice(), "mr_sk_") && t.len() > pre.len() {
            proof {
                lemma_trim_idempotent(raw@);
            }
            return Ok(Self(string_of(t.as_slice())));
        }
        Err(validation("invalid secret key (expected mr_sk_*)"))
    }

    /// The key text; it always holds the prefix, at least one more character,
    /// and no surrounding whitespace.
    pub fn as_str(&self) -> (r: &str)
        ensures
            r@ == self@,
            key_text_ok(r@, "mr_sk_"@),
            trim(r@) == r@,
    {
        proof {
            use_type_invariant(self);
        }
        self.0.as_str()
    }

    /// The `Display` text: the key text.
    pub fn to_string(&self) -> (r: String)
        ensures
            r@ == self@,
            key_text_ok(r@, "mr_sk_"@),
            trim(r@) == r@,
    {
        crate::text::owned(self.as_str())
    }
}

/// Either kind of API key.
#[derive(Clone, Debug, PartialEq, Eq, Hash)]
pub enum ApiKey {
    Publishable(PublishableKey),
    Secret(SecretKey),
}

impl From<PublishableKey> for ApiKey {
    fn from(value: PublishableKey) -> (r: Self) {
        ApiKey::Publishable(value)
    }
}

impl vstd::std_specs::convert::FromSpecImpl<PublishableKey> for ApiKey {
    open spec fn obeys_from_spec() -> bool {
        true
    }

    open spec fn from_spec(v: PublishableKey) -> ApiKey {
        ApiKey::Publishable(v)
    }
}

impl From<SecretKey> for ApiKey {
    fn from(value: SecretKey) -> (r: Self) {
        ApiKey::Secret(value)
    }
}

impl vstd::std_specs::convert::FromSpecImpl<SecretKey> for ApiKey {
    open spec fn obeys_from_spec() -> bool {
        true
    }

    open spec fn from_spec(v: SecretKey) -> ApiKey {
        ApiKey::Secret(v)
    }
}

impl View for ApiKey {
    type V = Seq<char>;

    open spec fn view(&self) -> Seq<char> {
        match self {
            ApiKey::Publishable(k) => k@,
            ApiKey::Secret(k) => k@,
        }
    }
}

impl ApiKey {
    /// Parses either kind of key; the prefix decides which one is meant.
    pub fn parse(raw: &str) -> (r: Result<Self, Error>)
        ensures
            match r {
                Ok(ApiKey::Publishable(k)) => key_text_ok(trim(raw@), "mr_pk_"@) && k@ == trim(
                    raw@,
                ),
                Ok(ApiKey::Secret(k)) => key_text_ok(trim(raw@), "mr_sk_"@) && k@ == trim(raw@)
                    && !"mr_pk_"@.is_prefix_of(trim(raw@)),
                Err(e) => if "mr_pk_"@.is_prefix_of(trim(raw@)) {
                    !key_text_ok(trim(raw@), "mr_pk_"@) && is_validation_message(
                        e,
                        "invalid publishable key (expected mr_pk_*)"@,
                    )
                } else if "mr_sk_"@.is_prefix_of(trim(raw@)) {
                    !key_text_ok(trim(raw@), "mr_sk_"@) && is_validation_message(
                        e,
                        "invalid secret key (expected mr_sk_*)"@,
                    )
                } else {
                    is_validation_message(e, "invalid API key (expected mr_pk_* or mr_sk_*)"@)
                },
            },
    {
        let v = chars_of(raw);
        let t = trim_chars(v.as_slice());
        let value = string_of(t.as_slice());
        proof {
            lemma_trim_idempotent(raw@);
        }
        if starts_with_str(t.as_slice(), "mr_pk_") {
            return match PublishableKey::parse(value.as_str()) {
                Ok(k) => Ok(ApiKey::Publishable(k)),
                Err(e) => Err(e),
            };
        }
        if starts_with_str(t.as_slice(), "mr_sk_") {
            return match SecretKey::parse(value.as_str()) {
                Ok(k) => Ok(ApiKey::Secret(k)),
                Err(e) => Err(e),
            };
        }
        Err(validation("invalid API key (expected mr_pk_* or mr_sk_*)"))
    }

    pub fn as_str(&self) -> (r: &str)
        ensures
            r@ == self@,
            trim(r@) == r@,
            self is Publishable ==> key_text_ok(r@, "mr_pk_"@),
            self is Secret ==> key_text_ok(r@, "mr_sk_"@),
    {
        match self {
            ApiKey::Publishable(k) => k.as_str(),
            ApiKey::Secret(k) => k.as_str(),
        }
    }

    /// The `Display` text: the key text.
    pub fn to_string(&self) -> (r: String)
        ensures
            r@ == self@,
            trim(r@) == r@,
            self is Publishable ==> key_text_ok(r@, "mr_pk_"@),
            self is Secret ==> key_text_ok(r@, "mr_sk_"@),
    {
        crate::text::owned(self.as_str())
    }

    pub fn is_publishable(&self) -> (r: bool)
        ensures
            r == (self is Publishable),
    {
        matches!(self, ApiKey::Publishable(_))
    }

    pub fn is_secret(&self) -> (r: bool)
        ensures
            r == (self is Secret),
    {
        matches!(self, ApiKey::Secret(_))
    }

    pub fn as_publishable(&self) -> (r: Option<&PublishableKey>)
        ensures
            match self {
                ApiKey::Publishable(k) => r == Some(k),
                ApiKey::Secret(_) => r is None,
            },
    {
        match self {
            ApiKey::Publishable(k) => Some(k),
            ApiKey::Secret(_) => None,
        }
    }

    pub fn as_secret(&self) -> (r: Option<&SecretKey>)
        ensures
            match self {
                ApiKey::Secret(k) => r == Some(k),
                ApiKey::Publishable(_) => r is None,
            },
    {
        match self {
            ApiKey::Secret(k) => Some(k),
            ApiKey::Publishable(_) => None,
        }
    }
}

} // verus!
