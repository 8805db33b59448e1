//! Identifier types of the API: providers, tier codes and message roles.

use vstd::prelude::*;

use crate::text::{chars_of, is_ascii_digit, is_ascii_lower};

verus! {

/// A model provider.
#[derive(Debug, Clone, Copy, PartialEq, Eq, Structural)]
pub enum ProviderId {
    Anthropic,
    Openai,
}

/// The wire name of a provider.
pub open spec fn provider_text(p: ProviderId) -> Seq<char> {
    match p {
        ProviderId::Anthropic => "anthropic"@,
        ProviderId::Openai => "openai"@,
    }
}

impl ProviderId {
    /// Parses a provider from its wire name.
    pub fn parse(s: &str) -> (r: Option<ProviderId>)
        ensures
            match r {
                Some(p) => provider_text(p) == s@,
                None => forall|p: ProviderId| provider_text(p) != s@,
            },
    {
        if crate::text::str_eq(s, "anthropic") {
            Some(ProviderId::Anthropic)
        } else if crate::text::str_eq(s, "openai") {
            Some(ProviderId::Openai)
        } else {
            None
        }
    }

    /// The wire name of the provider.
    pub fn as_str(&self) -> (r: &'static str)
        ensures
            r@ == provider_text(*self),
    {
        match self {
            ProviderId::Anthropic => "anthropic",
            ProviderId::Openai => "openai",
        }
    }
}

/// Each provider has its own text, so parsing a provider's text gives that
/// provider back.
pub proof fn lemma_provider_text_round_trip(p: ProviderId, q: ProviderId)
    ensures
        provider_text(p) == provider_text(q) ==> p == q,
{
    reveal_strlit("anthropic");
    reveal_strlit("openai");
    assert("anthropic"@.len() != "openai"@.len());
}

/// Whether `s` is a tier code: a lowercase ASCII letter followed by
/// lowercase ASCII letters, digits, `-` or `_`.
pub open spec fn valid_tier_code(s: Seq<char>) -> bool {
    &&& s.len() > 0
    &&& is_ascii_lower(s[0])
    &&& forall|i: int|
        1 <= i < s.len() ==> is_ascii_lower(#[trigger] s[i]) || is_ascii_digit(s[i]) || s[i]
            == '-' || s[i] == '_'
}

/// A validated tier code.
#[derive(Debug)]
pub struct TierCode {
    code: String,
}

impl Clone for TierCode {
    fn clone(&self) -> (r: Self)
        ensures
            r.view_code() == self.view_code(),
    {
        proof {
            use_type_invariant(self);
        }
        TierCode { code: self.code.clone() }
    }
}

impl TierCode {
    #[verifier::type_invariant]
    spec fn wf(self) -> bool {
        valid_tier_code(self.code@)
    }

    /// The code's text.
    pub closed spec fn view_code(&self) -> Seq<char> {
        self.code@
    }

    /// Parses a tier code; refuses text that does not match the pattern.
    pub fn parse(s: &str) -> (r: Result<TierCode, String>)
        ensures
            match r {
                Ok(t) => valid_tier_code(s@) && t.view_code() == s@,
                Err(_) => !valid_tier_code(s@),
            },
    {
        let c = chars_of(s);
        if c.len() == 0 {
            return Err(crate::text::owned("tier code must not be empty"));
        }
        if !(c[0] >= 'a' && c[0] <= 'z') {
            return Err(crate::text::owned("tier code must start with a lowercase letter"));
        }
        let mut i: usize = 1;
        while i < c.len()
            invariant
                c@ == s@,
                1 <= i <= c@.len(),
                forall|j: int|
                    1 <= j < i ==> is_ascii_lower(#[trigger] c@[j]) || is_ascii_digit(c@[j])
                        || c@[j] == '-' || c@[j] == '_',
            decreases c@.len() - i,
        {
            let ch = c[i];
            if !((ch >= 'a' && ch <= 'z') || (ch >= '0' && ch <= '9') || ch == '-' || ch == '_') {
                return Err(
                    crate::text::owned(
                        "tier code may only hold lowercase letters, digits, '-' and '_'",
                    ),
                );
            }
            i += 1;
        }
        Ok(TierCode { code: crate::text::owned(s) })
    }

    /// The code's text.
    pub fn as_str(&self) -> (r: &str)
        ensures
            r@ == self.view_code(),
            valid_tier_code(r@),
    {
        proof {
            use_type_invariant(self);
        }
        self.code.as_str()
    }

    /// The `Display` text of the code: the code itself.
    pub fn to_string(&self) -> (r: String)
        ensures
            r@ == self.view_code(),
    {
        self.code.clone()
    }
}

/// The role of a message in a conversation.
#[derive(Debug, Clone, Copy, PartialEq, Eq, Structural)]
pub enum MessageRole {
    User,
    Assistant,
    System,
    Tool,
}

/// The wire name of a role.
pub open spec fn message_role_text(r: MessageRole) -> Seq<char> {
    match r {
        MessageRole::User => "user"@,
        MessageRole::Assistant => "assistant"@,
        MessageRole::System => "system"@,
        MessageRole::Tool => "tool"@,
    }
}

/// Extension trait for MessageRole providing convenience methods.
pub trait MessageRoleExt {
    /// Returns the string representation of the role.
    fn as_str(&self) -> &'static str;
}

impl MessageRoleExt for MessageRole {
    fn as_str(&self) -> (r: &'static str)
        ensures
            r@ == message_role_text(*self),
    {
        match self {
            MessageRole::User => "user",
            MessageRole::Assistant => "assistant",
            MessageRole::System => "system",
            MessageRole::Tool => "tool",
        }
    }
}

impl MessageRole {
    /// The `Display` text of the role: its wire name.
    pub fn to_string(&self) -> (r: String)
        ensures
            r@ == message_role_text(*self),
    {
        let s = MessageRoleExt::as_str(self);
        crate::text::owned(s)
    }
}

} // verus!
