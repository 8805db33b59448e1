//! Customer request checks and the enumerations of customer billing state.

use vstd::prelude::*;

use crate::api_key::ApiKey;
use crate::client_core::{validate_secret_key, ClientConfig};
use crate::errors::{field_validation, is_field_error, is_validation_message, validation, Error};
use crate::text::{chars_of, contains_char, str_eq, trim, trim_chars};

verus! {

/// A domain part as the email check accepts it: non-empty, holding a dot,
/// neither starting nor ending with one.
pub open spec fn valid_email_domain(d: Seq<char>) -> bool {
    &&& d.len() > 0
    &&& d.contains('.')
    &&& d[0] != '.'
    &&& d.last() != '.'
}

/// Simple email check: exactly one `@`, text before it, and a valid domain after it.
pub open spec fn valid_email(e: Seq<char>) -> bool {
    exists|i: int|
        0 < i < e.len() && #[trigger] e[i] == '@' && (forall|j: int|
            0 <= j < e.len() && j != i ==> e[j] != '@') && valid_email_domain(
            e.subrange(i + 1, e.len() as int),
        )
}

/// Checks the basic shape of an email address.
pub fn is_valid_email(email: &str) -> (r: bool)
    ensures
        r == valid_email(email@),
{
    let e = chars_of(email);
    let n = e.len();
    let mut i: usize = 0;
    while i < n && e[i] != '@'
        invariant
            n == e@.len(),
            i <= n,
            forall|j: int| 0 <= j < i ==> e@[j] != '@',
        decreases n - i,
    {
        i += 1;
    }
    if i == n {
        assert forall|k: int| 0 < k < e@.len() implies !(#[trigger] e@[k] == '@' && (forall|j: int|
            0 <= j < e@.len() && j != k ==> e@[j] != '@') && valid_email_domain(
            e@.subrange(k + 1, e@.len() as int),
        )) by {
            assert(e@[k] != '@');
        }
        return false;
    }
    let mut k: usize = i + 1;
    while k < n && e[k] != '@'
        invariant
            n == e@.len(),
            i < n,
            e@[i as int] == '@',
            i < k <= n,
            forall|j: int| 0 <= j < i ==> e@[j] != '@',
            forall|j: int| i < j < k ==> e@[j] != '@',
        decreases n - k,
    {
        k += 1;
    }
    if k < n {
        assert(e@[k as int] == '@');
        assert forall|m: int| 0 < m < e@.len() implies !(#[trigger] e@[m] == '@' && (forall|j: int|
            0 <= j < e@.len() && j != m ==> e@[j] != '@') && valid_email_domain(
            e@.subrange(m + 1, e@.len() as int),
        )) by {
            if e@[m] == '@' && m != i {
                assert(e@[i as int] == '@');
            }
        }
        return false;
    }
    let domain = crate::text::slice_chars(e.as_slice(), i + 1, n);
    let ok = i > 0 && domain.len() > 0 && contains_char(domain.as_slice(), '.') && domain[0] != '.'
        && domain[domain.len() - 1] != '.';
    proof {
        if ok {
            assert(e@[i as int] == '@');
        } else {
            assert forall|m: int| 0 < m < e@.len() implies !(#[trigger] e@[m] == '@' && (forall|
                j: int,
            | 0 <= j < e@.len() && j != m ==> e@[j] != '@') && valid_email_domain(
                e@.subrange(m + 1, e@.len() as int),
            )) by {
                if e@[m] == '@' {
                    assert(m == i);
                }
            }
        }
    }
    ok
}

/// The first rule of a customer create or upsert request that is broken.
pub open spec fn customer_request_error(external_id: Seq<char>, email: Seq<char>) -> Option<
    (Seq<char>, Seq<char>),
> {
    if trim(external_id).len() == 0 {
        Some(("external_id is required"@, "external_id"@))
    } else if trim(email).len() == 0 {
        Some(("email is required"@, "email"@))
    } else if !valid_email(email) {
        Some(("invalid email format"@, "email"@))
    } else {
        None
    }
}

fn is_blank(s: &str) -> (r: bool)
    ensures
        r == (trim(s@).len() == 0),
{
    let c = chars_of(s);
    let t = trim_chars(c.as_slice());
    t.len() == 0
}

/// Validates the fields shared by customer create and upsert requests.
pub fn validate_customer_request(external_id: &str, email: &str) -> (r: Result<(), Error>)
    ensures
        match customer_request_error(external_id@, email@) {
            None => r is Ok,
            Some((msg, field)) => r matches Err(e) && is_field_error(e, msg, field),
        },
{
    if is_blank(external_id) {
        return Err(field_validation("external_id is required", "external_id"));
    }
    if is_blank(email) {
        return Err(field_validation("email is required", "email"));
    }
    if !is_valid_email(email) {
        return Err(field_validation("invalid email format", "email"));
    }
    Ok(())
}

/// A customer token is minted for exactly one customer: by id, or by a
/// non-blank external id, never both and never neither.
pub fn validate_customer_token_request(
    has_customer_id: bool,
    customer_external_id: &Option<String>,
) -> (r: Result<(), Error>)
    ensures
        ({
            let has_external = customer_external_id matches Some(x) && trim(x@).len() > 0;
            &&& has_customer_id != has_external ==> r is Ok
            &&& has_customer_id == has_external ==> (r matches Err(e) && is_validation_message(
                e,
                "provide exactly one of customer_id or customer_external_id"@,
            ))
        }),
{
    let has_external = match customer_external_id {
        Some(x) => !is_blank(x.as_str()),
        None => false,
    };
    if has_customer_id == has_external {
        return Err(validation("provide exactly one of customer_id or customer_external_id"));
    }
    Ok(())
}

/// A subscription checkout is refused, in this order: without a secret key,
/// for the nil tier id (all 128 bits zero), and when either redirect URL is
/// blank.
pub fn validate_subscribe_request(
    api_key: &Option<ApiKey>,
    tier_id: u128,
    success_url: &str,
    cancel_url: &str,
) -> (r: Result<(), Error>)
    ensures
        match api_key {
            Some(ApiKey::Secret(_)) => if tier_id == 0 {
                r matches Err(e) && is_validation_message(e, "tier_id is required"@)
            } else if trim(success_url@).len() == 0 || trim(cancel_url@).len() == 0 {
                r matches Err(e) && is_validation_message(
                    e,
                    "success_url and cancel_url are required"@,
                )
            } else {
                r is Ok
            },
            Some(_) => r matches Err(e) && is_validation_message(
                e,
                "secret key (mr_sk_*) required for this operation"@,
            ),
            None => r matches Err(e) && is_validation_message(e, "API key is required"@),
        },
{
    validate_secret_key(api_key)?;
    if tier_id == 0 {
        return Err(validation("tier_id is required"));
    }
    if is_blank(success_url) || is_blank(cancel_url) {
        return Err(validation("success_url and cancel_url are required"));
    }
    Ok(())
}

/// Request to link a customer identity (provider + subject) to a customer by email.
///
/// Used when a customer subscribes via Stripe Checkout (email only) and later authenticates to the app.
#[derive(Debug, Clone)]
pub struct CustomerClaimRequest {
    pub email: String,
    pub provider: String,
    pub subject: String,
}

/// The first rule of a claim request that is broken.
pub open spec fn claim_request_error(r: CustomerClaimRequest) -> Option<(Seq<char>, Seq<char>)> {
    if trim(r.email@).len() == 0 {
        Some(("email is required"@, "email"@))
    } else if !valid_email(r.email@) {
        Some(("invalid email format"@, "email"@))
    } else if trim(r.provider@).len() == 0 {
        Some(("provider is required"@, "provider"@))
    } else if trim(r.subject@).len() == 0 {
        Some(("subject is required"@, "subject"@))
    } else {
        None
    }
}

impl CustomerClaimRequest {
    /// Checks the request before it is sent: an API key must be configured,
    /// then the email, provider and subject are checked in that order.
    pub fn validate(&self, config: &ClientConfig) -> (r: Result<(), Error>)
        ensures
            config.api_key is None ==> (r matches Err(e) && is_validation_message(
                e,
                "API key is required"@,
            )),
            config.api_key is Some ==> match claim_request_error(*self) {
                None => r is Ok,
                Some((msg, field)) => r matches Err(e) && is_field_error(e, msg, field),
            },
    {
        crate::client_core::validate_api_key(&config.api_key)?;
        if is_blank(self.email.as_str()) {
            return Err(field_validation("email is required", "email"));
        }
        if !is_valid_email(self.email.as_str()) {
            return Err(field_validation("invalid email format", "email"));
        }
        if is_blank(self.provider.as_str()) {
            return Err(field_validation("provider is required", "provider"));
        }
        if is_blank(self.subject.as_str()) {
            return Err(field_validation("subject is required", "subject"));
        }
        Ok(())
    }
}

/// Refuses a customer-scoped call made without a customer bearer token.
pub fn require_customer_token(config: &ClientConfig) -> (r: Result<(), Error>)
    ensures
        r is Ok <==> (config.access_token matches Some(t) && crate::client_core::jwt_like(t@)),
        r is Err ==> (r matches Err(e) && is_validation_message(
            e,
            "access token (customer bearer token) is required"@,
        )),
{
    if !config.has_jwt_access_token() {
        return Err(validation("access token (customer bearer token) is required"));
    }
    Ok(())
}

/// Subscription status values.
#[derive(Debug, Clone, Copy, PartialEq, Eq, Structural)]
pub enum SubscriptionStatusKind {
    Active,
    PastDue,
    Canceled,
    Trialing,
    Incomplete,
    IncompleteExpired,
    Unpaid,
    Paused,
    /// Unknown status for forward compatibility with new Stripe statuses.
    Unknown,
}

/// The wire name of a status (`unknown` stands for every other name).
pub open spec fn subscription_status_text(k: SubscriptionStatusKind) -> Seq<char> {
    match k {
        SubscriptionStatusKind::Active => "active"@,
        SubscriptionStatusKind::PastDue => "past_due"@,
        SubscriptionStatusKind::Canceled => "canceled"@,
        SubscriptionStatusKind::Trialing => "trialing"@,
        SubscriptionStatusKind::Incomplete => "incomplete"@,
        SubscriptionStatusKind::IncompleteExpired => "incomplete_expired"@,
        SubscriptionStatusKind::Unpaid => "unpaid"@,
        SubscriptionStatusKind::Paused => "paused"@,
        SubscriptionStatusKind::Unknown => "unknown"@,
    }
}

impl SubscriptionStatusKind {
    /// Reads a status from its wire name; any other name is `Unknown`.
    pub fn from_wire(s: &str) -> (r: Self)
        ensures
            r != SubscriptionStatusKind::Unknown ==> subscription_status_text(r) == s@,
            r == SubscriptionStatusKind::Unknown ==> forall|k: SubscriptionStatusKind|
                k != SubscriptionStatusKind::Unknown ==> subscription_status_text(k) != s@,
    {
        if str_eq(s, "active") {
            SubscriptionStatusKind::Active
        } else if str_eq(s, "past_due") {
            SubscriptionStatusKind::PastDue
        } else if str_eq(s, "canceled") {
            SubscriptionStatusKind::Canceled
        } else if str_eq(s, "trialing") {
            SubscriptionStatusKind::Trialing
        } else if str_eq(s, "incomplete") {
            SubscriptionStatusKind::Incomplete
        } else if str_eq(s, "incomplete_expired") {
            SubscriptionStatusKind::IncompleteExpired
        } else if str_eq(s, "unpaid") {
            SubscriptionStatusKind::Unpaid
        } else if str_eq(s, "paused") {
            SubscriptionStatusKind::Paused
        } else {
            SubscriptionStatusKind::Unknown
        }
    }
}

/// Billing providers that can back a subscription.
#[derive(Debug, Clone, Copy, PartialEq, Eq, Structural)]
pub enum BillingProvider {
    Stripe,
    Crypto,
    AppStore,
    External,
    /// Unknown provider for forward compatibility with new values.
    Unknown,
}

/// The wire name of a provider (`unknown` stands for every other name).
pub open spec fn billing_provider_text(p: BillingProvider) -> Seq<char> {
    match p {
        BillingProvider::Stripe => "stripe"@,
        BillingProvider::Crypto => "crypto"@,
        BillingProvider::AppStore => "app_store"@,
        BillingProvider::External => "external"@,
        BillingProvider::Unknown => "unknown"@,
    }
}

impl BillingProvider {
    /// Reads a provider from its wire name; any other name is `Unknown`.
    pub fn from_wire(s: &str) -> (r: Self)
        ensures
            r != BillingProvider::Unknown ==> billing_provider_text(r) == s@,
            r == BillingProvider::Unknown ==> forall|k: BillingProvider|
                k != BillingProvider::Unknown ==> billing_provider_text(k) != s@,
    {
        if str_eq(s, "stripe") {
            BillingProvider::Stripe
        } else if str_eq(s, "crypto") {
            BillingProvider::Crypto
        } else if str_eq(s, "app_store") {
            BillingProvider::AppStore
        } else if str_eq(s, "external") {
            BillingProvider::External
        } else {
            BillingProvider::Unknown
        }
    }
}

/// Checkout session response.
#[derive(Debug, Clone)]
pub struct CheckoutSession {
    pub session_id: String,
    pub url: String,
}

} // verus!
