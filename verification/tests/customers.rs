use modelrelay::client_core::ClientConfig;
use modelrelay::customers::{
    is_valid_email, require_customer_token, validate_customer_request, BillingProvider,
    CustomerClaimRequest, SubscriptionStatusKind,
};
use modelrelay::errors::Error;
use modelrelay::http::RetryConfig;

fn config(api_key: Option<&str>, token: Option<&str>) -> ClientConfig {
    ClientConfig {
        base_url: "https://api.example".to_string(),
        api_key: api_key.map(|k| modelrelay::api_key::ApiKey::parse(k).unwrap()),
        access_token: token.map(|t| t.to_string()),
        client_header: None,
        request_timeout_ms: 1000,
        retry: RetryConfig::default(),
        default_headers: None,
    }
}

fn field_message(e: Error) -> (String, Option<String>) {
    match e {
        Error::Validation(v) => (v.message, v.field),
        _ => panic!("expected validation error"),
    }
}

#[test]
fn email_shapes() {
    assert!(is_valid_email("a@b.co"));
    assert!(!is_valid_email("a@b"));
    assert!(!is_valid_email("@b.co"));
    assert!(!is_valid_email("a@.co"));
    assert!(!is_valid_email("a@co."));
    assert!(!is_valid_email("a@b@c.d"));
    assert!(!is_valid_email("ab.co"));
}

#[test]
fn customer_request_checks() {
    assert!(validate_customer_request("ext", "a@b.co").is_ok());
    let (m, f) = field_message(validate_customer_request(" ", "a@b.co").unwrap_err());
    assert_eq!((m.as_str(), f.as_deref()), ("external_id is required", Some("external_id")));
    let (m, _) = field_message(validate_customer_request("x", "bad").unwrap_err());
    assert_eq!(m, "invalid email format");
}

#[test]
fn claim_request_checks() {
    let req = CustomerClaimRequest { email: "a@b.co".into(), provider: "p".into(), subject: " ".into() };
    let (m, f) = field_message(req.validate(&config(Some("mr_sk_x"), None)).unwrap_err());
    assert_eq!((m.as_str(), f.as_deref()), ("subject is required", Some("subject")));
    let (m, _) = field_message(req.validate(&config(None, None)).unwrap_err());
    assert_eq!(m, "API key is required");
}

#[test]
fn customer_token_required() {
    assert!(require_customer_token(&config(None, Some("a.b.c"))).is_ok());
    let (m, _) = field_message(require_customer_token(&config(Some("mr_sk_x"), None)).unwrap_err());
    assert_eq!(m, "access token (customer bearer token) is required");
}

#[test]
fn wire_names() {
    assert_eq!(SubscriptionStatusKind::from_wire("past_due"), SubscriptionStatusKind::PastDue);
    assert_eq!(SubscriptionStatusKind::from_wire("brand_new"), SubscriptionStatusKind::Unknown);
    assert_eq!(BillingProvider::from_wire("app_store"), BillingProvider::AppStore);
    assert_eq!(BillingProvider::from_wire("paypal"), BillingProvider::Unknown);
}
