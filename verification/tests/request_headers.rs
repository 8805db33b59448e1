use modelrelay::api_key::ApiKey;
use modelrelay::client_core::{
    bearer_token_of, ensure_customer_header, request_headers, ClientConfig, CUSTOMER_ID_HEADER,
};
use modelrelay::errors::Error;
use modelrelay::http::{HeaderEntry, HeaderList, RetryConfig};

fn pairs(v: &[(&str, &str)]) -> Vec<(String, String)> {
    v.iter().map(|(k, x)| (k.to_string(), x.to_string())).collect()
}

#[test]
fn request_headers_order_and_auth() {
    let mut defaults = HeaderList::new();
    defaults.push(HeaderEntry::new(" X-Team ".to_string(), " blue ".to_string()));
    let cfg = ClientConfig {
        base_url: "https://api.example".to_string(),
        api_key: Some(ApiKey::parse("mr_sk_key").unwrap()),
        access_token: Some("  Bearer tok123 ".to_string()),
        client_header: Some("sdk/1".to_string()),
        request_timeout_ms: 1000,
        retry: RetryConfig::default(),
        default_headers: Some(defaults),
    };
    let mut call = HeaderList::new();
    call.push(HeaderEntry::new("X-Trace".to_string(), "t1".to_string()));
    let h = request_headers(&cfg, Some("req-9"), &call, Some("application/json"));
    assert_eq!(
        h,
        pairs(&[
            ("accept", "application/json"),
            ("X-ModelRelay-Request-Id", "req-9"),
            ("X-ModelRelay-Client", "sdk/1"),
            ("authorization", "Bearer tok123"),
            ("X-ModelRelay-Api-Key", "mr_sk_key"),
            ("X-Team", "blue"),
            ("X-Trace", "t1"),
        ])
    );
}

#[test]
fn request_headers_skip_blank_request_id() {
    let cfg = ClientConfig {
        base_url: "https://api.example".to_string(),
        api_key: None,
        access_token: None,
        client_header: None,
        request_timeout_ms: 1000,
        retry: RetryConfig::default(),
        default_headers: None,
    };
    let h = request_headers(&cfg, Some("   "), &HeaderList::new(), None);
    assert!(h.is_empty());
}

#[test]
fn bearer_prefix_is_stripped_once() {
    assert_eq!(bearer_token_of(" Bearer abc "), "abc");
    assert_eq!(bearer_token_of("bearer abc"), "abc");
    assert_eq!(bearer_token_of("BEARER abc"), "BEARER abc");
    assert_eq!(bearer_token_of("xyz"), "xyz");
}

#[test]
fn customer_header_added_checked_or_refused() {
    let mut h = pairs(&[("X-Other", "1")]);
    ensure_customer_header(&mut h, "cust-1").unwrap();
    assert_eq!(h.last().unwrap(), &(CUSTOMER_ID_HEADER.to_string(), "cust-1".to_string()));
    assert_eq!(h.len(), 2);

    let mut h = pairs(&[("x-modelrelay-customer-id", "cust-1")]);
    ensure_customer_header(&mut h, "cust-1").unwrap();
    assert_eq!(h.len(), 1);

    let mut h = pairs(&[("X-MODELRELAY-CUSTOMER-ID", "other")]);
    match ensure_customer_header(&mut h, "cust-1") {
        Err(Error::Validation(v)) => {
            assert_eq!(v.message, "customer_id mismatch");
            assert_eq!(v.field.as_deref(), Some("customer_id"));
        }
        other => panic!("unexpected {:?}", other),
    }
    assert_eq!(h.len(), 1);
}
