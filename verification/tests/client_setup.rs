use modelrelay::api_key::ApiKey;
use modelrelay::client_setup::{blocking_client_config, client_config, Config};
use modelrelay::errors::Error;
use modelrelay::http::RetryConfig;

fn options() -> Config {
    Config {
        base_url: None,
        api_key: None,
        access_token: None,
        client_header: None,
        connect_timeout_ms: None,
        timeout_ms: None,
        retry: None,
        default_headers: None,
    }
}

fn validation_message(r: Result<(modelrelay::client_core::ClientConfig, u64), Error>) -> String {
    match r {
        Err(Error::Validation(v)) => {
            assert_eq!(v.field, None);
            v.message
        }
        Err(other) => panic!("expected a validation error, got {:?}", other),
        Ok(_) => panic!("expected a validation error"),
    }
}

#[test]
fn client_requires_key_or_token() {
    assert_eq!(validation_message(client_config(options())), "api key or access token is required");
    let mut blank = options();
    blank.access_token = Some("   ".to_string());
    assert_eq!(validation_message(client_config(blank)), "api key or access token is required");
}

#[test]
fn defaults_fill_in() {
    let mut cfg = options();
    cfg.api_key = Some(ApiKey::parse("mr_sk_abc").unwrap());
    cfg.access_token = Some(" ".to_string());
    cfg.client_header = Some("\t".to_string());
    let (c, connect) = client_config(cfg).unwrap();
    assert_eq!(c.base_url, "https://api.modelrelay.ai/api/v1/");
    assert_eq!(c.access_token, None);
    assert_eq!(c.client_header.as_deref(), Some("modelrelay-rust/0.1.0"));
    assert_eq!(c.request_timeout_ms, 60_000);
    assert_eq!(c.retry, RetryConfig::default());
    assert_eq!(connect, 5_000);
}

#[test]
fn base_url_becomes_a_directory() {
    let mut cfg = options();
    cfg.access_token = Some("tok".to_string());
    cfg.base_url = Some("http://localhost:8080/api///".to_string());
    cfg.timeout_ms = Some(1_500);
    cfg.connect_timeout_ms = Some(200);
    cfg.client_header = Some("my-app".to_string());
    let (c, connect) = client_config(cfg).unwrap();
    assert_eq!(c.base_url, "http://localhost:8080/api/");
    assert_eq!(c.access_token.as_deref(), Some("tok"));
    assert_eq!(c.client_header.as_deref(), Some("my-app"));
    assert_eq!(c.request_timeout_ms, 1_500);
    assert_eq!(connect, 200);
}

#[test]
fn malformed_base_url_is_refused() {
    let mut cfg = options();
    cfg.base_url = Some("not a url".to_string());
    assert_eq!(
        validation_message(blocking_client_config(cfg)),
        "invalid base url: relative URL without a base"
    );
}

#[test]
fn blocking_client_needs_no_credentials() {
    let (c, _) = blocking_client_config(options()).unwrap();
    assert!(c.api_key.is_none());
    assert_eq!(c.base_url, "https://api.modelrelay.ai/api/v1/");
}
