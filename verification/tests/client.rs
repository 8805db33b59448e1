use modelrelay::api_key::{ApiKey, PublishableKey, SecretKey};
use modelrelay::client_core::{
    consume_ndjson_buffer, decide_retry, is_jwt_token, AttemptOutcome, RetryDecision,
};
use modelrelay::http::{Method, RetryConfig};

fn test_retry_config() -> RetryConfig {
    RetryConfig { max_attempts: 3, base_backoff_ms: 100, max_backoff_ms: 1000, retry_post: true }
}

#[test]
fn api_key_parse_rejects_invalid() {
    assert!(ApiKey::parse("").is_err());
    assert!(ApiKey::parse("mr_zzz_123").is_err());
    assert!(ApiKey::parse("mr_sk_").is_err());
    assert!(ApiKey::parse("mr_pk_").is_err());
}

#[test]
fn api_key_parse_accepts_both_kinds() {
    let sk = ApiKey::parse("  mr_sk_abc ").unwrap();
    assert!(sk.is_secret());
    assert_eq!(sk.as_str(), "mr_sk_abc");
    let pk = ApiKey::parse("mr_pk_xyz").unwrap();
    assert!(pk.is_publishable());
    assert!(pk.as_secret().is_none());
}

#[test]
fn handles_incomplete_buffer() {
    let data = r#"{"type":"start","request_id":"req-1"}"#;
    let (events, remainder) = consume_ndjson_buffer(data);
    assert_eq!(events.len(), 0);
    assert_eq!(remainder, data);
}

#[test]
fn ndjson_buffer_keeps_trimmed_lines_and_tail() {
    let (events, remainder) = consume_ndjson_buffer(" a \n\n  \nb\nrest");
    let data: Vec<&str> = events.iter().map(|e| e.data.as_str()).collect();
    assert_eq!(data, vec!["a", "b"]);
    assert_eq!(remainder, "rest");
}

#[test]
fn decide_retry_succeeds_on_success() {
    let config = test_retry_config();
    let decision = decide_retry(&AttemptOutcome::Success, 1, 3, &config, Method::Get);
    assert_eq!(decision, RetryDecision::Succeed);
}

#[test]
fn decide_retry_retries_on_server_error() {
    let config = test_retry_config();
    let decision = decide_retry(&AttemptOutcome::ErrorStatus(500), 1, 3, &config, Method::Get);
    assert!(matches!(decision, RetryDecision::Retry { .. }));
}

#[test]
fn decide_retry_fails_on_last_attempt() {
    let config = test_retry_config();
    let decision = decide_retry(&AttemptOutcome::ErrorStatus(500), 3, 3, &config, Method::Get);
    assert_eq!(decision, RetryDecision::Fail);
}

#[test]
fn decide_retry_fails_on_client_error() {
    let config = test_retry_config();
    let decision = decide_retry(&AttemptOutcome::ErrorStatus(400), 1, 3, &config, Method::Get);
    assert_eq!(decision, RetryDecision::Fail);
}

#[test]
fn decide_retry_retries_on_timeout() {
    let config = test_retry_config();
    let decision = decide_retry(
        &AttemptOutcome::TransportError { is_timeout: true, is_connect: false, is_request: false },
        1,
        3,
        &config,
        Method::Get,
    );
    assert!(matches!(decision, RetryDecision::Retry { .. }));
}

#[test]
fn decide_retry_respects_retry_post_config() {
    let mut config = test_retry_config();
    config.retry_post = false;
    let decision = decide_retry(
        &AttemptOutcome::TransportError { is_timeout: true, is_connect: false, is_request: false },
        1,
        3,
        &config,
        Method::Post,
    );
    assert_eq!(decision, RetryDecision::Fail);
    let decision = decide_retry(
        &AttemptOutcome::TransportError { is_timeout: true, is_connect: false, is_request: false },
        1,
        3,
        &config,
        Method::Get,
    );
    assert!(matches!(decision, RetryDecision::Retry { .. }));
}

#[test]
fn decide_retry_returns_backoff_delay() {
    let config = test_retry_config();
    let decision = decide_retry(&AttemptOutcome::ErrorStatus(429), 2, 3, &config, Method::Get);
    if let RetryDecision::Retry { delay_ms } = decision {
        assert!(delay_ms >= 50);
        assert!(delay_ms <= 1000);
    } else {
        panic!("Expected RetryDecision::Retry");
    }
}

#[test]
fn jwt_detection_rejects_api_keys() {
    assert!(is_jwt_token("aaa.bbb.ccc"));
    assert!(!is_jwt_token("mr_sk_a.b.c"));
    assert!(!is_jwt_token("MR_PK_a.b.c"));
    assert!(!is_jwt_token("only.one"));
    assert!(!is_jwt_token("a.b.c.d"));
    assert!(!is_jwt_token(".."));
    assert!(!is_jwt_token("a..c"));
    assert!(!is_jwt_token("a.b c.d"));
    assert!(is_jwt_token("  eyJh-_9.x_Y.z-1 "));
    assert!(!is_jwt_token(""));
}

#[test]
fn api_key_text_reparses_to_same_key() {
    let k = ApiKey::parse("  mr_sk_abc.def.ghi \n").unwrap();
    let again = ApiKey::parse(k.as_str()).unwrap();
    assert_eq!(again.as_str(), "mr_sk_abc.def.ghi");
    assert!(!is_jwt_token(k.as_str()));
}

#[test]
fn client_for_customer_rejects_empty() {
    match modelrelay::client_core::normalize_customer_id("   ") {
        Err(modelrelay::errors::Error::Validation(v)) => {
            assert!(v.to_string().contains("customer_id"));
        }
        other => panic!("expected a validation error, got {:?}", other),
    }
    assert_eq!(modelrelay::client_core::normalize_customer_id(" c-1 ").unwrap(), "c-1");
}

#[test]
fn keys_convert_into_api_keys() {
    let sk = SecretKey::parse("mr_sk_abc").unwrap();
    assert!(matches!(ApiKey::from(sk), ApiKey::Secret(_)));
    let pk = PublishableKey::parse("mr_pk_abc").unwrap();
    assert!(matches!(ApiKey::from(pk), ApiKey::Publishable(_)));
}

#[test]
fn keys_display_their_trimmed_text() {
    let pk = PublishableKey::parse("  mr_pk_abc ").unwrap();
    assert_eq!(pk.to_string(), "mr_pk_abc");
    let sk = SecretKey::parse("mr_sk_xyz\n").unwrap();
    assert_eq!(sk.to_string(), "mr_sk_xyz");
    let k = ApiKey::parse(" mr_sk_q ").unwrap();
    assert_eq!(k.to_string(), k.as_str());
    assert_eq!(ApiKey::parse(&k.to_string()).unwrap(), k);
}
