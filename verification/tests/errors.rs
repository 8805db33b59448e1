use modelrelay::errors::{APIError, Error, RetryMetadata, TransportError, ValidationError};

#[test]
fn validation_error_formats_with_field() {
    let err = ValidationError::new("is required").with_field("model");
    assert_eq!(err.to_string(), "model: is required");
}

#[test]
fn api_error_keeps_status_and_body() {
    let api_err = APIError {
        status: 429,
        code: Some("rate_limit".into()),
        message: "too many requests".into(),
        request_id: Some("req_123".into()),
        fields: Vec::new(),
        retries: Some(RetryMetadata { attempts: 2, last_status: Some(429), last_error: None }),
        raw_body: Some("{\"error\":\"rate limit\"}".into()),
    };
    assert_eq!(api_err.to_string(), "rate_limit (429): too many requests");
    assert_eq!(api_err.status, 429);
    assert!(api_err.raw_body.is_some());
}

#[test]
fn validation_error_without_field() {
    let err = ValidationError::new("bad input");
    assert_eq!(err.to_string(), "bad input");
}

#[test]
fn http_failure_shows_status_and_body() {
    match TransportError::http_failure("fetch plugin", 404, "gone".to_string()) {
        Error::Transport(t) => assert_eq!(t.message, "fetch plugin (404 Not Found): gone"),
        _ => panic!("expected a transport error"),
    }
    match TransportError::http_failure("x", 799, String::new()) {
        Error::Transport(t) => assert_eq!(t.message, "x (799 <unknown status code>): "),
        _ => panic!("expected a transport error"),
    }
}
