use modelrelay::errors::{APIError, Error, FieldError};
use modelrelay::http_errors::{parse_api_error, parse_api_error_parts, request_id_from_headers};

fn api(e: Error) -> APIError {
    match e {
        Error::Api(a) => a,
        _ => panic!("expected API error"),
    }
}

#[test]
fn empty_body_uses_status_text() {
    let e = api(parse_api_error_parts(404, Some("Not Found".into()), Some("hdr".into()), String::new(), None));
    assert_eq!(e.status, 404);
    assert_eq!(e.message, "Not Found");
    assert_eq!(e.request_id.as_deref(), Some("hdr"));
    assert!(e.raw_body.is_none());
    let e = api(parse_api_error_parts(599, None, None, String::new(), None));
    assert_eq!(e.message, "request failed");
}

#[test]
fn error_object_envelope() {
    let body = r#"{"error":{"code":"NOT_FOUND","message":"missing","status":410,"fields":[{"field":"id","message":"bad"},["name","empty"]]},"request_id":"req_1"}"#;
    let e = api(parse_api_error_parts(404, Some("Not Found".into()), Some("hdr".into()), body.to_string(), None));
    assert_eq!(e.status, 410);
    assert_eq!(e.code.as_deref(), Some("NOT_FOUND"));
    assert_eq!(e.message, "missing");
    assert_eq!(e.request_id.as_deref(), Some("req_1"));
    assert_eq!(
        e.fields,
        vec![
            FieldError { field: Some("id".into()), message: "bad".into() },
            FieldError { field: Some("name".into()), message: "empty".into() },
        ]
    );
    assert_eq!(e.raw_body.as_deref(), Some(body));
    assert!(e.is_not_found());
}

#[test]
fn error_object_without_message_and_bad_fields() {
    let body = r#"{"error":{"fields":[{"message":1}]},"requestId":"r2"}"#;
    let e = api(parse_api_error_parts(500, Some("Internal Server Error".into()), None, body.to_string(), None));
    assert_eq!(e.message, "Internal Server Error");
    assert_eq!(e.status, 500);
    assert!(e.fields.is_empty());
    assert_eq!(e.request_id.as_deref(), Some("r2"));
}

#[test]
fn top_level_message_envelope() {
    let body = r#"{"error":"nope","message":"top","code":"RATE_LIMIT"}"#;
    let e = api(parse_api_error_parts(429, None, Some("hdr".into()), body.to_string(), None));
    assert_eq!(e.message, "top");
    assert_eq!(e.code.as_deref(), Some("RATE_LIMIT"));
    assert_eq!(e.request_id.as_deref(), Some("hdr"));
    assert_eq!(e.status, 429);
    assert!(e.is_rate_limit());
}

#[test]
fn non_json_body_is_the_message() {
    let e = api(parse_api_error_parts(502, Some("Bad Gateway".into()), None, "upstream down".into(), None));
    assert_eq!(e.message, "upstream down");
    assert_eq!(e.raw_body.as_deref(), Some("upstream down"));
    let e = api(parse_api_error_parts(502, None, None, "[1,2]".into(), None));
    assert_eq!(e.message, "[1,2]");
}

#[test]
fn request_id_header_choice() {
    assert_eq!(request_id_from_headers(Some("a".into()), Some("b".into())).as_deref(), Some("a"));
    assert_eq!(request_id_from_headers(Some("".into()), Some("b".into())).as_deref(), Some("b"));
    assert_eq!(request_id_from_headers(None, Some("".into())), None);
}

#[test]
fn status_reason_comes_from_the_status_code() {
    let e = api(parse_api_error(404, None, Some("req_x".into()), String::new(), None));
    assert_eq!(e.message, "Not Found");
    assert_eq!(e.request_id.as_deref(), Some("req_x"));
    let e = api(parse_api_error(599, Some(String::new()), None, String::new(), None));
    assert_eq!(e.message, "request failed");
    assert_eq!(e.request_id, None);
    let e = api(parse_api_error(503, Some("a".into()), Some("b".into()), "busy".into(), None));
    assert_eq!(e.message, "busy");
    assert_eq!(e.request_id.as_deref(), Some("a"));
}
