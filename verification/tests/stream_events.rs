use modelrelay::client_core::consume_ndjson_buffer;
use modelrelay::errors::Error;
use modelrelay::http_errors::JsonValue;
use modelrelay::stream_events::{
    finish_collect, finish_collect_blocking, map_event, map_event_checked, CollectState, StreamEvent,
    StreamEventKind,
};

fn member<'a>(v: &'a JsonValue, key: &str) -> Option<&'a JsonValue> {
    match v {
        JsonValue::Object(m) => m.iter().find(|(k, _)| k == key).map(|(_, x)| x),
        _ => None,
    }
}

fn text(v: Option<&JsonValue>) -> Option<&str> {
    match v {
        Some(JsonValue::Str(s)) => Some(s.as_str()),
        _ => None,
    }
}

fn event(data: &str) -> StreamEvent {
    map_event(data, None).unwrap().unwrap()
}

#[test]
fn consumes_ndjson_lines() {
    let data = r#"{"type":"start","request_id":"req-1","model":"gpt-4"}
{"type":"update","payload":{"content":"Hello"}}
{"type":"completion","payload":{"content":"Hello world"},"stop_reason":"end_turn","usage":{"input_tokens":1,"output_tokens":2}}
"#;
    let (events, remainder) = consume_ndjson_buffer(data);
    assert_eq!(remainder, "");
    assert_eq!(events.len(), 3);

    let start = event(&events[0].data);
    assert_eq!(start.kind, StreamEventKind::MessageStart);
    assert_eq!(start.response_id, Some("req-1".to_string()));
    assert_eq!(start.model.as_deref(), Some("gpt-4"));

    let update = event(&events[1].data);
    assert_eq!(update.kind, StreamEventKind::MessageDelta);
    assert_eq!(update.text_delta, Some("Hello".to_string()));

    let completion = event(&events[2].data);
    assert_eq!(completion.kind, StreamEventKind::MessageStop);
    assert_eq!(completion.text_delta, Some("Hello world".to_string()));
    assert_eq!(completion.stop_reason.as_deref(), Some("end_turn"));
    assert!(completion.usage.is_some());
    assert!(matches!(member(completion.usage.as_ref().unwrap(), "input_tokens"), Some(JsonValue::Number(Some(1)))));
}

#[test]
fn filters_keepalive_events() {
    let data = r#"{"type":"keepalive"}
"#;
    let (events, _) = consume_ndjson_buffer(data);
    assert_eq!(events.len(), 1);
    let evt = map_event(&events[0].data, None).unwrap();
    assert!(evt.is_none(), "keepalive events should be filtered out");
}

#[test]
fn parses_tool_use_events() {
    let data = r#"{"type":"tool_use_start","tool_call_delta":{"index":0,"id":"call_1","type":"function","function":{"name":"get_weather"}}}
{"type":"tool_use_delta","tool_call_delta":{"index":0,"function":{"arguments":"{\"location\":"}}}
{"type":"tool_use_stop","tool_calls":[{"id":"call_1","type":"function","function":{"name":"get_weather","arguments":"{\"location\":\"NYC\"}"}}]}
"#;
    let (events, remainder) = consume_ndjson_buffer(data);
    assert_eq!(remainder, "");
    assert_eq!(events.len(), 3);

    let start = event(&events[0].data);
    assert_eq!(start.kind, StreamEventKind::ToolUseStart);
    assert!(start.tool_call_delta.is_some());
    let delta = start.tool_call_delta.unwrap();
    assert!(matches!(member(&delta, "index"), Some(JsonValue::Number(Some(0)))));
    assert_eq!(text(member(&delta, "id")), Some("call_1"));

    let delta_event = event(&events[1].data);
    assert_eq!(delta_event.kind, StreamEventKind::ToolUseDelta);
    assert!(delta_event.tool_call_delta.is_some());

    let stop = event(&events[2].data);
    assert_eq!(stop.kind, StreamEventKind::ToolUseStop);
    match stop.tool_calls {
        Some(JsonValue::Array(calls)) => {
            assert_eq!(calls.len(), 1);
            assert_eq!(text(member(&calls[0], "id")), Some("call_1"));
        }
        _ => panic!("expected a list of tool calls"),
    }
}

#[test]
fn parses_single_tool_call_field() {
    let data = r#"{"type":"tool_use_stop","tool_call":{"id":"call_1","type":"function","function":{"name":"get_weather","arguments":"{}"}}}
"#;
    let (events, _) = consume_ndjson_buffer(data);
    assert_eq!(events.len(), 1);
    let stop = event(&events[0].data);
    assert_eq!(stop.kind, StreamEventKind::ToolUseStop);
    match stop.tool_calls {
        Some(JsonValue::Array(calls)) => {
            assert_eq!(calls.len(), 1);
            assert_eq!(text(member(&calls[0], "id")), Some("call_1"));
        }
        _ => panic!("expected a list of tool calls"),
    }
}

#[test]
fn returns_error_on_invalid_json() {
    let result = map_event("not valid json", None);
    assert!(result.is_err());
    match result {
        Err(Error::StreamProtocol { message, raw_data }) => {
            assert!(message.starts_with("failed to parse NDJSON: "));
            assert_eq!(raw_data.as_deref(), Some("not valid json"));
        }
        _ => panic!("expected a protocol error"),
    }
}

#[test]
fn returns_error_on_missing_type_field() {
    let result = map_event(r#"{"foo":"bar"}"#, None);
    assert!(result.is_err());
    let err = match result {
        Err(e) => e,
        Ok(_) => panic!("expected an error"),
    };
    assert!(matches!(err, Error::StreamProtocol { .. }));
}

#[test]
fn non_object_and_long_lines() {
    match map_event("[1,2]", None) {
        Err(Error::StreamProtocol { message, .. }) => assert_eq!(message, "NDJSON event is not an object"),
        _ => panic!("expected a protocol error"),
    }
    match map_event(r#"{"type":7}"#, None) {
        Err(Error::StreamProtocol { message, .. }) => assert_eq!(message, "NDJSON event missing 'type' field"),
        _ => panic!("expected a protocol error"),
    }
    let long = format!("{{\"x\":\"{}\"}}", "a".repeat(300));
    match map_event(&long, None) {
        Err(Error::StreamProtocol { raw_data: Some(r), .. }) => {
            assert_eq!(r, format!("{}... (308 bytes total)", &long[..200]));
        }
        _ => panic!("expected a protocol error"),
    }
    let cut = format!("{}é", "a".repeat(199));
    assert!(map_event_checked(&cut, None).is_none());
    let fine = format!("{}é", "a".repeat(198));
    assert!(map_event_checked(&fine, None).is_some());
}

#[test]
fn model_is_trimmed_and_request_id_kept() {
    let e = map_event(r#"{"type":"start","model":"  ","request_id":"r"}"#, Some("req_s".into())).unwrap().unwrap();
    assert_eq!(e.model, None);
    assert_eq!(e.request_id.as_deref(), Some("req_s"));
    let e = map_event(r#"{"type":"ping","model":" m1 "}"#, None).unwrap().unwrap();
    assert_eq!(e.kind, StreamEventKind::Other);
    assert_eq!(e.event, "ping");
    assert_eq!(e.model.as_deref(), Some("m1"));
}

#[test]
fn collecting_a_stream_builds_the_response() {
    let lines = [
        r#"{"type":"start","request_id":"resp-1","model":"gpt-4"}"#,
        r#"{"type":"update","payload":{"content":"Hel"}}"#,
        r#"{"type":"update","payload":{"content":"lo"}}"#,
        r#"{"type":"completion","stop_reason":"end_turn","model":"gpt-4o"}"#,
        r#"{"type":"update","payload":{"content":"ignored"}}"#,
    ];
    let mut st = CollectState::new();
    let mut done = false;
    for l in lines {
        if done {
            break;
        }
        done = st.collect_step(event(l));
    }
    assert!(done);
    let r = finish_collect(st, Some("req-x".into())).ok().unwrap();
    assert_eq!(r.id, "resp-1");
    assert_eq!(r.model, "gpt-4o");
    assert_eq!(r.text, "Hello");
    assert_eq!(r.stop_reason.as_deref(), Some("end_turn"));
    assert_eq!(r.request_id.as_deref(), Some("req-x"));
}

#[test]
fn collecting_needs_id_and_model() {
    match finish_collect(CollectState::new(), None) {
        Err(Error::StreamProtocol { message, raw_data }) => {
            assert_eq!(message, "stream completed without response_id or request_id");
            assert_eq!(raw_data, None);
        }
        _ => panic!("expected a protocol error"),
    }
    match finish_collect(CollectState::new(), Some("req".into())) {
        Err(Error::StreamProtocol { message, .. }) => {
            assert_eq!(message, "stream completed without model information")
        }
        _ => panic!("expected a protocol error"),
    }
}

#[test]
fn malformed_tool_payloads_are_refused() {
    let msg = |line: &str| match map_event(line, None) {
        Err(Error::StreamProtocol { message, raw_data }) => {
            assert_eq!(raw_data.as_deref(), Some(line));
            message
        }
        _ => panic!("expected a protocol error for {line}"),
    };
    assert_eq!(
        msg(r#"{"type":"update","tool_call_delta":"oops"}"#),
        "failed to parse tool_call_delta: expected an object"
    );
    assert_eq!(
        msg(r#"{"type":"tool_use_stop","tool_calls":{"id":"c"}}"#),
        "failed to parse tool_calls: expected an array of objects"
    );
    assert_eq!(
        msg(r#"{"type":"tool_use_stop","tool_calls":[{"id":"c"},3]}"#),
        "failed to parse tool_calls: expected an array of objects"
    );
    assert_eq!(
        msg(r#"{"type":"tool_use_stop","tool_call":[1]}"#),
        "failed to parse tool_call: expected an object"
    );
    assert!(map_event(r#"{"type":"keepalive","tool_call":7}"#, None).unwrap().is_none());
}

#[test]
fn usage_of_the_wrong_shape_is_dropped() {
    let e = event(r#"{"type":"completion","usage":{"input_tokens":"1"}}"#);
    assert!(e.usage.is_none());
    let e = event(r#"{"type":"completion","usage":[1,2,3]}"#);
    assert!(e.usage.is_none());
    let e = event(r#"{"type":"completion","usage":{"input_tokens":1,"total_tokens":3}}"#);
    assert!(e.usage.is_some());
}

#[test]
fn blocking_collection_falls_back_to_stream_id() {
    let r = finish_collect_blocking(CollectState::new(), None);
    assert_eq!(r.id, "stream");
    assert_eq!(r.model, "");
    let r = finish_collect_blocking(CollectState::new(), Some("req".into()));
    assert_eq!(r.id, "req");
}
