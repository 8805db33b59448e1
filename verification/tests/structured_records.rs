use modelrelay::errors::{Error, TransportErrorKind};
use modelrelay::http_errors::JsonValue;
use modelrelay::structured_records::{
    parse_chat_structured_record, parse_structured_record, StructuredCollector,
    StructuredJSONEvent, StructuredRecord, StructuredRecordKind, StructuredStreamState,
};

fn s(v: &str) -> JsonValue {
    JsonValue::Str(v.to_string())
}

fn obj(entries: Vec<(&str, JsonValue)>) -> Option<JsonValue> {
    Some(JsonValue::Object(
        entries.into_iter().map(|(k, v)| (k.to_string(), v)).collect(),
    ))
}

fn event(r: StructuredRecord) -> (StructuredRecordKind, Option<String>, Vec<String>) {
    match r {
        StructuredRecord::Event { kind, request_id, complete_fields } => {
            (kind, request_id, complete_fields)
        }
        other => panic!("expected an event, got {:?}", other),
    }
}

#[test]
fn structured_record_update_and_completion() {
    let data = obj(vec![
        ("type", s("update")),
        ("payload", s("x")),
        ("complete_fields", JsonValue::Array(vec![s("title"), JsonValue::Number(Some(1)), s("a.b")])),
    ]);
    let (kind, rid, fields) = event(parse_structured_record(&data, None, Some("req-1".to_string())));
    assert_eq!(kind, StructuredRecordKind::Update);
    assert_eq!(rid.as_deref(), Some("req-1"));
    assert_eq!(fields, vec!["title".to_string(), "a.b".to_string()]);

    let data = obj(vec![("type", s("completion"))]);
    let (kind, rid, fields) = event(parse_structured_record(
        &data,
        Some("own".to_string()),
        Some("req-1".to_string()),
    ));
    assert_eq!(kind, StructuredRecordKind::Completion);
    assert_eq!(rid.as_deref(), Some("own"));
    assert!(fields.is_empty());
}

#[test]
fn structured_record_error_and_skips() {
    let data = obj(vec![
        ("type", s("error")),
        ("code", s("bad")),
        ("status", JsonValue::Number(Some(70000))),
    ]);
    match parse_structured_record(&data, None, None) {
        StructuredRecord::ApiError(e) => {
            assert_eq!(e.status, (70000u64 as u16));
            assert_eq!(e.code.as_deref(), Some("bad"));
            assert_eq!(e.message, "structured stream error");
            assert!(e.request_id.is_none());
            assert!(e.fields.is_empty());
        }
        other => panic!("unexpected {:?}", other),
    }
    let data = obj(vec![("type", s("error")), ("message", s("boom"))]);
    match parse_structured_record(&data, None, None) {
        StructuredRecord::ApiError(e) => {
            assert_eq!(e.status, 500);
            assert_eq!(e.message, "boom");
        }
        other => panic!("unexpected {:?}", other),
    }
    for data in [
        None,
        Some(s("update")),
        obj(vec![("type", s("start"))]),
        obj(vec![("type", s(" Update "))]),
        obj(vec![]),
    ] {
        assert!(matches!(parse_structured_record(&data, None, None), StructuredRecord::Skip));
    }
}

#[test]
fn chat_structured_record_normalizes_type_and_requires_payload() {
    let data = obj(vec![
        ("type", s(" COMPLETION ")),
        ("payload", JsonValue::Null),
        ("complete_fields", JsonValue::Array(vec![s("a"), s("b"), s("a")])),
    ]);
    let (kind, _, fields) = event(parse_chat_structured_record(&data, None, None));
    assert_eq!(kind, StructuredRecordKind::Completion);
    assert_eq!(fields, vec!["a".to_string(), "b".to_string()]);

    let data = obj(vec![("type", s("update"))]);
    match parse_chat_structured_record(&data, None, None) {
        StructuredRecord::Invalid(Error::Transport(t)) => {
            assert_eq!(t.kind, TransportErrorKind::Request);
            assert_eq!(t.message, "structured stream record missing payload");
        }
        other => panic!("unexpected {:?}", other),
    }
    for data in [obj(vec![("type", s("start"))]), obj(vec![]), obj(vec![("type", s("other"))])] {
        assert!(matches!(parse_chat_structured_record(&data, None, None), StructuredRecord::Skip));
    }
}

#[test]
fn structured_stream_requires_completion_or_error() {
    let mut st = StructuredStreamState::new();
    st.observe(&StructuredRecord::Event {
        kind: StructuredRecordKind::Update,
        request_id: None,
        complete_fields: vec![],
    });
    match st.finish() {
        Err(Error::Transport(t)) => {
            assert_eq!(t.message, "structured stream ended without completion or error")
        }
        other => panic!("unexpected {:?}", other),
    }
    assert!(st.finished);

    let mut st = StructuredStreamState::new();
    st.observe(&StructuredRecord::Event {
        kind: StructuredRecordKind::Completion,
        request_id: None,
        complete_fields: vec![],
    });
    assert!(st.finish().is_ok());
}

fn ev(kind: StructuredRecordKind, payload: u32) -> StructuredJSONEvent<u32> {
    StructuredJSONEvent { kind, payload, request_id: None, complete_fields: vec![] }
}

#[test]
fn structured_collect_prefers_completion_then_last_update() {
    let mut c = StructuredCollector::new();
    assert_eq!(c.push(ev(StructuredRecordKind::Update, 1)), None);
    assert_eq!(c.push(ev(StructuredRecordKind::Update, 2)), None);
    assert_eq!(c.push(ev(StructuredRecordKind::Completion, 3)), Some(3));
    assert_eq!(c.finish().unwrap(), 2);

    let c: StructuredCollector<u32> = StructuredCollector::new();
    assert!(c.finish().is_err());
}

#[test]
fn structured_json_stream_yields_update_and_completion() {
    let records = vec![
        obj(vec![("type", s("start")), ("request_id", s("tiers-1"))]),
        obj(vec![("type", s("update")), ("payload", s("one"))]),
        obj(vec![("type", s("completion")), ("payload", s("one,two"))]),
    ];
    let stream_rid = Some("req-structured".to_string());
    let mut state = StructuredStreamState::new();
    let mut kinds = Vec::new();
    let mut rids = Vec::new();
    for data in &records {
        let r = parse_chat_structured_record(data, None, stream_rid.clone());
        state.observe(&r);
        if let StructuredRecord::Event { kind, request_id, .. } = r {
            kinds.push(kind);
            rids.push(request_id);
        }
    }
    assert_eq!(kinds, vec![StructuredRecordKind::Update, StructuredRecordKind::Completion]);
    assert_eq!(rids[1].as_deref(), Some("req-structured"));
    assert!(state.finish().is_ok());

    let mut c = StructuredCollector::new();
    assert_eq!(c.push(ev(StructuredRecordKind::Update, 1)), None);
    assert_eq!(c.push(ev(StructuredRecordKind::Completion, 2)), Some(2));
}

#[test]
fn structured_json_stream_maps_error_and_protocol_violation() {
    let data = obj(vec![
        ("type", s("error")),
        ("code", s("SERVICE_UNAVAILABLE")),
        ("message", s("upstream timeout")),
        ("status", JsonValue::Number(Some(502))),
    ]);
    match parse_chat_structured_record(&data, None, Some("req-error".to_string())) {
        StructuredRecord::ApiError(api) => {
            assert_eq!(api.status, 502);
            assert_eq!(api.code.as_deref(), Some("SERVICE_UNAVAILABLE"));
            assert_eq!(api.message, "upstream timeout");
            assert_eq!(api.request_id.as_deref(), Some("req-error"));
        }
        other => panic!("expected an API error, got {:?}", other),
    }

    let update = obj(vec![("type", s("update")), ("payload", s("one"))]);
    let mut state = StructuredStreamState::new();
    let r = parse_chat_structured_record(&update, None, Some("req-incomplete".to_string()));
    state.observe(&r);
    match state.finish() {
        Err(Error::Transport(te)) => {
            assert!(te.message.contains("structured stream ended without completion or error"))
        }
        other => panic!("expected a transport error, got {:?}", other),
    }
}
