use modelrelay::chat_requests::{
    metadata_entry, validate_chat_messages, validate_chat_request, ChatEvent, ChatEventKind, ChatStreamAdapter, ChatStreamStep,
};
use modelrelay::errors::Error;
use modelrelay::identifiers::MessageRole;

fn metadata_after(entries: &[(&str, &str)]) -> Option<Vec<(String, String)>> {
    let mut meta: Option<Vec<(String, String)>> = None;
    for (k, v) in entries {
        metadata_entry(&mut meta, k.to_string(), v.to_string());
    }
    meta
}

fn lookup<'a>(meta: &'a [(String, String)], key: &str) -> Option<&'a String> {
    meta.iter().find(|(k, _)| k == key).map(|(_, v)| v)
}

#[test]
fn build_request_requires_user_message() {
    let model = Some("gpt-4o-mini".to_string());
    let err = validate_chat_request(&model, &vec![MessageRole::System]).unwrap_err();
    match err {
        Error::Validation(msg) => {
            assert!(
                msg.to_string().contains("user"),
                "unexpected validation: {}",
                msg.to_string()
            );
        }
        other => panic!("expected validation error, got {:?}", other),
    }
}

#[test]
fn customer_build_request_body_requires_user_message() {
    let err = validate_chat_messages(&vec![MessageRole::System]).unwrap_err();
    match err {
        Error::Validation(msg) => {
            assert!(
                msg.to_string().contains("user"),
                "unexpected validation: {}",
                msg.to_string()
            );
        }
        other => panic!("expected validation error, got {:?}", other),
    }
}

#[test]
fn metadata_entry_ignores_empty_pairs() {
    let meta = metadata_after(&[("trace_id", "abc123"), ("", "should_skip"), ("empty", "")]).unwrap();
    assert_eq!(meta.len(), 1);
    assert_eq!(lookup(&meta, "trace_id"), Some(&"abc123".to_string()));
}

#[test]
fn customer_metadata_entry_ignores_empty_pairs() {
    let meta = metadata_after(&[("trace_id", "abc123"), ("", "should_skip"), ("empty", "")]).unwrap();
    assert_eq!(meta.len(), 1);
    assert_eq!(lookup(&meta, "trace_id"), Some(&"abc123".to_string()));
}

#[test]
fn metadata_entry_replaces_value_of_same_key() {
    let meta = metadata_after(&[("a", "1"), ("b", "2"), ("a", "3")]).unwrap();
    assert_eq!(meta.len(), 2);
    assert_eq!(lookup(&meta, "a"), Some(&"3".to_string()));
    assert_eq!(lookup(&meta, "b"), Some(&"2".to_string()));
}

#[test]
fn metadata_stays_absent_after_blank_entries() {
    assert_eq!(metadata_after(&[("  ", "x"), ("k", " \t")]), None);
}

#[test]
fn chat_request_needs_model_then_messages() {
    match validate_chat_request(&None, &vec![MessageRole::User]) {
        Err(Error::Validation(v)) => {
            assert_eq!(v.message, "model is required");
            assert_eq!(v.field, None);
        }
        other => panic!("unexpected {:?}", other.is_ok()),
    }
    match validate_chat_messages(&vec![]) {
        Err(Error::Validation(v)) => {
            assert_eq!(v.message, "at least one message is required");
            assert_eq!(v.field.as_deref(), Some("messages"));
        }
        other => panic!("unexpected {:?}", other.is_ok()),
    }
    let model = Some("m".to_string());
    assert!(validate_chat_request(&model, &vec![MessageRole::System, MessageRole::User]).is_ok());
}

#[test]
fn chat_stream_adapter_hands_out_deltas_and_final_metadata() {
    let mut a: ChatStreamAdapter<u64, String> = ChatStreamAdapter::new();
    assert_eq!(
        a.on_event(ChatEventKind::MessageDelta, Some("hi".into()), None, None, None, None),
        ChatStreamStep::Delta("hi".into())
    );
    assert_eq!(a.on_event(ChatEventKind::MessageDelta, None, Some(1), None, None, None), ChatStreamStep::Skip);
    assert_eq!(a.on_event(ChatEventKind::Other, Some("x".into()), None, None, None, None), ChatStreamStep::Skip);
    assert!(!a.finished);
    assert_eq!(a.final_usage(), None);
    assert_eq!(
        a.on_event(ChatEventKind::MessageStop, None, Some(15), Some("stop".into()), None, Some("req_stream".into())),
        ChatStreamStep::Stopped
    );
    assert!(a.finished);
    assert_eq!(a.final_usage(), Some(&15));
    assert_eq!(a.final_stop_reason(), Some(&"stop".to_string()));
    assert_eq!(a.final_request_id(), Some("req_stream"));
    a.on_event(ChatEventKind::MessageStop, None, None, None, Some("req_evt".into()), Some("req_stream".into()));
    assert_eq!(a.final_request_id(), Some("req_evt"));
    assert_eq!(a.final_usage(), None);
}

fn chat_event(kind: ChatEventKind, text: Option<&str>, usage: Option<u64>, stop: Option<&str>) -> ChatEvent<u64, String> {
    ChatEvent {
        kind,
        text_delta: text.map(|t| t.to_string()),
        usage,
        stop_reason: stop.map(|t| t.to_string()),
        request_id: None,
    }
}

#[test]
fn next_delta_reads_deltas_in_order_then_stops() {
    let mut a: ChatStreamAdapter<u64, String> = ChatStreamAdapter::new();
    let mut events: Vec<Result<ChatEvent<u64, String>, String>> = vec![
        Ok(chat_event(ChatEventKind::Other, None, None, None)),
        Ok(chat_event(ChatEventKind::MessageDelta, Some("a"), None, None)),
        Ok(chat_event(ChatEventKind::MessageDelta, None, None, None)),
        Ok(chat_event(ChatEventKind::MessageDelta, Some("b"), None, None)),
        Ok(chat_event(ChatEventKind::MessageStop, None, Some(7), Some("end_turn"))),
    ];
    let rid = Some("req_1".to_string());
    assert_eq!(a.next_delta(&mut events, rid.clone()), Ok(Some("a".to_string())));
    assert_eq!(events.len(), 3);
    assert_eq!(a.next_delta(&mut events, rid.clone()), Ok(Some("b".to_string())));
    assert!(!a.finished);
    assert_eq!(a.next_delta(&mut events, rid.clone()), Ok(None));
    assert!(a.finished);
    assert_eq!(a.final_usage(), Some(&7));
    assert_eq!(a.final_stop_reason(), Some(&"end_turn".to_string()));
    assert_eq!(a.final_request_id(), Some("req_1"));
    assert!(events.is_empty());
    assert_eq!(a.next_delta(&mut events, rid), Ok(None));
}

#[test]
fn next_delta_passes_stream_errors_on() {
    let mut a: ChatStreamAdapter<u64, String> = ChatStreamAdapter::new();
    let mut events: Vec<Result<ChatEvent<u64, String>, String>> = vec![
        Ok(chat_event(ChatEventKind::MessageDelta, None, None, None)),
        Err("connection reset".to_string()),
        Ok(chat_event(ChatEventKind::MessageDelta, Some("late"), None, None)),
    ];
    assert_eq!(a.next_delta(&mut events, None), Err("connection reset".to_string()));
    assert!(!a.finished);
    assert_eq!(events.len(), 1);
    assert_eq!(a.next_delta(&mut events, None), Ok(Some("late".to_string())));
}
