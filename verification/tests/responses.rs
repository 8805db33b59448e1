use modelrelay::errors::{Error, TransportErrorKind};
use modelrelay::responses::{
    compute_text_delta, require_assistant_text, validate_structured_output_format,
    ResponseStreamAdapter,
};

fn delta(acc: &str, next: &str) -> (String, String) {
    compute_text_delta(acc.to_string(), next.to_string())
}

#[test]
fn text_deltas_from_cumulative_text() {
    assert_eq!(delta("", "Hel"), ("Hel".to_string(), "Hel".to_string()));
    assert_eq!(delta("Hel", "Hello"), ("lo".to_string(), "Hello".to_string()));
    assert_eq!(delta("Hello", "Hel"), (String::new(), "Hel".to_string()));
    assert_eq!(delta("Hello", "World"), ("World".to_string(), "HelloWorld".to_string()));
    assert_eq!(delta("héllo", "héllo wörld"), (" wörld".to_string(), "héllo wörld".to_string()));
}

#[test]
fn assistant_text_must_not_be_blank() {
    assert_eq!(require_assistant_text("hi".to_string()).unwrap(), "hi");
    match require_assistant_text(" \n".to_string()) {
        Err(Error::Transport(t)) => {
            assert_eq!(t.kind, TransportErrorKind::EmptyResponse);
            assert_eq!(t.message, "response contained no assistant text output");
        }
        other => panic!("unexpected {:?}", other),
    }
}

#[test]
fn structured_format_required() {
    assert!(validate_structured_output_format(Some(true)).is_ok());
    match validate_structured_output_format(Some(false)) {
        Err(Error::Validation(v)) => assert_eq!(v.field.as_deref(), Some("output_format.type")),
        other => panic!("unexpected {:?}", other),
    }
    match validate_structured_output_format(None) {
        Err(Error::Validation(v)) => {
            assert_eq!(v.message, "output_format is required for structured streaming")
        }
        other => panic!("unexpected {:?}", other),
    }
}

#[test]
fn stream_adapter_yields_only_new_text() {
    let mut a = ResponseStreamAdapter::new();
    assert_eq!(a.next_delta(true, Some("Hel".to_string())), Some("Hel".to_string()));
    assert_eq!(a.next_delta(false, Some("ignored".to_string())), None);
    assert_eq!(a.next_delta(true, None), None);
    assert_eq!(a.next_delta(true, Some("Hello".to_string())), Some("lo".to_string()));
    assert_eq!(a.next_delta(true, Some("Hello".to_string())), None);
    assert_eq!(a.accumulated, "Hello");
    assert_eq!(a.next_delta(true, Some("!".to_string())), Some("!".to_string()));
    assert_eq!(a.accumulated, "Hello!");
}

#[test]
fn cumulative_texts_rebuild_from_deltas() {
    let texts = ["", "Hé", "Héllo", "Héllo", "Héllo wörld"];
    let mut acc = String::new();
    let mut joined = String::new();
    for t in texts {
        let (d, a) = compute_text_delta(acc, t.to_string());
        joined.push_str(&d);
        acc = a;
    }
    assert_eq!(joined, "Héllo wörld");
    assert_eq!(acc, "Héllo wörld");
}
