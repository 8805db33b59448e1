use modelrelay::errors::{Error, StreamTimeoutError, StreamTimeoutKind};
use modelrelay::ndjson_stream::{NdjsonStreamState, ProcessEventsResult, StreamAction, MAX_PENDING_EVENTS};
use modelrelay::stream_timeouts::{StreamDeadline, StreamTimeouts};

fn lines(events: Vec<modelrelay::client_core::RawEvent>) -> Vec<String> {
    events.into_iter().map(|e| e.data).collect()
}

fn no_limits() -> StreamTimeouts {
    StreamTimeouts { ttft_ms: None, idle_ms: None, total_ms: None }
}

#[test]
fn chunks_are_split_into_complete_lines() {
    let mut st: NdjsonStreamState<String> = NdjsonStreamState::new();
    assert_eq!(lines(st.accept_chunk("{\"type\":\"start\"}\n  \n{\"ty")), vec!["{\"type\":\"start\"}"]);
    assert_eq!(st.buffer, "{\"ty");
    assert_eq!(lines(st.accept_chunk("pe\":\"update\"}\r\n")), vec!["{\"type\":\"update\"}"]);
    assert_eq!(st.buffer, "");
}

#[test]
fn end_of_body_drops_an_unterminated_line() {
    let mut st: NdjsonStreamState<String> = NdjsonStreamState::new();
    assert!(st.accept_chunk("a\nb").len() == 1);
    assert!(st.end_of_body().is_empty());
    assert_eq!(st.buffer, "");
    st.accept_chunk("tail");
    st.buffer.push('\n');
    assert_eq!(lines(st.end_of_body()), vec!["tail"]);
}

#[test]
fn batch_queues_in_order_and_skips_keepalives() {
    let mut st: NdjsonStreamState<String> = NdjsonStreamState::new();
    let r = st.process_ndjson_events(vec![
        (Ok(Some("one".to_string())), false),
        (Ok(None), true),
        (Ok(Some("two".to_string())), true),
    ]);
    assert!(matches!(r, ProcessEventsResult::Taken));
    assert_eq!(st.pending, vec!["one".to_string(), "two".to_string()]);
    assert!(st.ttft_satisfied);
}

#[test]
fn batch_stops_at_first_decode_error() {
    let mut st: NdjsonStreamState<String> = NdjsonStreamState::new();
    let err = Error::StreamProtocol { message: "bad".to_string(), raw_data: None };
    let r = st.process_ndjson_events(vec![
        (Ok(Some("one".to_string())), false),
        (Err(err.clone()), false),
        (Ok(Some("two".to_string())), true),
    ]);
    match r {
        ProcessEventsResult::Failed(e) => assert_eq!(e, err),
        _ => panic!("expected a decode error"),
    }
    assert_eq!(st.pending, vec!["one".to_string()]);
    assert!(!st.ttft_satisfied);
}

#[test]
fn too_many_queued_events_is_backpressure() {
    let mut st: NdjsonStreamState<u32> = NdjsonStreamState::new();
    let items: Vec<(Result<Option<u32>, Error>, bool)> =
        (0..(MAX_PENDING_EVENTS as u32 + 5)).map(|i| (Ok(Some(i)), false)).collect();
    match st.process_ndjson_events(items) {
        ProcessEventsResult::Backpressure(n) => assert_eq!(n, 513),
        _ => panic!("expected backpressure"),
    }
    assert_eq!(st.pending.len(), 513);
}

#[test]
fn async_stream_delivers_then_reads() {
    let mut st = NdjsonStreamState::from_events(vec!["a".to_string()]);
    st.has_body = true;
    match st.next_action(no_limits(), 0, 0, false) {
        StreamAction::Deliver(e) => assert_eq!(e, "a"),
        _ => panic!("expected the queued event"),
    }
    let limits = StreamTimeouts { ttft_ms: Some(100), idle_ms: Some(50), total_ms: Some(1000) };
    match st.next_action(limits, 10_000_000, 20_000_000, false) {
        StreamAction::Read(Some(d)) => {
            assert_eq!(d, StreamDeadline { kind: StreamTimeoutKind::Idle, remaining_ns: 30_000_000, timeout_ms: 50 });
        }
        _ => panic!("expected a read with a deadline"),
    }
    assert!(matches!(st.next_action(no_limits(), 0, 0, true), StreamAction::Close));
    assert!(st.finished);
    assert!(matches!(st.next_action(no_limits(), 0, 0, false), StreamAction::Close));
}

#[test]
fn async_stream_times_out_before_delivering() {
    let mut st = NdjsonStreamState::from_events(vec!["a".to_string()]);
    let limits = StreamTimeouts { ttft_ms: None, idle_ms: None, total_ms: Some(5) };
    match st.next_action(limits, 5_000_000, 0, false) {
        StreamAction::Fail(e) => assert_eq!(
            e,
            Error::StreamTimeout(StreamTimeoutError { kind: StreamTimeoutKind::Total, timeout_ms: 5 })
        ),
        _ => panic!("expected a timeout"),
    }
    assert!(st.finished);
    assert_eq!(st.pending.len(), 1);
}

#[test]
fn read_past_deadline_ends_stream() {
    let mut st: NdjsonStreamState<String> = NdjsonStreamState::new();
    let e = st.read_timed_out(StreamDeadline { kind: StreamTimeoutKind::Ttft, remaining_ns: 0, timeout_ms: 7 });
    assert_eq!(e, Error::StreamTimeout(StreamTimeoutError { kind: StreamTimeoutKind::Ttft, timeout_ms: 7 }));
    assert!(st.finished);
}

#[test]
fn blocking_stream_checks_idle_only_before_reading() {
    let limits = StreamTimeouts { ttft_ms: None, idle_ms: Some(1), total_ms: None };
    let mut st = NdjsonStreamState::from_events(vec!["a".to_string()]);
    st.has_body = true;
    match st.blocking_next(limits, 0, 9_000_000) {
        StreamAction::Deliver(e) => assert_eq!(e, "a"),
        _ => panic!("a queued event comes before the idle limit"),
    }
    match st.blocking_next(limits, 0, 9_000_000) {
        StreamAction::Fail(e) => assert_eq!(
            e,
            Error::StreamTimeout(StreamTimeoutError { kind: StreamTimeoutKind::Idle, timeout_ms: 1 })
        ),
        _ => panic!("expected the idle limit"),
    }
    let mut fresh: NdjsonStreamState<String> = NdjsonStreamState::new();
    assert!(matches!(fresh.blocking_next(limits, 0, 0), StreamAction::Read(None)));
}

#[test]
fn blocking_stream_without_body_closes_when_drained() {
    let mut st = NdjsonStreamState::from_events(vec![1u8, 2u8]);
    assert!(matches!(st.blocking_next(no_limits(), 0, 0), StreamAction::Deliver(1)));
    assert!(matches!(st.blocking_next(no_limits(), 0, 0), StreamAction::Deliver(2)));
    assert!(matches!(st.blocking_next(no_limits(), 0, 0), StreamAction::Close));
    assert!(st.finished);
}

#[test]
fn blocking_end_delivers_first_then_closes() {
    let mut st: NdjsonStreamState<String> = NdjsonStreamState::new();
    assert!(st.push_all(vec![Ok(Some("x".to_string())), Ok(None), Ok(Some("y".to_string()))]).is_none());
    match st.finish_after_end() {
        StreamAction::Deliver(e) => assert_eq!(e, "x"),
        _ => panic!("expected the first event"),
    }
    assert!(st.finished);
    assert!(matches!(st.blocking_next(no_limits(), 0, 0), StreamAction::Close));
}

#[test]
fn blocking_total_and_ttft_limits() {
    let mut st: NdjsonStreamState<String> = NdjsonStreamState::new();
    let limits = StreamTimeouts { ttft_ms: Some(2), idle_ms: None, total_ms: Some(3) };
    match st.blocking_next(limits, 2_000_000, 0) {
        StreamAction::Fail(e) => assert_eq!(
            e,
            Error::StreamTimeout(StreamTimeoutError { kind: StreamTimeoutKind::Ttft, timeout_ms: 2 })
        ),
        _ => panic!("expected the ttft limit"),
    }
    let mut st2: NdjsonStreamState<String> = NdjsonStreamState::new();
    match st2.blocking_next(limits, 3_000_000, 0) {
        StreamAction::Fail(e) => assert_eq!(
            e,
            Error::StreamTimeout(StreamTimeoutError { kind: StreamTimeoutKind::Total, timeout_ms: 3 })
        ),
        _ => panic!("expected the total limit"),
    }
}

#[test]
fn async_chunks_must_be_utf8() {
    let mut st: NdjsonStreamState<String> = NdjsonStreamState::new();
    st.accept_chunk("par");
    match st.accept_bytes(&[0xff, b'\n']) {
        Err(Error::StreamProtocol { message, raw_data }) => {
            assert_eq!(message, "invalid UTF-8 in stream: invalid utf-8 sequence of 1 bytes from index 0");
            assert_eq!(raw_data, None);
        }
        _ => panic!("expected a protocol error"),
    }
    assert_eq!(st.buffer, "par");
    let got = st.accept_bytes("tial ✓\nnext".as_bytes()).unwrap();
    assert_eq!(lines(got), vec!["partial ✓"]);
    assert_eq!(st.buffer, "next");
}

#[test]
fn blocking_chunks_replace_bad_bytes() {
    let mut st: NdjsonStreamState<String> = NdjsonStreamState::new();
    let got = st.accept_bytes_lossy(&[b'a', 0xff, b'b', b'\n', b'c']);
    assert_eq!(lines(got), vec!["a\u{FFFD}b"]);
    assert_eq!(st.buffer, "c");
}
