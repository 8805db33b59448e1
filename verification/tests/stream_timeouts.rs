use modelrelay::errors::StreamTimeoutKind;
use modelrelay::stream_timeouts::{
    check_timeout_exceeded, event_counts_for_ttft, stream_next_deadline, StreamTimeouts,
};

#[test]
fn no_limits_no_deadline() {
    let t = StreamTimeouts::default();
    assert!(check_timeout_exceeded(t, 1_000_000_000, 1, false).is_none());
    assert!(stream_next_deadline(t, 1_000_000_000, 1, false).is_none());
}

#[test]
fn total_checked_first() {
    let t = StreamTimeouts { ttft_ms: Some(1), idle_ms: Some(1), total_ms: Some(2) };
    let e = check_timeout_exceeded(t, 2_000_000, 5_000_000, false).unwrap();
    assert_eq!(e.kind, StreamTimeoutKind::Total);
    assert_eq!(e.timeout_ms, 2);
    let e = check_timeout_exceeded(t, 1_500_000, 5_000_000, false).unwrap();
    assert_eq!(e.kind, StreamTimeoutKind::Ttft);
    let e = check_timeout_exceeded(t, 1_500_000, 5_000_000, true).unwrap();
    assert_eq!(e.kind, StreamTimeoutKind::Idle);
}

#[test]
fn deadline_picks_soonest() {
    let t = StreamTimeouts { ttft_ms: Some(3), idle_ms: Some(5), total_ms: Some(10) };
    let d = stream_next_deadline(t, 1_000_000, 1_000_000, false).unwrap();
    assert_eq!(d.kind, StreamTimeoutKind::Ttft);
    assert_eq!(d.remaining_ns, 2_000_000);
    let d = stream_next_deadline(t, 1_000_000, 1_000_000, true).unwrap();
    assert_eq!(d.kind, StreamTimeoutKind::Idle);
    assert_eq!(d.remaining_ns, 4_000_000);
    let d = stream_next_deadline(t, 3_000_000, 6_000_000, false).unwrap();
    assert_eq!(d.kind, StreamTimeoutKind::Idle);
    assert_eq!(d.remaining_ns, 0);
    assert!(check_timeout_exceeded(t, 3_000_000, 6_000_000, false).is_some());
}

#[test]
fn ttft_counting_events() {
    assert!(event_counts_for_ttft(&Some("hi".to_string()), false, None, "update"));
    assert!(!event_counts_for_ttft(&Some(String::new()), false, None, "update"));
    assert!(event_counts_for_ttft(&None, true, None, "update"));
    assert!(event_counts_for_ttft(&None, false, Some(1), "tool_use_stop"));
    assert!(!event_counts_for_ttft(&None, false, Some(0), "tool_use_stop"));
    assert!(event_counts_for_ttft(&None, false, None, "error"));
    assert!(!event_counts_for_ttft(&None, false, None, "start"));
}
