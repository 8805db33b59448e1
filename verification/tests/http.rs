use modelrelay::http::{clamp_delay, jitter_bounds, HeaderEntry, HeaderList, Method, ProxyOptions, RetryConfig};

#[test]
fn backoff_respects_max_and_jitter() {
    let retry = RetryConfig { max_attempts: 3, base_backoff_ms: 500, max_backoff_ms: 1000, retry_post: true };
    let delay = retry.backoff_delay(5);
    assert!(delay <= 1000);
    assert!(delay >= 250);
}

#[test]
fn retry_post_toggle_honored() {
    let retry = RetryConfig { retry_post: false, ..RetryConfig::default() };
    assert!(!retry.should_retry_status(Method::Post, 500));
    assert!(retry.should_retry_status(Method::Get, 500));
}

#[test]
fn proxy_options_disable_retry_sets_single_attempt() {
    let opts = ProxyOptions::default().disable_retry();
    assert_eq!(opts.retry.unwrap().max_attempts, 1);
}

#[test]
fn header_list_accepts_valid_entries() {
    let mut list = HeaderList::new();
    list.push(HeaderEntry::new("X-Custom".to_string(), "value".to_string()));
    assert_eq!(list.iter().count(), 1);
}

#[test]
fn header_entry_validity() {
    assert!(HeaderEntry::new("k".to_string(), "v".to_string()).is_valid());
    assert!(!HeaderEntry::new("".to_string(), "v".to_string()).is_valid());
    assert!(!HeaderEntry::new("k".to_string(), "  ".to_string()).is_valid());
}

#[test]
fn retry_default_values() {
    let r = RetryConfig::default();
    assert_eq!(r.max_attempts, 3);
    assert_eq!(r.base_backoff_ms, 300);
    assert_eq!(r.max_backoff_ms, 5000);
    assert!(r.retry_post);
    assert!(r.should_retry_status(Method::Get, 429));
    assert!(r.should_retry_status(Method::Get, 408));
    assert!(!r.should_retry_status(Method::Get, 404));
}

#[test]
fn backoff_first_attempt_within_jitter() {
    let retry = RetryConfig { max_attempts: 3, base_backoff_ms: 100, max_backoff_ms: 10_000, retry_post: true };
    for _ in 0..20 {
        let d = retry.backoff_delay(1);
        assert!((50..=150).contains(&d));
    }
}

#[test]
fn jitter_range_and_clamp() {
    assert_eq!(jitter_bounds(0), (0, 0));
    assert_eq!(jitter_bounds(1), (0, 0));
    assert_eq!(jitter_bounds(300), (150, 449));
    assert_eq!(jitter_bounds(u64::MAX), (u64::MAX / 2, u64::MAX - 1));
    assert_eq!(clamp_delay(7000, 5000), 5000);
    assert_eq!(clamp_delay(420, 5000), 420);
}
