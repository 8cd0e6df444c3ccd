use icn_covm::retry::{RetryManager, BASE_RETRY_DELAY_MS, MAX_RETRY_DELAY_MS};

#[test]
fn new_manager_tracks_nothing() {
    let m = RetryManager::new();
    assert!(m.get_all_retries().is_empty());
    assert!(!m.is_in_backoff("dial", "x"));
}

#[test]
fn backoff_doubles_and_gives_up_at_fifth_failure() {
    let mut m = RetryManager::new();
    // A random word whose fraction is below one half gives no jitter.
    assert_eq!(m.record_failure_at("dial", "a", 100, 0), Some(500));
    assert!(m.is_in_backoff("dial", "a"));
    assert_eq!(m.record_failure_at("dial", "a", 101, 0), Some(1000));
    assert_eq!(m.record_failure_at("dial", "a", 102, 0), Some(2000));
    assert_eq!(m.record_failure_at("dial", "a", 103, 0), Some(4000));
    let all = m.get_all_retries();
    assert_eq!(all.len(), 1);
    assert_eq!(all[0].attempts, 4);
    assert_eq!(all[0].last_attempt, 103);
    assert_eq!(all[0].current_delay_ms, 4000);
    assert_eq!(all[0].operation, "dial");
    assert_eq!(all[0].target, "a");
    assert_eq!(m.record_failure_at("dial", "a", 104, 0), None);
    assert!(m.get_all_retries().is_empty());
    assert!(!m.is_in_backoff("dial", "a"));
}

#[test]
fn jitter_adds_at_most_five_percent() {
    let mut m = RetryManager::new();
    // The largest random word: fraction just below one, jitter just below 5%.
    assert_eq!(m.record_failure_at("dial", "b", 0, u64::MAX), Some(524));
    let mut m2 = RetryManager::new();
    // Three quarters: a tenth of the delay times one quarter.
    let three_quarters: u64 = 3 << 62;
    assert_eq!(m2.record_failure_at("op", "t", 0, three_quarters), Some(512));
    assert!(BASE_RETRY_DELAY_MS <= 524 && 524 <= MAX_RETRY_DELAY_MS);
}

#[test]
fn success_forgets_the_operation() {
    let mut m = RetryManager::new();
    m.record_failure_at("dial", "a", 1, 0);
    m.record_failure_at("dial", "b", 1, 0);
    m.record_success("dial", "a");
    assert!(!m.is_in_backoff("dial", "a"));
    assert!(m.is_in_backoff("dial", "b"));
    assert_eq!(m.get_all_retries().len(), 1);
    assert_eq!(m.record_failure_at("dial", "a", 2, 0), Some(500));
}

#[test]
fn keys_join_operation_and_target_with_a_colon() {
    let mut m = RetryManager::new();
    m.record_failure_at("a", "b:c", 1, 0);
    assert!(m.is_in_backoff("a:b", "c"));
    assert_eq!(m.record_failure_at("a:b", "c", 2, 0), Some(1000));
    let all = m.get_all_retries();
    assert_eq!(all.len(), 1);
    assert_eq!(all[0].operation, "a");
    assert_eq!(all[0].target, "b:c");
}

#[test]
fn clearing_backoff_and_due_retries() {
    let mut m = RetryManager::new();
    m.record_failure_at("dial", "a", 100, 0);
    m.record_failure_at("dial", "b", 100, 0);
    m.record_failure_at("dial", "b", 100, 0);
    m.record_failure_at("dial", "b", 100, 0);
    assert!(m.due_retries(100).is_empty());
    let due = m.due_retries(101);
    assert_eq!(due, vec![("dial".to_string(), "a".to_string())]);
    let due = m.due_retries(102);
    assert_eq!(due.len(), 2);
    m.clear_backoff("dial", "a");
    assert!(!m.is_in_backoff("dial", "a"));
    assert_eq!(m.due_retries(200), vec![("dial".to_string(), "b".to_string())]);
    assert_eq!(m.get_all_retries().len(), 2);
}

#[test]
fn record_failure_with_clock_and_randomness() {
    let mut m = RetryManager::new();
    let d = m.record_failure("dial", "x").expect("first failure gets a delay");
    assert!((500..=525).contains(&d));
    assert!(m.is_in_backoff("dial", "x"));
}

#[test]
fn success_after_several_failures_forgets_the_operation() {
    let mut m = RetryManager::new();
    m.record_failure_at("dial", "other", 10, 0);
    for i in 0..3u64 {
        assert!(m.record_failure_at("dial", "x", 20 + i, u64::MAX).is_some());
    }
    assert!(m.is_in_backoff("dial", "x"));
    m.record_success("dial", "x");
    assert!(!m.is_in_backoff("dial", "x"));
    let all = m.get_all_retries();
    assert_eq!(all.len(), 1);
    assert_eq!(all[0].target, "other");
    assert_eq!(m.record_failure_at("dial", "x", 30, 0), Some(BASE_RETRY_DELAY_MS));
    let x = m.get_all_retries().into_iter().find(|s| s.target == "x").unwrap();
    assert_eq!(x.attempts, 1);
}

#[test]
fn listed_statuses_are_in_backoff_within_the_cap() {
    let mut m = RetryManager::new();
    for i in 0..4u64 {
        m.record_failure_at("send_message", "p:1", i, u64::MAX);
        m.record_failure_at("dial", "a", i, i * 977);
    }
    m.record_success("dial", "a");
    m.record_failure_at("dial", "b", 9, 12345);
    for s in m.get_all_retries() {
        assert!(s.in_backoff);
        assert!(s.current_delay_ms <= MAX_RETRY_DELAY_MS);
        assert!(s.attempts >= 1 && s.attempts < 5);
        assert_eq!(m.is_in_backoff(&s.operation, &s.target), s.in_backoff);
    }
    assert_eq!(m.get_all_retries().len(), 2);
}

#[test]
fn jitter_follows_double_arithmetic() {
    // The word's fraction f gives a jitter of trunc(500 * 0.1 * (f - 0.5))
    // in double arithmetic: 17 ms here, where exact arithmetic gives 16.
    let word: u64 = ((1u64 << 52) + 3062447746611937) << 11;
    let mut m = RetryManager::new();
    assert_eq!(m.record_failure_at("dial", "x", 1, word), Some(517));
    for (d, attempt) in [(500u64, 1u32), (1000, 2), (2000, 3), (4000, 4)] {
        for k in 0..2000u64 {
            let w = k.wrapping_mul(0x9E37_79B9_7F4A_7C15) ^ (k << 40);
            let mut m = RetryManager::new();
            let mut got = None;
            for _ in 0..attempt {
                got = m.record_failure_at("op", "t", 0, w);
            }
            let f = (w >> 11) as f64 * (1.0 / (1u64 << 53) as f64);
            let jitter = (d as f64 * 0.1 * (f - 0.5)) as u64;
            assert_eq!(got, Some((d + jitter).min(MAX_RETRY_DELAY_MS)), "d={d} w={w}");
        }
    }
}

#[test]
fn due_retries_keep_operation_and_target_apart() {
    let mut m = RetryManager::new();
    m.record_failure_at("send_message", "peer:msg-1", 100, 0);
    let due = m.due_retries(200);
    assert_eq!(due, vec![("send_message".to_string(), "peer:msg-1".to_string())]);
    assert!(m.due_retries(100).is_empty());
}

#[test]
fn failure_now_reads_the_clock_and_never_panics() {
    let mut m = RetryManager::new();
    let d = m.record_failure("dial", "x").unwrap();
    assert!(d >= BASE_RETRY_DELAY_MS && d <= BASE_RETRY_DELAY_MS + BASE_RETRY_DELAY_MS / 20);
    let s = &m.get_all_retries()[0];
    assert!(s.last_attempt > 1_600_000_000);
}
