use multidown::error::DownloadError;
use multidown::retry::{RetryContext, RetryStrategy};

#[test]
fn test_retry_context() {
    let mut context = RetryContext::new(3, 1000, 10000);

    assert_eq!(context.current_retries(), 0);
    assert!(!context.is_max_retries_reached());

    context.record_retry();
    assert_eq!(context.current_retries(), 1);

    context.reset();
    assert_eq!(context.current_retries(), 0);
}

#[test]
fn test_retryable_errors() {
    let context = RetryContext::new(3, 1000, 10000);

    let retryable_error = DownloadError::network_error("network error occurred");
    assert!(context.should_retry(&retryable_error));

    let non_retryable_error = DownloadError::invalid_url("invalid url");
    assert!(!context.should_retry(&non_retryable_error));
}

#[test]
fn next_delay_doubles_and_is_capped() {
    let mut c = RetryContext::new(10, 1000, 10000);
    assert_eq!(c.get_next_delay(), 1000);
    c.record_retry();
    assert_eq!(c.get_next_delay(), 2000);
    c.record_retry();
    c.record_retry();
    assert_eq!(c.get_next_delay(), 8000);
    c.record_retry();
    assert_eq!(c.get_next_delay(), 10000);
    c.current_retries = 200;
    assert_eq!(c.get_next_delay(), 10000);
}

#[test]
fn budget_exhaustion_stops_retries() {
    let mut c = RetryContext::new(1, 1000, 10000);
    let e = DownloadError::Timeout;
    assert!(c.should_retry(&e));
    c.record_retry();
    assert!(c.is_max_retries_reached());
    assert!(!c.should_retry(&e));
}

#[test]
fn strategy_classifies_by_kind_and_substring() {
    let s = RetryStrategy::default();
    assert!(s.should_retry(&DownloadError::network_error("x"), 0));
    assert!(s.should_retry(&DownloadError::Timeout, 2));
    assert!(!s.should_retry(&DownloadError::Timeout, 3));
    assert!(s.should_retry(&DownloadError::server_error("服务器错误: 503 Service Unavailable"), 0));
    assert!(s.should_retry(&DownloadError::server_error("HTTP 507"), 0));
    assert!(!s.should_retry(&DownloadError::server_error("404 Not Found"), 0));
    assert!(s.should_retry(&DownloadError::io_error("Connection Reset by peer"), 0));
    assert!(!s.should_retry(&DownloadError::io_error("disk full"), 0));
    assert!(s.should_retry(&DownloadError::unknown("DNS resolution failed"), 0));
    assert!(!s.should_retry(&DownloadError::unknown("chunk_download_failed"), 0));
    assert!(!s.should_retry(&DownloadError::resume_failed("timeout"), 0));
    assert!(!s.should_retry(&DownloadError::SizeMismatch { expected: 1, actual: 0 }, 0));
}

#[test]
fn strategy_delay_formula() {
    let s = RetryStrategy::default();
    // sample 500 is the centre of the jitter range: no jitter.
    assert_eq!(s.delay_with_sample(0, 500), 1000);
    assert_eq!(s.delay_with_sample(1, 500), 2000);
    assert_eq!(s.delay_with_sample(3, 500), 8000);
    // 10% jitter: at the extremes the delay moves by 5%.
    assert_eq!(s.delay_with_sample(1, 1000), 2100);
    assert_eq!(s.delay_with_sample(1, 0), 1900);
    // capped at the maximum
    assert_eq!(s.delay_with_sample(10, 500), 60000);
    assert_eq!(s.delay_with_sample(200, 0), 60000);
    // at least 100 ms
    let tiny = RetryStrategy { base_delay: 10, ..RetryStrategy::default() };
    assert_eq!(tiny.delay_with_sample(0, 0), 100);
}

#[test]
fn random_delay_stays_within_jitter_bounds() {
    let s = RetryStrategy::default();
    for _ in 0..50 {
        let d = s.get_delay(2);
        assert!(d >= 3800 && d <= 4200, "delay {}", d);
    }
}
