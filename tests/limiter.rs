use multidown::config::Config;
use multidown::engine::rate_limiter;
use multidown::limiter::SpeedLimiter;

const MIB: u64 = 1024 * 1024;

#[test]
fn empty_bucket_waits_for_the_first_window() {
    let mut l = SpeedLimiter::new(1000);
    assert_eq!(l.tokens, 0);
    assert!(!l.consume_at(0, 600));
    assert_eq!(l.wait_if_needed_at(300, 600), 700);
    assert_eq!(l.wait_if_needed_at(1000, 600), 0);
    assert_eq!(l.tokens, 400);
    assert_eq!(l.last_refill, 1000);
    assert_eq!(l.wait_if_needed_at(1500, 600), 500);
    assert_eq!(l.tokens, 400);
}

#[test]
fn refill_sets_full_not_adds() {
    let mut l = SpeedLimiter::new(100);
    assert_eq!(l.tokens, 0);
    l.refill_tokens_at(5000);
    assert_eq!(l.tokens, 100);
    assert!(l.consume_at(5000, 30));
    l.refill_tokens_at(5999);
    assert_eq!(l.tokens, 70);
    l.refill_tokens_at(6000);
    assert_eq!(l.tokens, 100);
}

#[test]
fn four_mib_at_one_mib_per_second_takes_four_seconds() {
    let mut l = SpeedLimiter::new(1024 * 1024);
    let frame = 64 * 1024;
    let mut now = 0u64;
    let mut sent = 0u64;
    let mut per_window = std::collections::HashMap::new();
    while sent < 4 * MIB {
        let wait = l.wait_if_needed_at(now, frame);
        if wait == 0 {
            sent += frame;
            *per_window.entry(now / 1000).or_insert(0u64) += frame;
        } else {
            now += wait;
        }
        assert!(l.tokens <= l.max_speed);
    }
    assert!(now >= 4000, "finished at {} ms", now);
    let rate = sent as f64 / (now as f64 / 1000.0);
    assert!((rate - MIB as f64).abs() <= 0.1 * MIB as f64, "rate {}", rate);
    assert!(per_window.values().all(|&b| b <= MIB));
}

#[test]
fn real_clock_calls_keep_the_bound() {
    let mut l = SpeedLimiter::new(10);
    assert!(!l.consume(1));
    assert!(!l.consume(11));
    let w = l.wait_if_needed(1);
    assert!(w > 0 && w <= 1000);
    l.refill_tokens();
    assert!(l.tokens <= 10);
}

#[test]
fn zero_rate_means_no_limiter() {
    assert!(rate_limiter(&Config::default()).is_none());
    let c = Config { speed_limit_kb: 1024, ..Config::default() };
    let l = rate_limiter(&c).unwrap();
    assert_eq!(l.max_speed, MIB);
    assert_eq!(l.tokens, 0);
}
