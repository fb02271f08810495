use passkey_auth::rate_limit::RateLimiter;
use passkey_auth::security::SecurityInitializer;

#[test]
fn hundred_in_a_minute_then_denied_then_recovers() {
    let mut limiter = RateLimiter::new(100, 60_000);
    let client = "203.0.113.7".to_string();
    for i in 0..100u64 {
        assert!(limiter.check_rate_limit(&client, 1_000 + i * 100), "call {}", i + 1);
    }
    assert!(!limiter.check_rate_limit(&client, 20_000));
    assert!(!limiter.check_rate_limit(&client, 60_999));
    assert!(limiter.check_rate_limit(&client, 1_000 + 99 * 100 + 60_001));
}

#[test]
fn clients_are_limited_independently() {
    let mut limiter = RateLimiter::new(2, 1_000);
    let a = "a".to_string();
    let b = "b".to_string();
    assert!(limiter.check_rate_limit(&a, 0));
    assert!(limiter.check_rate_limit(&a, 1));
    assert!(!limiter.check_rate_limit(&a, 2));
    assert!(limiter.check_rate_limit(&b, 2));
}

#[test]
fn stamp_exactly_one_window_old_still_counts() {
    let mut limiter = RateLimiter::new(1, 1_000);
    let c = "c".to_string();
    assert!(limiter.check_rate_limit(&c, 5_000));
    assert!(!limiter.check_rate_limit(&c, 6_000));
    assert!(limiter.check_rate_limit(&c, 6_001));
}

#[test]
fn denied_requests_are_not_recorded() {
    let mut limiter = RateLimiter::new(1, 1_000);
    let c = "c".to_string();
    assert!(limiter.check_rate_limit(&c, 0));
    assert!(!limiter.check_rate_limit(&c, 900));
    assert!(limiter.check_rate_limit(&c, 1_001));
}

#[test]
fn zero_limit_denies_everything() {
    let mut limiter = RateLimiter::new(0, 1_000);
    assert!(!limiter.check_rate_limit(&"c".to_string(), 0));
}

#[test]
fn security_initializer_defaults() {
    let init = SecurityInitializer;
    assert_eq!(init.name(), "security");
    let limiter = init.rate_limiter();
    assert_eq!(limiter.max_requests(), 100);
    assert_eq!(limiter.window(), 60_000);
}

#[test]
fn clock_going_back_cannot_exceed_limit() {
    let mut limiter = RateLimiter::new(2, 100);
    let c = "c".to_string();
    assert!(limiter.check_rate_limit(&c, 100));
    assert!(limiter.check_rate_limit(&c, 200));
    assert!(!limiter.check_rate_limit(&c, 150));
    assert!(!limiter.check_rate_limit(&c, 60));
    assert!(limiter.check_rate_limit(&c, 250));
}
