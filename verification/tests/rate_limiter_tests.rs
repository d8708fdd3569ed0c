use tiny_trails::rate_limiter::{Admission, RateLimiter, RateLimiterConfig};

fn one_per_second() -> RateLimiterConfig {
    RateLimiterConfig { refill_rate: 1, burst_capacity: 1, stale_after_ms: 60_000 }
}

#[test]
fn allow_then_reject_within_the_same_millisecond() {
    let mut limiter = RateLimiter::new(one_per_second());
    let key = "10.0.0.1".to_string();
    assert_eq!(limiter.check_and_consume(&key, 5_000), Admission::Allow);
    assert_eq!(limiter.check_and_consume(&key, 5_000), Admission::Reject);
}

#[test]
fn allow_again_after_a_full_second() {
    let mut limiter = RateLimiter::new(one_per_second());
    let key = "10.0.0.1".to_string();
    assert_eq!(limiter.check_and_consume(&key, 5_000), Admission::Allow);
    assert_eq!(limiter.check_and_consume(&key, 5_000), Admission::Reject);
    assert_eq!(limiter.check_and_consume(&key, 6_000), Admission::Allow);
}

#[test]
fn partial_refill_is_not_enough() {
    let mut limiter = RateLimiter::new(one_per_second());
    let key = "10.0.0.1".to_string();
    assert_eq!(limiter.check_and_consume(&key, 5_000), Admission::Allow);
    assert_eq!(limiter.check_and_consume(&key, 5_999), Admission::Reject);
}

#[test]
fn keys_have_independent_buckets() {
    let mut limiter = RateLimiter::new(one_per_second());
    let first = "10.0.0.1".to_string();
    let second = "10.0.0.2".to_string();
    assert_eq!(limiter.check_and_consume(&first, 5_000), Admission::Allow);
    assert_eq!(limiter.check_and_consume(&second, 5_000), Admission::Allow);
    assert_eq!(limiter.check_and_consume(&first, 5_000), Admission::Reject);
}

#[test]
fn burst_capacity_admits_a_burst() {
    let config = RateLimiterConfig { refill_rate: 1, burst_capacity: 3, stale_after_ms: 60_000 };
    let mut limiter = RateLimiter::new(config);
    let key = "10.0.0.1".to_string();
    assert_eq!(limiter.check_and_consume(&key, 0), Admission::Allow);
    assert_eq!(limiter.check_and_consume(&key, 0), Admission::Allow);
    assert_eq!(limiter.check_and_consume(&key, 0), Admission::Allow);
    assert_eq!(limiter.check_and_consume(&key, 0), Admission::Reject);
}

#[test]
fn sweep_evicts_stale_buckets() {
    let mut limiter = RateLimiter::new(one_per_second());
    let key = "10.0.0.1".to_string();
    limiter.check_and_consume(&key, 0);
    assert_eq!(limiter.buckets.len(), 1);
    // Untouched for longer than the staleness window: gone after the next
    // sweep.
    limiter.sweep(60_001);
    assert_eq!(limiter.buckets.len(), 0);
}

#[test]
fn sweep_keeps_fresh_buckets() {
    let mut limiter = RateLimiter::new(one_per_second());
    let stale = "10.0.0.1".to_string();
    let fresh = "10.0.0.2".to_string();
    limiter.check_and_consume(&stale, 0);
    limiter.check_and_consume(&fresh, 50_000);
    limiter.sweep(60_001);
    assert_eq!(limiter.buckets.len(), 1);
    assert_eq!(limiter.buckets[0].key, fresh);
}
