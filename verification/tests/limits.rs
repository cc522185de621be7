use risk_engine::error::RiskEngineError;
use risk_engine::rate_limit::{bucket_key, bucket_ttl_ms, limiter_failure_rejects, rate_limited, user_key};
use risk_engine::store::{flag_set, parse_counter};

#[test]
fn bucket_key_format() {
    assert_eq!(bucket_key("user:abc"), "rl:user:abc");
    assert_eq!(bucket_key("ip:1.2.3.4"), "rl:ip:1.2.3.4");
}

#[test]
fn ttl_scales_with_refill_window() {
    assert_eq!(bucket_ttl_ms(10, 5), 4_000);
}

#[test]
fn ttl_has_minimum_floor() {
    assert_eq!(bucket_ttl_ms(1, 100), 2_000);
    assert_eq!(bucket_ttl_ms(u32::MAX, 1), 2 * (u32::MAX as u64) * 1000);
}

#[test]
fn ttl_rounds_the_refill_window_up_to_whole_seconds() {
    // ceil(5 / 2) = 3 s, twice over
    assert_eq!(bucket_ttl_ms(5, 2), 6_000);
    assert_eq!(bucket_ttl_ms(7, 7), 2_000);
    assert_eq!(bucket_ttl_ms(8, 7), 4_000);
    assert_eq!(bucket_ttl_ms(0, 3), 2_000);
}

#[test]
fn exhausted_bucket_error_names_key_and_limits() {
    match rate_limited("user:abc", 3, 1) {
        RiskEngineError::RateLimited(m) => assert_eq!(m, "key=user:abc cap=3 rate_per_sec=1"),
        other => panic!("unexpected {other:?}"),
    }
    assert_eq!(rate_limited("k", 10, 20).message(), "rate limit exceeded: key=k cap=10 rate_per_sec=20");
}

#[test]
fn stored_counters_parse_like_str_parse() {
    assert_eq!(parse_counter(Some("5")), Some(5));
    assert_eq!(parse_counter(Some("+7")), Some(7));
    assert_eq!(parse_counter(Some("4294967295")), Some(u32::MAX));
    assert_eq!(parse_counter(Some("4294967296")), None);
    assert_eq!(parse_counter(Some("-1")), None);
    assert_eq!(parse_counter(Some(" 1")), None);
    assert_eq!(parse_counter(Some("")), None);
    assert_eq!(parse_counter(None), None);
}

#[test]
fn stored_flags_are_set_unless_zero() {
    assert!(flag_set(Some("1")));
    assert!(flag_set(Some("yes")));
    assert!(!flag_set(Some("0")));
    assert!(!flag_set(None));
}

#[test]
fn failing_open_rejects_only_exhausted_buckets() {
    assert!(limiter_failure_rejects(&rate_limited("user:abc", 3, 1)));
    assert!(!limiter_failure_rejects(&RiskEngineError::Timeout { ms: 50 }));
    assert!(!limiter_failure_rejects(&RiskEngineError::StoreError("down".into())));
    assert!(!limiter_failure_rejects(&RiskEngineError::StoreErrorWithSource {
        msg: "redis rate-limit op failed".into(),
        source: "io".into(),
    }));
}

#[test]
fn user_key_writes_the_hyphenated_lower_case_uuid() {
    assert_eq!(
        user_key(0xa1a2a3a4b1b2c1c2d1d2d3d4d5d6d7d8),
        "user:a1a2a3a4-b1b2-c1c2-d1d2-d3d4d5d6d7d8"
    );
    assert_eq!(user_key(0), "user:00000000-0000-0000-0000-000000000000");
}
