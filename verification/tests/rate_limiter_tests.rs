use zenith_gateway::limiter::{BucketState, RateLimiterManager, TokenBucket};

#[test]
fn test_token_bucket_acquire() {
    // A bucket of ten tokens that earns none back.
    let mut bucket = TokenBucket::new(0, 10);
    assert!(bucket.check_and_consume(5));
    assert!(bucket.check_and_consume(5));
    assert!(!bucket.check_and_consume(1));
}

#[test]
fn bucket_refill_waits_a_tenth_of_a_second() {
    let mut bucket = TokenBucket::new(10, 5);
    assert!(bucket.check_and_consume_at(0, 5));
    // Below a tenth of a second no refill happens.
    assert!(!bucket.check_and_consume_at(99_999_999, 1));
    // 250 ms after creation, at 10 tokens/s, earns 2 whole tokens.
    assert!(bucket.check_and_consume_at(250_000_000, 2));
    // The refill moved the last refill to 250 ms: 300 ms is only 50 ms later.
    assert!(!bucket.check_and_consume_at(300_000_000, 1));
    // 350 ms is 100 ms after the last refill: one more token.
    assert!(bucket.check_and_consume_at(350_000_000, 1));
}

#[test]
fn bucket_earning_nothing_keeps_its_refill_time() {
    let mut bucket = TokenBucket::new(1, 1);
    assert!(bucket.check_and_consume_at(0, 1));
    // 500 ms at 1 token/s earns no whole token, so the last refill stays at 0.
    assert!(!bucket.check_and_consume_at(500_000_000, 1));
    // At 1 s a whole token has been earned since 0.
    assert!(bucket.check_and_consume_at(1_000_000_000, 1));
}

#[test]
fn bucket_reading_before_last_refill_earns_nothing() {
    let mut bucket = TokenBucket::new(10, 5);
    assert!(bucket.check_and_consume_at(0, 5));
    assert!(bucket.check_and_consume_at(1_000_000_000, 5));
    // An earlier reading counts as no time passed.
    assert!(!bucket.check_and_consume_at(0, 1));
}

#[test]
fn bucket_refill_is_capped_at_capacity() {
    let mut bucket = TokenBucket::new(1_000, 3);
    assert!(bucket.check_and_consume_at(0, 3));
    // Ten seconds earn 10 000 tokens, but the bucket holds 3.
    assert!(!bucket.check_and_consume_at(10_000_000_000, 4));
    assert!(bucket.check_and_consume_at(10_000_000_000, 3));
    assert!(!bucket.check_and_consume_at(10_000_000_000, 1));
}

#[test]
fn bucket_refill_with_huge_elapsed_time_saturates() {
    let mut bucket = TokenBucket::new(u64::MAX, u64::MAX);
    assert!(bucket.check_and_consume_at(0, u64::MAX));
    assert!(bucket.check_and_consume_at(u128::MAX, u64::MAX));
}

#[test]
fn bucket_failed_request_keeps_tokens() {
    let mut bucket = TokenBucket::new(0, 4);
    assert!(!bucket.check_and_consume_at(0, 5));
    assert!(bucket.check_and_consume_at(0, 4));
}

#[test]
fn manager_new_client_gets_full_burst() {
    let mut limiter = RateLimiterManager::new();
    for _ in 0..3 {
        assert!(limiter.acquire("10.0.0.1", 0, 3));
    }
    assert!(!limiter.acquire("10.0.0.1", 0, 3));
    // Another client has its own bucket.
    assert!(limiter.acquire("10.0.0.2", 0, 3));
}

#[test]
fn manager_known_client_keeps_first_limits() {
    let mut limiter = RateLimiterManager::default();
    assert!(limiter.acquire("k", 0, 1));
    // A later, larger burst does not replace the client's bucket.
    assert!(!limiter.acquire("k", 0, 100));
}

#[test]
fn manager_zero_burst_refuses_first_request() {
    let mut limiter = RateLimiterManager::new();
    assert!(!limiter.acquire("k", 100, 0));
}

#[test]
fn bucket_state_is_plain_data() {
    let s = BucketState { rate: 1, capacity: 2, tokens: 2, last_refill: 0 };
    assert_eq!(s, BucketState { rate: 1, capacity: 2, tokens: 2, last_refill: 0 });
}
