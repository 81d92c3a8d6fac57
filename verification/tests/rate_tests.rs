use nowhere_actors::rate::{RateAction, RateKey, RateLimiter, RateMsg};

fn key(s: &str) -> RateKey {
    RateKey(s.to_string())
}

#[test]
fn upsert_with_zero_rate_is_rejected() {
    let mut limiter = RateLimiter::new();
    let action: RateAction<u32> =
        limiter.handle(RateMsg::Upsert { key: key("k"), qps_milli: 0, burst: 5 }, 0);
    assert!(matches!(action, RateAction::Rejected));
}

#[test]
fn upsert_with_zero_burst_is_rejected() {
    let mut limiter = RateLimiter::new();
    let action: RateAction<u32> =
        limiter.handle(RateMsg::Upsert { key: key("k"), qps_milli: 1000, burst: 0 }, 0);
    assert!(matches!(action, RateAction::Rejected));
}

#[test]
fn steady_state_waits_step_by_half_a_second() {
    // Two tokens per second, burst of one: five back-to-back acquires are
    // spaced half a second apart.
    let mut limiter = RateLimiter::new();
    assert!(limiter.upsert(key("k"), 2000, 1, 0));
    let expected = [0u64, 500, 1000, 1500, 2000];
    for (i, want) in expected.iter().enumerate() {
        let wait = limiter.acquire(key("k"), 1, 0);
        assert_eq!(wait, *want, "acquire number {} got the wrong wait", i);
    }
}

#[test]
fn burst_admits_three_then_delays_the_fourth() {
    // One token per second, burst of three: three immediate permits, the
    // fourth a second later.
    let mut limiter = RateLimiter::new();
    assert!(limiter.upsert(key("k"), 1000, 3, 0));
    assert_eq!(limiter.acquire(key("k"), 1, 0), 0);
    assert_eq!(limiter.acquire(key("k"), 1, 0), 0);
    assert_eq!(limiter.acquire(key("k"), 1, 0), 0);
    assert_eq!(limiter.acquire(key("k"), 1, 0), 1000);
}

#[test]
fn zero_cost_is_an_immediate_permit() {
    let mut limiter = RateLimiter::new();
    assert!(limiter.upsert(key("k"), 1000, 1, 0));
    assert_eq!(limiter.acquire(key("k"), 1, 0), 0);
    // The bucket is empty now, but a zero cost still passes at once.
    assert_eq!(limiter.acquire(key("k"), 0, 0), 0);
    // And it consumed nothing: the next unit costs a full second.
    assert_eq!(limiter.acquire(key("k"), 1, 0), 1000);
}

#[test]
fn unknown_key_gets_the_default_bucket() {
    // Lazily created buckets hold one token refilled at one per second.
    let mut limiter = RateLimiter::new();
    assert_eq!(limiter.acquire(key("fresh"), 1, 0), 0);
    assert_eq!(limiter.acquire(key("fresh"), 1, 0), 1000);
}

#[test]
fn refill_pays_back_over_time() {
    // One token per second, burst of two, starting full.
    let mut limiter = RateLimiter::new();
    assert!(limiter.upsert(key("k"), 1000, 2, 0));
    assert_eq!(limiter.acquire(key("k"), 2, 0), 0);
    // Half a second later, half a token refilled; a unit acquire still
    // owes half a token: half a second of wait.
    assert_eq!(limiter.acquire(key("k"), 1, 500), 500);
}

#[test]
fn reconfiguring_keeps_the_balance() {
    let mut limiter = RateLimiter::new();
    assert!(limiter.upsert(key("k"), 1000, 2, 0));
    assert_eq!(limiter.acquire(key("k"), 2, 0), 0);
    // Re-upserting changes the configuration, not the spent balance.
    assert!(limiter.upsert(key("k"), 2000, 2, 0));
    assert_eq!(limiter.acquire(key("k"), 1, 0), 500);
}

#[test]
fn acquire_action_carries_the_reply_through() {
    let mut limiter = RateLimiter::new();
    assert!(limiter.upsert(key("k"), 2000, 1, 0));
    let action = limiter.handle(RateMsg::Acquire { key: key("k"), cost: 1, reply: 77u32 }, 0);
    match action {
        RateAction::Deliver { wait_ms, reply } => {
            assert_eq!(wait_ms, 0);
            assert_eq!(reply, 77);
        },
        _ => panic!("an acquire must yield a delivery order"),
    }
}

#[test]
fn waits_stack_for_queued_acquires() {
    // Costs accumulate as debt: two queued three-token acquires on a
    // two-per-second bucket wait one-and-a-half then three seconds.
    let mut limiter = RateLimiter::new();
    assert!(limiter.upsert(key("k"), 2000, 3, 0));
    assert_eq!(limiter.acquire(key("k"), 3, 0), 0);
    assert_eq!(limiter.acquire(key("k"), 3, 0), 1500);
    assert_eq!(limiter.acquire(key("k"), 3, 0), 3000);
}
