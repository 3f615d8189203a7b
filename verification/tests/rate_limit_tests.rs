use chaz::rate_limit::{BlockDecision, RateLimiter};

#[test]
fn oversized_room_blocks_silently_without_counting() {
    let mut limiter = RateLimiter::new(Some(2), Some(5));
    let d = limiter.should_block(6, "@alice:home");
    assert_eq!(d, BlockDecision::RoomTooLarge);
    assert!(d.blocked());
    assert_eq!(limiter.count_of("@alice:home"), 0);
}

#[test]
fn third_message_over_a_limit_of_two_is_blocked_with_one_notice() {
    let mut limiter = RateLimiter::new(Some(2), None);
    assert_eq!(limiter.should_block(2, "@alice:home"), BlockDecision::Allowed);
    assert_eq!(limiter.should_block(2, "@alice:home"), BlockDecision::Allowed);
    let third = limiter.should_block(2, "@alice:home");
    assert_eq!(third, BlockDecision::LimitExceeded);
    assert!(third.blocked());
    // Exactly one notice per triggering message; the counter stays put.
    assert_eq!(limiter.count_of("@alice:home"), 2);
    assert_eq!(limiter.should_block(2, "@alice:home"), BlockDecision::LimitExceeded);
}

#[test]
fn senders_are_counted_independently() {
    let mut limiter = RateLimiter::new(Some(1), None);
    assert_eq!(limiter.should_block(2, "@alice:home"), BlockDecision::Allowed);
    assert_eq!(limiter.should_block(2, "@bob:home"), BlockDecision::Allowed);
    assert_eq!(limiter.should_block(2, "@alice:home"), BlockDecision::LimitExceeded);
    assert_eq!(limiter.count_of("@alice:home"), 1);
    assert_eq!(limiter.count_of("@bob:home"), 1);
}

#[test]
fn absent_limits_mean_unbounded() {
    let mut limiter = RateLimiter::new(None, None);
    for _ in 0..100 {
        assert_eq!(limiter.should_block(1000, "@alice:home"), BlockDecision::Allowed);
    }
    assert_eq!(limiter.count_of("@alice:home"), 100);
}

#[test]
fn a_room_size_block_does_not_use_up_the_allowance() {
    let mut limiter = RateLimiter::new(Some(1), Some(3));
    assert_eq!(limiter.should_block(4, "@alice:home"), BlockDecision::RoomTooLarge);
    assert_eq!(limiter.should_block(3, "@alice:home"), BlockDecision::Allowed);
    assert_eq!(limiter.count_of("@alice:home"), 1);
}

#[test]
fn a_limit_of_zero_blocks_immediately() {
    let mut limiter = RateLimiter::new(Some(0), None);
    assert_eq!(limiter.should_block(1, "@alice:home"), BlockDecision::LimitExceeded);
    assert_eq!(limiter.count_of("@alice:home"), 0);
}
