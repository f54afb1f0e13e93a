use token_bucket::token_bucket::TokenBucket;

// At the instant of construction the bucket's clock reads
// `refresh_interval_ms * min(max_capacity, initial_capacity)`, so the tests
// below drive the `*_at` operations with explicit readings counted from that
// point.

#[test]
fn initializes_with_proper_tokens() {
    // needs to have min(max capacity , initial_capacity)
    let mut tb = TokenBucket::new(1, 1, 2).unwrap();
    assert!(tb.try_take().is_some());
    assert!(tb.try_take().is_none());
}

#[test]
fn can_take_all_initial() {
    let mut tb = TokenBucket::new(1, 2, 2).unwrap();
    assert!(tb.try_take().is_some());
    assert!(tb.try_take().is_some());
    assert!(tb.try_take().is_none());
}

#[test]
fn seeded_over_capacity_grants_one() {
    // capacity 1, seeded over capacity: exactly one token at construction
    let mut tb = TokenBucket::new(1, 1, 2).unwrap();
    assert!(tb.try_take_at(1).is_some());
    assert!(tb.try_take_at(1).is_none());
}

#[test]
fn generated_tokens_can_be_taken() {
    // one token at construction (clock reads 100), one more accrued by 200
    let mut tb = TokenBucket::new(100, 2, 1).unwrap();
    assert!(tb.try_take_at(100).is_some());
    assert!(tb.try_take_at(200).is_some());
    assert!(tb.try_take_at(200).is_none());
}

#[test]
fn full_bucket_grants_without_delay() {
    // full bucket: three consumptions, no waiting
    let mut tb = TokenBucket::new(50, 3, 3).unwrap();
    assert_eq!(tb.take_at(150), Some(0));
    assert_eq!(tb.take_at(150), Some(0));
    assert_eq!(tb.take_at(150), Some(0));
    // a fourth must wait one full interval
    assert_eq!(tb.take_at(150), Some(50));
}

#[test]
fn second_take_waits_one_interval() {
    let mut tb = TokenBucket::new(50, 2, 1).unwrap();
    assert_eq!(tb.take_at(50), Some(0));
    assert_eq!(tb.take_at(50), Some(50));
}

#[test]
fn empty_bucket_paces_back_to_back() {
    // empty, 10 ms per token: ten back-to-back consumptions wait 10 ms each,
    // completing 100 ms after the start
    let mut tb = TokenBucket::new(10, 2, 0).unwrap();
    let mut now: u64 = 0;
    for _ in 0..10 {
        let wait = tb.take_at(now).unwrap();
        assert_eq!(wait, 10);
        now += wait;
    }
    assert_eq!(now, 100);
}

#[test]
fn overshoot_does_not_shift_schedule() {
    let mut tb = TokenBucket::new(10, 2, 0).unwrap();
    assert_eq!(tb.take_at(0), Some(10));
    // the sleeper wakes 3 ms late; the next token is still due at 20
    assert_eq!(tb.take_at(13), Some(7));
    assert_eq!(tb.take_at(20), Some(10));
}

#[test]
fn idle_bucket_clamps_to_capacity() {
    // empty, then idle past the ceiling: exactly two tokens, no more
    let mut tb = TokenBucket::new(50, 2, 0).unwrap();
    assert_eq!(tb.take_at(100), Some(0));
    assert_eq!(tb.take_at(100), Some(0));
    assert_eq!(tb.take_at(100), Some(50));
}

#[test]
fn burst_is_bounded_by_seeded_tokens() {
    // requested 7 tokens, capacity 3: the burst stops after min(3, 7)
    let mut tb = TokenBucket::new(5, 3, 7).unwrap();
    assert!(tb.try_take_at(15).is_some());
    assert!(tb.try_take_at(15).is_some());
    assert!(tb.try_take_at(15).is_some());
    assert!(tb.try_take_at(15).is_none());
}

#[test]
fn burst_after_long_idle_is_clamped() {
    // long idle admits at most max_capacity immediate successes
    let mut tb = TokenBucket::new(5, 3, 0).unwrap();
    assert!(tb.try_take_at(10_000).is_some());
    assert!(tb.try_take_at(10_000).is_some());
    assert!(tb.try_take_at(10_000).is_some());
    assert!(tb.try_take_at(10_000).is_none());
}

#[test]
fn available_counts_whole_tokens() {
    let tb = TokenBucket::new(100, 2, 1).unwrap();
    assert_eq!(tb.available_at(100), 1);
    assert_eq!(tb.available_at(199), 1);
    assert_eq!(tb.available_at(250), 2);
    assert_eq!(tb.available_at(1_000_000), 2);
}

#[test]
fn debug_renders_tag_and_count() {
    let tb = TokenBucket::new(100, 25, 3).unwrap();
    assert_eq!(tb.debug_at(300), "TokenBucket(3)");
    assert_eq!(tb.debug_at(2300), "TokenBucket(23)");
    assert_eq!(tb.debug_at(0), "TokenBucket(0)");
}

#[test]
fn observation_does_not_alter_outcome() {
    let mut observed = TokenBucket::new(100, 2, 1).unwrap();
    let mut plain = TokenBucket::new(100, 2, 1).unwrap();
    let _ = observed.debug_at(100);
    let _ = observed.available_at(100);
    let _ = observed.debug_at(100);
    assert_eq!(
        observed.try_take_at(100).is_some(),
        plain.try_take_at(100).is_some()
    );
    assert_eq!(observed.take_at(100), plain.take_at(100));
    assert_eq!(
        observed.try_take_at(100).is_some(),
        plain.try_take_at(100).is_some()
    );
}

#[test]
fn empty_seed_always_constructs() {
    // a zero backdate cannot fail on the clock: construction is owed
    assert!(TokenBucket::new(10, 2, 0).is_some());
    assert!(TokenBucket::new(5, 0, 3).is_some());
}

#[test]
fn zero_capacity_bucket_never_grants() {
    let mut tb = TokenBucket::new(5, 0, 3).unwrap();
    assert_eq!(tb.available_at(1_000), 0);
    assert!(tb.try_take_at(1_000).is_none());
}

#[test]
fn zero_rate_is_rejected() {
    assert!(TokenBucket::new(0, 5, 5).is_none());
}

#[test]
fn overflowing_ceiling_is_rejected() {
    assert!(TokenBucket::new(u64::MAX, 2, 1).is_none());
}

#[test]
fn accrual_past_representable_time_reports_none() {
    let mut tb = TokenBucket::new(5, 1, 0).unwrap();
    // pushes the virtual timestamp to the end of representable time
    assert_eq!(tb.take_at(u64::MAX), Some(0));
    // the next accrual would overflow: the bucket reports that and stays put
    assert_eq!(tb.take_at(u64::MAX), None);
    assert!(tb.try_take_at(u64::MAX).is_none());
}
