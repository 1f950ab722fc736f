use x2ssh::retry::RetryPolicy;

#[test]
fn test_backoff_calculation() {
    let policy = RetryPolicy::default();

    assert_eq!(policy.delay_for_attempt(0), 1000);
    assert_eq!(policy.delay_for_attempt(1), 2000);
    assert_eq!(policy.delay_for_attempt(2), 4000);
    assert_eq!(policy.delay_for_attempt(3), 8000);
}

#[test]
fn test_max_delay_cap() {
    let policy = RetryPolicy::default();

    assert_eq!(policy.delay_for_attempt(10), 30000);
}

#[test]
fn test_max_attempts() {
    let policy = RetryPolicy {
        max_attempts: Some(3),
        ..Default::default()
    };

    assert!(policy.should_retry(0));
    assert!(policy.should_retry(1));
    assert!(policy.should_retry(2));
    assert!(!policy.should_retry(3));
}

#[test]
fn test_infinite_retry() {
    let policy = RetryPolicy::default();

    assert!(policy.should_retry(0));
    assert!(policy.should_retry(100));
    assert!(policy.should_retry(1000));
}

#[test]
fn retry_backoff_calculation() {
    let policy = RetryPolicy {
        max_attempts: Some(5),
        initial_delay_ms: 100,
        backoff_permille: 2000,
        max_delay_ms: 10000,
    };

    assert_eq!(policy.delay_for_attempt(0), 100);
    assert_eq!(policy.delay_for_attempt(1), 200);
    assert_eq!(policy.delay_for_attempt(2), 400);
    assert_eq!(policy.delay_for_attempt(3), 800);
}

#[test]
fn retry_should_retry_within_limit() {
    let policy = RetryPolicy {
        max_attempts: Some(3),
        ..Default::default()
    };

    assert!(policy.should_retry(0));
    assert!(policy.should_retry(1));
    assert!(policy.should_retry(2));
    assert!(!policy.should_retry(3));
    assert!(!policy.should_retry(4));
}

#[test]
fn retry_infinite_attempts() {
    let policy = RetryPolicy {
        max_attempts: None,
        ..Default::default()
    };

    assert!(policy.should_retry(0));
    assert!(policy.should_retry(100));
    assert!(policy.should_retry(1000));
}

#[test]
fn delays_never_shrink_and_stay_under_the_cap() {
    let policy = RetryPolicy {
        max_attempts: None,
        initial_delay_ms: 250,
        backoff_permille: 1500,
        max_delay_ms: 9000,
    };
    let mut previous = policy.delay_for_attempt(0);
    assert_eq!(previous, 250);
    let mut delays = vec![previous];
    for k in 1..64u32 {
        let delay = policy.delay_for_attempt(k);
        assert!(previous <= delay);
        assert!(delay <= 9000);
        previous = delay;
        delays.push(delay);
    }
    assert_eq!(previous, 9000);
    assert_eq!(
        &delays[..12],
        &[250, 375, 562, 843, 1265, 1898, 2847, 4271, 6407, 9000, 9000, 9000]
    );
}

#[test]
fn fractional_backoff_rounds_down_once() {
    let policy = RetryPolicy {
        max_attempts: None,
        initial_delay_ms: 500,
        backoff_permille: 1500,
        max_delay_ms: 10000,
    };
    assert_eq!(policy.delay_for_attempt(0), 500);
    assert_eq!(policy.delay_for_attempt(1), 750);
    assert_eq!(policy.delay_for_attempt(2), 1125);
    assert_eq!(policy.delay_for_attempt(3), 1687);
    assert_eq!(policy.delay_for_attempt(4), 2531);
    assert_eq!(policy.delay_for_attempt(5), 3796);
}

#[test]
fn small_delay_grows_by_the_exact_product() {
    let policy = RetryPolicy {
        max_attempts: None,
        initial_delay_ms: 1,
        backoff_permille: 1500,
        max_delay_ms: 100,
    };
    let delays: Vec<u64> = (0..6).map(|k| policy.delay_for_attempt(k)).collect();
    assert_eq!(delays, vec![1, 1, 2, 3, 5, 7]);

    let odd = RetryPolicy {
        max_attempts: None,
        initial_delay_ms: 7,
        backoff_permille: 1234,
        max_delay_ms: 1_000_000,
    };
    assert_eq!(odd.delay_for_attempt(9), 46);
    let near_two = RetryPolicy {
        max_attempts: None,
        initial_delay_ms: 3,
        backoff_permille: 1999,
        max_delay_ms: 1000,
    };
    assert_eq!(near_two.delay_for_attempt(3), 23);
}

#[test]
fn slow_growth_over_many_attempts() {
    let policy = RetryPolicy {
        max_attempts: None,
        initial_delay_ms: 1000,
        backoff_permille: 1001,
        max_delay_ms: u64::MAX,
    };
    assert_eq!(policy.delay_for_attempt(1000), 2716);
    let from_one = RetryPolicy { initial_delay_ms: 1, ..policy };
    assert_eq!(from_one.delay_for_attempt(5000), 148);
}

#[test]
fn slow_decay_over_many_attempts() {
    let policy = RetryPolicy {
        max_attempts: None,
        initial_delay_ms: u64::MAX,
        backoff_permille: 999,
        max_delay_ms: u64::MAX,
    };
    assert_eq!(policy.delay_for_attempt(3000), 917031809373190296);
}

#[test]
fn initial_delay_over_the_cap_is_capped() {
    let policy = RetryPolicy {
        max_attempts: None,
        initial_delay_ms: 5000,
        backoff_permille: 2000,
        max_delay_ms: 3000,
    };
    assert_eq!(policy.delay_for_attempt(0), 3000);
    assert_eq!(policy.delay_for_attempt(7), 3000);
}

#[test]
fn very_large_attempt_saturates_at_the_cap() {
    let policy = RetryPolicy::default();
    assert_eq!(policy.delay_for_attempt(u32::MAX), 30000);

    let huge = RetryPolicy {
        max_attempts: None,
        initial_delay_ms: 1,
        backoff_permille: u64::MAX,
        max_delay_ms: u64::MAX,
    };
    assert_eq!(huge.delay_for_attempt(0), 1);
    assert_eq!(huge.delay_for_attempt(1), 18446744073709551);
    assert_eq!(huge.delay_for_attempt(5), u64::MAX);
}

#[test]
fn backoff_of_one_keeps_the_initial_delay() {
    let policy = RetryPolicy {
        max_attempts: Some(1),
        initial_delay_ms: 10,
        backoff_permille: 1000,
        max_delay_ms: 10,
    };
    assert_eq!(policy.delay_for_attempt(0), 10);
    assert_eq!(policy.delay_for_attempt(1_000_000), 10);
}

#[test]
fn backoff_below_one_shrinks_the_delay() {
    let policy = RetryPolicy {
        max_attempts: None,
        initial_delay_ms: 1000,
        backoff_permille: 500,
        max_delay_ms: 30000,
    };
    assert_eq!(policy.delay_for_attempt(0), 1000);
    assert_eq!(policy.delay_for_attempt(1), 500);
    assert_eq!(policy.delay_for_attempt(2), 250);
    assert_eq!(policy.delay_for_attempt(9), 1);
    assert_eq!(policy.delay_for_attempt(10), 0);
    assert_eq!(policy.delay_for_attempt(40), 0);
    assert_eq!(policy.delay_for_attempt(u32::MAX), 0);
    let zero = RetryPolicy { backoff_permille: 0, ..policy };
    assert_eq!(zero.delay_for_attempt(0), 1000);
    assert_eq!(zero.delay_for_attempt(1), 0);
}

#[test]
fn zero_attempts_allowed_means_no_retry() {
    let policy = RetryPolicy {
        max_attempts: Some(0),
        ..Default::default()
    };
    assert!(!policy.should_retry(0));
    assert!(!policy.should_retry(1));
}
