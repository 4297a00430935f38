use std::cell::Cell;

use jellyfin_exporter::retry::{backoff_delay, backoff_delay_with_jitter, next_step, RetryStep};

/// Runs `f` under the retry schedule, recording the delays that would be
/// slept instead of sleeping.
fn run_with_retry<T, E>(
    mut f: impl FnMut() -> Result<T, E>,
    max_attempts: u32,
    base_delay_ms: u64,
    max_delay_ms: u64,
) -> (Result<T, E>, Vec<u64>) {
    let mut delays = Vec::new();
    let mut attempt: u32 = 0;
    loop {
        match f() {
            Ok(v) => return (Ok(v), delays),
            Err(e) => match next_step(attempt, max_attempts, base_delay_ms, max_delay_ms) {
                RetryStep::GiveUp => return (Err(e), delays),
                RetryStep::RetryAfter { delay_ms } => {
                    delays.push(delay_ms);
                    attempt += 1;
                }
            },
        }
    }
}

#[test]
fn succeeds_on_first_try() {
    let (result, delays) = run_with_retry(|| Ok::<_, &str>(42), 3, 10, 100);

    assert_eq!(result.unwrap(), 42);
    assert!(delays.is_empty());
}

#[test]
fn succeeds_after_retries() {
    let attempts = Cell::new(0u32);

    let (result, _) = run_with_retry(
        || {
            let count = attempts.get() + 1;
            attempts.set(count);
            if count < 3 {
                Err::<u32, &str>("not yet")
            } else {
                Ok(99)
            }
        },
        3,
        1,
        10,
    );

    assert_eq!(result.unwrap(), 99);
    assert_eq!(attempts.get(), 3);
}

#[test]
fn exhausts_all_attempts() {
    let attempts = Cell::new(0u32);

    let (result, delays) = run_with_retry(
        || {
            attempts.set(attempts.get() + 1);
            Err::<(), &str>("always fails")
        },
        2,
        1,
        10,
    );

    assert!(result.is_err());
    assert_eq!(attempts.get(), 3); // 1 initial + 2 retries
    assert_eq!(delays.len(), 2); // no delay after the last attempt
}

#[test]
fn zero_retries_means_single_attempt() {
    let attempts = Cell::new(0u32);

    let (result, delays) = run_with_retry(
        || {
            attempts.set(attempts.get() + 1);
            Err::<(), &str>("fail")
        },
        0,
        1,
        10,
    );

    assert!(result.is_err());
    assert_eq!(attempts.get(), 1);
    assert!(delays.is_empty());
}

#[test]
fn backoff_delay_grows_exponentially() {
    let base = 100;
    let max = 10_000;

    // Attempt 0: 100ms * 2^0 = 100ms + jitter
    let d0 = backoff_delay(0, base, max);
    assert!(d0 >= 100);
    assert!(d0 <= 300); // 100 + max 200 jitter

    // Attempt 2: 100ms * 2^2 = 400ms + jitter
    let d2 = backoff_delay(2, base, max);
    assert!(d2 >= 400);
    assert!(d2 <= 600);
}

#[test]
fn backoff_delay_capped_at_max() {
    let base = 100;
    let max = 500;

    // Attempt 10: 100ms * 2^10 = 102400ms, should be capped to 500ms
    let d = backoff_delay(10, base, max);
    assert_eq!(d, max);
}

#[test]
fn backoff_jitter_stays_below_one_base_interval() {
    for _ in 0..200 {
        let d = backoff_delay(1, 50, 1_000_000);
        assert!((100..150).contains(&d), "delay {d} outside [100, 150)");
    }
}

#[test]
fn backoff_jitter_varies_between_draws() {
    let draws: std::collections::BTreeSet<u64> =
        (0..200).map(|_| backoff_delay(0, 1_000, 1_000_000)).collect();
    assert!(draws.len() > 1);
}

#[test]
fn backoff_zero_base_has_no_jitter() {
    assert_eq!(backoff_delay(5, 0, 1_000), 0);
}

#[test]
fn backoff_delay_with_jitter_exact_values() {
    assert_eq!(backoff_delay_with_jitter(0, 100, 10_000, 0), 100);
    assert_eq!(backoff_delay_with_jitter(3, 100, 10_000, 42), 842);
    assert_eq!(backoff_delay_with_jitter(3, 100, 500, 42), 500);
    // The multiplier saturates at u32::MAX and the product at u64::MAX.
    assert_eq!(backoff_delay_with_jitter(40, 1, u64::MAX, 0), u32::MAX as u64);
    assert_eq!(backoff_delay_with_jitter(40, u64::MAX / 2, u64::MAX, 7), u64::MAX);
}

#[test]
fn next_step_gives_up_when_budget_spent() {
    assert_eq!(next_step(3, 3, 10, 100), RetryStep::GiveUp);
    assert_eq!(next_step(7, 3, 10, 100), RetryStep::GiveUp);
    assert!(matches!(next_step(2, 3, 10, 100), RetryStep::RetryAfter { .. }));
}
