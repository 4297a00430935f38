use std::cell::Cell;

use jellyfin_exporter::circuit_breaker::{
    CircuitBreaker, CircuitBreakerError, CircuitStatus, Clock, ProceedDecision,
};

#[derive(Debug)]
struct TestError;

/// One millisecond, in the breaker's nanoseconds.
const MS: u128 = 1_000_000;

/// A clock that only moves when the test advances it.
struct MockClock {
    now_ns: Cell<u128>,
}

impl MockClock {
    fn new() -> Self {
        MockClock { now_ns: Cell::new(0) }
    }

    fn advance(&self, ns: u128) {
        self.now_ns.set(self.now_ns.get() + ns);
    }
}

impl Clock for &MockClock {
    fn now(&self) -> u128 {
        self.now_ns.get()
    }
}

fn fail<C: Clock>(cb: &mut CircuitBreaker<C>) {
    let _ = cb.execute(|| Err::<(), _>(TestError));
}

#[test]
fn starts_closed() {
    let cb = CircuitBreaker::new(3, 60_000 * MS);
    assert_eq!(cb.status(), CircuitStatus::Closed);
}

#[test]
fn stays_closed_below_threshold() {
    let mut cb = CircuitBreaker::new(3, 60_000 * MS);

    // Two failures — below threshold of 3
    for _ in 0..2 {
        fail(&mut cb);
    }

    assert_eq!(cb.status(), CircuitStatus::Closed);
}

#[test]
fn opens_at_threshold() {
    let mut cb = CircuitBreaker::new(3, 60_000 * MS);

    for _ in 0..3 {
        fail(&mut cb);
    }

    assert_eq!(cb.status(), CircuitStatus::Open);
}

#[test]
fn open_rejects_immediately() {
    let mut cb = CircuitBreaker::new(1, 60_000 * MS);

    fail(&mut cb);
    assert_eq!(cb.status(), CircuitStatus::Open);

    let result = cb.execute(|| Ok::<_, TestError>(()));
    assert!(matches!(result, Err(CircuitBreakerError::Open { .. })));
}

#[test]
fn transitions_to_half_open_after_timeout() {
    let clock = MockClock::new();
    let mut cb = CircuitBreaker::with_clock(1, 10 * MS, &clock);

    fail(&mut cb);
    assert_eq!(cb.status(), CircuitStatus::Open);

    clock.advance(11 * MS);

    // Next execute should transition to half-open and run the probe
    let result = cb.execute(|| Ok::<_, TestError>(42));
    assert_eq!(result.unwrap(), 42);
    assert_eq!(cb.status(), CircuitStatus::Closed);
}

#[test]
fn half_open_failure_reopens() {
    let clock = MockClock::new();
    let mut cb = CircuitBreaker::with_clock(1, 10 * MS, &clock);

    fail(&mut cb);

    clock.advance(11 * MS);

    // Probe fails — should re-open
    fail(&mut cb);
    assert_eq!(cb.status(), CircuitStatus::Open);
}

#[test]
fn open_rejects_until_clock_advances() {
    let clock = MockClock::new();
    let mut cb = CircuitBreaker::with_clock(1, 10 * MS, &clock);

    fail(&mut cb);
    assert_eq!(cb.status(), CircuitStatus::Open);

    // Just shy of the reset window: still rejected without invoking the op.
    clock.advance(9 * MS);
    let probed = Cell::new(false);
    let result = cb.execute(|| {
        probed.set(true);
        Ok::<_, TestError>(())
    });
    assert!(matches!(result, Err(CircuitBreakerError::Open { .. })));
    assert!(!probed.get(), "operation must not run while still open");
    assert_eq!(cb.status(), CircuitStatus::Open);
}

#[test]
fn success_resets_failure_count() {
    let mut cb = CircuitBreaker::new(3, 60_000 * MS);

    // Two failures
    for _ in 0..2 {
        fail(&mut cb);
    }

    // One success resets the count
    let _ = cb.execute(|| Ok::<_, TestError>(()));

    // Two more failures — should still be closed (count was reset)
    for _ in 0..2 {
        fail(&mut cb);
    }

    assert_eq!(cb.status(), CircuitStatus::Closed);
}

#[test]
fn rejection_reports_time_left() {
    let clock = MockClock::new();
    let mut cb = CircuitBreaker::with_clock(1, 100 * MS, &clock);

    fail(&mut cb);
    clock.advance(30 * MS);
    match cb.execute(|| Ok::<_, TestError>(())) {
        Err(CircuitBreakerError::Open { retry_after_ns }) => assert_eq!(retry_after_ns, 70 * MS),
        _ => panic!("expected a refusal"),
    }
}

#[test]
fn inner_error_is_returned() {
    let mut cb = CircuitBreaker::new(5, 1_000 * MS);
    let result = cb.execute(|| Err::<u8, _>("boom"));
    assert!(matches!(result, Err(CircuitBreakerError::Inner("boom"))));
    assert_eq!(cb.status(), CircuitStatus::Closed);
}

#[test]
fn call_at_and_record_at_follow_the_timeline() {
    let clock = MockClock::new();
    let mut cb = CircuitBreaker::with_clock(2, 50, &clock);
    assert_eq!(cb.call_at(0), ProceedDecision::Run);
    cb.record_failure_at(5);
    assert_eq!(cb.status(), CircuitStatus::Closed);
    cb.record_failure_at(7);
    assert_eq!(cb.status(), CircuitStatus::Open);
    // The window starts at the failure that opened the breaker.
    assert_eq!(cb.call_at(20), ProceedDecision::Reject { retry_after_ns: 37 });
    // A clock reading before the opening counts as no time elapsed.
    assert_eq!(cb.call_at(1), ProceedDecision::Reject { retry_after_ns: 50 });
    assert_eq!(cb.call_at(57), ProceedDecision::Run);
    assert_eq!(cb.status(), CircuitStatus::HalfOpen);
    cb.record_success();
    assert_eq!(cb.status(), CircuitStatus::Closed);
}

#[test]
fn half_open_admits_further_calls() {
    let clock = MockClock::new();
    let mut cb = CircuitBreaker::with_clock(1, 10 * MS, &clock);
    cb.record_failure_at(0);
    assert_eq!(cb.call_at(10 * MS), ProceedDecision::Run);
    assert_eq!(cb.status(), CircuitStatus::HalfOpen);
    assert_eq!(cb.call_at(10 * MS), ProceedDecision::Run);
    assert_eq!(cb.status(), CircuitStatus::HalfOpen);
}

#[test]
fn status_text() {
    assert_eq!(CircuitStatus::Closed.as_str(), "closed");
    assert_eq!(CircuitStatus::Open.as_str(), "open");
    assert_eq!(CircuitStatus::HalfOpen.as_str(), "half-open");
}

#[test]
fn system_clock_breaker_opens_and_refuses() {
    let mut cb = CircuitBreaker::new(1, 60_000 * MS);
    cb.record_failure();
    assert_eq!(cb.status(), CircuitStatus::Open);
    assert!(matches!(cb.before_call(), ProceedDecision::Reject { .. }));
}

#[test]
fn reset_window_kept_to_the_nanosecond() {
    let clock = MockClock::new();
    let mut cb = CircuitBreaker::with_clock(1, 10 * MS, &clock);
    cb.record_failure_at(3);
    assert_eq!(cb.call_at(10 * MS + 2), ProceedDecision::Reject { retry_after_ns: 1 });
    assert_eq!(cb.status(), CircuitStatus::Open);
    assert_eq!(cb.call_at(10 * MS + 3), ProceedDecision::Run);
}
