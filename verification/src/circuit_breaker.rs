//! Circuit breaker state machine.
//!
//! - `Closed` → `Open` after `failure_threshold` consecutive failures
//! - `Open` → `HalfOpen` once `reset_timeout_ns` has elapsed
//! - `HalfOpen` → `Closed` on success, back to `Open` on failure
//!
//! Time is a monotonic nanosecond count read from a [`Clock`], so that
//! durations keep the precision of `std::time::Duration`.

use vstd::prelude::*;

verus! {

/// Source of "what time is it now", in nanoseconds on a monotonic timeline,
/// so that the reset-timeout logic can be driven by a deterministic clock.
pub trait Clock {
    fn now(&self) -> u128;
}

#[verifier::external_type_specification]
#[verifier::external_body]
pub struct ExInstant(std::time::Instant);

/// Calls `std::time::Instant::now`. Nothing is stated of the result: it is
/// the machine's monotonic clock.
#[verifier::external_body]
fn instant_now() -> std::time::Instant {
    std::time::Instant::now()
}

/// Calls `Instant::elapsed` on `origin` and returns the duration in
/// nanoseconds (`Duration::as_nanos`). Nothing is stated of the result: it
/// depends on the machine's clock.
#[verifier::external_body]
fn nanos_elapsed_since(origin: &std::time::Instant) -> u128 {
    origin.elapsed().as_nanos()
}

/// Production [`Clock`]: nanoseconds elapsed since the clock was created,
/// measured with the real monotonic clock.
pub struct SystemClock {
    origin: std::time::Instant,
}

impl SystemClock {
    pub fn new() -> SystemClock {
        SystemClock { origin: instant_now() }
    }
}

impl Clock for SystemClock {
    /// Nanoseconds since the clock was created.
    fn now(&self) -> u128 {
        nanos_elapsed_since(&self.origin)
    }
}

/// Internal state of the breaker.
#[derive(Clone, Copy, Debug)]
pub enum CircuitState {
    Closed { consecutive_failures: u32 },
    Open { since: u128 },
    HalfOpen,
}

/// Externally visible status of the breaker.
#[derive(Clone, Copy, Debug, PartialEq, Eq, Structural)]
pub enum CircuitStatus {
    Closed,
    Open,
    HalfOpen,
}

impl CircuitStatus {
    /// The status as display text (`closed`, `open`, `half-open`).
    pub fn as_str(&self) -> (s: &'static str)
        ensures
            s@ == status_text(*self),
    {
        match self {
            CircuitStatus::Closed => "closed",
            CircuitStatus::Open => "open",
            CircuitStatus::HalfOpen => "half-open",
        }
    }
}

pub open spec fn status_text(s: CircuitStatus) -> Seq<char> {
    match s {
        CircuitStatus::Closed => "closed"@,
        CircuitStatus::Open => "open"@,
        CircuitStatus::HalfOpen => "half-open"@,
    }
}

/// Outcome of [`CircuitBreaker::execute`]: either the breaker refused to run
/// the operation, or the operation ran and failed with its own error.
#[derive(Debug)]
pub enum CircuitBreakerError<E> {
    /// The breaker is open; `retry_after_ns` is the time left before the next
    /// half-open probe.
    Open { retry_after_ns: u128 },
    /// The operation ran and returned an error; the breaker counted it.
    Inner(E),
}

/// Whether a call may go ahead.
#[derive(Clone, Copy, Debug, PartialEq, Eq, Structural)]
pub enum ProceedDecision {
    Run,
    Reject { retry_after_ns: u128 },
}

/// Mathematical model of a breaker: its state and its two parameters.
pub struct BreakerView {
    pub state: CircuitState,
    pub failure_threshold: u32,
    pub reset_timeout_ns: u128,
}

pub open spec fn status_of(s: CircuitState) -> CircuitStatus {
    match s {
        CircuitState::Closed { .. } => CircuitStatus::Closed,
        CircuitState::Open { .. } => CircuitStatus::Open,
        CircuitState::HalfOpen => CircuitStatus::HalfOpen,
    }
}

/// Time elapsed from `since` to `now`, zero if the clock reads earlier.
pub open spec fn elapsed(now: u128, since: u128) -> int {
    if now >= since {
        now - since
    } else {
        0
    }
}

pub open spec fn initial(failure_threshold: u32, reset_timeout_ns: u128) -> BreakerView {
    BreakerView {
        state: CircuitState::Closed { consecutive_failures: 0 },
        failure_threshold,
        reset_timeout_ns,
    }
}

/// The failure count stays below the threshold while the breaker is closed
/// (a threshold of zero opens on the first failure, so the count stays 0).
pub open spec fn well_formed(v: BreakerView) -> bool {
    match v.state {
        CircuitState::Closed { consecutive_failures } => consecutive_failures == 0
            || consecutive_failures < v.failure_threshold,
        _ => true,
    }
}

/// The decision taken when a call arrives at time `now`, and the new state.
pub open spec fn on_call(v: BreakerView, now: u128) -> (BreakerView, ProceedDecision) {
    match v.state {
        CircuitState::Open { since } => {
            if elapsed(now, since) >= v.reset_timeout_ns {
                (BreakerView { state: CircuitState::HalfOpen, ..v }, ProceedDecision::Run)
            } else {
                (
                    v,
                    ProceedDecision::Reject {
                        retry_after_ns: (v.reset_timeout_ns - elapsed(now, since)) as u128,
                    },
                )
            }
        },
        _ => (v, ProceedDecision::Run),
    }
}

/// State after a call succeeded.
pub open spec fn after_success(v: BreakerView) -> BreakerView {
    BreakerView { state: CircuitState::Closed { consecutive_failures: 0 }, ..v }
}

/// State after a call failed at time `now`.
pub open spec fn after_failure(v: BreakerView, now: u128) -> BreakerView {
    match v.state {
        CircuitState::Closed { consecutive_failures } => {
            if consecutive_failures + 1 >= v.failure_threshold {
                BreakerView { state: CircuitState::Open { since: now }, ..v }
            } else {
                BreakerView {
                    state: CircuitState::Closed {
                        consecutive_failures: (consecutive_failures + 1) as u32,
                    },
                    ..v
                }
            }
        },
        CircuitState::HalfOpen => BreakerView { state: CircuitState::Open { since: now }, ..v },
        CircuitState::Open { .. } => v,
    }
}

/// State after a run of failures at the given times, oldest first.
pub open spec fn after_failures(v: BreakerView, times: Seq<u128>) -> BreakerView
    decreases times.len(),
{
    if times.len() == 0 {
        v
    } else {
        after_failure(after_failures(v, times.drop_last()), times.last())
    }
}

/// Circuit breaker over a [`Clock`].
pub struct CircuitBreaker<C = SystemClock> {
    state: CircuitState,
    failure_threshold: u32,
    reset_timeout_ns: u128,
    clock: C,
}

impl<C> View for CircuitBreaker<C> {
    type V = BreakerView;

    closed spec fn view(&self) -> BreakerView {
        BreakerView {
            state: self.state,
            failure_threshold: self.failure_threshold,
            reset_timeout_ns: self.reset_timeout_ns,
        }
    }
}

impl<C> CircuitBreaker<C> {
    #[verifier::type_invariant]
    closed spec fn inv(self) -> bool {
        well_formed(self@)
    }

    /// A breaker that uses `clock` to measure the reset window.
    pub fn with_clock(failure_threshold: u32, reset_timeout_ns: u128, clock: C) -> (cb: Self)
        ensures
            cb@ == initial(failure_threshold, reset_timeout_ns),
            well_formed(cb@),
    {
        CircuitBreaker {
            state: CircuitState::Closed { consecutive_failures: 0 },
            failure_threshold,
            reset_timeout_ns,
            clock,
        }
    }

    /// Current breaker status.
    pub fn status(&self) -> (s: CircuitStatus)
        ensures
            s == status_of(self@.state),
    {
        match self.state {
            CircuitState::Closed { .. } => CircuitStatus::Closed,
            CircuitState::Open { .. } => CircuitStatus::Open,
            CircuitState::HalfOpen => CircuitStatus::HalfOpen,
        }
    }

    /// Decide whether a call arriving at time `now` may run: an open breaker
    /// turns half-open once the reset timeout has elapsed, and otherwise
    /// refuses with the time left.
    pub fn call_at(&mut self, now: u128) -> (d: ProceedDecision)
        ensures
            (final(self)@, d) == on_call(old(self)@, now),
            well_formed(final(self)@),
    {
        proof {
            use_type_invariant(&*self);
        }
        let d = match self.state {
            CircuitState::Open { since } => {
                let elapsed = now.saturating_sub(since);
                if elapsed >= self.reset_timeout_ns {
                    self.state = CircuitState::HalfOpen;
                    ProceedDecision::Run
                } else {
                    ProceedDecision::Reject {
                        retry_after_ns: self.reset_timeout_ns.saturating_sub(elapsed),
                    }
                }
            },
            _ => ProceedDecision::Run,
        };
        proof {
            use_type_invariant(&*self);
        }
        d
    }

    /// Record a successful call: the breaker closes with a zero count.
    pub fn record_success(&mut self)
        ensures
            final(self)@ == after_success(old(self)@),
            well_formed(final(self)@),
    {
        self.state = CircuitState::Closed { consecutive_failures: 0 };
        proof {
            use_type_invariant(&*self);
        }
    }

    /// Record a call that failed at time `now`.
    pub fn record_failure_at(&mut self, now: u128)
        ensures
            final(self)@ == after_failure(old(self)@, now),
            well_formed(final(self)@),
    {
        proof {
            use_type_invariant(&*self);
        }
        match self.state {
            CircuitState::Closed { consecutive_failures } => {
                let new_count = consecutive_failures + 1;
                if new_count >= self.failure_threshold {
                    self.state = CircuitState::Open { since: now };
                } else {
                    self.state = CircuitState::Closed { consecutive_failures: new_count };
                }
            },
            CircuitState::HalfOpen => {
                self.state = CircuitState::Open { since: now };
            },
            CircuitState::Open { .. } => {},
        }
        proof {
            use_type_invariant(&*self);
        }
    }
}

impl CircuitBreaker<SystemClock> {
    /// A breaker that opens after `failure_threshold` consecutive failures and
    /// tries to recover after `reset_timeout_ns` nanoseconds.
    pub fn new(failure_threshold: u32, reset_timeout_ns: u128) -> (cb: Self)
        ensures
            cb@ == initial(failure_threshold, reset_timeout_ns),
            well_formed(cb@),
    {
        Self::with_clock(failure_threshold, reset_timeout_ns, SystemClock::new())
    }
}

impl<C: Clock> CircuitBreaker<C> {
    /// [`CircuitBreaker::call_at`] at the clock's current time.
    pub fn before_call(&mut self) -> (d: ProceedDecision)
        ensures
            exists|now: u128| #[trigger] on_call(old(self)@, now) == (final(self)@, d),
            well_formed(final(self)@),
    {
        let now = self.clock.now();
        self.call_at(now)
    }

    /// [`CircuitBreaker::record_failure_at`] at the clock's current time.
    pub fn record_failure(&mut self)
        ensures
            exists|now: u128| final(self)@ == #[trigger] after_failure(old(self)@, now),
            well_formed(final(self)@),
    {
        let now = self.clock.now();
        self.record_failure_at(now);
    }

    /// Execute an operation through the breaker.
    ///
    /// - Closed or half-open: run it and record its outcome.
    /// - Open and the reset timeout elapsed: turn half-open and run one probe.
    /// - Open otherwise: refuse with `CircuitBreakerError::Open` without
    ///   running the operation.
    pub fn execute<T, E, F: FnOnce() -> Result<T, E>>(&mut self, f: F) -> (r: Result<
        T,
        CircuitBreakerError<E>,
    >)
        requires
            f.requires(()),
        ensures
            match r {
                Err(CircuitBreakerError::Open { retry_after_ns }) => exists|now: u128|
                    #[trigger] on_call(old(self)@, now) == (
                        final(self)@,
                        ProceedDecision::Reject { retry_after_ns },
                    ),
                Ok(v) => f.ensures((), Ok(v)) && exists|now: u128|
                    #![trigger on_call(old(self)@, now)]
                    on_call(old(self)@, now).1 == ProceedDecision::Run && final(self)@
                        == after_success(on_call(old(self)@, now).0),
                Err(CircuitBreakerError::Inner(e)) => f.ensures((), Err(e)) && exists|
                    now1: u128,
                    now2: u128,
                |
                    #![trigger on_call(old(self)@, now1), after_failure(on_call(old(self)@, now1).0, now2)]
                    on_call(old(self)@, now1).1 == ProceedDecision::Run && final(self)@
                        == after_failure(on_call(old(self)@, now1).0, now2),
            },
            well_formed(final(self)@),
    {
        let ghost start = self@;
        let decision = self.before_call();
        let ghost mid = self@;
        match decision {
            ProceedDecision::Reject { retry_after_ns } => Err(
                CircuitBreakerError::Open { retry_after_ns },
            ),
            ProceedDecision::Run => {
                match f() {
                    Ok(value) => {
                        self.record_success();
                        Ok(value)
                    },
                    Err(e) => {
                        self.record_failure();
                        proof {
                            let now1 = choose|now: u128| #[trigger] on_call(start, now) == (mid, decision);
                            let now2 = choose|now: u128| self@ == #[trigger] after_failure(mid, now);
                            assert(on_call(start, now1).1 == ProceedDecision::Run);
                            assert(self@ == after_failure(on_call(start, now1).0, now2));
                        }
                        Err(CircuitBreakerError::Inner(e))
                    },
                }
            },
        }
    }
}

/// Failures leave the breaker's parameters unchanged.
proof fn lemma_failures_keep_parameters(v: BreakerView, times: Seq<u128>)
    ensures
        after_failures(v, times).failure_threshold == v.failure_threshold,
        after_failures(v, times).reset_timeout_ns == v.reset_timeout_ns,
    decreases times.len(),
{
    if times.len() > 0 {
        lemma_failures_keep_parameters(v, times.drop_last());
    }
}

/// Every transition keeps a breaker well formed.
pub proof fn lemma_transitions_keep_well_formed(v: BreakerView, now: u128)
    requires
        well_formed(v),
    ensures
        well_formed(on_call(v, now).0),
        well_formed(after_success(v)),
        well_formed(after_failure(v, now)),
{
}

/// A fresh breaker stays closed through fewer than `failure_threshold`
/// consecutive failures, counting them, and opens at the failure that
/// reaches the threshold, stamped with that failure's time.
pub proof fn lemma_opens_at_threshold(failure_threshold: u32, reset_timeout_ns: u128, times: Seq<u128>)
    requires
        failure_threshold >= 1,
        times.len() <= failure_threshold,
    ensures
        after_failures(initial(failure_threshold, reset_timeout_ns), times).state == (if times.len()
            < failure_threshold {
            CircuitState::Closed { consecutive_failures: times.len() as u32 }
        } else {
            CircuitState::Open { since: times.last() }
        }),
    decreases times.len(),
{
    if times.len() > 0 {
        lemma_opens_at_threshold(failure_threshold, reset_timeout_ns, times.drop_last());
        lemma_failures_keep_parameters(
            initial(failure_threshold, reset_timeout_ns),
            times.drop_last(),
        );
    }
}

/// A success forgets every earlier failure: after it, fewer than
/// `failure_threshold` further failures leave the breaker closed, whatever
/// happened before.
pub proof fn lemma_success_resets_failure_count(v: BreakerView, before: Seq<u128>, after: Seq<u128>)
    requires
        after.len() < v.failure_threshold,
    ensures
        status_of(after_failures(after_success(after_failures(v, before)), after).state)
            == CircuitStatus::Closed,
{
    lemma_failures_keep_parameters(v, before);
    let fresh = after_success(after_failures(v, before));
    assert(fresh == initial(v.failure_threshold, v.reset_timeout_ns));
    lemma_opens_at_threshold(v.failure_threshold, v.reset_timeout_ns, after);
}

/// While open and before the reset timeout has elapsed, a call is refused,
/// the state is left as it is, and the refusal reports the time left, which
/// is positive and at most the reset timeout.
pub proof fn lemma_open_refuses_until_reset(v: BreakerView, since: u128, now: u128)
    requires
        v.state == (CircuitState::Open { since }),
        elapsed(now, since) < v.reset_timeout_ns,
    ensures
        on_call(v, now).0 == v,
        on_call(v, now).1 == (ProceedDecision::Reject {
            retry_after_ns: (v.reset_timeout_ns - elapsed(now, since)) as u128,
        }),
        0 < v.reset_timeout_ns - elapsed(now, since) <= v.reset_timeout_ns,
{
}

/// Once the reset timeout has elapsed, an open breaker turns half-open and
/// lets the call through as a probe; the probe's success closes the breaker
/// and its failure reopens it from the failure's time.
pub proof fn lemma_half_open_probe(v: BreakerView, since: u128, now: u128, later: u128)
    requires
        v.state == (CircuitState::Open { since }),
        elapsed(now, since) >= v.reset_timeout_ns,
    ensures
        on_call(v, now).1 == ProceedDecision::Run,
        status_of(on_call(v, now).0.state) == CircuitStatus::HalfOpen,
        status_of(after_success(on_call(v, now).0).state) == CircuitStatus::Closed,
        after_failure(on_call(v, now).0, later).state == (CircuitState::Open { since: later }),
{
}

/// A closed or half-open breaker never refuses a call.
pub proof fn lemma_only_open_refuses(v: BreakerView, now: u128)
    requires
        status_of(v.state) != CircuitStatus::Open,
    ensures
        on_call(v, now) == (v, ProceedDecision::Run),
{
}

/// In a well-formed breaker the consecutive-failure count can always take
/// one more failure without overflowing, and a closed breaker counts fewer
/// failures than its threshold (or none).
pub proof fn lemma_failure_count_fits(v: BreakerView)
    requires
        well_formed(v),
    ensures
        v.state matches CircuitState::Closed { consecutive_failures: n } ==> n < u32::MAX && (n
            == 0 || n < v.failure_threshold),
{
}

/// With a threshold of 0 or 1, the first failure opens a fresh breaker,
/// stamped with that failure's time.
pub proof fn lemma_low_threshold_opens_at_once(failure_threshold: u32, reset_timeout_ns: u128, now: u128)
    requires
        failure_threshold <= 1,
    ensures
        after_failure(initial(failure_threshold, reset_timeout_ns), now).state
            == (CircuitState::Open { since: now }),
{
}

/// A failure recorded while the breaker is open changes nothing: it stays
/// open since the failure that opened it.
pub proof fn lemma_open_ignores_failures(v: BreakerView, now: u128)
    requires
        v.state is Open,
    ensures
        after_failure(v, now) == v,
        status_of(after_failure(v, now).state) == CircuitStatus::Open,
{
}

/// From a fresh breaker, any run of at least `failure_threshold` failures
/// leaves it open since the failure that reached the threshold; the later
/// failures change nothing.
pub proof fn lemma_stays_open_after_threshold(failure_threshold: u32, reset_timeout_ns: u128, times: Seq<u128>)
    requires
        failure_threshold >= 1,
        times.len() >= failure_threshold,
    ensures
        after_failures(initial(failure_threshold, reset_timeout_ns), times).state
            == (CircuitState::Open { since: times[failure_threshold - 1] }),
    decreases times.len(),
{
    if times.len() == failure_threshold {
        lemma_opens_at_threshold(failure_threshold, reset_timeout_ns, times);
    } else {
        lemma_stays_open_after_threshold(failure_threshold, reset_timeout_ns, times.drop_last());
        assert(times.drop_last()[failure_threshold - 1] == times[failure_threshold - 1]);
    }
}

} // verus!
