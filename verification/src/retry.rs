//! Retry schedule: exponential backoff with jitter.
//!
//! An operation is tried once and then retried up to `max_attempts` times.
//! After the zero-indexed attempt `N` fails, the caller waits
//! `base_delay × 2^N + jitter` milliseconds, capped at `max_delay`, where the
//! jitter is uniform in `[0, base_delay)` so that callers retrying in
//! lockstep desynchronize within one base interval.

use vstd::prelude::*;

verus! {

/// `2^n`.
pub open spec fn pow2(n: nat) -> nat
    decreases n,
{
    if n == 0 {
        1
    } else {
        2 * pow2((n - 1) as nat)
    }
}

/// `2u32.saturating_pow(attempt)`.
pub open spec fn backoff_multiplier(attempt: u32) -> nat {
    if pow2(attempt as nat) >= u32::MAX {
        u32::MAX as nat
    } else {
        pow2(attempt as nat)
    }
}

/// `base_delay × 2^attempt + jitter`, capped at `max_delay` (in milliseconds).
pub open spec fn delay_with_jitter(attempt: u32, base_delay_ms: u64, max_delay_ms: u64, jitter_ms: u64) -> int {
    let total = base_delay_ms * backoff_multiplier(attempt) + jitter_ms;
    if total <= max_delay_ms {
        total
    } else {
        max_delay_ms as int
    }
}

/// The jitter values that may be drawn for a base delay: `[0, base)`, or just
/// zero for a zero base.
pub open spec fn jitter_allowed(base_delay_ms: u64, jitter_ms: u64) -> bool {
    if base_delay_ms == 0 {
        jitter_ms == 0
    } else {
        jitter_ms < base_delay_ms
    }
}

/// What to do after a failed attempt.
#[derive(Clone, Copy, Debug, PartialEq, Eq, Structural)]
pub enum RetryStep {
    /// Wait this long, then try again.
    RetryAfter { delay_ms: u64 },
    /// The attempt budget is spent: report the last error.
    GiveUp,
}

/// Calls `fastrand::u64(0..ceiling)`, which draws from the thread-local
/// generator. The crate documents the result as lying in the given range and
/// panics on an empty range, which `requires` excludes; nothing else is
/// stated, the value is random.
#[verifier::external_body]
fn random_below(ceiling: u64) -> (r: u64)
    requires
        ceiling > 0,
    ensures
        r < ceiling,
{
    fastrand::u64(0..ceiling)
}

proof fn lemma_pow2_grows(n: nat)
    ensures
        pow2(n + 1) == 2 * pow2(n),
        pow2(n) >= 1,
    decreases n,
{
    if n > 0 {
        lemma_pow2_grows((n - 1) as nat);
    }
}

proof fn lemma_pow2_monotone(m: nat, n: nat)
    requires
        m <= n,
    ensures
        pow2(m) <= pow2(n),
    decreases n - m,
{
    if m < n {
        lemma_pow2_monotone(m, (n - 1) as nat);
        lemma_pow2_grows((n - 1) as nat);
    }
}

/// `2u32.saturating_pow(attempt)`.
fn saturating_pow2(attempt: u32) -> (m: u32)
    ensures
        m == backoff_multiplier(attempt),
{
    let mut m: u32 = 1;
    let mut i: u32 = 0;
    while i < attempt
        invariant
            i <= attempt,
            m == backoff_multiplier(i),
        decreases attempt - i,
    {
        proof {
            lemma_pow2_grows(i as nat);
        }
        if m == u32::MAX {
            proof {
                assert forall|k: u32| i <= k <= attempt implies backoff_multiplier(k) == u32::MAX by {
                    lemma_pow2_monotone(i as nat, k as nat);
                }
            }
            return m;
        }
        m = match m.checked_mul(2) {
            Some(doubled) => doubled,
            None => u32::MAX,
        };
        i = i + 1;
    }
    m
}

/// The delay before the next attempt after attempt `attempt` (zero-indexed)
/// failed, for a given jitter draw.
pub fn backoff_delay_with_jitter(attempt: u32, base_delay_ms: u64, max_delay_ms: u64, jitter_ms: u64) -> (d: u64)
    ensures
        d == delay_with_jitter(attempt, base_delay_ms, max_delay_ms, jitter_ms),
{
    let multiplier = saturating_pow2(attempt);
    let exponential = match base_delay_ms.checked_mul(multiplier as u64) {
        Some(product) => product,
        None => u64::MAX,
    };
    let total = exponential.saturating_add(jitter_ms);
    if total <= max_delay_ms {
        total
    } else {
        max_delay_ms
    }
}

/// The delay before the next attempt after attempt `attempt` (zero-indexed)
/// failed, with a fresh jitter draw in `[0, base_delay)`.
pub fn backoff_delay(attempt: u32, base_delay_ms: u64, max_delay_ms: u64) -> (d: u64)
    ensures
        exists|jitter_ms: u64|
            jitter_allowed(base_delay_ms, jitter_ms) && d == #[trigger] delay_with_jitter(
                attempt,
                base_delay_ms,
                max_delay_ms,
                jitter_ms,
            ),
{
    let jitter_ms = if base_delay_ms == 0 {
        0
    } else {
        random_below(base_delay_ms)
    };
    backoff_delay_with_jitter(attempt, base_delay_ms, max_delay_ms, jitter_ms)
}

/// Whether the attempt budget is spent once attempt `attempt` (zero-indexed)
/// has failed: there is one initial attempt plus `max_attempts` retries.
pub open spec fn budget_spent(attempt: u32, max_attempts: u32) -> bool {
    attempt + 1 >= max_attempts + 1
}

/// Decide what follows the failure of attempt `attempt` (zero-indexed):
/// retry after a backoff delay while retries remain, otherwise give up.
pub fn next_step(attempt: u32, max_attempts: u32, base_delay_ms: u64, max_delay_ms: u64) -> (s: RetryStep)
    requires
        max_attempts < u32::MAX,
    ensures
        budget_spent(attempt, max_attempts) <==> s == RetryStep::GiveUp,
        match s {
            RetryStep::RetryAfter { delay_ms } => exists|jitter_ms: u64|
                jitter_allowed(base_delay_ms, jitter_ms) && delay_ms == #[trigger] delay_with_jitter(
                    attempt,
                    base_delay_ms,
                    max_delay_ms,
                    jitter_ms,
                ),
            RetryStep::GiveUp => true,
        },
{
    if attempt >= max_attempts {
        RetryStep::GiveUp
    } else {
        RetryStep::RetryAfter { delay_ms: backoff_delay(attempt, base_delay_ms, max_delay_ms) }
    }
}

/// When every attempt fails, exactly `max_attempts + 1` attempts run: each
/// of the first `max_attempts` failures is followed by a retry and the last
/// one ends the sequence. With zero retries the operation runs once.
pub proof fn lemma_attempt_budget(max_attempts: u32)
    requires
        max_attempts < u32::MAX,
    ensures
        forall|attempt: u32| attempt < max_attempts ==> !#[trigger] budget_spent(attempt, max_attempts),
        budget_spent(max_attempts, max_attempts),
{
}

/// Every backoff delay lies between the capped exponential term and the
/// capped exponential term plus one base interval, never above `max_delay`;
/// it doubles with each attempt until the cap is reached.
pub proof fn lemma_backoff_bounds(attempt: u32, base_delay_ms: u64, max_delay_ms: u64, jitter_ms: u64)
    requires
        jitter_allowed(base_delay_ms, jitter_ms),
    ensures
        delay_with_jitter(attempt, base_delay_ms, max_delay_ms, jitter_ms) <= max_delay_ms,
        delay_with_jitter(attempt, base_delay_ms, max_delay_ms, jitter_ms) >= if base_delay_ms
            * backoff_multiplier(attempt) <= max_delay_ms {
            base_delay_ms * backoff_multiplier(attempt)
        } else {
            max_delay_ms as int
        },
        base_delay_ms > 0 ==> delay_with_jitter(attempt, base_delay_ms, max_delay_ms, jitter_ms)
            < base_delay_ms * backoff_multiplier(attempt) + base_delay_ms,
        attempt < 31 ==> backoff_multiplier((attempt + 1) as u32) == 2 * backoff_multiplier(
            attempt,
        ),
{
    lemma_pow2_grows(attempt as nat);
    if attempt < 31 {
        lemma_pow2_grows((attempt + 1) as nat);
        lemma_pow2_31();
        lemma_pow2_monotone((attempt + 1) as nat, 31);
    }
}

proof fn lemma_pow2_31()
    ensures
        pow2(31) == 0x8000_0000,
{
    reveal_with_fuel(pow2, 32);
}

} // verus!
