//! Retry strategy of the AI requests, shared by the file analysis, the project analysis
//! and the connection test. Rate limits and server errors are not told apart: both wait
//! `retry_after_secs` first, doubling up to `retry_after_max_secs`.
use crate::models::config::AiConfig;
use crate::models::error::AppError;
use vstd::prelude::*;

verus! {

#[derive(Debug, Clone, Copy, PartialEq, Eq, Structural)]
pub struct RetryPolicy {
    pub max_retries: u32,
    pub base_wait_secs: u64,
    pub max_wait_secs: u64,
}

/// 2 to the power `k`.
pub open spec fn pow2(k: nat) -> nat
    decreases k,
{
    if k == 0 { 1 } else { 2 * pow2((k - 1) as nat) }
}

/// The exponent of the wait before retry number `attempt`: `attempt - 1`, at least 0 and
/// at most 16.
pub open spec fn backoff_exponent(attempt: u32) -> nat {
    let k: int = if attempt == 0 { 0 } else { attempt - 1 };
    if k > 16 { 16 } else { k as nat }
}

/// The wait in whole seconds before retry number `attempt`, before the jitter of ±20 %:
/// the base doubled per earlier retry (saturating), capped at the maximum, at least 1.
pub open spec fn backoff_secs_spec(p: RetryPolicy, attempt: u32) -> u64 {
    let exp: int = p.base_wait_secs * pow2(backoff_exponent(attempt));
    let sat: int = if exp > u64::MAX { u64::MAX as int } else { exp };
    let capped: int = if sat < p.max_wait_secs { sat } else { p.max_wait_secs as int };
    (if capped < 1 { 1 } else { capped }) as u64
}

/// What to do after a failed attempt.
#[derive(Debug, Clone, Copy, PartialEq, Eq, Structural)]
pub enum RetryStep {
    /// Wait, then make attempt number `attempt` (counting retries from 1).
    Retry { attempt: u32 },
    /// Hand the error to the caller.
    GiveUp,
}

impl RetryPolicy {
    /// The retry settings of the AI configuration.
    pub fn from(cfg: &AiConfig) -> (p: RetryPolicy)
        ensures
            p.max_retries == cfg.max_retries,
            p.base_wait_secs == cfg.retry_after_secs,
            p.max_wait_secs == cfg.retry_after_max_secs,
    {
        RetryPolicy {
            max_retries: cfg.max_retries,
            base_wait_secs: cfg.retry_after_secs,
            max_wait_secs: cfg.retry_after_max_secs,
        }
    }

    /// The wait before retry number `attempt`, in whole seconds, before the jitter.
    pub fn backoff_secs(&self, attempt: u32) -> (secs: u64)
        ensures
            secs == backoff_secs_spec(*self, attempt),
            secs >= 1,
    {
        let k: u32 = if attempt == 0 { 0 } else { attempt - 1 };
        let k: u32 = if k > 16 { 16 } else { k };
        let mut factor: u64 = 1;
        let mut i: u32 = 0;
        while i < k
            invariant
                i <= k <= 16,
                factor == pow2(i as nat),
                factor <= 65536,
            decreases k - i,
        {
            assert(pow2((i + 1) as nat) == 2 * pow2(i as nat));
            assert(factor * 2 <= 65536) by {
                lemma_pow2_bound(i as nat);
            }
            factor = factor * 2;
            i = i + 1;
        }
        let sat: u64 = match self.base_wait_secs.checked_mul(factor) {
            Some(v) => v,
            None => u64::MAX,
        };
        let capped: u64 = if sat < self.max_wait_secs { sat } else { self.max_wait_secs };
        if capped < 1 { 1 } else { capped }
    }

    /// After a failed attempt (`attempt` retries made so far): retry an AI error that is
    /// both retryable and recoverable while retries are left; any other error goes back to
    /// the caller at once.
    pub fn next_step(&self, attempt: u32, error: &AppError) -> (step: RetryStep)
        ensures
            step == (if (error matches AppError::Ai { retryable: true, recoverable: true, .. }) && attempt < self.max_retries {
                RetryStep::Retry { attempt: (attempt + 1) as u32 }
            } else {
                RetryStep::GiveUp
            }),
    {
        match error {
            AppError::Ai { retryable: true, recoverable: true, .. } => {
                if attempt < self.max_retries {
                    RetryStep::Retry { attempt: attempt + 1 }
                } else {
                    RetryStep::GiveUp
                }
            },
            _ => RetryStep::GiveUp,
        }
    }
}

proof fn lemma_pow2_monotone(i: nat, j: nat)
    requires
        i <= j,
    ensures
        pow2(i) <= pow2(j),
    decreases j,
{
    if i < j {
        lemma_pow2_monotone(i, (j - 1) as nat);
    }
}

proof fn lemma_pow2_bound(i: nat)
    requires
        i < 16,
    ensures
        pow2(i) * 2 <= 65536,
{
    lemma_pow2_monotone(i + 1, 16);
    reveal_with_fuel(pow2, 17);
    assert(pow2(16) == 65536);
}

/// The wait before a retry is at least one second and at most the larger of the cap and
/// one second.
pub proof fn lemma_backoff_bounds(p: RetryPolicy, attempt: u32)
    ensures
        1 <= backoff_secs_spec(p, attempt),
        backoff_secs_spec(p, attempt) <= if p.max_wait_secs < 1 { 1 } else { p.max_wait_secs },
{
}

/// Later retries never wait less than earlier ones.
pub proof fn lemma_backoff_monotone(p: RetryPolicy, a: u32, b: u32)
    requires
        a <= b,
    ensures
        backoff_secs_spec(p, a) <= backoff_secs_spec(p, b),
{
    lemma_pow2_monotone(backoff_exponent(a), backoff_exponent(b));
    assert(p.base_wait_secs * pow2(backoff_exponent(a)) <= p.base_wait_secs * pow2(backoff_exponent(b))) by (nonlinear_arith)
        requires
            pow2(backoff_exponent(a)) <= pow2(backoff_exponent(b)),
    ;
}

} // verus!
