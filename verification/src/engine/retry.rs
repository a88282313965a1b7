//! Exponential backoff between attempts.

use vstd::prelude::*;
use vstd::arithmetic::power2::{pow2, lemma_pow2_unfold, lemma_pow2_strictly_increases, lemma2_to64, lemma_pow2_pos};

verus! {

/// How many attempts a piece of work gets and how long to wait between them.
/// Delays are kept in whole milliseconds.
#[derive(Debug, Clone, Copy, PartialEq, Eq, Structural)]
pub struct RetryPolicy {
    pub max_attempts: u32,
    pub base_delay_ms: u64,
    pub max_delay_ms: u64,
}

/// Largest number of doublings applied to the base delay.
pub const MAX_BACKOFF_SHIFT: u32 = 20;

/// The number of doublings applied after `failed_attempts` failures.
pub open spec fn backoff_shift(failed_attempts: u32) -> nat {
    let s: int = if failed_attempts == 0 { 0 } else { failed_attempts - 1 };
    (if s > 20 { 20 } else { s }) as nat
}

pub open spec fn min_int(a: int, b: int) -> int {
    if a <= b { a } else { b }
}

/// The wait after `failed_attempts` failures: the base delay (itself capped by
/// the maximum) doubled once per failure beyond the first, at most twenty
/// times, and never more than the maximum.
pub open spec fn spec_next_delay(p: RetryPolicy, failed_attempts: u32) -> int {
    let base = min_int(p.base_delay_ms as int, p.max_delay_ms as int);
    min_int(base * pow2(backoff_shift(failed_attempts)), p.max_delay_ms as int)
}

impl RetryPolicy {
    /// `max_attempts` attempts, starting at 500 ms and capped at 30 s.
    pub fn new(max_attempts: u32) -> (p: RetryPolicy)
        ensures
            p.max_attempts == max_attempts,
            p.base_delay_ms == 500,
            p.max_delay_ms == 30_000,
    {
        RetryPolicy { max_attempts, base_delay_ms: 500, max_delay_ms: 30_000 }
    }

    /// The same policy with other delays.
    pub fn with_delays(self, base_delay_ms: u64, max_delay_ms: u64) -> (p: RetryPolicy)
        ensures
            p == (RetryPolicy { base_delay_ms, max_delay_ms, ..self }),
    {
        RetryPolicy { max_attempts: self.max_attempts, base_delay_ms, max_delay_ms }
    }

    /// Milliseconds to wait after `failed_attempts` failed attempts.
    pub fn next_delay(&self, failed_attempts: u32) -> (delay: u64)
        ensures
            delay == spec_next_delay(*self, failed_attempts),
    {
        let base: u64 = if self.base_delay_ms <= self.max_delay_ms {
            self.base_delay_ms
        } else {
            self.max_delay_ms
        };
        let shift: u32 = if failed_attempts == 0 {
            0
        } else if failed_attempts - 1 > MAX_BACKOFF_SHIFT {
            MAX_BACKOFF_SHIFT
        } else {
            failed_attempts - 1
        };
        let mut scaled: u128 = base as u128;
        let mut i: u32 = 0;
        proof {
            lemma2_to64();
        }
        while i < shift
            invariant
                i <= shift <= 20,
                scaled == base * pow2(i as nat),
                pow2(20) == 0x100000,
            decreases shift - i,
        {
            proof {
                if i < 20 {
                    lemma_pow2_strictly_increases(i as nat, 20);
                }
                lemma_pow2_unfold((i + 1) as nat);
                assert(base * pow2(i as nat) <= base * 0x100000) by (nonlinear_arith)
                    requires pow2(i as nat) <= 0x100000;
                assert(base * (2 * pow2(i as nat)) == 2 * (base * pow2(i as nat))) by (nonlinear_arith);
            }
            scaled = scaled * 2;
            i = i + 1;
        }
        assert(shift == backoff_shift(failed_attempts));
        if scaled < self.max_delay_ms as u128 {
            scaled as u64
        } else {
            self.max_delay_ms
        }
    }
}

/// A delay never exceeds the policy's maximum.
pub proof fn lemma_delay_is_capped(p: RetryPolicy, failed_attempts: u32)
    ensures
        0 <= spec_next_delay(p, failed_attempts) <= p.max_delay_ms,
{
    lemma_pow2_pos(backoff_shift(failed_attempts));
    let base = min_int(p.base_delay_ms as int, p.max_delay_ms as int);
    assert(base * pow2(backoff_shift(failed_attempts)) >= 0) by (nonlinear_arith)
        requires base >= 0;
}

/// More failures never mean a shorter wait.
pub proof fn lemma_delay_is_monotone(p: RetryPolicy, a: u32, b: u32)
    requires
        a <= b,
    ensures
        spec_next_delay(p, a) <= spec_next_delay(p, b),
{
    let base = min_int(p.base_delay_ms as int, p.max_delay_ms as int);
    let sa = backoff_shift(a);
    let sb = backoff_shift(b);
    if sa < sb {
        lemma_pow2_strictly_increases(sa, sb);
    }
    assert(base * pow2(sa) <= base * pow2(sb)) by (nonlinear_arith)
        requires base >= 0, pow2(sa) <= pow2(sb);
}

/// Each further failure doubles the wait until the maximum is reached: for
/// `1 <= n <= 20`, the delay after `n + 1` failures is twice the delay after
/// `n` failures, capped at the maximum.
pub proof fn lemma_delay_doubles_until_capped(p: RetryPolicy, n: u32)
    requires
        1 <= n <= 20,
    ensures
        spec_next_delay(p, (n + 1) as u32) == min_int(
            2 * spec_next_delay(p, n),
            p.max_delay_ms as int,
        ),
{
    let base = min_int(p.base_delay_ms as int, p.max_delay_ms as int);
    let k = backoff_shift(n);
    assert(backoff_shift((n + 1) as u32) == k + 1);
    lemma_pow2_unfold(k + 1);
    assert(base * pow2(k + 1) == 2 * (base * pow2(k))) by (nonlinear_arith)
        requires pow2(k + 1) == 2 * pow2(k);
}

} // verus!
