//! The retry engine: a policy (attempt budget and backoff shape) and a
//! verified driver that walks a sequence of attempt outcomes exactly as the
//! engine invokes a fallible operation — returning on the first success, on
//! the first non-retryable failure, or when the budget is exhausted.
//!
//! The caller performs each attempt (and any sleeping between attempts) and
//! records its outcome; the driver makes every decision.

use vstd::prelude::*;
use crate::errors::MediaForgeError;

verus! {

/// 2 to the power `n`.
pub open spec fn pow2(n: nat) -> int
    decreases n,
{
    if n == 0 {
        1
    } else {
        2 * pow2((n - 1) as nat)
    }
}

/// 2 to any power is positive.
pub proof fn lemma_pow2_pos(n: nat)
    ensures
        pow2(n) >= 1,
    decreases n,
{
    if n > 0 {
        lemma_pow2_pos((n - 1) as nat);
    }
}

/// Retry configuration for error recovery.  Delays are in seconds.
#[derive(Debug, Clone, Copy)]
pub struct RetryConfig {
    pub max_attempts: u32,
    pub base_delay: u64,
    pub max_delay: u64,
    pub exponential_backoff: bool,
}

impl Default for RetryConfig {
    /// Three attempts with an exponential backoff of 2 seconds, capped at a
    /// minute.
    fn default() -> (r: Self)
        ensures
            r.max_attempts == 3,
            r.base_delay == 2,
            r.max_delay == 60,
            r.exponential_backoff,
    {
        RetryConfig { max_attempts: 3, base_delay: 2, max_delay: 60, exponential_backoff: true }
    }
}

impl RetryConfig {
    /// The policy for network-bound work: up to 5 attempts, 3-second base
    /// delay doubling up to 30 seconds.
    pub fn for_network() -> (r: Self)
        ensures
            r.max_attempts == 5,
            r.base_delay == 3,
            r.max_delay == 30,
            r.exponential_backoff,
    {
        RetryConfig { max_attempts: 5, base_delay: 3, max_delay: 30, exponential_backoff: true }
    }

    /// The policy for filesystem-bound work: up to 2 attempts with a flat
    /// 1-second delay.
    pub fn for_filesystem() -> (r: Self)
        ensures
            r.max_attempts == 2,
            r.base_delay == 1,
            r.max_delay == 5,
            !r.exponential_backoff,
    {
        RetryConfig { max_attempts: 2, base_delay: 1, max_delay: 5, exponential_backoff: false }
    }

    /// The delay before the attempt that follows attempt number `attempt`:
    /// the base delay doubled once per completed attempt beyond the first and
    /// capped at `max_delay`, or the flat base delay when exponential growth
    /// is disabled.
    pub open spec fn spec_delay(self, attempt: u32) -> int {
        if self.exponential_backoff {
            let exp: nat = if attempt == 0 {
                0
            } else {
                (attempt - 1) as nat
            };
            let raw = self.base_delay * pow2(exp);
            if raw <= self.max_delay {
                raw
            } else {
                self.max_delay as int
            }
        } else {
            self.base_delay as int
        }
    }

    pub fn calculate_delay(&self, attempt: u32) -> (r: u64)
        ensures
            r == self.spec_delay(attempt),
    {
        if !self.exponential_backoff {
            return self.base_delay;
        }
        let exp: u32 = if attempt == 0 {
            0
        } else {
            attempt - 1
        };
        let cap = self.max_delay;
        let mut d: u64 = if self.base_delay <= cap {
            self.base_delay
        } else {
            cap
        };
        let mut i: u32 = 0;
        while i < exp
            invariant
                i <= exp,
                cap == self.max_delay,
                d as int == ({
                    let raw = self.base_delay * pow2(i as nat);
                    if raw <= cap {
                        raw
                    } else {
                        cap as int
                    }
                }),
        decreases exp - i,
        {
            proof {
                lemma_pow2_pos(i as nat);
                assert(self.base_delay * pow2(i as nat + 1) == 2 * (self.base_delay * pow2(
                    i as nat,
                ))) by (nonlinear_arith)
                    requires
                        pow2(i as nat + 1) == 2 * pow2(i as nat),
                {}
                assert(self.base_delay * pow2(i as nat) >= 0) by (nonlinear_arith)
                    requires
                        pow2(i as nat) >= 1,
                {}
            }
            if d >= cap {
                d = cap;
            } else if d > cap / 2 {
                proof {
                    assert(cap / 2 * 2 <= cap < cap / 2 * 2 + 2);
                }
                d = cap;
            } else {
                proof {
                    assert(cap / 2 * 2 <= cap);
                }
                d = d * 2;
            }
            i += 1;
        }
        d
    }
}

/// How many invocations the retry engine makes, given the outcome of each
/// attempt in order: it stops at the first success, at the first
/// non-retryable failure, and in any case at attempt `max`.
pub open spec fn spec_retry_count<T>(outs: Seq<Result<T, MediaForgeError>>, max: int) -> int
    decreases max
        when 1 <= max <= outs.len()
{
    if max <= 1 {
        1
    } else {
        match outs[0] {
            Result::Ok(_) => 1,
            Result::Err(e) => if !e.spec_is_retryable() {
                1
            } else {
                1 + spec_retry_count(outs.drop_first(), max - 1)
            },
        }
    }
}

/// The retry count never exceeds the attempt budget.
pub proof fn lemma_retry_count_bounds<T>(outs: Seq<Result<T, MediaForgeError>>, max: int)
    requires
        1 <= max <= outs.len(),
    ensures
        1 <= spec_retry_count(outs, max) <= max,
    decreases max,
{
    if max > 1 {
        match outs[0] {
            Result::Ok(_) => {},
            Result::Err(e) => {
                if e.spec_is_retryable() {
                    lemma_retry_count_bounds(outs.drop_first(), max - 1);
                }
            },
        }
    }
}

/// One step of the retry engine: attempt number `attempt` of `max`, with
/// the outcomes of this and all later attempts in `rest`.  Consumes outcomes
/// until the engine stops and returns its final result together with the
/// number of the attempt it stopped at.
fn retry_step<T>(max: u32, attempt: u32, rest: Vec<Result<T, MediaForgeError>>) -> (r: (
    Result<T, MediaForgeError>,
    u32,
))
    requires
        1 <= attempt <= max,
        rest@.len() >= max - attempt + 1,
    ensures
        ({
            let n = spec_retry_count(rest@, max - attempt + 1);
            &&& r.1 == attempt + n - 1
            &&& r.0 == rest@[n - 1]
        }),
    decreases max - attempt,
{
    let ghost orig = rest@;
    proof {
        lemma_retry_count_bounds(orig, max - attempt + 1);
    }
    let mut work = rest;
    let out = work.remove(0);
    match out {
        Ok(v) => {
            proof {
                assert(spec_retry_count(orig, max - attempt + 1) == 1);
            }
            (Ok(v), attempt)
        },
        Err(e) => {
            if !e.is_retryable() || attempt == max {
                proof {
                    assert(spec_retry_count(orig, max - attempt + 1) == 1);
                }
                (Err(e), attempt)
            } else {
                proof {
                    assert(work@ =~= orig.drop_first());
                    assert(spec_retry_count(orig, max - attempt + 1) == 1 + spec_retry_count(
                        orig.drop_first(),
                        max - attempt,
                    ));
                }
                let res = retry_step(max, attempt + 1, work);
                proof {
                    let n2 = spec_retry_count(orig.drop_first(), max - attempt);
                    lemma_retry_count_bounds(orig.drop_first(), max - attempt);
                    assert(orig.drop_first()[n2 - 1] == orig[n2]);
                }
                res
            }
        },
    }
}

/// Runs the retry engine over the recorded outcomes of successive attempts.
/// `outcomes[i]` is what attempt `i + 1` returned; there must be one outcome
/// for every attempt the policy may make.  Returns the engine's final result
/// together with the number of attempts it consumed: it stops at the first
/// success or the first non-retryable failure, retries otherwise, and
/// surfaces the last failure when the budget is exhausted.
pub fn run_retry<T>(config: &RetryConfig, outcomes: Vec<Result<T, MediaForgeError>>) -> (r: (
    Result<T, MediaForgeError>,
    u32,
))
    requires
        outcomes@.len() >= config.max_attempts,
    ensures
        config.max_attempts == 0 ==> ({
            &&& r.0 matches Result::Err(e) && (e matches MediaForgeError::TemporaryError(s) && s@
                == "All retry attempts exhausted"@)
            &&& r.1 == 0
        }),
        config.max_attempts >= 1 ==> ({
            let n = spec_retry_count(outcomes@, config.max_attempts as int);
            &&& r.1 == n
            &&& r.0 == outcomes@[n - 1]
        }),
{
    let max = config.max_attempts;
    if max == 0 {
        return (
            Err(MediaForgeError::TemporaryError(String::from_str("All retry attempts exhausted"))),
            0,
        );
    }
    retry_step(max, 1, outcomes)
}


} // verus!
