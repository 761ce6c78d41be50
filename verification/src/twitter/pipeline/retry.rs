use vstd::prelude::*;
use crate::utils::errors::ApiError;
use crate::utils::outside::{backoff_delay, backoff_delays};

verus! {

/// Base of the back-off: each delay is this many times the one before.
pub const RETRY_BASE: u64 = 5;

/// Milliseconds per unit of the back-off.
pub const RETRY_FACTOR: u64 = 1000;

/// Retries of a call that gates a whole job.
pub const RETRY_COUNT_IMPORTANT: usize = 3;

/// Retries of a call made for one item of a round.
pub const RETRY_COUNT_NORMAL: usize = 2;

/// How often a failed call is tried again, and how long to wait each time.
#[derive(Clone, Copy, Debug, PartialEq, Eq, Structural)]
pub struct RetryPolicy {
    pub base: u64,
    pub factor: u64,
    pub max_retries: usize,
}

/// Why a call was given up: the number of attempts made and the failure of
/// the last one.
#[derive(Clone, Copy, Debug, PartialEq, Eq, Structural)]
pub struct Exhausted {
    pub attempts: usize,
    pub cause: ApiError,
}

impl RetryPolicy {
    /// The policy for calls that gate a whole job: waits of 5, 25 and 125
    /// seconds.
    pub fn critical() -> (r: RetryPolicy)
        ensures
            r == (RetryPolicy { base: 5, factor: 1000, max_retries: 3 }),
    {
        RetryPolicy { base: RETRY_BASE, factor: RETRY_FACTOR, max_retries: RETRY_COUNT_IMPORTANT }
    }

    /// The policy for calls made for one item of a round: waits of 5 and
    /// 25 seconds.
    pub fn normal() -> (r: RetryPolicy)
        ensures
            r == (RetryPolicy { base: 5, factor: 1000, max_retries: 2 }),
    {
        RetryPolicy { base: RETRY_BASE, factor: RETRY_FACTOR, max_retries: RETRY_COUNT_NORMAL }
    }

    /// Milliseconds to wait before retry `i`, counted from 0.
    pub open spec fn delay(self, i: nat) -> u64 {
        backoff_delay(self.base, self.factor, i)
    }

    /// The waits of this policy in order, in milliseconds.
    pub fn delays(&self) -> (r: Vec<u64>)
        ensures
            r@.len() == self.max_retries,
            forall|i: int| 0 <= i < r@.len() ==> r@[i] == self.delay(i as nat),
    {
        backoff_delays(self.base, self.factor, self.max_retries)
    }

    /// What to do after attempt number `attempts` has failed with `error`:
    /// wait and try again, or give up. A failure that is not transient is
    /// never retried, and no more retries are made than the policy allows.
    pub open spec fn after_failure(self, attempts: nat, error: ApiError) -> Option<u64> {
        if error.transient() && 1 <= attempts <= self.max_retries {
            Some(self.delay((attempts - 1) as nat))
        } else {
            None
        }
    }

    /// Milliseconds to wait before the next attempt, or `None` to give up.
    pub fn next_delay(&self, attempts: usize, error: ApiError) -> (r: Option<u64>)
        ensures
            r == self.after_failure(attempts as nat, error),
    {
        if error.is_transient() && 1 <= attempts && attempts <= self.max_retries {
            let delays = self.delays();
            Some(delays[attempts - 1])
        } else {
            None
        }
    }
}

/// Calls `op` until it succeeds, fails for good, or the policy is used up,
/// calling `wait` before each retry, and with nothing but a delay of the
/// policy: `wait` need not accept any other number. On success
/// the value is one that `op` returned. Otherwise the failure is one that
/// `op` returned, with the number of attempts made: a transient failure is
/// given up only after the last retry, any other at once. The number of
/// attempts has to fit the machine's word.
pub fn retry<T, Op, Wait>(policy: &RetryPolicy, op: Op, wait: Wait) -> (r: Result<T, Exhausted>) where
    Op: Fn() -> Result<T, ApiError>,
    Wait: Fn(u64),

    requires
        policy.max_retries < usize::MAX,
        op.requires(()),
        forall|i: nat| i < policy.max_retries ==> wait.requires((#[trigger] policy.delay(i),)),
    ensures
        match r {
            Ok(v) => op.ensures((), Ok(v)),
            Err(x) => {
                &&& op.ensures((), Err(x.cause))
                &&& 1 <= x.attempts <= policy.max_retries + 1
                &&& x.cause.transient() ==> x.attempts == policy.max_retries + 1
            },
        },
{
    let delays = policy.delays();
    let mut done: usize = 0;
    loop
        invariant
            done <= delays@.len(),
            delays@.len() == policy.max_retries,
            policy.max_retries < usize::MAX,
            op.requires(()),
            forall|i: int| 0 <= i < delays@.len() ==> delays@[i] == policy.delay(i as nat),
            forall|i: nat| i < policy.max_retries ==> wait.requires((#[trigger] policy.delay(i),)),
        decreases delays@.len() - done,
    {
        match op() {
            Ok(v) => { return Ok(v); },
            Err(e) => {
                if !e.is_transient() || done >= delays.len() {
                    return Err(Exhausted { attempts: done + 1, cause: e });
                }
                assert(delays@[done as int] == policy.delay(done as nat));
                wait(delays[done]);
                done += 1;
            },
        }
    }
}

} // verus!
