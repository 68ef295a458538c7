//! The background workers' bounded-retry policy.
//!
//! A worker that dequeued a transaction retries processing it up to a
//! fixed number of attempts with a fixed pause between them, then gives
//! the item up.  The policy is data; the step function below is the whole
//! of the decision a worker takes after each attempt.

use vstd::prelude::*;

verus! {

/// How many attempts a worker grants one dequeued transaction, and how
/// long it pauses between them.
#[derive(Debug, Clone, Copy, PartialEq, Eq, Structural)]
pub struct RetryPolicy {
    pub max_attempts: u32,
    pub backoff_ms: u64,
}

impl RetryPolicy {
    /// The deployed policy: one hundred attempts, fifty milliseconds
    /// apart.
    pub fn standard() -> (r: Self)
        ensures
            r.max_attempts == 100,
            r.backoff_ms == 50,
    {
        RetryPolicy { max_attempts: 100, backoff_ms: 50 }
    }
}

/// What a worker does once one processing attempt has come back.
#[derive(Debug, Clone, Copy, PartialEq, Eq, Structural)]
pub enum RetryDecision {
    /// The attempt succeeded; the item is done.
    Done,
    /// The attempt failed and attempts remain: pause this many
    /// milliseconds, then try again.
    RetryAfter(u64),
    /// The attempt failed and the attempts are spent: drop the item.
    GiveUp,
}

/// The decision after one attempt.  `attempts_made` counts the attempts
/// completed before this one.
pub open spec fn retry_decision(policy: RetryPolicy, attempts_made: u32, succeeded: bool) -> RetryDecision {
    if succeeded {
        RetryDecision::Done
    } else if attempts_made + 1 < policy.max_attempts {
        RetryDecision::RetryAfter(policy.backoff_ms)
    } else {
        RetryDecision::GiveUp
    }
}

/// A worker's reaction to one attempt's outcome: success ends the item;
/// failure retries after the pause until the policy's attempts are
/// spent, then gives up and drops the item (it is not re-queued).
pub fn retry_step(policy: &RetryPolicy, attempts_made: u32, succeeded: bool) -> (r: RetryDecision)
    requires
        attempts_made < policy.max_attempts,
    ensures
        r == retry_decision(*policy, attempts_made, succeeded),
{
    if succeeded {
        RetryDecision::Done
    } else if attempts_made + 1 < policy.max_attempts {
        RetryDecision::RetryAfter(policy.backoff_ms)
    } else {
        RetryDecision::GiveUp
    }
}

/// How many attempts a run of nothing but failures takes until the item
/// is given up, counting from `attempts_made` attempts already spent.
pub open spec fn failing_attempts_left(policy: RetryPolicy, attempts_made: u32) -> nat
    decreases policy.max_attempts - attempts_made,
{
    if attempts_made + 1 >= policy.max_attempts {
        1
    } else {
        1 + failing_attempts_left(policy, (attempts_made + 1) as u32)
    }
}

/// A transaction whose every attempt fails is attempted exactly as many
/// times as the policy grants — one hundred under the deployed policy —
/// and then given up.
pub proof fn lemma_retry_exhaustion(policy: RetryPolicy, attempts_made: u32)
    requires
        attempts_made < policy.max_attempts,
    ensures
        failing_attempts_left(policy, attempts_made) == policy.max_attempts - attempts_made,
        retry_decision(policy, (policy.max_attempts - 1) as u32, false) == RetryDecision::GiveUp,
        forall|a: u32|
            attempts_made <= a < policy.max_attempts - 1 ==> retry_decision(policy, a, false)
                == RetryDecision::RetryAfter(policy.backoff_ms),
    decreases policy.max_attempts - attempts_made,
{
    if attempts_made + 1 < policy.max_attempts {
        lemma_retry_exhaustion(policy, (attempts_made + 1) as u32);
    }
}

} // verus!
