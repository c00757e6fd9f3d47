//! The retry policy for transient failures: exponential backoff with a
//! bounded number of attempts.
//!
//! The waiting and the retried operation itself live outside the library;
//! the decision — whether to try again, and after how long — is made here.

use vstd::prelude::*;

use crate::errors::Error;

verus! {

/// How many attempts an operation gets in all.
pub const RETRY_MAX_ATTEMPTS: u32 = 3;

/// What to do after a failed attempt.
#[derive(Debug, PartialEq, Eq, Structural)]
pub enum RetryDecision {
    /// Wait this many seconds, then try again.
    RetryAfter { delay_seconds: u64 },
    /// Return the error unchanged.
    GiveUp,
}

/// The backoff before the attempt after `attempt`: `2^attempt` seconds.
pub open spec fn backoff_seconds(attempt: nat) -> nat
    decreases attempt,
{
    if attempt == 0 {
        1
    } else {
        2 * backoff_seconds((attempt - 1) as nat)
    }
}

/// Decides what follows a failed attempt: a transient error with attempts
/// remaining is retried after an exponential backoff; anything else — a
/// permanent error, or an exhausted budget — gives up.
pub fn retry_decision(error: &Error, attempt: u32) -> (r: RetryDecision)
    requires
        1 <= attempt,
    ensures
        ((error is Network || error is RateLimit) && attempt < RETRY_MAX_ATTEMPTS) ==> r == (
        RetryDecision::RetryAfter { delay_seconds: backoff_seconds(attempt as nat) as u64 }),
        !((error is Network || error is RateLimit) && attempt < RETRY_MAX_ATTEMPTS) ==> r
            == RetryDecision::GiveUp,
{
    proof {
        reveal_with_fuel(backoff_seconds, 4);
    }
    if error.is_transient() && attempt < RETRY_MAX_ATTEMPTS {
        let delay_seconds: u64 = if attempt == 1 {
            2
        } else {
            4
        };
        RetryDecision::RetryAfter { delay_seconds }
    } else {
        RetryDecision::GiveUp
    }
}

} // verus!
