//! Retry classification and the retry policy.
//!
//! Every exchange call is wrapped in an unbounded-retry policy with a fixed
//! cooldown before each attempt.  Transport failures and most rejected
//! requests are retried forever; a request the exchange marks permanently
//! invalid is returned at once.  The caller performs the calls and the
//! cooldown sleeps; this module decides, attempt by attempt, whether to try
//! again.

use vstd::prelude::*;

verus! {

/// Status code for a request that is invalid in a way repetition cannot fix.
pub const UNPROCESSABLE_ENTITY: u16 = 422;

/// Classification of a failed exchange call.
#[derive(Clone, Copy, Debug, PartialEq, Eq, Structural)]
pub enum ErrorKind {
    /// Transport-level failure: always transient, always retried.
    Network,
    /// The exchange rejected the request with this status code.
    Status(u16),
    /// Anything else: not retried.
    Other,
}

/// The retry policy: network errors and all rejected requests retry, except
/// a request rejected as permanently invalid; unclassified errors never
/// retry.
pub open spec fn spec_retryable(e: ErrorKind) -> bool {
    match e {
        ErrorKind::Network => true,
        ErrorKind::Status(code) => code != UNPROCESSABLE_ENTITY,
        ErrorKind::Other => false,
    }
}

/// Decides whether a failed attempt is retried.
pub fn is_retryable(e: &ErrorKind) -> (r: bool)
    ensures
        r == spec_retryable(*e),
{
    match e {
        ErrorKind::Network => true,
        ErrorKind::Status(code) => *code != UNPROCESSABLE_ENTITY,
        ErrorKind::Other => false,
    }
}

/// An attempt outcome on which the policy stops: a success, or a failure it
/// will not retry.
pub open spec fn settled<V>(o: Result<V, ErrorKind>) -> bool {
    match o {
        Ok(_) => true,
        Err(e) => !spec_retryable(e),
    }
}

/// How a finite run of attempts ended.
pub struct RetryRun<V> {
    /// Attempts made, the returned one included; a cooldown precedes each.
    pub attempts: usize,
    /// The outcome of the last attempt made.
    pub outcome: Result<V, ErrorKind>,
}

/// Replays the retry policy over the outcomes successive attempts of an
/// operation would produce: attempts stop at the first success or
/// non-retryable failure, which is returned; `None` when every listed
/// outcome is retried, as the live policy would still be waiting for one
/// more attempt.
pub fn with_retry<V: Copy>(outcomes: &Vec<Result<V, ErrorKind>>) -> (r: Option<RetryRun<V>>)
    ensures
        (match r {
            Some(run) => {
                &&& 1 <= run.attempts <= outcomes@.len()
                &&& settled(outcomes@[run.attempts - 1])
                &&& forall|j: int| 0 <= j < run.attempts - 1 ==> !settled(#[trigger] outcomes@[j])
                &&& run.outcome == outcomes@[run.attempts - 1]
            },
            None => forall|j: int| 0 <= j < outcomes@.len() ==> !settled(#[trigger] outcomes@[j]),
        }),
{
    let mut k: usize = 0;
    while k < outcomes.len()
        invariant
            0 <= k <= outcomes@.len(),
            forall|j: int| 0 <= j < k ==> !settled(#[trigger] outcomes@[j]),
        decreases outcomes@.len() - k,
    {
        let attempt = outcomes[k];
        match attempt {
            Ok(v) => {
                return Some(RetryRun { attempts: k + 1, outcome: Ok(v) });
            },
            Err(e) => {
                if !is_retryable(&e) {
                    return Some(RetryRun { attempts: k + 1, outcome: Err(e) });
                }
            },
        }
        k = k + 1;
    }
    None
}

} // verus!
