//! The bounded-retry policy around a single network request. A transport
//! failure is retried up to the configured count, waiting between attempts
//! a time inversely proportional to the retries remaining; exhausting the
//! budget surfaces `FetchExhausted`. The request itself is performed by
//! the caller; this module decides, and models the whole retry loop as a
//! function of the sequence of transport outcomes.
use vstd::prelude::*;

use crate::error::Error;

verus! {

/// What to do after a transport-level failure.
#[derive(Clone, Copy, PartialEq, Eq, Structural, Debug)]
pub enum RetryDecision {
    /// Wait this many milliseconds, then attempt again.
    RetryAfterMillis(u64),
    /// The retry budget is exhausted; surface `FetchExhausted`.
    GiveUp,
}

/// The wait before the next attempt: `(1 / retries_remaining)` of a fixed
/// five-second base, so early retries wait the least and the last retry
/// waits the most. A deliberately simple, non-exponential backoff.
pub fn backoff_millis(retries_remaining: u32) -> (r: u64)
    requires
        retries_remaining >= 1,
    ensures
        r == 5000 as int / retries_remaining as int,
{
    5000u64 / (retries_remaining as u64)
}

/// The decision after one transport-level failure, given how many retries
/// remain.
pub fn on_transport_error(retries_remaining: u32) -> (r: RetryDecision)
    ensures
        retries_remaining == 0 ==> r is GiveUp,
        retries_remaining >= 1 ==> r == RetryDecision::RetryAfterMillis(
            (5000 as int / retries_remaining as int) as u64,
        ),
{
    if retries_remaining == 0 {
        RetryDecision::GiveUp
    } else {
        RetryDecision::RetryAfterMillis(backoff_millis(retries_remaining))
    }
}

/// The number of attempts the retry loop makes against a given sequence of
/// transport outcomes (`true` meaning the attempt succeeds at transport
/// level): every attempt up to and including the first success, or every
/// outcome when none succeeds.
pub open spec fn spec_attempts_used(outcomes: Seq<bool>) -> int
    decreases outcomes.len(),
{
    if outcomes.len() == 0 {
        0
    } else if outcomes.first() {
        1
    } else {
        1 + spec_attempts_used(outcomes.drop_first())
    }
}

proof fn lemma_attempts_skip(outcomes: Seq<bool>, i: int)
    requires
        0 <= i <= outcomes.len(),
        forall|k: int| 0 <= k < i ==> !outcomes[k],
    ensures
        spec_attempts_used(outcomes) == i + spec_attempts_used(outcomes.skip(i)),
    decreases i,
{
    if i == 0 {
        assert(outcomes.skip(0) =~= outcomes);
    } else {
        assert(!outcomes.first());
        lemma_attempts_skip(outcomes.drop_first(), i - 1);
        assert(outcomes.drop_first().skip(i - 1) =~= outcomes.skip(i));
    }
}

/// The retry loop, run against a recorded sequence of transport outcomes:
/// one outcome per possible attempt, the initial attempt plus `retries`
/// retries. Returns whether a transport success was reached and how many
/// attempts were made: exactly the attempts up to and including the first
/// success, or all `retries + 1` and `FetchExhausted` when every attempt
/// fails.
pub fn run_with_retries(outcomes: &Vec<bool>, retries: u32) -> (r: (Result<(), Error>, usize))
    requires
        outcomes@.len() == retries + 1,
    ensures
        r.1 == spec_attempts_used(outcomes@),
        r.0 is Ok <==> exists|i: int| 0 <= i < outcomes@.len() && outcomes@[i],
        r.0 matches Err(e) ==> e == Error::FetchExhausted,
{
    let mut i: usize = 0;
    while i < outcomes.len()
        invariant
            i <= outcomes@.len(),
            outcomes@.len() == retries + 1,
            forall|k: int| 0 <= k < i ==> !outcomes@[k],
        decreases outcomes@.len() - i,
    {
        if outcomes[i] {
            proof {
                lemma_attempts_skip(outcomes@, i as int);
                assert(outcomes@.skip(i as int).first() == outcomes@[i as int]);
            }
            return (Ok(()), i + 1);
        }
        i = i + 1;
    }
    proof {
        lemma_attempts_skip(outcomes@, i as int);
        assert(outcomes@.skip(i as int).len() == 0);
    }
    (Err(Error::FetchExhausted), i)
}

} // verus!
