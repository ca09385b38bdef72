//! The rate-limit backoff of the enrich drain.
use vstd::prelude::*;

verus! {

/// `fastrand::u64(0..n)`: a number drawn uniformly from `0..n` by the
/// thread-local generator. Only the range is stated; the draw is chance.
#[verifier::external_body]
fn random_below(n: u64) -> (r: u64)
    requires
        n > 0,
    ensures
        r < n,
{
    fastrand::u64(0..n)
}

/// The doubled backoff, capped at `ceiling`.
pub open spec fn next_backoff(backoff_secs: u64, ceiling_secs: u64) -> nat {
    if 2 * backoff_secs <= ceiling_secs {
        (2 * backoff_secs) as nat
    } else {
        ceiling_secs as nat
    }
}

/// What a rate-limited item does: fails as usual when retries are switched
/// off or the retry deadline has passed; otherwise waits `wait_secs`, goes
/// back to the queue, and the next backoff is doubled up to the ceiling. The
/// wait is half the backoff plus a random jitter below that half.
pub fn rate_limit_retry(
    retries_disabled: bool,
    deadline_passed: bool,
    backoff_secs: u64,
    ceiling_secs: u64,
) -> (r: Option<(u64, u64)>)
    requires
        backoff_secs <= u64::MAX / 2,
    ensures
        r is None <==> (retries_disabled || deadline_passed),
        r matches Some((wait, next)) ==> {
            let half = backoff_secs / 2;
            &&& (half == 0 ==> wait == 0)
            &&& (half > 0 ==> half <= wait < 2 * half)
            &&& next == next_backoff(backoff_secs, ceiling_secs)
        },
{
    if retries_disabled || deadline_passed {
        return None;
    }
    let half = backoff_secs / 2;
    let jitter = if half == 0 {
        0
    } else {
        random_below(half)
    };
    let wait = half + jitter;
    let doubled = backoff_secs * 2;
    let next = if doubled <= ceiling_secs {
        doubled
    } else {
        ceiling_secs
    };
    Some((wait, next))
}

/// A backoff wait never exceeds the backoff itself, and the next backoff
/// never exceeds the ceiling (nor falls below the current backoff while the
/// ceiling allows doubling).
pub proof fn lemma_backoff_is_bounded(backoff_secs: u64, ceiling_secs: u64, wait: u64)
    requires
        backoff_secs / 2 == 0 ==> wait == 0,
        backoff_secs / 2 > 0 ==> backoff_secs / 2 <= wait < 2 * (backoff_secs / 2),
    ensures
        wait <= backoff_secs,
        next_backoff(backoff_secs, ceiling_secs) <= ceiling_secs,
        2 * backoff_secs <= ceiling_secs ==> next_backoff(backoff_secs, ceiling_secs)
            >= backoff_secs,
{
}

} // verus!
