//! Wall-clock timestamps in milliseconds and elapsed-time arithmetic.

use std::time::{SystemTime, UNIX_EPOCH};
use vstd::prelude::*;

verus! {

/// Milliseconds from `then` to `now`, or zero when `then` is not in the past.
pub open spec fn elapsed_between(now: u64, then: u64) -> u64 {
    if now > then {
        (now - then) as u64
    } else {
        0
    }
}

/// Reads the system clock as milliseconds since the Unix epoch.
///
/// Trusted: the body calls `SystemTime::now`, `SystemTime::duration_since`
/// and `Duration::as_millis` and is not verified. Nothing is claimed about
/// the value, since it differs from call to call. The call panics when the
/// clock reads a time before the epoch.
#[verifier::external_body]
pub fn now() -> u64 {
    let start = SystemTime::now();
    let since_the_epoch = start.duration_since(UNIX_EPOCH);
    since_the_epoch.unwrap().as_millis() as u64
}

/// Elapsed milliseconds between a past timestamp and a clock reading,
/// clamped to zero when the timestamp lies at or after the reading.
pub fn elapsed(now: u64, old_timestamp: u64) -> (millis: u64)
    ensures
        millis == elapsed_between(now, old_timestamp),
{
    if now > old_timestamp {
        now - old_timestamp
    } else {
        0
    }
}

/// Milliseconds elapsed since `old_timestamp` according to the system clock.
///
/// The clock reading is not known to the verifier, so the contract states
/// what holds for every reading: the result is `elapsed_between` of some
/// reading and the argument.
pub fn since(old_timestamp: u64) -> (millis: u64)
    ensures
        exists|reading: u64| millis == #[trigger] elapsed_between(reading, old_timestamp),
{
    let millis = now();
    elapsed(millis, old_timestamp)
}

/// For a fixed timestamp the elapsed time never decreases as the clock
/// advances, is zero up to the timestamp and counts the distance after it.
pub proof fn lemma_elapsed_monotonic(earlier: u64, later: u64, old_timestamp: u64)
    requires
        earlier <= later,
    ensures
        elapsed_between(earlier, old_timestamp) <= elapsed_between(later, old_timestamp),
        later <= old_timestamp ==> elapsed_between(later, old_timestamp) == 0,
        later > old_timestamp ==> elapsed_between(later, old_timestamp) == later - old_timestamp,
{
}

} // verus!
