//! The provider abstraction: every configured source contributes a list of
//! play events for the requested window, and a source's failure never
//! aborts the run.

use vstd::prelude::*;

pub mod lastfm;
pub mod youtube;

verus! {

/// Whether a play at `timestamp` lies within the last `days` days, measured
/// from `now` (both in unix seconds).
pub fn within_days(now: i64, timestamp: i64, days: u64) -> (r: bool)
    requires
        days * 86400 <= i64::MAX,
        now - days * 86400 >= i64::MIN,
    ensures
        r == (timestamp >= now - days * 86400),
{
    let cutoff: i64 = now - (days as i64) * 86400;
    timestamp >= cutoff
}

/// Relies on `std::time::SystemTime::now` and `duration_since(UNIX_EPOCH)`:
/// the current unix time in seconds. Nothing is assumed of the value; a
/// clock before the epoch reads as zero.
#[verifier::external_body]
fn now_unix_seconds() -> u64 {
    match std::time::SystemTime::now().duration_since(std::time::UNIX_EPOCH) {
        Ok(elapsed) => elapsed.as_secs(),
        Err(_) => 0,
    }
}

/// The start of a lookback window of `days` days ending at `now`,
/// saturating at the epoch.
pub fn timestamp_from(now: u64, days: u64) -> (r: u64)
    requires
        days * 86400 <= u64::MAX,
    ensures
        r == if now >= days * 86400 {
            now - days * 86400
        } else {
            0int
        },
{
    let window: u64 = days * 86400;
    if now >= window {
        now - window
    } else {
        0
    }
}

/// The start of a lookback window of `days` days ending now. The value
/// depends on the clock; the window arithmetic itself is `timestamp_from`.
pub fn calculate_timestamp(days: u64) -> u64
    requires
        days * 86400 <= u64::MAX,
{
    let now = now_unix_seconds();
    timestamp_from(now, days)
}

} // verus!
