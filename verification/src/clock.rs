//! Block time, held as nanoseconds since the Unix epoch.

use vstd::prelude::*;

verus! {

/// Length of the window during which a game accepts shots, in seconds.
pub const GAME_WINDOW_SECONDS: u64 = 86_400;

/// Whole seconds contained in `nanos` nanoseconds.
pub open spec fn seconds_of(nanos: u64) -> u64 {
    (nanos / 1_000_000_000) as u64
}

/// Calls `secret_cosmwasm_std::Timestamp::seconds` on the timestamp that
/// `Timestamp::from_nanos` builds from `nanos`. Trusted, not proved: the
/// result is the number of whole seconds since the epoch, that is, the
/// nanoseconds divided by 10^9, rounded down.
#[verifier::external_body]
pub(crate) fn timestamp_seconds(nanos: u64) -> (secs: u64)
    ensures
        secs == seconds_of(nanos),
{
    secret_cosmwasm_std::Timestamp::from_nanos(nanos).seconds()
}

/// Whether a game created at `created` still accepts shots at `now`.
pub fn within_window(created: u64, now: u64) -> (open: bool)
    ensures
        open == (seconds_of(now) < seconds_of(created) + GAME_WINDOW_SECONDS),
{
    let c: u64 = timestamp_seconds(created);
    let n: u64 = timestamp_seconds(now);
    n < c + GAME_WINDOW_SECONDS
}

} // verus!
