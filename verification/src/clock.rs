//! The wall clock of the library, read through the `chrono` crate.

use vstd::prelude::*;

verus! {

/// `DateTime::timestamp` of `Utc::now`: the whole seconds since the Unix
/// epoch. `Utc::now` takes the system time as a span since the epoch, and
/// builds the date from a day number that fits 32 bits: so the result is
/// not negative, and below `2^31` days. The call panics where the system
/// clock stands before the epoch.
#[verifier::external_body]
pub(crate) fn unix_seconds() -> (t: i64)
    ensures
        0 <= t < 185_542_587_187_200,
{
    chrono::Utc::now().timestamp()
}

/// `DateTime::timestamp_millis` of `Utc::now`: the whole milliseconds
/// since the Unix epoch. `Utc::now` takes the system time as a span since
/// the epoch: so the result is not negative. The call panics where the
/// system clock stands before the epoch.
#[verifier::external_body]
pub(crate) fn unix_millis() -> (t: i64)
    ensures
        0 <= t,
{
    chrono::Utc::now().timestamp_millis()
}

} // verus!
