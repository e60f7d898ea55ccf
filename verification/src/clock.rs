//! Time as the transport sees it: milliseconds since the Unix epoch inside,
//! and the protocol's `DateTime` on the wire.

use vstd::prelude::*;

verus! {

/// The milliseconds between 1601-01-01, where the protocol's `DateTime` starts
/// to count, and the Unix epoch.
pub const EPOCH_OFFSET_MILLIS: i64 = 11_644_473_600_000;

/// A `DateTime` counts intervals of 100 nanoseconds: this many in a millisecond.
pub const TICKS_PER_MILLI: i64 = 10_000;

/// The `DateTime` of a moment given in milliseconds since the Unix epoch, kept
/// within the range of an `i64`.
pub open spec fn spec_date_time(unix_millis: i64) -> i64 {
    let ticks = (unix_millis + EPOCH_OFFSET_MILLIS) * TICKS_PER_MILLI;
    if ticks > i64::MAX {
        i64::MAX
    } else if ticks < i64::MIN {
        i64::MIN
    } else {
        ticks as i64
    }
}

/// The `DateTime` of a moment given in milliseconds since the Unix epoch.
pub fn date_time(unix_millis: i64) -> (r: i64)
    ensures
        r == spec_date_time(unix_millis),
{
    let ticks: i128 = (unix_millis as i128 + 11_644_473_600_000) * 10_000;
    if ticks > i64::MAX as i128 {
        i64::MAX
    } else if ticks < i64::MIN as i128 {
        i64::MIN
    } else {
        ticks as i64
    }
}

/// The current time in milliseconds since the Unix epoch.
///
/// Calls `chrono::Utc::now` and reads the result with
/// `DateTime::timestamp_millis`. Nothing is claimed of the value: it is
/// whatever the system clock says. `Utc::now` panics if that clock stands
/// before 1970.
#[verifier::external_body]
pub(crate) fn utc_now_millis() -> (r: i64) {
    chrono::Utc::now().timestamp_millis()
}

} // verus!
