//! The local wall clock, read through `chrono`.
use vstd::prelude::*;

verus! {

/// A reading of the local wall clock: the fields of the date and time that
/// the library looks at.
#[derive(Clone, Copy, Debug)]
pub struct LocalTime {
    /// Hour of the day, 0 to 23.
    pub hour: u32,
    /// Minute of the hour, 0 to 59.
    pub minute: u32,
    /// Seconds since the UNIX epoch.
    pub timestamp: i64,
}

/// The current local date and time.
/// Calls `chrono::Local::now` and reads the result's `hour`, `minute` and
/// `timestamp`. The reading depends on the clock and the machine's time
/// zone; the contract claims the ranges that `chrono::Timelike` documents
/// (hour 0 to 23, minute 0 to 59), and that the timestamp is not before the
/// epoch: `Local::now` converts `Utc::now`, which measures the system time
/// since the epoch (`duration_since(UNIX_EPOCH)`, panicking before it) and
/// keeps that count of seconds, so no reading that returns is negative.
#[verifier::external_body]
pub(crate) fn local_now() -> (t: LocalTime)
    ensures
        t.hour < 24,
        t.minute < 60,
        t.timestamp >= 0,
{
    let now = chrono::Local::now();
    LocalTime {
        hour: chrono::Timelike::hour(&now),
        minute: chrono::Timelike::minute(&now),
        timestamp: now.timestamp(),
    }
}

} // verus!
