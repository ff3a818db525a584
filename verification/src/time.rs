//! Points in time, as transactions record them.

use vstd::prelude::*;
use std::time::{Duration, SystemTime, SystemTimeError, UNIX_EPOCH};

verus! {

/// A point in time: whole seconds since the Unix epoch, and the nanoseconds
/// into the next second.
#[derive(Debug, Clone, Copy, PartialEq, Eq)]
pub struct Timestamp {
    /// Whole seconds since 1970-01-01T00:00:00Z.
    pub secs: u64,
    /// Nanoseconds past the last whole second.
    pub nanos: u32,
}

/// The system clock's measure of time, opaque here.
#[verifier::external_type_specification]
#[verifier::external_body]
pub struct ExSystemTime(SystemTime);

/// The failure of `SystemTime::duration_since`: the other time was later.
#[verifier::external_type_specification]
#[verifier::external_body]
pub struct ExSystemTimeError(SystemTimeError);

/// `SystemTime::now`: the time on the system clock. It differs from call to
/// call, so nothing is promised of it.
pub assume_specification[ SystemTime::now ]() -> SystemTime
;

/// `SystemTime::duration_since`, asked of `UNIX_EPOCH`: how long after the
/// epoch a time lies, or an error where it lies before. The time is opaque,
/// so nothing is promised of the outcome.
#[verifier::external_body]
fn since_epoch(at: &SystemTime) -> Result<Duration, SystemTimeError> {
    at.duration_since(UNIX_EPOCH)
}

/// `Duration::as_secs`: the whole seconds of a duration.
pub assume_specification[ Duration::as_secs ](duration: &Duration) -> u64
;

/// `Duration::subsec_nanos`: the part of a duration beyond its whole
/// seconds, in nanoseconds: always less than a second.
pub assume_specification[ Duration::subsec_nanos ](duration: &Duration) -> (nanos: u32)
    ensures
        nanos < 1_000_000_000,
;

impl Timestamp {
    /// The Unix epoch itself.
    pub fn epoch() -> (at: Timestamp)
        ensures
            at == (Timestamp { secs: 0, nanos: 0 }),
    {
        Timestamp { secs: 0, nanos: 0 }
    }

    /// The time on the system clock. A clock that is set before the epoch
    /// reads as the epoch.
    pub fn now() -> (at: Timestamp)
        ensures
            at.nanos < 1_000_000_000,
    {
        let at = SystemTime::now();
        let reading = match since_epoch(&at) {
            Ok(elapsed) => Some((elapsed.as_secs(), elapsed.subsec_nanos())),
            Err(_) => None,
        };
        Timestamp::from_reading(reading)
    }

    /// The timestamp that a reading of a clock stands for. A reading is the
    /// time that has passed since the epoch, in whole seconds and the
    /// nanoseconds beyond them; there is none where the clock is set before
    /// the epoch, and that reads as the epoch.
    pub open spec fn of_reading(reading: Option<(u64, u32)>) -> Timestamp {
        match reading {
            Some((secs, nanos)) => Timestamp { secs, nanos },
            None => Timestamp { secs: 0, nanos: 0 },
        }
    }

    /// Turns a reading of a clock into a timestamp.
    pub fn from_reading(reading: Option<(u64, u32)>) -> (at: Timestamp)
        ensures
            at == Timestamp::of_reading(reading),
    {
        match reading {
            Some((secs, nanos)) => Timestamp { secs, nanos },
            None => Timestamp::epoch(),
        }
    }
}

} // verus!
