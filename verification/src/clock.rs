//! Readings of the system clock.
use vstd::prelude::*;

use crate::detectors::zombie_branches::{duration_secs, since_unix_epoch, system_now};

verus! {

/// One reading of the system clock: whole seconds since the Unix epoch (0
/// for a clock set before the epoch). Only `read_clock` makes one, so a
/// value of this type is always a reading that was taken.
pub struct ClockReading {
    secs: i64,
}

impl ClockReading {
    /// The seconds since the Unix epoch that the reading gave.
    pub closed spec fn secs(self) -> i64 {
        self.secs
    }

    /// The seconds since the Unix epoch that the reading gave.
    pub fn seconds(&self) -> (s: i64)
        ensures
            s == self.secs(),
    {
        self.secs
    }
}

/// Reads the system clock: `SystemTime::now`, measured from the Unix
/// epoch, in whole seconds (0 when the clock is before the epoch).
pub fn read_clock() -> (reading: ClockReading) {
    let secs: i64 = match since_unix_epoch(system_now()) {
        Ok(d) => duration_secs(d) as i64,
        Err(_) => 0,
    };
    ClockReading { secs }
}

} // verus!
