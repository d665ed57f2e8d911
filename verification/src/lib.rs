//! A bounded append-only line log for periodic sensor readings.
//!
//! A reading (pressure and temperature, in hundredths of a unit) is rendered
//! as one space-separated text line, optionally followed by a timestamp.
//! Lines are appended to a byte buffer that mirrors the on-disk log file;
//! once the line count reaches a configured capacity, the oldest line is
//! dropped, so the log never grows without bound.

use vstd::prelude::*;

pub mod clock;
pub mod log;
pub mod model;
pub mod record;

verus! {

/// Default number of lines the log file may hold.
pub const DEFAULT_CAPACITY: usize = 100;

/// Default number of seconds between two polling cycles.
pub const DEFAULT_PERIOD_SECS: u64 = 300;

/// Tunables of the polling daemon: how many lines the log keeps and how long
/// the driver sleeps between cycles.
pub struct LogConfig {
    pub capacity: usize,
    pub period_secs: u64,
}

impl Default for LogConfig {
    fn default() -> (c: LogConfig)
        ensures
            c.capacity == DEFAULT_CAPACITY,
            c.period_secs == DEFAULT_PERIOD_SECS,
    {
        LogConfig { capacity: DEFAULT_CAPACITY, period_secs: DEFAULT_PERIOD_SECS }
    }
}

} // verus!
