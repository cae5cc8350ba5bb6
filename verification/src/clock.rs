//! Reading the wall clock.

use vstd::prelude::*;

verus! {

/// The wall clock reads earlier than the UNIX epoch.
#[derive(Debug, Clone, Copy, PartialEq, Eq)]
pub struct ClockSkew;

impl ClockSkew {
    pub fn message(&self) -> (s: String)
        ensures
            s@ == "daemon wall clock is before UNIX_EPOCH; lease enforcement is fail-closed"@,
    {
        String::from_str("daemon wall clock is before UNIX_EPOCH; lease enforcement is fail-closed")
    }
}

/// Milliseconds since the UNIX epoch, from `std::time::SystemTime::now()`
/// and `duration_since(UNIX_EPOCH)`; `Err` when the clock reads earlier than
/// the epoch. Nothing is claimed of the value: it is the time.
#[verifier::external_body]
pub(crate) fn wall_clock_ms() -> (r: Result<u64, ClockSkew>) {
    match std::time::SystemTime::now().duration_since(std::time::UNIX_EPOCH) {
        Ok(duration) => Ok(duration.as_millis() as u64),
        Err(_) => Err(ClockSkew),
    }
}

/// The wall clock in milliseconds, reading 0 when it is before the epoch.
pub fn current_time_ms() -> (r: u64) {
    match wall_clock_ms() {
        Ok(now) => now,
        Err(_) => 0,
    }
}

} // verus!
