use vstd::prelude::*;

use crate::error::ConnectionError;

verus! {

/// Bound on the distance, in seconds, between a usable clock reading and the
/// Unix epoch: about 317,000 years either way.
pub const CLOCK_LIMIT: i64 = 10_000_000_000_000;

pub const CLOCK_OUT_OF_RANGE: &'static str = "Clock reading out of range";

/// Relies on `std::time::SystemTime::now` and `duration_since(UNIX_EPOCH)`:
/// `Ok` with the whole seconds elapsed since the epoch when the clock reads
/// at or after it, `Err` with the whole seconds before it otherwise. The
/// clock may read anything, so nothing is promised of the value.
#[verifier::external_body]
fn read_clock() -> (r: Result<u64, u64>) {
    match std::time::SystemTime::now().duration_since(std::time::UNIX_EPOCH) {
        Ok(d) => Ok(d.as_secs()),
        Err(e) => Err(e.duration().as_secs()),
    }
}

/// The failure reported when the clock reads too far from the epoch.
pub open spec fn clock_failed<T>(r: Result<T, ConnectionError>) -> bool {
    r matches Err(ConnectionError::Storage(m)) && m@ == CLOCK_OUT_OF_RANGE@
}

/// The wall clock, in whole seconds since the Unix epoch (negative before
/// it), when it reads less than `CLOCK_LIMIT` seconds away from the epoch.
pub fn unix_now() -> (r: Result<i64, ConnectionError>)
    ensures
        r matches Ok(t) ==> -CLOCK_LIMIT < t < CLOCK_LIMIT,
        r is Err ==> clock_failed(r),
{
    match read_clock() {
        Ok(s) => {
            if s < CLOCK_LIMIT as u64 {
                Ok(s as i64)
            } else {
                Err(ConnectionError::Storage(CLOCK_OUT_OF_RANGE.to_owned()))
            }
        },
        Err(s) => {
            if s < CLOCK_LIMIT as u64 {
                Ok(-(s as i64))
            } else {
                Err(ConnectionError::Storage(CLOCK_OUT_OF_RANGE.to_owned()))
            }
        },
    }
}

/// Whether the wall clock reads `t` or later; defined for every reading.
pub fn clock_reached(t: i64) -> bool {
    match read_clock() {
        Ok(s) => (t as i128) <= (s as i128),
        Err(s) => (t as i128) <= -(s as i128),
    }
}

/// Whether the wall clock reads later than `t`; defined for every reading.
pub fn clock_passed(t: i64) -> bool {
    match read_clock() {
        Ok(s) => (t as i128) < (s as i128),
        Err(s) => (t as i128) < -(s as i128),
    }
}

} // verus!
