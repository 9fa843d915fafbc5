use std::time::{Duration, SystemTime, SystemTimeError, UNIX_EPOCH};
use vstd::prelude::*;

verus! {

#[verifier::external_type_specification]
#[verifier::external_body]
pub struct ExSystemTime(SystemTime);

#[verifier::external_type_specification]
#[verifier::external_body]
pub struct ExSystemTimeError(SystemTimeError);

/// Relies on `SystemTime::now`: a reading of the wall clock, of which
/// nothing is promised.
pub assume_specification[ SystemTime::now ]() -> SystemTime;

/// Relies on `SystemTime::duration_since`: the time elapsed since `earlier`,
/// or an error when the clock reads before it.
pub assume_specification[ SystemTime::duration_since ](
    t: &SystemTime,
    earlier: SystemTime,
) -> Result<Duration, SystemTimeError>;

/// Relies on `Duration::as_millis`: the whole milliseconds of a duration.
pub assume_specification[ Duration::as_millis ](d: &Duration) -> u128;

/// Relies on `std::time::UNIX_EPOCH`: the instant wall-clock readings are
/// measured from.
#[verifier::external_body]
fn unix_epoch() -> SystemTime {
    UNIX_EPOCH
}

/// A millisecond count as a `u64`: capped at `u64::MAX`.
pub open spec fn capped_ms(ms: u128) -> u64 {
    if ms > u64::MAX as u128 {
        u64::MAX
    } else {
        ms as u64
    }
}

/// The time stamp for a clock reading: the milliseconds elapsed since the
/// Unix epoch, capped at `u64::MAX`, or 0 when the clock reads before the
/// epoch (`None`).
pub fn ms_from_elapsed(elapsed_ms: Option<u128>) -> (r: u64)
    ensures
        elapsed_ms is None ==> r == 0,
        elapsed_ms matches Some(ms) ==> r == capped_ms(ms),
        elapsed_ms matches Some(ms) ==> (ms <= u64::MAX ==> r == ms) && (ms > u64::MAX ==> r
            == u64::MAX),
{
    match elapsed_ms {
        Some(ms) => {
            if ms > u64::MAX as u128 {
                u64::MAX
            } else {
                ms as u64
            }
        },
        None => 0,
    }
}

/// Milliseconds since the Unix epoch by the wall clock, as
/// `ms_from_elapsed` makes of the reading. Which reading the clock gives
/// is not known in advance, so no particular value is promised.
pub fn now_ms() -> u64 {
    let elapsed = match SystemTime::now().duration_since(unix_epoch()) {
        Ok(elapsed) => Some(elapsed.as_millis()),
        Err(_) => None,
    };
    ms_from_elapsed(elapsed)
}

} // verus!
