//! The system clock.

use vstd::prelude::*;

verus! {

/// The error of `std::time::SystemTime::elapsed`.
#[verifier::external_type_specification]
#[verifier::external_body]
pub struct ExSystemTimeError(std::time::SystemTimeError);

/// `std::time::SystemTime::elapsed` of the Unix epoch: reads the clock, so
/// nothing is known of what it returns.
#[verifier::external_body]
fn elapsed_since_epoch() -> (r: Result<std::time::Duration, std::time::SystemTimeError>) {
    std::time::UNIX_EPOCH.elapsed()
}

/// The whole seconds of a duration.
pub uninterp spec fn whole_seconds(d: std::time::Duration) -> u64;

/// `std::time::Duration::as_secs`: the whole seconds are a function of the
/// duration alone. How they relate to the fraction of a second that it also
/// holds is left unsaid.
pub assume_specification[ std::time::Duration::as_secs ](d: &std::time::Duration) -> (r: u64)
    ensures
        r == whole_seconds(*d),
;

/// The timestamp that a reading of the clock gives: the whole seconds since the
/// Unix epoch, and 0 while the clock stands before it.
pub open spec fn timestamp_of(
    elapsed: Result<std::time::Duration, std::time::SystemTimeError>,
) -> u64 {
    match elapsed {
        Ok(d) => whole_seconds(d),
        Err(_) => 0,
    }
}

/// The timestamp of a reading of the clock, given as what has elapsed since the
/// Unix epoch.
pub fn reading_timestamp(
    elapsed: Result<std::time::Duration, std::time::SystemTimeError>,
) -> (r: u64)
    ensures
        r == timestamp_of(elapsed),
{
    match elapsed {
        Ok(d) => d.as_secs(),
        Err(_) => 0,
    }
}

/// The seconds since the Unix epoch; 0 while the clock stands before it.
pub fn unix_timestamp() -> (r: u64)
    ensures
        exists|elapsed: Result<std::time::Duration, std::time::SystemTimeError>|
            r == #[trigger] timestamp_of(elapsed),
{
    reading_timestamp(elapsed_since_epoch())
}

} // verus!
