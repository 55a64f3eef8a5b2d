//! The wall clock, read as the computer's source of unpredictability.

use vstd::prelude::*;
use std::time::{Duration, SystemTimeError};

verus! {

/// The error that the wall clock gives when it stands before 1970.
#[verifier::external_type_specification]
#[verifier::external_body]
pub struct ExSystemTimeError(SystemTimeError);

/// `std::time::SystemTime::elapsed`, on `UNIX_EPOCH`: the time that has gone
/// by since the start of 1970, or an error where the clock stands before it.
/// Nothing is promised of the reading: it differs from call to call.
#[verifier::external_body]
pub(crate) fn since_epoch() -> Result<Duration, SystemTimeError> {
    std::time::UNIX_EPOCH.elapsed()
}

/// `core::time::Duration::as_nanos`: a span of time in whole nanoseconds.
/// Nothing is promised of the number.
pub assume_specification[ Duration::as_nanos ](d: &Duration) -> u128;

} // verus!
