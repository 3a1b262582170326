//! The time of day.
use vstd::prelude::*;

verus! {

/// `chrono::Utc::now`, written by `DateTime::to_rfc3339`. The text depends on the
/// clock, so nothing is said of it.
#[verifier::external_body]
pub(crate) fn timestamp() -> (r: String) {
    chrono::Utc::now().to_rfc3339()
}

/// `chrono::Local::now`, written by `DateTime::format` as hours, minutes, seconds
/// and milliseconds. The text depends on the clock and on the time zone, so nothing
/// is said of it.
#[verifier::external_body]
pub(crate) fn time_of_day() -> (r: String) {
    chrono::Local::now().format("%H:%M:%S%.3f").to_string()
}

} // verus!
