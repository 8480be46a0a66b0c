//! The wall clock.

use vstd::prelude::*;

verus! {

/// The current time in UTC as an RFC 3339 string: `std::time::SystemTime::now()`
/// taken as a `chrono::DateTime<Utc>` and written by `DateTime::to_rfc3339()`.
/// Nothing is claimed of the result: it is whatever the system clock says. A
/// clock that stands before 1970 gives a time before 1970.
#[verifier::external_body]
pub(crate) fn now_rfc3339() -> (now: String) {
    chrono::DateTime::<chrono::Utc>::from(std::time::SystemTime::now()).to_rfc3339()
}

} // verus!
