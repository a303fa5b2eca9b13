//! The time of day, as the commands stamp it into what they store.

use vstd::prelude::*;

verus! {

/// The present moment in UTC as RFC 3339 text, from `chrono::Utc::now` and
/// `DateTime::to_rfc3339`. Nothing is claimed of the text: two calls may
/// differ. `chrono` panics where the system clock stands before 1970.
#[verifier::external_body]
pub(crate) fn timestamp() -> (now: String) {
    chrono::Utc::now().to_rfc3339()
}

} // verus!
