//! The wall clock.

use vstd::prelude::*;

verus! {

/// Trusted: reads the current UTC time with `chrono::Utc::now` and writes it
/// with `DateTime::to_rfc3339`. Nothing is claimed of the text, which
/// differs from call to call. The call aborts if the system clock is set
/// before 1970.
#[verifier::external_body]
pub(crate) fn current_timestamp() -> String {
    chrono::Utc::now().to_rfc3339()
}

} // verus!
