//! The wall clock.

use vstd::prelude::*;

verus! {

/// The current time in UTC, written as RFC 3339 by `chrono::Utc::now` and
/// `DateTime::to_rfc3339`. The text depends on the moment of the call, so
/// nothing is claimed of it. `Utc::now` gives up on a system clock that
/// stands before 1970.
#[verifier::external_body]
pub(crate) fn now_rfc3339() -> (stamp: String) {
    chrono::Utc::now().to_rfc3339()
}

} // verus!
