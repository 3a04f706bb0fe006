//! The wall clock, behind a single trusted call.

use vstd::prelude::*;

verus! {

/// Relies on chrono::Utc::now: the current UTC time as whole seconds
/// since the Unix epoch.  Nothing is promised of a clock reading;
/// callers state what holds of every outcome.
#[verifier::external_body]
pub(crate) fn now_timestamp() -> i64 {
    chrono::Utc::now().timestamp()
}

} // verus!
