//! The wall clock.

use vstd::prelude::*;

verus! {

/// The current instant, in seconds since the Unix epoch.
///
/// Calls `chrono::Utc::now` and takes the `timestamp` of what it returns.
/// Nothing is claimed of the result: two readings may differ in any way, and
/// whoever reads the clock must be right whatever it says.  Where the system
/// clock stands before the epoch, `chrono::Utc::now` panics and no reading
/// comes back.
#[verifier::external_body]
pub(crate) fn now() -> i64 {
    chrono::Utc::now().timestamp()
}

} // verus!
