//! The wall clock, as the library reads it.

use vstd::prelude::*;

verus! {

/// Trusted: `chrono::Utc::now`, read as whole seconds since the Unix epoch
/// with `DateTime::timestamp`. Nothing is claimed of the value, which is
/// the machine's clock. The outside call does not return a value on a
/// machine whose clock stands before the epoch.
#[verifier::external_body]
pub(crate) fn unix_time_now() -> i64 {
    chrono::Utc::now().timestamp()
}

} // verus!
