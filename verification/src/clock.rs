//! Access to the wall clock, the one outside call of the library.

use vstd::prelude::*;

verus! {

/// Relies on chrono::Utc::now, read out through
/// chrono::DateTime::timestamp_millis as milliseconds since the Unix
/// epoch. The clock promises nothing about the value it returns, so
/// nothing is stated of it.
#[verifier::external_body]
pub(crate) fn now_millis() -> i64 {
    chrono::Utc::now().timestamp_millis()
}

} // verus!
