//! The wall clock, read through `chrono`.

use vstd::prelude::*;

verus! {

/// The current UTC time in RFC 3339 form.
///
/// Trusted: wraps `chrono::Utc::now` rendered by `DateTime::to_rfc3339`;
/// nothing is claimed of the value, which depends on the time.
#[verifier::external_body]
pub(crate) fn now_iso() -> String {
    chrono::Utc::now().to_rfc3339()
}

/// The current UTC moment: its Unix timestamp in whole seconds and the
/// nanoseconds past it.
///
/// Trusted: wraps `chrono::Utc::now`, converted with `timestamp` and
/// `timestamp_subsec_nanos`; nothing is claimed of the value, which depends
/// on the time.
#[verifier::external_body]
pub(crate) fn utc_now() -> (i64, u32) {
    let now = chrono::Utc::now();
    (now.timestamp(), now.timestamp_subsec_nanos())
}

} // verus!
