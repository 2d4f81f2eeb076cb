use crate::models::Timestamp;
use vstd::prelude::*;

verus! {

/// A fresh random identifier.
///
/// Relies on `uuid::Uuid::new_v4` and `uuid::Uuid::as_u128`: a random version 4
/// identifier, read as one big-endian 128-bit integer. Nothing is promised of
/// its value. The call panics only when the operating system cannot supply
/// random bytes.
#[verifier::external_body]
pub(crate) fn fresh_id() -> (r: u128) {
    uuid::Uuid::new_v4().as_u128()
}

/// The current instant.
///
/// Relies on `chrono::Utc::now`, with `DateTime::timestamp` and
/// `DateTime::timestamp_subsec_nanos` to read it as seconds and nanoseconds
/// since the Unix epoch. The clock may move in either direction between two
/// calls, so nothing is promised of the value. The call panics only when the
/// system clock reads a time before the Unix epoch.
#[verifier::external_body]
pub(crate) fn utc_now() -> (r: Timestamp) {
    let now = chrono::Utc::now();
    Timestamp { secs: now.timestamp(), nanos: now.timestamp_subsec_nanos() }
}

} // verus!
