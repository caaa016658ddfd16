//! Fresh identifiers and the current time.

use vstd::prelude::*;

verus! {

/// A point in time: whole seconds since the Unix epoch and the nanoseconds
/// within that second.
#[derive(Clone, Copy, Debug, PartialEq, Eq, Structural)]
pub struct Timestamp {
    pub secs: i64,
    pub nanos: u32,
}

/// A fresh random identifier (a version 4 UUID as its 128-bit value).
///
/// Trusted: calls `uuid::Uuid::new_v4` and returns `Uuid::as_u128` of the
/// result. The value is random, so nothing is stated of it.
#[verifier::external_body]
pub(crate) fn new_id() -> (r: u128) {
    uuid::Uuid::new_v4().as_u128()
}

/// The current UTC time.
///
/// Trusted: calls `chrono::Utc::now` and returns its `timestamp` and
/// `timestamp_subsec_nanos`. The value depends on the clock, so nothing is
/// stated of it.
#[verifier::external_body]
pub(crate) fn now() -> (r: Timestamp) {
    let t = chrono::Utc::now();
    Timestamp { secs: t.timestamp(), nanos: t.timestamp_subsec_nanos() }
}

} // verus!
