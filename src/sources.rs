//! The clock and the random source.

use vstd::prelude::*;

verus! {

/// Relies on `chrono::Utc::now`: milliseconds since the Unix epoch, as the
/// system clock reads them; nothing is promised of the value.
#[verifier::external_body]
pub(crate) fn current_millis() -> (r: i64) {
    chrono::Utc::now().timestamp_millis()
}

/// Relies on `rand::random`: a value drawn from the thread-local generator;
/// nothing is promised of it.
#[verifier::external_body]
pub(crate) fn random_u64() -> (r: u64) {
    rand::random::<u64>()
}

/// Relies on `rand::random`: thirty-two bytes drawn from the thread-local
/// generator; nothing is promised of them beyond their count.
#[verifier::external_body]
pub(crate) fn random_bytes32() -> (r: [u8; 32]) {
    rand::random::<[u8; 32]>()
}

} // verus!
