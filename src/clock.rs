//! Reading the local clock.
use vstd::prelude::*;

verus! {

/// Relies on `chrono::Local::now` and `DateTime::timestamp_millis`: the
/// current time in milliseconds since the Unix epoch. Nothing is known of
/// the value read.
#[verifier::external_body]
pub(crate) fn now_millis() -> (r: i64) {
    chrono::Local::now().timestamp_millis()
}

} // verus!
