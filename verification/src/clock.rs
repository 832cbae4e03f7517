//! Access to the wall clock, the one environmental input the coordinator
//! reads on its own.

use vstd::prelude::*;

verus! {

/// Relies on `chrono::Utc::now` and `chrono::DateTime::timestamp_millis`:
/// reads the wall clock as milliseconds since the Unix epoch. The value
/// depends on the machine's clock, so nothing is promised of it.
#[verifier::external_body]
fn now_unix_millis() -> (r: i64) {
    chrono::Utc::now().timestamp_millis()
}

/// The wall clock on the epoch-seconds scale the coordinator's timestamps
/// use; a reading before the epoch counts as zero. The value depends on
/// the machine's clock, so nothing is promised of it.
pub fn now_unix_seconds() -> u64 {
    let millis = now_unix_millis();
    if millis <= 0 {
        0
    } else {
        (millis / 1000) as u64
    }
}

} // verus!
