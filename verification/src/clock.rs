//! Wall-clock access for operations that stamp timestamps.

use vstd::prelude::*;

verus! {

/// Relies on std's `SystemTime` for the current wall-clock time in
/// milliseconds since the Unix epoch; a clock set before the epoch reads
/// as zero rather than failing. Nothing is promised of the value: every
/// caller states what holds whatever time comes back.
#[verifier::external_body]
pub fn now_millis() -> i64 {
    match std::time::SystemTime::now().duration_since(std::time::UNIX_EPOCH) {
        Ok(d) => d.as_millis() as i64,
        Err(_) => 0,
    }
}

} // verus!
