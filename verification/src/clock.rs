//! Wall-clock timestamps for scrollback messages.

use vstd::prelude::*;

verus! {

/// Relies on chrono::Local::now: the current local wall-clock instant, in
/// milliseconds since the Unix epoch. Nothing is promised of the value.
#[verifier::external_body]
pub(crate) fn now_timestamp_ms() -> i64 {
    chrono::Local::now().timestamp_millis()
}

} // verus!
