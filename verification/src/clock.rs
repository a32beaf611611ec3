use vstd::prelude::*;
use crate::Instant;

verus! {

/// Relies on `chrono::Utc::now` together with `DateTime::timestamp_millis`:
/// the current wall-clock instant as milliseconds since the Unix epoch.
/// Nothing is assumed about the value that comes back.
#[verifier::external_body]
pub(crate) fn now_millis() -> Instant {
    chrono::Utc::now().timestamp_millis()
}

} // verus!
