//! Wall-clock access for timestamping lifecycle transitions.

use vstd::prelude::*;

use crate::ids::Timestamp;

verus! {

/// Relies on chrono::Utc::now (via DateTime::timestamp) for the current time
/// in whole seconds since the Unix epoch; nothing is promised of the value,
/// and every caller is verified for every value.
#[verifier::external_body]
pub(crate) fn now_timestamp() -> Timestamp {
    chrono::Utc::now().timestamp()
}

} // verus!
