//! The wall clock, read as a plain instant.

use crate::record::Timestamp;
use vstd::prelude::*;

verus! {

/// `chrono::Utc::now`, taken apart with `DateTime::timestamp` and
/// `DateTime::timestamp_subsec_nanos`. The instant depends on the machine's
/// clock, so nothing is claimed of it; chrono stops the program if that
/// clock stands before 1970.
#[verifier::external_body]
pub(crate) fn now() -> Timestamp {
    let t = chrono::Utc::now();
    Timestamp { secs: t.timestamp(), nanos: t.timestamp_subsec_nanos() }
}

} // verus!
