//! The registry's calls into the clock (`chrono`) and into the random
//! identifier generator (`uuid`).
use vstd::prelude::*;
use crate::types::Timestamp;

verus! {

/// A lower-case hexadecimal digit.
pub open spec fn is_lower_hex(c: char) -> bool {
    ('0' <= c && c <= '9') || ('a' <= c && c <= 'f')
}

/// Reads the clock with `chrono::Utc::now()` and splits the instant into
/// `DateTime::timestamp` (whole seconds since the epoch) and
/// `DateTime::timestamp_subsec_nanos`. Nothing is claimed of the value: it is
/// whatever the clock says.
#[verifier::external_body]
pub(crate) fn current_time() -> (t: Timestamp) {
    let now = chrono::Utc::now();
    Timestamp { secs: now.timestamp(), nanos: now.timestamp_subsec_nanos() }
}

/// Draws a random identifier with `uuid::Uuid::new_v4()` and writes it in the
/// `Simple` form (`Uuid::simple`, then `to_string`). The crate writes that form
/// as exactly 32 lower-case hexadecimal digits; that is all that is claimed,
/// the digits themselves are random.
#[verifier::external_body]
pub(crate) fn random_token() -> (t: String)
    ensures
        t@.len() == 32,
        forall|i: int| 0 <= i < 32 ==> is_lower_hex(#[trigger] t@[i]),
{
    uuid::Uuid::new_v4().simple().to_string()
}

} // verus!
