//! The runtime's two views of the clock, taken from chrono.
//!
//! Everything that depends on a time value is verified for every value: the
//! callers take the instant as an argument. Only the reading of the clock
//! itself is trusted.

use vstd::prelude::*;

verus! {

/// Relies on chrono's `Utc::now` and `DateTime::timestamp_millis`: the
/// current instant as non-leap milliseconds since the Unix epoch. `now`
/// aborts if the system clock reads before the epoch; when it returns, the
/// elapsed duration was non-negative, so the result is non-negative.
#[verifier::external_body]
pub fn now_millis() -> (r: i64)
    ensures
        r >= 0,
{
    chrono::Utc::now().timestamp_millis()
}

/// Relies on chrono's `Utc::now` and `DateTime::to_rfc3339`: the current
/// instant formatted as an RFC 3339 timestamp. Which instant comes back
/// depends on the clock; what the source shows of every outcome is the
/// shape: at least `YYYY-MM-DDTHH:MM:SS` plus an offset, written with
/// digits and the separators `-T:.+Z` — printable ASCII with no quote,
/// backslash or control character.
#[verifier::external_body]
pub fn now_rfc3339() -> (r: String)
    ensures
        r@.len() >= 19,
        forall|i: int|
            0 <= i < r@.len() ==> crate::json::is_plain_char(#[trigger] r@[i]) && (r@[i] as u32)
                < 127,
{
    chrono::Utc::now().to_rfc3339()
}

} // verus!
