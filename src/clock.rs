//! Instants: reading the RFC 3339 text of a batch's stamp.
//!
//! The library never reads the clock itself: the time now is handed in by
//! the caller.

use vstd::prelude::*;

verus! {

/// The milliseconds since the Unix epoch of the instant that an RFC 3339
/// text names, or `None` where the text names no such instant.
pub uninterp spec fn rfc3339_millis(s: Seq<char>) -> Option<i64>;

/// Relies on `chrono::DateTime::parse_from_rfc3339`, which reads an RFC 3339
/// instant or fails, and `DateTime::timestamp_millis`, its milliseconds since
/// the Unix epoch (chrono's range of years keeps that within `i64`). Both
/// depend on the text alone.
#[verifier::external_body]
pub(crate) fn parse_instant_millis(s: &String) -> (r: Option<i64>)
    ensures
        r == rfc3339_millis(s@),
{
    match chrono::DateTime::parse_from_rfc3339(s) {
        Ok(d) => Some(d.timestamp_millis()),
        Err(_) => None,
    }
}

} // verus!
