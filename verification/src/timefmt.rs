//! Rendering of timestamps for query text.
//!
//! The store compares timestamps written as `'....'::TIMESTAMP` literals;
//! the text of such a literal is produced by the calendar library and is a
//! pure function of the microsecond count.

use vstd::prelude::*;

verus! {

/// The text that a microsecond count renders to as a timestamp literal.
pub uninterp spec fn timestamp_text(micros: int) -> Seq<char>;

/// The microsecond range within which rendering is always possible;
/// `2^61` microseconds is about 73,000 years, far inside the calendar
/// library's documented limit of about 262,000 years.
pub open spec fn renderable_micros(micros: int) -> bool {
    -0x2000000000000000 <= micros <= 0x2000000000000000
}

/// Relies on chrono's `DateTime::from_timestamp_micros` and the display of
/// `NaiveDateTime`: the rendered text depends on the microsecond count
/// alone, and a count within the documented range always renders.
#[verifier::external_body]
pub(crate) fn render_timestamp(micros: i64) -> (r: Option<String>)
    ensures
        r is Some ==> r.unwrap()@ == timestamp_text(micros as int),
        renderable_micros(micros as int) ==> r is Some,
{
    match chrono::DateTime::from_timestamp_micros(micros) {
        Some(d) => Some(d.naive_utc().to_string()),
        None => None,
    }
}

} // verus!
