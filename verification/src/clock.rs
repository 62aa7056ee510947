//! The clock. The core works on plain microsecond timestamps handed in by
//! the caller; only reading the wall clock and rendering a timestamp as
//! calendar text go through trusted wrappers over an outside crate.

use vstd::prelude::*;

verus! {

/// The minute-precision calendar text of a timestamp. Rendering a UTC
/// timestamp is a function of the timestamp alone; its definition (calendar
/// arithmetic) is left to the outside crate and only named here.
pub uninterp spec fn minute_text_of(t: i64) -> Seq<char>;

/// Relies on chrono::Utc::now and DateTime::timestamp_micros: the current
/// wall-clock time as microseconds since the Unix epoch. Nothing can be
/// promised of a clock reading.
#[verifier::external_body]
pub fn now_micros() -> i64 {
    chrono::Utc::now().timestamp_micros()
}

/// Relies on chrono::DateTime::from_timestamp_micros and its `format` with
/// a fixed, locale-independent pattern ("%Y-%m-%d %H:%M" in UTC): the
/// result depends on the timestamp alone. A timestamp that chrono cannot
/// represent renders as the empty string.
#[verifier::external_body]
pub fn minute_display(t: i64) -> (r: String)
    ensures
        r@ == minute_text_of(t),
{
    match chrono::DateTime::<chrono::Utc>::from_timestamp_micros(t) {
        Some(d) => d.format("%Y-%m-%d %H:%M").to_string(),
        None => String::new(),
    }
}

} // verus!
