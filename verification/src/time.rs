use chrono::{Datelike, NaiveDateTime, Timelike};
use vstd::prelude::*;

use crate::models::Timestamp;

verus! {

/// What `chrono::NaiveDateTime::parse_from_str(s, fmt)` gives back for
/// the text `s` read with the format `fmt`, field by field, or `None`
/// where chrono refuses it.
pub uninterp spec fn chrono_naive_datetime(s: Seq<char>, fmt: Seq<char>) -> Option<Timestamp>;

/// Reads `s` with the strftime format `fmt` by calling
/// `chrono::NaiveDateTime::parse_from_str`. The contract claims only
/// that the outcome is a function of the two texts (chrono's parser
/// depends on nothing else); which texts it accepts is left unstated.
#[verifier::external_body]
pub(crate) fn parse_naive_datetime(s: &str, fmt: &str) -> (r: Option<Timestamp>)
    ensures
        r == chrono_naive_datetime(s@, fmt@),
{
    match NaiveDateTime::parse_from_str(s, fmt) {
        Ok(t) => Some(Timestamp {
            year: t.year(),
            month: t.month(),
            day: t.day(),
            hour: t.hour(),
            minute: t.minute(),
            second: t.second(),
            nanosecond: t.nanosecond(),
        }),
        Err(_) => None,
    }
}

} // verus!
