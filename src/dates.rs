//! Calendar days. A day is numbered by whole days since 1970-01-01 (UTC).
use vstd::prelude::*;

use crate::age::SECONDS_PER_DAY;

verus! {

/// The first day that chrono dates: January 1 of the year -262143.
pub const MIN_DATED_DAY: i64 = -96_465_292;

/// The last day that chrono dates: December 31 of the year 262142.
pub const MAX_DATED_DAY: i64 = 95_026_236;

/// The day that an instant given in seconds since the Unix epoch falls on.
pub open spec fn day_of(timestamp: int) -> int {
    timestamp / (SECONDS_PER_DAY as int)
}

pub fn day_number(timestamp: i64) -> (r: i64)
    ensures
        r == day_of(timestamp as int),
{
    timestamp.checked_div_euclid(86400).unwrap()
}

/// The ISO 8601 date (`YYYY-MM-DD`) of a day, as chrono writes it.
pub uninterp spec fn iso_date_text(day: int) -> Seq<char>;

/// Relies on `chrono::NaiveDate::from_epoch_days`, which gives the date of a
/// day counted from 1970-01-01 (`Some` from `NaiveDate::MIN` to `NaiveDate::MAX`,
/// exactly this range), and on
/// its `Display`, which writes the date in ISO 8601 form.
#[verifier::external_body]
fn epoch_day_text(day: i32) -> (r: String)
    requires
        MIN_DATED_DAY <= day <= MAX_DATED_DAY,
    ensures
        r@ == iso_date_text(day as int),
{
    chrono::NaiveDate::from_epoch_days(day).unwrap().to_string()
}

/// Appends the ISO 8601 date of `day` to `out`.
pub fn push_date(out: &mut String, day: i64)
    requires
        MIN_DATED_DAY <= day <= MAX_DATED_DAY,
    ensures
        final(out)@ == old(out)@ + iso_date_text(day as int),
{
    let text = epoch_day_text(day as i32);
    out.append(text.as_str());
}

} // verus!
