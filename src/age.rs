//! Coarse "time since" descriptions: whole hours, days or weeks.
use vstd::prelude::*;

use crate::text::{decimal_text, push_decimal};

verus! {

pub const SECONDS_PER_HOUR: u64 = 3600;

pub const SECONDS_PER_DAY: u64 = 86400;

pub const SECONDS_PER_WEEK: u64 = 604800;

/// The unit an age is reported in.
pub enum AgeUnit {
    Hours,
    Days,
    Weeks,
}

/// Seconds from `earlier` to `later`; a moment in the future is zero seconds old.
pub open spec fn elapsed(earlier: int, later: int) -> nat {
    if later > earlier {
        (later - earlier) as nat
    } else {
        0
    }
}

/// Weeks from two weeks on, days from two days on, hours below that.
pub open spec fn age_unit(seconds: nat) -> AgeUnit {
    if seconds >= 2 * SECONDS_PER_WEEK {
        AgeUnit::Weeks
    } else if seconds >= 2 * SECONDS_PER_DAY {
        AgeUnit::Days
    } else {
        AgeUnit::Hours
    }
}

/// The number of whole units of `age_unit(seconds)` in `seconds`.
pub open spec fn age_magnitude(seconds: nat) -> nat {
    match age_unit(seconds) {
        AgeUnit::Weeks => seconds / (SECONDS_PER_WEEK as nat),
        AgeUnit::Days => seconds / (SECONDS_PER_DAY as nat),
        AgeUnit::Hours => seconds / (SECONDS_PER_HOUR as nat),
    }
}

pub open spec fn unit_word(unit: AgeUnit) -> Seq<char> {
    match unit {
        AgeUnit::Weeks => "weeks"@,
        AgeUnit::Days => "days"@,
        AgeUnit::Hours => "hours"@,
    }
}

/// "Last updated N <unit> ago" for an age of `seconds`.
pub open spec fn age_text(seconds: nat) -> Seq<char> {
    "Last updated "@ + decimal_text(age_magnitude(seconds)) + " "@ + unit_word(age_unit(seconds))
        + " ago"@
}

/// Every age is reported in exactly one of the three units, and the reported
/// number is the whole count of that unit: at least two weeks, from two to
/// thirteen days, or at most forty-seven hours.
pub proof fn lemma_age_units(seconds: nat)
    ensures
        age_unit(seconds) == AgeUnit::Weeks ==> seconds >= 1209600 && age_magnitude(seconds) >= 2
            && age_magnitude(seconds) * 604800 <= seconds < (age_magnitude(seconds) + 1) * 604800,
        age_unit(seconds) == AgeUnit::Days ==> 172800 <= seconds < 1209600 && 2 <= age_magnitude(
            seconds,
        ) <= 13 && age_magnitude(seconds) * 86400 <= seconds < (age_magnitude(seconds) + 1)
            * 86400,
        age_unit(seconds) == AgeUnit::Hours ==> seconds < 172800 && age_magnitude(seconds) <= 47
            && age_magnitude(seconds) * 3600 <= seconds < (age_magnitude(seconds) + 1) * 3600,
{
    let m = age_magnitude(seconds);
    match age_unit(seconds) {
        AgeUnit::Weeks => {
            assert(m == seconds / 604800);
            assert(m * 604800 <= seconds < (m + 1) * 604800) by (nonlinear_arith)
                requires
                    m == seconds / 604800,
            ;
            assert(m >= 2) by (nonlinear_arith)
                requires
                    m == seconds / 604800,
                    seconds >= 1209600,
            ;
        },
        AgeUnit::Days => {
            assert(m == seconds / 86400);
            assert(m * 86400 <= seconds < (m + 1) * 86400) by (nonlinear_arith)
                requires
                    m == seconds / 86400,
            ;
            assert(2 <= m <= 13) by (nonlinear_arith)
                requires
                    m == seconds / 86400,
                    172800 <= seconds < 1209600,
            ;
        },
        AgeUnit::Hours => {
            assert(m == seconds / 3600);
            assert(m * 3600 <= seconds < (m + 1) * 3600) by (nonlinear_arith)
                requires
                    m == seconds / 3600,
            ;
            assert(m <= 47) by (nonlinear_arith)
                requires
                    m == seconds / 3600,
                    seconds < 172800,
            ;
        },
    }
}

/// Relies on `std::time::SystemTime::now` and `SystemTime::duration_since`:
/// whole seconds since the Unix epoch as `Ok`, or, when the system clock reads
/// before the epoch, whole seconds before it as `Err`. Neither call panics.
#[verifier::external_body]
fn system_clock_seconds() -> (r: Result<u64, u64>) {
    match std::time::SystemTime::now().duration_since(std::time::UNIX_EPOCH) {
        Ok(after) => Ok(after.as_secs()),
        Err(before) => Err(before.duration().as_secs()),
    }
}

/// The current time in whole seconds since the Unix epoch, by the system
/// clock; negative before the epoch, saturated at the ends of `i64`.
pub(crate) fn unix_now() -> (r: i64) {
    match system_clock_seconds() {
        Ok(after) => {
            if after > i64::MAX as u64 {
                i64::MAX
            } else {
                after as i64
            }
        },
        Err(before) => {
            if before > i64::MAX as u64 {
                -i64::MAX
            } else {
                -(before as i64)
            }
        },
    }
}

/// Seconds from `earlier` to `later`, zero when `later` does not come after `earlier`.
pub fn seconds_between(earlier: i64, later: i64) -> (r: u64)
    ensures
        r as nat == elapsed(earlier as int, later as int),
{
    if later > earlier {
        let d: i128 = later as i128 - earlier as i128;
        d as u64
    } else {
        0
    }
}

/// Describes an age of `seconds` in whole hours, days or weeks.
pub fn format_age(seconds: u64) -> (r: String)
    ensures
        r@ == age_text(seconds as nat),
{
    let unit: &str;
    let amount: u64;
    if seconds >= 2 * SECONDS_PER_WEEK {
        unit = "weeks";
        amount = seconds / SECONDS_PER_WEEK;
    } else if seconds >= 2 * SECONDS_PER_DAY {
        unit = "days";
        amount = seconds / SECONDS_PER_DAY;
    } else {
        unit = "hours";
        amount = seconds / SECONDS_PER_HOUR;
    }
    let mut out = "Last updated ".to_owned();
    push_decimal(&mut out, amount as u128);
    out.append(" ");
    out.append(unit);
    out.append(" ago");
    out
}

/// Describes how long before `now` the instant `timestamp` lies; both are
/// seconds since the Unix epoch.
pub fn format_timestamp_at(now: i64, timestamp: u64) -> (r: String)
    ensures
        r@ == age_text(elapsed(timestamp as int, now as int)),
{
    if timestamp > i64::MAX as u64 {
        format_age(0)
    } else {
        format_age(seconds_between(timestamp as i64, now))
    }
}

/// Describes how long ago, by the system clock, the instant `timestamp`
/// (seconds since the Unix epoch) lies.
pub fn format_timestamp_since(timestamp: u64) -> (r: String)
    ensures
        exists|now: i64| r@ == age_text(elapsed(timestamp as int, now as int)),
{
    let now = unix_now();
    format_timestamp_at(now, timestamp)
}

} // verus!
