//! Moments of the calendar as seconds since the start of 1970, in UTC.

use chrono::TimeZone;
use vstd::prelude::*;

verus! {

pub open spec fn is_leap_year(year: int) -> bool {
    year % 4 == 0 && (year % 100 != 0 || year % 400 == 0)
}

pub open spec fn days_in_month(year: int, month: int) -> int {
    if month == 2 {
        if is_leap_year(year) {
            29
        } else {
            28
        }
    } else if month == 4 || month == 6 || month == 9 || month == 11 {
        30
    } else {
        31
    }
}

/// The days from the start of year 1 to the start of a year.
pub open spec fn days_before_year(year: int) -> int {
    365 * (year - 1) + (year - 1) / 4 - (year - 1) / 100 + (year - 1) / 400
}

/// The days of a year that lie before a month.
pub open spec fn days_before_month(year: int, month: int) -> int
    decreases month,
{
    if month <= 1 {
        0
    } else {
        days_before_month(year, month - 1) + days_in_month(year, month - 1)
    }
}

/// The seconds from the start of 1970 to a moment.
pub open spec fn unix_seconds(
    year: int,
    month: int,
    day: int,
    hour: int,
    minute: int,
    second: int,
) -> int {
    let days = days_before_year(year) - days_before_year(1970) + days_before_month(year, month)
        + day - 1;
    86400 * days + 3600 * hour + 60 * minute + second
}

/// `chrono::Utc.with_ymd_and_hms` followed by `DateTime::timestamp`.
///
/// Taken on trust: a date of the Gregorian calendar and a time of day make
/// a moment, and its timestamp counts the seconds since the start of 1970,
/// every day having 86400 of them.
#[verifier::external_body]
pub(crate) fn utc_timestamp(
    year: i32,
    month: u32,
    day: u32,
    hour: u32,
    minute: u32,
    second: u32,
) -> (r: i64)
    requires
        1 <= year <= 9999,
        1 <= month <= 12,
        1 <= day <= days_in_month(year as int, month as int),
        hour < 24,
        minute < 60,
        second < 60,
    ensures
        r == unix_seconds(
            year as int,
            month as int,
            day as int,
            hour as int,
            minute as int,
            second as int,
        ),
{
    chrono::Utc.with_ymd_and_hms(year, month, day, hour, minute, second).unwrap().timestamp()
}

/// Every day has 86400 seconds and follows the one before it, within a month,
/// from month to month and from year to year; and the start of 1970 is where
/// the count begins.
pub proof fn days_follow_each_other(year: int, month: int, day: int)
    requires
        1 <= year,
        1 <= month <= 12,
        1 <= day <= days_in_month(year, month),
    ensures
        unix_seconds(1970, 1, 1, 0, 0, 0) == 0,
        day < days_in_month(year, month) ==> unix_seconds(year, month, day + 1, 0, 0, 0)
            == unix_seconds(year, month, day, 0, 0, 0) + 86400,
        day == days_in_month(year, month) && month < 12 ==> unix_seconds(
            year,
            month + 1,
            1,
            0,
            0,
            0,
        ) == unix_seconds(year, month, day, 0, 0, 0) + 86400,
        day == days_in_month(year, month) && month == 12 ==> unix_seconds(year + 1, 1, 1, 0, 0, 0)
            == unix_seconds(year, month, day, 0, 0, 0) + 86400,
        forall|hour: int, minute: int, second: int| #[trigger]
            unix_seconds(year, month, day, hour, minute, second) == unix_seconds(
                year,
                month,
                day,
                0,
                0,
                0,
            ) + hour * 3600 + minute * 60 + second,
{
    reveal_with_fuel(days_before_month, 13);
}

} // verus!
