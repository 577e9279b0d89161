//! Calendar days as plain day numbers, and the two facts about them that
//! come from chrono: which day is today, and on which weekday a day falls.

use chrono::Datelike;
use vstd::prelude::*;

verus! {

/// The day number of chrono's earliest date, `NaiveDate::MIN`.
pub const MIN_DAY: i32 = -96_465_292;

/// The day number of chrono's latest date, `NaiveDate::MAX`.
pub const MAX_DAY: i32 = 95_026_236;

/// A day number that chrono can turn back into a date.
pub open spec fn valid_day(day: int) -> bool {
    MIN_DAY <= day <= MAX_DAY
}

/// The weekday of a day, counted from Sunday (0) to Saturday (6).
/// Day 0, 1970-01-01, was a Thursday.
pub open spec fn weekday_of(day: int) -> int {
    (day + 4) % 7
}

/// The first Saturday on or after `day`.
pub open spec fn saturday_on_or_after(day: int) -> int {
    day + (6 - weekday_of(day))
}

/// Relies on chrono's `Local::now`, `DateTime::date_naive` and
/// `NaiveDate::to_epoch_days`: the local calendar date now, as a day number.
/// Every `NaiveDate` lies between `NaiveDate::MIN` and `NaiveDate::MAX`.
#[verifier::external_body]
pub(crate) fn today() -> (r: i32)
    ensures
        valid_day(r as int),
{
    chrono::Local::now().date_naive().to_epoch_days()
}

/// Relies on chrono's `NaiveDate::from_epoch_days`, `Datelike::weekday` and
/// `Weekday::num_days_from_sunday`: the weekday of a day, Sunday being 0.
/// `from_epoch_days` returns a date for every day between the two bounds.
#[verifier::external_body]
fn weekday_from_sunday(day: i32) -> (r: u32)
    requires
        valid_day(day as int),
    ensures
        r as int == weekday_of(day as int),
{
    chrono::NaiveDate::from_epoch_days(day).unwrap().weekday().num_days_from_sunday()
}

/// The first Saturday on or after `date`: the last day of the calendar week
/// (Sunday to Saturday) that holds `date`.
pub fn find_next_saturday(date: i32) -> (r: i64)
    requires
        valid_day(date as int),
    ensures
        r as int == saturday_on_or_after(date as int),
        date as int <= r as int <= date as int + 6,
{
    let weekday = weekday_from_sunday(date);
    let days_until_saturday: i64 = 6 - weekday as i64;
    date as i64 + days_until_saturday
}

} // verus!
