use vstd::prelude::*;

use chrono::{DateTime, Months, NaiveDate};

verus! {

/// Seconds in one day.
pub const SECONDS_PER_DAY: i64 = 86400;

/// The day number (days since 1970-01-01) of a calendar date, if it is a valid
/// date in the supported range.
pub uninterp spec fn ymd_epoch_day(year: int, month: int, day: int) -> Option<int>;

/// The `YYYY-MM-DD` text of a day number, if it is in the supported range.
pub uninterp spec fn date_text(epoch_day: int) -> Option<Seq<char>>;

/// The day number that lies `months` calendar months before `epoch_day`,
/// clamped to the end of a shorter month, if it is in the supported range.
pub uninterp spec fn months_before(epoch_day: int, months: int) -> Option<int>;

/// Relies on chrono's `NaiveDate::from_ymd_opt`, and `to_epoch_days` to read the
/// day number of the date it returns.
#[verifier::external_body]
fn epoch_day_from_ymd(year: i32, month: u32, day: u32) -> (r: Option<i32>)
    ensures
        match r {
            Some(d) => ymd_epoch_day(year as int, month as int, day as int) == Some(d as int),
            None => ymd_epoch_day(year as int, month as int, day as int) is None,
        },
{
    match NaiveDate::from_ymd_opt(year, month, day) {
        Some(date) => Some(date.to_epoch_days()),
        None => None,
    }
}

/// Relies on chrono's `NaiveDate::from_epoch_days`, and the `Display` of
/// `NaiveDate` to write the date it returns.
#[verifier::external_body]
pub(crate) fn epoch_day_text(epoch_day: i32) -> (r: Option<String>)
    ensures
        match r {
            Some(s) => date_text(epoch_day as int) == Some(s@),
            None => date_text(epoch_day as int) is None,
        },
{
    match NaiveDate::from_epoch_days(epoch_day) {
        Some(date) => Some(date.to_string()),
        None => None,
    }
}

/// Relies on chrono's `NaiveDate::checked_sub_months`, on the date that
/// `NaiveDate::from_epoch_days` gives for `epoch_day`.
#[verifier::external_body]
pub(crate) fn epoch_day_sub_months(epoch_day: i32, months: u32) -> (r: Option<i32>)
    ensures
        match r {
            Some(d) => months_before(epoch_day as int, months as int) == Some(d as int),
            None => months_before(epoch_day as int, months as int) is None,
        },
{
    let date = NaiveDate::from_epoch_days(epoch_day)?;
    let earlier = date.checked_sub_months(Months::new(months))?;
    Some(earlier.to_epoch_days())
}

/// Relies on chrono's `DateTime::from_timestamp` and `date_naive`: the UTC day of
/// a timestamp is its floor division by the length of a day, and it exists
/// exactly when `NaiveDate::from_epoch_days` accepts that day number.
#[verifier::external_body]
pub(crate) fn epoch_day_of_timestamp(ts: i64) -> (r: Option<i32>)
    ensures
        match r {
            Some(d) => d as int == ts as int / 86400 && date_text(d as int) is Some,
            None => !(i32::MIN <= ts as int / 86400 <= i32::MAX && date_text(
                ts as int / 86400,
            ) is Some),
        },
{
    match DateTime::from_timestamp(ts, 0) {
        Some(dt) => Some(dt.date_naive().to_epoch_days()),
        None => None,
    }
}

/// A calendar day in UTC, as its day number: days since 1970-01-01.
#[derive(Clone, Copy, Debug, PartialEq, Eq)]
pub struct Date {
    pub epoch_day: i32,
}

impl Date {
    /// The date `year`-`month`-`day`, if that date exists in the supported range.
    pub fn from_ymd(year: i32, month: u32, day: u32) -> (r: Option<Date>)
        ensures
            match r {
                Some(d) => ymd_epoch_day(year as int, month as int, day as int) == Some(
                    d.epoch_day as int,
                ),
                None => ymd_epoch_day(year as int, month as int, day as int) is None,
            },
    {
        match epoch_day_from_ymd(year, month, day) {
            Some(d) => Some(Date { epoch_day: d }),
            None => None,
        }
    }

    /// The timestamp of this day's first second, 00:00:00 UTC.
    pub fn start_timestamp(&self) -> (r: i64)
        ensures
            r == day_start(self.epoch_day as int),
    {
        self.epoch_day as i64 * SECONDS_PER_DAY
    }

    /// The timestamp of this day's last second, 23:59:59 UTC.
    pub fn end_timestamp(&self) -> (r: i64)
        ensures
            r == day_end(self.epoch_day as int),
    {
        self.epoch_day as i64 * SECONDS_PER_DAY + (SECONDS_PER_DAY - 1)
    }

    /// The `YYYY-MM-DD` text of this day, if it is in the supported range.
    pub fn label(&self) -> (r: Option<String>)
        ensures
            match r {
                Some(s) => date_text(self.epoch_day as int) == Some(s@),
                None => date_text(self.epoch_day as int) is None,
            },
    {
        epoch_day_text(self.epoch_day)
    }
}

/// The first second of a day.
pub open spec fn day_start(epoch_day: int) -> int {
    epoch_day * 86400
}

/// The last second of a day.
pub open spec fn day_end(epoch_day: int) -> int {
    epoch_day * 86400 + 86399
}

/// The `YYYY-MM-DD` text of the UTC day that holds the timestamp `ts`.
pub open spec fn timestamp_date_text(ts: int) -> Option<Seq<char>> {
    if i32::MIN <= ts / 86400 <= i32::MAX {
        date_text(ts / 86400)
    } else {
        None
    }
}

/// The `YYYY-MM-DD` text of the UTC day that holds `ts`, if it is in range.
pub fn timestamp_label(ts: i64) -> (r: Option<String>)
    ensures
        match r {
            Some(s) => timestamp_date_text(ts as int) == Some(s@),
            None => timestamp_date_text(ts as int) is None,
        },
{
    match epoch_day_of_timestamp(ts) {
        Some(d) => epoch_day_text(d),
        None => None,
    }
}

} // verus!
