use vstd::prelude::*;

use crate::dates::{
    date_text, day_end, day_start, epoch_day_of_timestamp, epoch_day_sub_months, epoch_day_text,
    months_before, timestamp_date_text, timestamp_label, Date, SECONDS_PER_DAY,
};
use crate::error::StatsError;
use crate::text::{decimal, decimal_text};

verus! {

/// Seconds in one week.
pub const SECONDS_PER_WEEK: i64 = 604800;

/// The options of a statistics run.
pub struct RepoStatsOptions {
    /// Only the last N days.
    pub days: Option<u32>,
    /// Only the last N weeks.
    pub weeks: Option<u32>,
    /// Only the last N months.
    pub months: Option<u32>,
    /// Only from this date on.
    pub from: Option<Date>,
    /// Only through this date (else up to the latest commit).
    pub to: Option<Date>,
    /// Only the N most active authors.
    pub top: Option<usize>,
    /// Name filters (case-insensitive substrings); empty means any name.
    pub names: Vec<String>,
    /// Email filters (case-insensitive substrings); empty means any email.
    pub emails: Vec<String>,
}

impl Default for RepoStatsOptions {
    fn default() -> (r: Self)
        ensures
            r.days is None && r.weeks is None && r.months is None,
            r.from is None && r.to is None && r.top is None,
            r.names@.len() == 0 && r.emails@.len() == 0,
    {
        RepoStatsOptions {
            days: None,
            weeks: None,
            months: None,
            from: None,
            to: None,
            top: None,
            names: Vec::new(),
            emails: Vec::new(),
        }
    }
}

/// The window of commits to count.
pub struct TimeRange {
    /// First second included; `None` means from the initial commit.
    pub start_ts: Option<i64>,
    /// Last second included; `i64::MAX` when the end is the latest commit.
    pub end_ts: i64,
    pub start_label: String,
    pub end_label: String,
    /// The end is the latest commit, and its label is known only afterwards.
    pub end_is_latest: bool,
}

/// A `TimeRange` with its texts as character sequences.
pub struct RangeModel {
    pub start_ts: Option<int>,
    pub end_ts: int,
    pub start_label: Seq<char>,
    pub end_label: Seq<char>,
    pub end_is_latest: bool,
}

impl View for TimeRange {
    type V = RangeModel;

    open spec fn view(&self) -> RangeModel {
        RangeModel {
            start_ts: match self.start_ts {
                Some(s) => Some(s as int),
                None => None,
            },
            end_ts: self.end_ts as int,
            start_label: self.start_label@,
            end_label: self.end_label@,
            end_is_latest: self.end_is_latest,
        }
    }
}

/// How many of the mutually exclusive start specifiers are given.
pub open spec fn window_count(o: &RepoStatsOptions) -> nat {
    (if o.from is Some { 1nat } else { 0 }) + (if o.days is Some { 1nat } else { 0 }) + (
    if o.weeks is Some { 1nat } else { 0 }) + (if o.months is Some { 1nat } else { 0 })
}

/// The instant that a relative window counts back from: the end of the `to`
/// day, else `now`.
pub open spec fn reference_end(o: &RepoStatsOptions, now: int) -> int {
    match o.to {
        Some(d) => day_end(d.epoch_day as int),
        None => now,
    }
}

/// `"<date> (last <count> <unit>[s])"`.
pub open spec fn window_label(date: Seq<char>, count: nat, unit: Seq<char>) -> Seq<char> {
    date + " (last "@ + decimal_text(count) + " "@ + unit + (if count == 1 {
        ""@
    } else {
        "s"@
    }) + ")"@
}

/// A start `count` fixed-length units of `unit_seconds` before the reference end.
pub open spec fn relative_start(
    end: int,
    count: nat,
    unit_seconds: int,
    unit: Seq<char>,
) -> Result<Option<(int, Seq<char>)>, StatsError> {
    let start = end - count * unit_seconds;
    match timestamp_date_text(start) {
        Some(t) => Ok(Some((start, window_label(t, count, unit)))),
        None => Err(StatsError::DateOutOfRange),
    }
}

/// A start `count` calendar months before the reference end's day, at midnight.
pub open spec fn month_start(end: int, count: nat) -> Result<Option<(int, Seq<char>)>, StatsError> {
    let end_day = end / 86400;
    if !(i32::MIN <= end_day <= i32::MAX && date_text(end_day) is Some) {
        Err(StatsError::DateOutOfRange)
    } else {
        match months_before(end_day, count as int) {
            None => Err(StatsError::DateOutOfRange),
            Some(d) => match date_text(d) {
                None => Err(StatsError::DateOutOfRange),
                Some(t) => Ok(Some((day_start(d), window_label(t, count, "month"@)))),
            },
        }
    }
}

/// The resolved start and its label, or `None` for "from the initial commit".
pub open spec fn resolved_start(o: &RepoStatsOptions, now: int) -> Result<
    Option<(int, Seq<char>)>,
    StatsError,
> {
    let end = reference_end(o, now);
    if o.from is Some {
        let d = o.from->0.epoch_day as int;
        match date_text(d) {
            Some(t) => Ok(Some((day_start(d), t))),
            None => Err(StatsError::DateOutOfRange),
        }
    } else if o.days is Some {
        if o.days->0 == 0 {
            Err(StatsError::ZeroDays)
        } else {
            relative_start(end, o.days->0 as nat, 86400, "day"@)
        }
    } else if o.weeks is Some {
        if o.weeks->0 == 0 {
            Err(StatsError::ZeroWeeks)
        } else {
            relative_start(end, o.weeks->0 as nat, 604800, "week"@)
        }
    } else if o.months is Some {
        if o.months->0 == 0 {
            Err(StatsError::ZeroMonths)
        } else {
            month_start(end, o.months->0 as nat)
        }
    } else {
        Ok(None)
    }
}

/// A resolved start that lies after `end`.
pub open spec fn starts_after(start: Option<(int, Seq<char>)>, end: int) -> bool {
    match start {
        Some(s) => s.0 > end,
        None => false,
    }
}

/// The window that the options describe, at the instant `now`, or why there is
/// none.
pub open spec fn resolved(o: &RepoStatsOptions, now: int) -> Result<RangeModel, StatsError> {
    let end_label = match o.to {
        Some(d) => date_text(d.epoch_day as int),
        None => Some("latest commit"@),
    };
    if window_count(o) > 1 {
        Err(StatsError::ConflictingWindows)
    } else if end_label is None {
        Err(StatsError::DateOutOfRange)
    } else {
        match resolved_start(o, now) {
            Err(e) => Err(e),
            Ok(start) => {
                if starts_after(start, reference_end(o, now)) {
                    Err(StatsError::StartAfterEnd)
                } else {
                    Ok(
                        RangeModel {
                            start_ts: match start {
                                Some(s) => Some(s.0),
                                None => None,
                            },
                            end_ts: match o.to {
                                Some(d) => day_end(d.epoch_day as int),
                                None => i64::MAX as int,
                            },
                            start_label: match start {
                                Some(s) => s.1,
                                None => "initial commit"@,
                            },
                            end_label: end_label->0,
                            end_is_latest: o.to is None,
                        },
                    )
                }
            },
        }
    }
}

/// `"<date> (last <count> <unit>[s])"`.
fn make_window_label(date: String, count: u32, unit: &str) -> (r: String)
    ensures
        r@ == window_label(date@, count as nat, unit@),
{
    let mut out = date;
    out.append(" (last ");
    let digits = decimal(count as u64);
    out.append(digits.as_str());
    out.append(" ");
    out.append(unit);
    if count != 1 {
        out.append("s");
    } else {
        out.append("");
    }
    out.append(")");
    out
}

/// A start `count` units of `unit_seconds` before `end`, with its label.
fn make_relative_start(end: i64, count: u32, unit_seconds: i64, unit: &str) -> (r: Result<
    (i64, String),
    StatsError,
>)
    requires
        unit_seconds == 86400 || unit_seconds == 604800,
    ensures
        match r {
            Ok(s) => relative_start(end as int, count as nat, unit_seconds as int, unit@) == Ok::<
                Option<(int, Seq<char>)>,
                StatsError,
            >(Some((s.0 as int, s.1@))),
            Err(e) => relative_start(end as int, count as nat, unit_seconds as int, unit@) == Err::<
                Option<(int, Seq<char>)>,
                StatsError,
            >(e),
        },
{
    let span: i64 = count as i64 * unit_seconds;
    match end.checked_sub(span) {
        None => {
            assert(timestamp_date_text(end - count * unit_seconds) is None) by {
                assert(end - count * unit_seconds < i64::MIN);
                assert((end - count * unit_seconds) / 86400 < i32::MIN);
            }
            Err(StatsError::DateOutOfRange)
        },
        Some(start) => match timestamp_label(start) {
            None => Err(StatsError::DateOutOfRange),
            Some(date) => Ok((start, make_window_label(date, count, unit))),
        },
    }
}

/// A start `count` calendar months before the day of `end`, with its label.
fn make_month_start(end: i64, count: u32) -> (r: Result<(i64, String), StatsError>)
    ensures
        match r {
            Ok(s) => month_start(end as int, count as nat) == Ok::<
                Option<(int, Seq<char>)>,
                StatsError,
            >(Some((s.0 as int, s.1@))),
            Err(e) => month_start(end as int, count as nat) == Err::<
                Option<(int, Seq<char>)>,
                StatsError,
            >(e),
        },
{
    let end_day = match epoch_day_of_timestamp(end) {
        None => return Err(StatsError::DateOutOfRange),
        Some(d) => d,
    };
    let start_day = match epoch_day_sub_months(end_day, count) {
        None => return Err(StatsError::DateOutOfRange),
        Some(d) => d,
    };
    match epoch_day_text(start_day) {
        None => Err(StatsError::DateOutOfRange),
        Some(date) => {
            let start = Date { epoch_day: start_day }.start_timestamp();
            Ok((start, make_window_label(date, count, "month")))
        },
    }
}

/// Resolves the window of commits to count, at the instant `now` (a timestamp).
pub fn resolve_time_range(options: &RepoStatsOptions, now: i64) -> (r: Result<
    TimeRange,
    StatsError,
>)
    ensures
        match r {
            Ok(t) => resolved(options, now as int) == Ok::<RangeModel, StatsError>(t@),
            Err(e) => resolved(options, now as int) == Err::<RangeModel, StatsError>(e),
        },
{
    let given: u32 = (if options.from.is_some() { 1u32 } else { 0 }) + (if options.days.is_some() {
        1u32
    } else {
        0
    }) + (if options.weeks.is_some() { 1u32 } else { 0 }) + (if options.months.is_some() {
        1u32
    } else {
        0
    });
    if given > 1 {
        return Err(StatsError::ConflictingWindows);
    }
    let (reference_end_ts, end_ts, end_label, end_is_latest) = match options.to {
        Some(to) => match to.label() {
            None => return Err(StatsError::DateOutOfRange),
            Some(label) => (to.end_timestamp(), to.end_timestamp(), label, false),
        },
        None => (now, i64::MAX, String::from_str("latest commit"), true),
    };
    let start: Option<(i64, String)> = if let Some(from) = options.from {
        match from.label() {
            None => return Err(StatsError::DateOutOfRange),
            Some(label) => Some((from.start_timestamp(), label)),
        }
    } else if let Some(days) = options.days {
        if days == 0 {
            return Err(StatsError::ZeroDays);
        }
        match make_relative_start(reference_end_ts, days, SECONDS_PER_DAY, "day") {
            Err(e) => return Err(e),
            Ok(s) => Some(s),
        }
    } else if let Some(weeks) = options.weeks {
        if weeks == 0 {
            return Err(StatsError::ZeroWeeks);
        }
        match make_relative_start(reference_end_ts, weeks, SECONDS_PER_WEEK, "week") {
            Err(e) => return Err(e),
            Ok(s) => Some(s),
        }
    } else if let Some(months) = options.months {
        if months == 0 {
            return Err(StatsError::ZeroMonths);
        }
        match make_month_start(reference_end_ts, months) {
            Err(e) => return Err(e),
            Ok(s) => Some(s),
        }
    } else {
        None
    };
    match start {
        Some((start_ts, start_label)) => {
            if start_ts > reference_end_ts {
                return Err(StatsError::StartAfterEnd);
            }
            Ok(
                TimeRange {
                    start_ts: Some(start_ts),
                    end_ts,
                    start_label,
                    end_label,
                    end_is_latest,
                },
            )
        },
        None => Ok(
            TimeRange {
                start_ts: None,
                end_ts,
                start_label: String::from_str("initial commit"),
                end_label,
                end_is_latest,
            },
        ),
    }
}

} // verus!

verus! {

/// A day count and a week count together are rejected.
pub proof fn lemma_days_with_weeks_rejected(o: &RepoStatsOptions, now: int)
    requires
        o.days is Some,
        o.weeks is Some,
    ensures
        resolved(o, now) == Err::<RangeModel, StatsError>(StatsError::ConflictingWindows),
{
}

/// A month count of zero is rejected.
pub proof fn lemma_zero_months_rejected(o: &RepoStatsOptions, now: int)
    requires
        o.months == Some(0u32),
    ensures
        resolved(o, now) is Err,
{
}

/// A start date after the end date is rejected.
pub proof fn lemma_from_after_to_rejected(o: &RepoStatsOptions, now: int)
    requires
        o.from is Some,
        o.to is Some,
        o.from->0.epoch_day > o.to->0.epoch_day,
    ensures
        resolved(o, now) is Err,
{
}

} // verus!

verus! {

/// Checks the options of a statistics run before any history is read: the
/// window must resolve, and a top-N limit must be at least one.
pub fn validate_stats_options(options: &RepoStatsOptions, now: i64) -> (r: Result<
    TimeRange,
    StatsError,
>)
    ensures
        match r {
            Ok(t) => resolved(options, now as int) == Ok::<RangeModel, StatsError>(t@)
                && options.top != Some(0usize),
            Err(e) => resolved(options, now as int) == Err::<RangeModel, StatsError>(e) || (
            resolved(options, now as int) is Ok && options.top == Some(0usize) && e
                == StatsError::ZeroTop),
        },
{
    let range = resolve_time_range(options, now)?;
    if let Some(top) = options.top {
        if top == 0 {
            return Err(StatsError::ZeroTop);
        }
    }
    Ok(range)
}

} // verus!
