use vstd::prelude::*;

verus! {

/// Why computing repository statistics failed.
#[derive(Debug, Clone, PartialEq, Eq)]
pub enum StatsError {
    /// More than one of the start date, days, weeks and months was given.
    ConflictingWindows,
    /// A day count of zero.
    ZeroDays,
    /// A week count of zero.
    ZeroWeeks,
    /// A month count of zero.
    ZeroMonths,
    /// A top-N limit of zero.
    ZeroTop,
    /// A date, given or computed, lies outside the supported calendar range.
    DateOutOfRange,
    /// The resolved start lies after the resolved end.
    StartAfterEnd,
    /// A history line that is not `<timestamp>\t<name>\t<email>`.
    MalformedRecord(String),
    /// A history timestamp field that is not a decimal integer.
    BadTimestamp(String),
    /// A history timestamp whose day lies outside the supported calendar range.
    TimestampOutOfRange(i64),
}

} // verus!
