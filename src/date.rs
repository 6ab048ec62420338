//! Calendar dates of the local time zone, their day numbers, and the
//! conversions that only the time library can do.
use vstd::prelude::*;

use chrono::Datelike;
use chrono::TimeZone;

verus! {

#[verifier::external_type_specification]
#[verifier::external_body]
pub struct ExParseError(chrono::ParseError);

/// The first and last year that the time library represents.
pub open spec fn year_in_range(y: int) -> bool {
    -262143 <= y <= 262142
}

pub open spec fn is_leap_year(y: int) -> bool {
    (y % 4 == 0 && y % 100 != 0) || y % 400 == 0
}

pub open spec fn month_length(y: int, m: int) -> int {
    if m == 2 {
        if is_leap_year(y) {
            29
        } else {
            28
        }
    } else if m == 4 || m == 6 || m == 9 || m == 11 {
        30
    } else {
        31
    }
}

/// A day of the proleptic Gregorian calendar.
pub open spec fn valid_ymd(y: int, m: int, d: int) -> bool {
    1 <= m <= 12 && 1 <= d <= month_length(y, m)
}

/// Days of the year before the first of month `m`.
pub open spec fn days_before_month(y: int, m: int) -> int
    decreases m,
{
    if m <= 1 {
        0
    } else {
        days_before_month(y, m - 1) + month_length(y, m - 1)
    }
}

/// Days from 0001-01-01 to the first of January of year `y`.
pub open spec fn days_before_year(y: int) -> int {
    let p = y - 1;
    365 * p + p / 4 - p / 100 + p / 400
}

/// The day number of a date, counting 0001-01-01 as day 1.
pub open spec fn ce_day(y: int, m: int, d: int) -> int {
    days_before_year(y) + days_before_month(y, m) + d
}

/// The day number of 1970-01-01.
pub open spec fn unix_epoch_day() -> int {
    719163
}

/// Day of the week of a day number: 0 for Monday up to 6 for Sunday
/// (0001-01-01 was a Monday).
pub open spec fn weekday(n: int) -> int {
    (n - 1) % 7
}

/// Seconds of local wall-clock time, counted from 1970-01-01 00:00:00 local
/// time, at `secs` seconds into day number `n`.
pub open spec fn local_secs(n: int, secs: int) -> int {
    (n - unix_epoch_day()) * 86400 + secs
}

/// A calendar date in the local time zone.
#[derive(Debug, Clone, Copy, PartialEq, Eq, Structural)]
pub struct LocalDate {
    pub year: i32,
    pub month: u32,
    pub day: u32,
}

impl LocalDate {
    /// A real calendar date within the years that the time library represents.
    pub open spec fn wf(self) -> bool {
        year_in_range(self.year as int) && valid_ymd(self.year as int, self.month as int, self.day as int)
    }

    /// The day number of the date (0001-01-01 is day 1).
    pub open spec fn number(self) -> int {
        ce_day(self.year as int, self.month as int, self.day as int)
    }

    /// The date, if `year`, `month` and `day` name one.
    pub fn new(year: i32, month: u32, day: u32) -> (r: Option<LocalDate>)
        ensures
            r is Some <==> (year_in_range(year as int) && valid_ymd(year as int, month as int, day as int)),
            r matches Some(d) ==> d.wf() && d.year == year && d.month == month && d.day == day,
    {
        match ce_day_number(year, month, day) {
            Some(_) => Some(LocalDate { year, month, day }),
            None => None,
        }
    }

    /// The day number of the date (0001-01-01 is day 1).
    pub fn day_number(&self) -> (r: i32)
        requires
            self.wf(),
        ensures
            r as int == self.number(),
    {
        ce_day_number(self.year, self.month, self.day).unwrap()
    }
}

/// Relies on chrono's `NaiveDate::from_ymd_opt`, which gives a date exactly for
/// the calendar dates of years -262143 to 262142, and on `num_days_from_ce`,
/// which counts days with 0001-01-01 as day 1.
#[verifier::external_body]
fn ce_day_number(year: i32, month: u32, day: u32) -> (r: Option<i32>)
    ensures
        r is Some <==> (year_in_range(year as int) && valid_ymd(year as int, month as int, day as int)),
        r matches Some(n) ==> n as int == ce_day(year as int, month as int, day as int),
{
    chrono::NaiveDate::from_ymd_opt(year, month, day).map(|d| d.num_days_from_ce())
}

/// The date that `parse_from_str` reads from a text with a format, as year,
/// month and day.
pub uninterp spec fn parsed_date(s: Seq<char>, fmt: Seq<char>) -> Option<(int, int, int)>;

/// Relies on chrono's `NaiveDate::parse_from_str`: the outcome depends on the
/// text and the format alone, and a date it gives is a calendar date of the
/// years it represents.
#[verifier::external_body]
pub(crate) fn parse_date(s: &str, fmt: &str) -> (r: Result<(i32, u32, u32), chrono::ParseError>)
    ensures
        r is Ok <==> parsed_date(s@, fmt@) is Some,
        r matches Ok((y, m, d)) ==> parsed_date(s@, fmt@) == Some((y as int, m as int, d as int))
            && year_in_range(y as int) && valid_ymd(y as int, m as int, d as int),
{
    chrono::NaiveDate::parse_from_str(s, fmt).map(|d| (d.year(), d.month(), d.day()))
}

/// Relies on chrono's `DateTime::from_timestamp` (to read the local seconds as
/// a wall-clock time) and `Local::from_local_datetime` (earliest match): the
/// result is the Unix timestamp of that local time, which differs from it by
/// the zone's offset, always less than a day. `None` where the wall-clock time
/// does not exist in the local zone or is out of range.
#[verifier::external_body]
pub(crate) fn local_to_timestamp(local: i64) -> (r: Option<i64>)
    ensures
        r matches Some(t) ==> local - 86400 < t < local + 86400,
{
    match chrono::DateTime::from_timestamp(local, 0) {
        Some(wall) => chrono::Local.from_local_datetime(&wall.naive_utc()).earliest().map(|dt| dt.timestamp()),
        None => None,
    }
}

/// The short input format: `2020-01-23`.
pub open spec fn short_format() -> Seq<char> {
    "%Y-%m-%d"@
}

/// The long input format: `23 Jan 2020` or `23 January 2020`.
pub open spec fn long_format() -> Seq<char> {
    "%d %B %Y"@
}

/// The date a text denotes: the short format if it reads so, else the long one.
pub open spec fn date_of_text(s: Seq<char>) -> Option<LocalDate> {
    match parsed_date(s, short_format()) {
        Some((y, m, d)) => Some(LocalDate { year: y as i32, month: m as u32, day: d as u32 }),
        None => match parsed_date(s, long_format()) {
            Some((y, m, d)) => Some(LocalDate { year: y as i32, month: m as u32, day: d as u32 }),
            None => None,
        },
    }
}

} // verus!
