//! Resolution of a timeframe, or of an explicit pair of dates, into an
//! inclusive window of timestamps: from 00:00:01 of the first day to 23:59:59
//! of the last.
use vstd::prelude::*;
use vstd::arithmetic::div_mod::{lemma_fundamental_div_mod, lemma_mod_multiples_vanish};

use crate::date::{date_of_text, local_secs, local_to_timestamp, parse_date, weekday, LocalDate};
use crate::error::SuaideError;
use crate::text::str_eq;
use crate::timeframe::{timeframe_named, Timeframe};

verus! {

/// First and last day number of the window of `tf` for a date with day number
/// `n` and day of month `dom`.
pub open spec fn window_days(n: int, dom: int, tf: Timeframe) -> (int, int) {
    match tf {
        Timeframe::Today => (n, n),
        Timeframe::Yesterday => (n - 1, n - 1),
        Timeframe::Week => (n - weekday(n), n),
        Timeframe::LastWeek => (n - 7 - weekday(n), n - 7 - weekday(n) + 4),
        Timeframe::Month => (n - (dom - 1), n),
    }
}

/// The window, in local seconds, from 00:00:01 of day `first` to 23:59:59 of
/// day `last`.
pub open spec fn day_window(first: int, last: int) -> (int, int) {
    (local_secs(first, 1), local_secs(last, 86399))
}

/// The window of `tf` around the reference date `d`, in local seconds.
pub open spec fn timeframe_window(d: LocalDate, tf: Timeframe) -> (int, int) {
    let (first, last) = window_days(d.number(), d.day as int, tf);
    day_window(first, last)
}

/// Day of the week (0 for Monday) of a day number that fits in `i32`.
fn weekday_of(n: i32) -> (r: i64)
    ensures
        r as int == weekday(n as int),
        0 <= r < 7,
{
    let shifted: i64 = n as i64 - 1 + 7 * 400_000_000;
    proof {
        lemma_mod_multiples_vanish(400_000_000, n as int - 1, 7);
    }
    shifted % 7
}

/// The window of `timeframe` around `base_date`, in local seconds (seconds of
/// local wall-clock time counted from 1970-01-01 00:00:00).
pub fn local_window(base_date: &LocalDate, timeframe: Timeframe) -> (r: (i64, i64))
    requires
        base_date.wf(),
    ensures
        (r.0 as int, r.1 as int) == timeframe_window(*base_date, timeframe),
{
    let n = base_date.day_number();
    let wd = weekday_of(n);
    let (first, last): (i64, i64) = match timeframe {
        Timeframe::Today => (n as i64, n as i64),
        Timeframe::Yesterday => (n as i64 - 1, n as i64 - 1),
        Timeframe::Week => (n as i64 - wd, n as i64),
        Timeframe::LastWeek => (n as i64 - 7 - wd, n as i64 - 7 - wd + 4),
        Timeframe::Month => (n as i64 - (base_date.day as i64 - 1), n as i64),
    };
    window_between_days(first, last)
}

/// The window from 00:00:01 of day `first` to 23:59:59 of day `last`, in local seconds.
fn window_between_days(first: i64, last: i64) -> (r: (i64, i64))
    requires
        -3_000_000_000 < first < 3_000_000_000,
        -3_000_000_000 < last < 3_000_000_000,
    ensures
        (r.0 as int, r.1 as int) == day_window(first as int, last as int),
{
    let a: i64 = first - 719163;
    let b: i64 = last - 719163;
    assert(-4_000_000_000 * 86400 <= a * 86400 <= 4_000_000_000 * 86400) by (nonlinear_arith)
        requires
            -4_000_000_000 < a < 4_000_000_000,
    ;
    assert(-4_000_000_000 * 86400 <= b * 86400 <= 4_000_000_000 * 86400) by (nonlinear_arith)
        requires
            -4_000_000_000 < b < 4_000_000_000,
    ;
    (a * 86400 + 1, b * 86400 + 86399)
}

/// Whether `ts` is an epoch timestamp of the local wall-clock time `local`: the
/// two differ by a zone offset, which is less than a day.
pub open spec fn near_local(ts: int, local: int) -> bool {
    local - 86400 < ts < local + 86400
}

/// Epoch timestamps of both ends of a window given in local seconds, or
/// `InvalidLocalTime` where an end does not exist in the local time zone.
fn to_timestamps(w: (i64, i64)) -> (r: Result<(i64, i64), SuaideError>)
    ensures
        r matches Ok((s, e)) ==> near_local(s as int, w.0 as int) && near_local(e as int, w.1 as int),
        r is Err ==> r == Err::<(i64, i64), SuaideError>(SuaideError::InvalidLocalTime),
{
    match (local_to_timestamp(w.0), local_to_timestamp(w.1)) {
        (Some(s), Some(e)) => Ok((s, e)),
        _ => Err(SuaideError::InvalidLocalTime),
    }
}

/// The window of `timeframe` around `base_date` as epoch timestamps: the ends of
/// `local_window` placed in the local time zone.
pub fn calculate_duration_from_timeframe(base_date: LocalDate, timeframe: Timeframe) -> (r: Result<(i64, i64), SuaideError>)
    requires
        base_date.wf(),
    ensures
        r matches Ok((s, e)) ==> near_local(s as int, timeframe_window(base_date, timeframe).0)
            && near_local(e as int, timeframe_window(base_date, timeframe).1),
        r is Err ==> r == Err::<(i64, i64), SuaideError>(SuaideError::InvalidLocalTime),
{
    to_timestamps(local_window(&base_date, timeframe))
}

/// Reads a date in the short format (`2020-01-23`), or failing that in the long
/// one (`23 Jan 2020`, `23 January 2020`); neither is `DateFormatError`.
pub fn parse_local_date(s: &str) -> (r: Result<LocalDate, SuaideError>)
    ensures
        r == (match date_of_text(s@) {
            Some(d) => Ok(d),
            None => Err(SuaideError::DateFormatError),
        }),
        r matches Ok(d) ==> d.wf(),
{
    match parse_date(s, "%Y-%m-%d") {
        Ok((y, m, d)) => Ok(LocalDate { year: y, month: m, day: d }),
        Err(_) => match parse_date(s, "%d %B %Y") {
            Ok((y, m, d)) => Ok(LocalDate { year: y, month: m, day: d }),
            Err(_) => Err(SuaideError::DateFormatError),
        },
    }
}

/// The window from 00:00:01 of `from` to 23:59:59 of `to`, in local seconds.
/// The dates are not reordered: `to` before `from` gives a window that holds nothing.
pub fn local_window_between(from: LocalDate, to: LocalDate) -> (r: (i64, i64))
    requires
        from.wf(),
        to.wf(),
    ensures
        (r.0 as int, r.1 as int) == day_window(from.number(), to.number()),
{
    window_between_days(from.day_number() as i64, to.day_number() as i64)
}

/// The window between two dates written as text, in local seconds.
pub fn local_window_from_dates(from: &str, to: &str) -> (r: Result<(i64, i64), SuaideError>)
    ensures
        match (date_of_text(from@), date_of_text(to@)) {
            (Some(a), Some(b)) => r matches Ok((s, e)) && (s as int, e as int) == day_window(a.number(), b.number()),
            _ => r == Err::<(i64, i64), SuaideError>(SuaideError::DateFormatError),
        },
{
    let a = parse_local_date(from)?;
    let b = parse_local_date(to)?;
    Ok(local_window_between(a, b))
}

/// The window between two dates written as text, as epoch timestamps.
pub fn calculate_duration_from_dates(from: &str, to: &str) -> (r: Result<(i64, i64), SuaideError>)
    ensures
        match (date_of_text(from@), date_of_text(to@)) {
            (Some(a), Some(b)) => (r matches Ok((s, e)) ==> near_local(s as int, day_window(a.number(), b.number()).0)
                && near_local(e as int, day_window(a.number(), b.number()).1))
                && (r is Err ==> r == Err::<(i64, i64), SuaideError>(SuaideError::InvalidLocalTime)),
            _ => r == Err::<(i64, i64), SuaideError>(SuaideError::DateFormatError),
        },
{
    let w = local_window_from_dates(from, to)?;
    to_timestamps(w)
}

/// The window that a listing covers: the two dates of `duration` when given
/// (anything but two values is `IncorrectArgs`), else everything from the
/// epoch to `now` for the timeframe `all`, else the named timeframe around
/// `today` (an unknown name is `IncorrectArgs`).
pub fn list_window(duration: Option<Vec<String>>, timeframe: &str, today: LocalDate, now: i64) -> (r: Result<(i64, i64), SuaideError>)
    requires
        today.wf(),
    ensures
        match duration {
            Some(d) => if d@.len() != 2 {
                r == Err::<(i64, i64), SuaideError>(SuaideError::IncorrectArgs)
            } else {
                match (date_of_text(d@[0]@), date_of_text(d@[1]@)) {
                    (Some(a), Some(b)) => (r matches Ok((s, e)) ==> near_local(s as int, day_window(a.number(), b.number()).0)
                        && near_local(e as int, day_window(a.number(), b.number()).1))
                        && (r is Err ==> r == Err::<(i64, i64), SuaideError>(SuaideError::InvalidLocalTime)),
                    _ => r == Err::<(i64, i64), SuaideError>(SuaideError::DateFormatError),
                }
            },
            None => if timeframe@ == "all"@ {
                r == Ok::<(i64, i64), SuaideError>((0, now))
            } else {
                match timeframe_named(timeframe@) {
                    Some(tf) => (r matches Ok((s, e)) ==> near_local(s as int, timeframe_window(today, tf).0)
                        && near_local(e as int, timeframe_window(today, tf).1))
                        && (r is Err ==> r == Err::<(i64, i64), SuaideError>(SuaideError::InvalidLocalTime)),
                    None => r == Err::<(i64, i64), SuaideError>(SuaideError::IncorrectArgs),
                }
            },
        },
{
    match duration {
        Some(d) => {
            if d.len() != 2 {
                return Err(SuaideError::IncorrectArgs);
            }
            calculate_duration_from_dates(d[0].as_str(), d[1].as_str())
        },
        None => {
            if str_eq(timeframe, "all") {
                Ok((0, now))
            } else {
                let tf = Timeframe::parse(timeframe)?;
                calculate_duration_from_timeframe(today, tf)
            }
        },
    }
}

/// The day `k` days after a Monday falls on weekday `k`.
proof fn lemma_weekday_after_monday(m: int, k: int)
    requires
        weekday(m) == 0,
        0 <= k < 7,
    ensures
        weekday(m + k) == k,
{
    lemma_fundamental_div_mod(m - 1, 7);
    let q = (m - 1) / 7;
    assert(m + k - 1 == 7 * q + k);
    lemma_mod_multiples_vanish(q, k, 7);
}

/// The Monday that starts the week of day `n`.
proof fn lemma_monday_of_week(n: int)
    ensures
        weekday(n - weekday(n)) == 0,
        n - weekday(n) <= n < n - weekday(n) + 7,
{
    let w = weekday(n);
    lemma_fundamental_div_mod(n - 1, 7);
    let q = (n - 1) / 7;
    assert(n - w - 1 == 7 * q);
    lemma_mod_multiples_vanish(q, 0, 7);
}

/// A Monday within the six days before `n` is the Monday of `n`'s week.
proof fn lemma_monday_unique(n: int, m: int)
    requires
        weekday(m) == 0,
        m <= n < m + 7,
    ensures
        m == n - weekday(n),
{
    lemma_weekday_after_monday(m, n - m);
}

/// Today's window runs from 00:00:01 to 23:59:59 of the reference day: 86398
/// seconds, start before end.
pub proof fn lemma_today_window(d: LocalDate)
    requires
        d.wf(),
    ensures
        timeframe_window(d, Timeframe::Today).0 <= timeframe_window(d, Timeframe::Today).1,
        timeframe_window(d, Timeframe::Today).1 - timeframe_window(d, Timeframe::Today).0 == 86398,
{
}

/// Yesterday's window of a date is today's window of the day before it,
/// across month and year ends alike.
pub proof fn lemma_yesterday_is_previous_today(d: LocalDate, prev: LocalDate)
    requires
        d.wf(),
        prev.wf(),
        prev.number() == d.number() - 1,
    ensures
        timeframe_window(d, Timeframe::Yesterday) == timeframe_window(prev, Timeframe::Today),
{
}

/// The week window starts at 00:00:01 of a Monday, the Monday of the reference
/// date's week (the only Monday among the reference day and the six before
/// it), and ends at 23:59:59 of the reference day.
pub proof fn lemma_week_starts_monday(d: LocalDate, monday: int)
    requires
        d.wf(),
        weekday(monday) == 0,
        monday <= d.number() < monday + 7,
    ensures
        timeframe_window(d, Timeframe::Week) == day_window(monday, d.number()),
        timeframe_window(d, Timeframe::Week).0 == local_secs(monday, 1),
{
    lemma_monday_unique(d.number(), monday);
}

/// Whatever the weekday of the reference date, the last-week window runs from
/// 00:00:01 of the Monday to 23:59:59 of the Friday of the week before its own.
pub proof fn lemma_last_week_is_previous_business_week(d: LocalDate, monday: int)
    requires
        d.wf(),
        weekday(monday) == 0,
        monday <= d.number() < monday + 7,
    ensures
        timeframe_window(d, Timeframe::LastWeek) == day_window(monday - 7, monday - 7 + 4),
        weekday(monday - 7) == 0,
        weekday(monday - 7 + 4) == 4,
{
    lemma_monday_unique(d.number(), monday);
    lemma_monday_of_week(d.number());
    assert(weekday(monday - 7) == 0) by {
        lemma_fundamental_div_mod(monday - 1, 7);
        let q = (monday - 1) / 7;
        assert(monday - 7 - 1 == 7 * (q - 1));
        lemma_mod_multiples_vanish(q - 1, 0, 7);
    }
    lemma_weekday_after_monday(monday - 7, 4);
}

/// Every day has a Monday that starts its week.
pub proof fn lemma_every_week_has_monday(n: int)
    ensures
        weekday(n - weekday(n)) == 0,
        n - weekday(n) <= n < n - weekday(n) + 7,
{
    lemma_monday_of_week(n);
}

} // verus!
