//! Calendar timestamps as plain values: a day number in the proleptic
//! Gregorian calendar (day 1 is 0001-01-01, as in chrono's
//! `num_days_from_ce`) together with a second-of-day.  The ISO week
//! calendar and the civil (year, month, day) form of a day number come
//! from chrono through trusted wrappers.

use vstd::prelude::*;

verus! {

/// Smallest day number the library accepts (0001-01-07, so that the Monday
/// of any accepted day's ISO week is itself a valid day number).
pub const MIN_DAY: i32 = 7;

/// Largest day number the library accepts; chrono's calendar ends shortly
/// after it.
pub const MAX_DAY: i32 = 95_000_000;

/// Seconds in a day.
pub const DAY_SECS: u32 = 86_400;

/// A calendar date and time of day.
#[derive(Clone, Copy, Debug, PartialEq, Eq, Structural)]
pub struct Timestamp {
    /// Days since 0000-12-31 (day 1 is 0001-01-01).
    pub day: i32,
    /// Seconds since midnight, below `DAY_SECS`.
    pub sec: u32,
}

impl Timestamp {
    pub open spec fn wf(self) -> bool {
        MIN_DAY <= self.day <= MAX_DAY && self.sec < DAY_SECS
    }
}

/// `a` is at or before `b` in time.
pub open spec fn ts_le(a: Timestamp, b: Timestamp) -> bool {
    a.day < b.day || (a.day == b.day && a.sec <= b.sec)
}

/// Decides `ts_le`.
pub fn ts_le_exec(a: Timestamp, b: Timestamp) -> (r: bool)
    ensures
        r == ts_le(a, b),
{
    a.day < b.day || (a.day == b.day && a.sec <= b.sec)
}

/// Day of the week, Monday through Sunday.
#[derive(Clone, Copy, Debug, PartialEq, Eq, Structural)]
pub enum Weekday {
    Mon,
    Tue,
    Wed,
    Thu,
    Fri,
    Sat,
    Sun,
}

/// Index of a day number in its Monday-started week: day 1 (0001-01-01)
/// was a Monday, so the index is `(day - 1) % 7` with 0 for Monday.
pub open spec fn weekday_index(day: int) -> int {
    (day - 1) % 7
}

pub open spec fn weekday_from_index(i: int) -> Weekday {
    if i == 0 {
        Weekday::Mon
    } else if i == 1 {
        Weekday::Tue
    } else if i == 2 {
        Weekday::Wed
    } else if i == 3 {
        Weekday::Thu
    } else if i == 4 {
        Weekday::Fri
    } else if i == 5 {
        Weekday::Sat
    } else {
        Weekday::Sun
    }
}

/// The weekday of a day number.
pub open spec fn weekday_of_day(day: int) -> Weekday {
    weekday_from_index(weekday_index(day))
}

pub open spec fn is_weekend(w: Weekday) -> bool {
    w == Weekday::Sat || w == Weekday::Sun
}

/// Computes the weekday of a timestamp's date.
pub fn weekday_of(ts: Timestamp) -> (w: Weekday)
    requires
        ts.wf(),
    ensures
        w == weekday_of_day(ts.day as int),
{
    let i: i32 = (ts.day - 1) % 7;
    if i == 0 {
        Weekday::Mon
    } else if i == 1 {
        Weekday::Tue
    } else if i == 2 {
        Weekday::Wed
    } else if i == 3 {
        Weekday::Thu
    } else if i == 4 {
        Weekday::Fri
    } else if i == 5 {
        Weekday::Sat
    } else {
        Weekday::Sun
    }
}

/// ISO 8601 week-calendar year of a day number.
pub uninterp spec fn iso_year_of(day: int) -> int;

/// ISO 8601 week number (1 to 53) of a day number.
pub uninterp spec fn iso_week_of(day: int) -> int;

/// Whether the ISO week calendar contains a week of this year and number.
pub uninterp spec fn valid_iso_yw(y: int, w: int) -> bool;

/// Day number of the Monday that starts a given ISO year and week.
pub uninterp spec fn iso_week_start_of(y: int, w: int) -> int;

/// Relies on chrono's `Datelike::iso_week` on a `NaiveDate` built with
/// `from_num_days_from_ce_opt`, with the `IsoWeek::year` and
/// `IsoWeek::week` accessors: the ISO year and week number of a date are
/// functions of the date alone, and the week number ranges from 1 to 53.
/// The pair reported for an existing date is a week the ISO calendar
/// contains, and ISO weeks run Monday through Sunday, so the Monday that
/// starts the date's week lies at most six days before the date.
#[verifier::external_body]
pub(crate) fn iso_year_week(day: i32) -> (r: (i32, u32))
    requires
        MIN_DAY <= day <= MAX_DAY,
    ensures
        r.0 as int == iso_year_of(day as int),
        r.1 as int == iso_week_of(day as int),
        1 <= r.1 <= 53,
        valid_iso_yw(r.0 as int, r.1 as int),
        day - 6 <= iso_week_start_of(r.0 as int, r.1 as int) <= day,
{
    let d = chrono::NaiveDate::from_num_days_from_ce_opt(day).unwrap();
    let w = chrono::Datelike::iso_week(&d);
    (w.year(), w.week())
}

/// Relies on chrono's `NaiveDate::from_isoywd_opt` and
/// `Datelike::num_days_from_ce`: the date of a given ISO year, week and
/// weekday is a function of those three alone, and the function is defined
/// on every (year, week) pair that the ISO calendar contains.
#[verifier::external_body]
pub(crate) fn iso_week_monday(y: i32, w: u32) -> (r: i32)
    requires
        valid_iso_yw(y as int, w as int),
    ensures
        r as int == iso_week_start_of(y as int, w as int),
{
    let d = chrono::NaiveDate::from_isoywd_opt(y, w, chrono::Weekday::Mon).unwrap();
    chrono::Datelike::num_days_from_ce(&d)
}

/// Civil calendar year of a day number.
pub uninterp spec fn civil_year_of(day: int) -> int;

/// Civil calendar month (1 to 12) of a day number.
pub uninterp spec fn civil_month_of(day: int) -> int;

/// Civil calendar day of month (1 to 31) of a day number.
pub uninterp spec fn civil_dom_of(day: int) -> int;

/// Relies on chrono's `Datelike` accessors `year`, `month` and `day` on a
/// `NaiveDate` built with `from_num_days_from_ce_opt`: the civil year,
/// month and day of month of a date are functions of the date alone; the
/// month is between 1 and 12, the day of month between 1 and 31, and day
/// number 1 already lies in year 1.
#[verifier::external_body]
pub(crate) fn civil_of_day(day: i32) -> (r: (i32, u32, u32))
    requires
        1 <= day <= MAX_DAY + 6,
    ensures
        r.0 as int == civil_year_of(day as int),
        r.1 as int == civil_month_of(day as int),
        r.2 as int == civil_dom_of(day as int),
        1 <= r.0,
        1 <= r.1 <= 12,
        1 <= r.2 <= 31,
{
    let d = chrono::NaiveDate::from_num_days_from_ce_opt(day).unwrap();
    (chrono::Datelike::year(&d), chrono::Datelike::month(&d), chrono::Datelike::day(&d))
}

} // verus!
