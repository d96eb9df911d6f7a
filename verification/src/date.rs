//! Executable calendar dates.
//!
//! [`CalendarDate`] holds a year, a month and a day that always form a valid
//! Gregorian date. The calendar computations themselves are done by `chrono`;
//! the functions of this module that call it state, over the model of
//! [`crate::calendar`], what they rely on.

use crate::calendar::{is_leap_year, lemma_order_is_day_order, month_days, Ymd, MAX_YEAR};
use crate::text::{decimal, four_digits_or_more, two_digits};
use chrono::{Datelike, NaiveDate, NaiveDateTime, NaiveTime, TimeDelta, Timelike};
use vstd::prelude::*;

verus! {

/// A Gregorian calendar date. Every value is a date that exists.
#[derive(Clone, Copy, Debug, PartialEq, Eq, Structural, Hash)]
pub struct CalendarDate {
    year: i32,
    month: u32,
    day: u32,
}

impl View for CalendarDate {
    type V = Ymd;

    closed spec fn view(&self) -> Ymd {
        Ymd { year: self.year as int, month: self.month as int, day: self.day as int }
    }
}

/// The date of a year, a month and a day.
pub open spec fn ymd(year: int, month: int, day: int) -> Ymd {
    Ymd { year, month, day }
}

/// The date made of a year, a month and a day as machine integers.
pub open spec fn triple(t: (i32, u32, u32)) -> Ymd {
    ymd(t.0 as int, t.1 as int, t.2 as int)
}

/// The calendar day before `d`, or `None` where that day is out of range.
pub open spec fn pred_date(d: Ymd) -> Option<Ymd> {
    let p = if d.day > 1 {
        ymd(d.year, d.month, d.day - 1)
    } else if d.month > 1 {
        ymd(d.year, d.month - 1, month_days(d.year, d.month - 1))
    } else {
        ymd(d.year - 1, 12, 31)
    };
    if p.valid() {
        Some(p)
    } else {
        None
    }
}

/// The length of a month: the days that the calendar gives it, and 30 for a
/// month that is not one of a year in range.
pub open spec fn month_length(year: int, month: int) -> int {
    if ymd(year, month, 1).valid() {
        month_days(year, month)
    } else {
        30
    }
}

/// Whether `result` is the date `days` days after `base`.
pub open spec fn is_date_after(base: Ymd, days: int, result: Ymd) -> bool {
    result.valid() && result.day_number() == base.day_number() + days
}

/// The date `days` days after `base` (before it, for a negative number), or
/// `None` where that day is out of range.
pub open spec fn date_plus_days(base: Ymd, days: int) -> Option<Ymd> {
    if exists|result: Ymd| is_date_after(base, days, result) {
        Some(choose|result: Ymd| is_date_after(base, days, result))
    } else {
        None
    }
}

/// There is one date at most at a given distance from another, so a date
/// that is at that distance is the one that `date_plus_days` names.
pub proof fn lemma_date_plus_days_unique(base: Ymd, days: int, result: Ymd)
    requires
        is_date_after(base, days, result),
    ensures
        date_plus_days(base, days) == Some(result),
{
    let chosen = choose|r: Ymd| is_date_after(base, days, r);
    lemma_order_is_day_order(chosen, result);
}

/// `d` with its year replaced, where that date exists.
pub open spec fn with_year_spec(d: Ymd, year: int) -> Option<Ymd> {
    let r = ymd(year, d.month, d.day);
    if r.valid() {
        Some(r)
    } else {
        None
    }
}

/// `d` moved one calendar year forward: the same month and day in the next
/// year, the day clamped to the length of that month there, so that February
/// 29 moves to February 28. `None` only beyond the last year in range.
pub open spec fn next_year_spec(d: Ymd) -> Option<Ymd> {
    let length = month_length(d.year + 1, d.month);
    let day = if d.day < length {
        d.day
    } else {
        length
    };
    let r = ymd(d.year + 1, d.month, day);
    if r.valid() {
        Some(r)
    } else {
        None
    }
}

/// `d` moved by a number of calendar months, the day clamped to the length of
/// the month reached.
pub open spec fn add_months_spec(d: Ymd, months: int) -> Option<Ymd> {
    let total = d.month - 1 + months;
    let year = d.year + total / 12;
    let month = total % 12 + 1;
    let length = month_length(year, month);
    let day = if d.day < length {
        d.day
    } else {
        length
    };
    let r = ymd(year, month, day);
    if r.valid() {
        Some(r)
    } else {
        None
    }
}

/// The ISO 8601 weeks of a year: 53 where January 1 is a Thursday, or a
/// Wednesday in a leap year; 52 otherwise.
pub open spec fn iso_weeks_in_year(year: int) -> int {
    let first = ymd(year, 1, 1).weekday();
    if first == 3 || (first == 2 && is_leap_year(year)) {
        53
    } else {
        52
    }
}

/// The ISO 8601 week number of a date.
pub open spec fn iso_week_spec(d: Ymd) -> int {
    let raw = (d.ordinal() - d.weekday() + 9) / 7;
    if raw < 1 {
        iso_weeks_in_year(d.year - 1)
    } else if raw > iso_weeks_in_year(d.year) {
        1
    } else {
        raw
    }
}

/// A year as ISO 8601 writes it: four digits from 0 to 9999, and an explicit
/// sign before the digits of any other year.
pub open spec fn year_text(year: int) -> Seq<char> {
    if 0 <= year <= 9999 {
        four_digits_or_more(year as nat)
    } else if year > 9999 {
        seq!['+'] + decimal(year as nat)
    } else {
        seq!['-'] + four_digits_or_more((-year) as nat)
    }
}

/// A date as ISO 8601 writes it: year, month and day, with `-` between them.
pub open spec fn iso_date_text(d: Ymd) -> Seq<char> {
    year_text(d.year) + seq!['-'] + two_digits(d.month) + seq!['-'] + two_digits(d.day)
}

/// The English name of a day of the week, 0 for Monday up to 6 for Sunday.
pub open spec fn weekday_name(weekday: int) -> Seq<char> {
    if weekday == 0 {
        "Monday"@
    } else if weekday == 1 {
        "Tuesday"@
    } else if weekday == 2 {
        "Wednesday"@
    } else if weekday == 3 {
        "Thursday"@
    } else if weekday == 4 {
        "Friday"@
    } else if weekday == 5 {
        "Saturday"@
    } else {
        "Sunday"@
    }
}

/// The English name of a month, 1 for January up to 12 for December.
pub open spec fn month_name(month: int) -> Seq<char> {
    if month == 1 {
        "January"@
    } else if month == 2 {
        "February"@
    } else if month == 3 {
        "March"@
    } else if month == 4 {
        "April"@
    } else if month == 5 {
        "May"@
    } else if month == 6 {
        "June"@
    } else if month == 7 {
        "July"@
    } else if month == 8 {
        "August"@
    } else if month == 9 {
        "September"@
    } else if month == 10 {
        "October"@
    } else if month == 11 {
        "November"@
    } else {
        "December"@
    }
}

/// The date that a text spells as `NaiveDate::parse_from_str` reads it with
/// the format `%Y-%m-%d`, as year, month and day; `None` for a text that it
/// rejects.
pub uninterp spec fn iso_date_of(text: Seq<char>) -> Option<(int, int, int)>;

/// Whether a text spells the date `d` in the form `YYYY-MM-DD`.
pub open spec fn reads_as(text: Seq<char>, d: Ymd) -> bool {
    iso_date_of(text) == Some((d.year, d.month, d.day))
}

/// Three machine integers as mathematical ones.
pub open spec fn as_ints(t: Option<(i32, u32, u32)>) -> Option<(int, int, int)> {
    match t {
        Some(t) => Some((t.0 as int, t.1 as int, t.2 as int)),
        None => None,
    }
}

/// A time of day as hour, minute, second and nanosecond. In the last second
/// of a minute the nanoseconds may run up to two seconds' worth, which stands
/// for a leap second.
pub open spec fn valid_time(hour: int, minute: int, second: int, nanosecond: int) -> bool {
    &&& 0 <= hour < 24
    &&& 0 <= minute < 60
    &&& 0 <= second < 60
    &&& 0 <= nanosecond < 2_000_000_000
    &&& (nanosecond < 1_000_000_000 || second == 59)
}

/// A time of day as a clock shows it, `HH:MM:SS`; a leap second shows as
/// second 60.
pub open spec fn time_text(hour: int, minute: int, second: int, nanosecond: int) -> Seq<char> {
    two_digits(hour) + seq![':'] + two_digits(minute) + seq![':'] + two_digits(
        second + nanosecond / 1_000_000_000,
    )
}

/// A date with a time of day, as a mathematical value.
pub struct Moment {
    pub date: Ymd,
    pub hour: int,
    pub minute: int,
    pub second: int,
    pub nanosecond: int,
}

impl Moment {
    /// The date exists and the time of day is one of that day.
    pub open spec fn valid(self) -> bool {
        self.date.valid() && valid_time(self.hour, self.minute, self.second, self.nanosecond)
    }
}

/// The moment made of seven numbers.
pub open spec fn moment_of(t: (int, int, int, int, int, int, int)) -> Moment {
    Moment { date: ymd(t.0, t.1, t.2), hour: t.3, minute: t.4, second: t.5, nanosecond: t.6 }
}

/// The date and time that a text spells as `NaiveDateTime::parse_from_str`
/// reads it with the format `%Y-%m-%dT%H:%M:%S`, as year, month, day, hour,
/// minute, second and nanosecond; `None` for a text that it rejects.
pub uninterp spec fn iso_datetime_of(text: Seq<char>) -> Option<(int, int, int, int, int, int, int)>;

/// Seven machine integers as mathematical ones.
pub open spec fn as_seven_ints(t: Option<(i32, u32, u32, u32, u32, u32, u32)>) -> Option<
    (int, int, int, int, int, int, int),
> {
    match t {
        Some(t) => Some(
            (t.0 as int, t.1 as int, t.2 as int, t.3 as int, t.4 as int, t.5 as int, t.6 as int),
        ),
        None => None,
    }
}

/// `NaiveDate::from_ymd_opt`, read back by `Datelike::year`, `month` and
/// `day`: the three numbers come back where they form a date that exists and
/// whose year is in range, and nothing comes back otherwise.
#[verifier::external_body]
fn chrono_from_ymd_opt(year: i32, month: u32, day: u32) -> (r: Option<(i32, u32, u32)>)
    ensures
        r == if ymd(year as int, month as int, day as int).valid() {
            Some((year, month, day))
        } else {
            None
        },
{
    NaiveDate::from_ymd_opt(year, month, day).map(|d| (d.year(), d.month(), d.day()))
}

/// `Datelike::with_year` on the `NaiveDate` that `NaiveDate::from_ymd_opt`
/// makes of `date`: the same month and day in another year, or nothing where
/// that date does not exist (February 29 in a common year) or the year is out
/// of range.
#[verifier::external_body]
fn chrono_with_year(date: (i32, u32, u32), year: i32) -> (r: Option<(i32, u32, u32)>)
    requires
        triple(date).valid(),
    ensures
        r == if ymd(year as int, date.1 as int, date.2 as int).valid() {
            Some((year, date.1, date.2))
        } else {
            None
        },
{
    let d = NaiveDate::from_ymd_opt(date.0, date.1, date.2)?;
    d.with_year(year).map(|d| (d.year(), d.month(), d.day()))
}

/// `NaiveDate::pred_opt` on the `NaiveDate` that `NaiveDate::from_ymd_opt`
/// makes of `date`: the previous calendar day, or nothing before the first
/// date in range.
#[verifier::external_body]
fn chrono_pred_opt(date: (i32, u32, u32)) -> (r: Option<(i32, u32, u32)>)
    requires
        triple(date).valid(),
    ensures
        match (r, pred_date(triple(date))) {
            (Some(t), Some(p)) => triple(t) == p,
            (None, None) => true,
            _ => false,
        },
{
    let d = NaiveDate::from_ymd_opt(date.0, date.1, date.2)?;
    d.pred_opt().map(|d| (d.year(), d.month(), d.day()))
}

/// `NaiveDate - NaiveDate` (`NaiveDate::signed_duration_since`) and
/// `TimeDelta::num_days`, on the dates that `NaiveDate::from_ymd_opt` makes of
/// `from` and `to`: the number of days from `from` to `to`, negative where
/// `to` is the earlier date.
#[verifier::external_body]
fn chrono_days_between(from: (i32, u32, u32), to: (i32, u32, u32)) -> (days: i64)
    requires
        triple(from).valid(),
        triple(to).valid(),
    ensures
        days == triple(to).day_number() - triple(from).day_number(),
{
    let from = NaiveDate::from_ymd_opt(from.0, from.1, from.2).unwrap();
    let to = NaiveDate::from_ymd_opt(to.0, to.1, to.2).unwrap();
    (to - from).num_days()
}

/// `NaiveDate::checked_add_signed` with the `TimeDelta` that
/// `TimeDelta::try_days` makes of `days`, on the date that
/// `NaiveDate::from_ymd_opt` makes of `date`: the date that many days later
/// (earlier for a negative number), or nothing where no date in range is at
/// that distance. A number of days too large for a `TimeDelta` is far larger
/// than the range of dates.
#[verifier::external_body]
fn chrono_add_days(date: (i32, u32, u32), days: i64) -> (r: Option<(i32, u32, u32)>)
    requires
        triple(date).valid(),
    ensures
        match r {
            Some(t) => {
                &&& triple(t).valid()
                &&& triple(t).day_number() == triple(date).day_number() + days
            },
            None => forall|t: Ymd|
                t.valid() ==> #[trigger] t.day_number() != triple(date).day_number() + days,
        },
{
    let d = NaiveDate::from_ymd_opt(date.0, date.1, date.2)?;
    d.checked_add_signed(TimeDelta::try_days(days)?).map(|d| (d.year(), d.month(), d.day()))
}

/// `Datelike::weekday` on the `NaiveDate` that `NaiveDate::from_ymd_opt` makes
/// of `date`, as `Weekday::num_days_from_monday` counts it: 0 for Monday up to
/// 6 for Sunday. Day 1 of the calendar, January 1 of year 1, is a Monday.
#[verifier::external_body]
fn chrono_weekday(date: (i32, u32, u32)) -> (w: u32)
    requires
        triple(date).valid(),
    ensures
        w == triple(date).weekday(),
{
    NaiveDate::from_ymd_opt(date.0, date.1, date.2).unwrap().weekday().num_days_from_monday()
}

/// `Datelike::ordinal` on the `NaiveDate` that `NaiveDate::from_ymd_opt` makes
/// of `date`: the day of the year, from 1.
#[verifier::external_body]
fn chrono_ordinal(date: (i32, u32, u32)) -> (n: u32)
    requires
        triple(date).valid(),
    ensures
        n == triple(date).ordinal(),
{
    NaiveDate::from_ymd_opt(date.0, date.1, date.2).unwrap().ordinal()
}

/// `Datelike::iso_week` and `IsoWeek::week` on the `NaiveDate` that
/// `NaiveDate::from_ymd_opt` makes of `date`: the ISO 8601 week number, from 1
/// to 53. Weeks start on Monday, and the first week of a year is the one that
/// holds its first Thursday.
#[verifier::external_body]
fn chrono_iso_week(date: (i32, u32, u32)) -> (n: u32)
    requires
        triple(date).valid(),
    ensures
        n == iso_week_spec(triple(date)),
{
    NaiveDate::from_ymd_opt(date.0, date.1, date.2).unwrap().iso_week().week()
}

/// `NaiveDate::leap_year` on the `NaiveDate` that `NaiveDate::from_ymd_opt`
/// makes of `date`: whether the date's year is a leap year.
#[verifier::external_body]
fn chrono_leap_year(date: (i32, u32, u32)) -> (leap: bool)
    requires
        triple(date).valid(),
    ensures
        leap == is_leap_year(date.0 as int),
{
    NaiveDate::from_ymd_opt(date.0, date.1, date.2).unwrap().leap_year()
}

/// `NaiveDate::parse_from_str` with the format `%Y-%m-%d`: the date that the
/// text spells, which is a date that exists, or nothing for a text that the
/// format rejects.
#[verifier::external_body]
fn chrono_parse_iso_date(text: &str) -> (r: Option<(i32, u32, u32)>)
    ensures
        as_ints(r) == iso_date_of(text@),
        match r {
            Some(t) => triple(t).valid(),
            None => true,
        },
{
    let parsed = NaiveDate::parse_from_str(text, "%Y-%m-%d").ok();
    parsed.map(|d| (d.year(), d.month(), d.day()))
}

/// `NaiveDate::format` with the format `%Y-%m-%d`, on the `NaiveDate` that
/// `NaiveDate::from_ymd_opt` makes of `date`, written out by `to_string`: the
/// year in four digits, or with a sign where it needs more or is negative,
/// then month and day in two digits each. What is written so is a text that
/// `NaiveDate::parse_from_str` reads back, with the same format, as the same
/// date.
#[verifier::external_body]
fn chrono_format_iso_date(date: (i32, u32, u32)) -> (text: String)
    requires
        triple(date).valid(),
    ensures
        text@ == iso_date_text(triple(date)),
        iso_date_of(text@) == as_ints(Some(date)),
{
    NaiveDate::from_ymd_opt(date.0, date.1, date.2).unwrap().format("%Y-%m-%d").to_string()
}

/// `NaiveDate::format` with the format `%A`, on the `NaiveDate` that
/// `NaiveDate::from_ymd_opt` makes of `date`, written out by `to_string`: the
/// English name of the day of the week.
#[verifier::external_body]
fn chrono_format_weekday(date: (i32, u32, u32)) -> (text: String)
    requires
        triple(date).valid(),
    ensures
        text@ == weekday_name(triple(date).weekday()),
{
    NaiveDate::from_ymd_opt(date.0, date.1, date.2).unwrap().format("%A").to_string()
}

/// `NaiveDate::format` with the format `%B`, on the `NaiveDate` that
/// `NaiveDate::from_ymd_opt` makes of `date`, written out by `to_string`: the
/// English name of the month.
#[verifier::external_body]
fn chrono_format_month(date: (i32, u32, u32)) -> (text: String)
    requires
        triple(date).valid(),
    ensures
        text@ == month_name(date.1 as int),
{
    NaiveDate::from_ymd_opt(date.0, date.1, date.2).unwrap().format("%B").to_string()
}

/// `NaiveDateTime::parse_from_str` with the format `%Y-%m-%dT%H:%M:%S`: the
/// date and time that the text spells, which exist, or nothing for a text
/// that the format rejects.
#[verifier::external_body]
fn chrono_parse_iso_datetime(text: &str) -> (r: Option<(i32, u32, u32, u32, u32, u32, u32)>)
    ensures
        as_seven_ints(r) == iso_datetime_of(text@),
        match as_seven_ints(r) {
            Some(t) => moment_of(t).valid(),
            None => true,
        },
{
    let parsed = NaiveDateTime::parse_from_str(text, "%Y-%m-%dT%H:%M:%S").ok();
    parsed.map(
        |t| (t.year(), t.month(), t.day(), t.hour(), t.minute(), t.second(), t.nanosecond()),
    )
}

/// `NaiveTime::format` with the format `%H:%M:%S`, on the time that
/// `NaiveTime::from_hms_nano_opt` makes of the four numbers, written out by
/// `to_string`: hour, minute and second in two digits each, a leap second as
/// second 60.
#[verifier::external_body]
fn chrono_format_time(hour: u32, minute: u32, second: u32, nanosecond: u32) -> (text: String)
    requires
        valid_time(hour as int, minute as int, second as int, nanosecond as int),
    ensures
        text@ == time_text(hour as int, minute as int, second as int, nanosecond as int),
{
    let time = NaiveTime::from_hms_nano_opt(hour, minute, second, nanosecond).unwrap();
    time.format("%H:%M:%S").to_string()
}

impl CalendarDate {
    #[verifier::type_invariant]
    spec fn well_formed(self) -> bool {
        self@.valid()
    }

    /// The date of a year, month and day, where that date exists and the year
    /// is in range.
    pub fn from_ymd_opt(year: i32, month: u32, day: u32) -> (r: Option<CalendarDate>)
        ensures
            ymd(year as int, month as int, day as int).valid() ==> r is Some && r->0@ == ymd(
                year as int,
                month as int,
                day as int,
            ),
            !ymd(year as int, month as int, day as int).valid() ==> r is None,
    {
        match chrono_from_ymd_opt(year, month, day) {
            Some(t) => Some(CalendarDate { year: t.0, month: t.1, day: t.2 }),
            None => None,
        }
    }

    /// The year.
    pub fn year(&self) -> (y: i32)
        ensures
            y == self@.year,
            self@.valid(),
    {
        proof {
            use_type_invariant(self);
        }
        self.year
    }

    /// The month, from 1 to 12.
    pub fn month(&self) -> (m: u32)
        ensures
            m == self@.month,
            self@.valid(),
    {
        proof {
            use_type_invariant(self);
        }
        self.month
    }

    /// The day of the month, from 1.
    pub fn day(&self) -> (d: u32)
        ensures
            d == self@.day,
            self@.valid(),
    {
        proof {
            use_type_invariant(self);
        }
        self.day
    }

    fn parts(&self) -> (t: (i32, u32, u32))
        ensures
            triple(t) == self@,
            self@.valid(),
    {
        proof {
            use_type_invariant(self);
        }
        (self.year, self.month, self.day)
    }

    /// Whether `self` is `other` or an earlier date.
    pub fn le(&self, other: &CalendarDate) -> (b: bool)
        ensures
            b == self@.le(other@),
            self@.valid(),
            other@.valid(),
    {
        proof {
            use_type_invariant(self);
            use_type_invariant(other);
        }
        self.year < other.year || (self.year == other.year && (self.month < other.month || (
        self.month == other.month && self.day <= other.day)))
    }

    /// The same month and day in another year, where that date exists.
    pub fn with_year(&self, year: i32) -> (r: Option<CalendarDate>)
        ensures
            match with_year_spec(self@, year as int) {
                Some(d) => r is Some && r->0@ == d,
                None => r is None,
            },
    {
        match chrono_with_year(self.parts(), year) {
            Some(t) => Some(CalendarDate { year: t.0, month: t.1, day: t.2 }),
            None => None,
        }
    }

    /// The number of days from `self` to `other`; negative where `other` is
    /// the earlier date.
    pub fn days_until(&self, other: &CalendarDate) -> (days: i64)
        ensures
            days == other@.day_number() - self@.day_number(),
            self@.valid(),
            other@.valid(),
    {
        chrono_days_between(self.parts(), other.parts())
    }

    /// The date `days` days after `self` (before, for a negative number), or
    /// `None` where that day is out of range.
    pub fn add_days(&self, days: i64) -> (r: Option<CalendarDate>)
        ensures
            match date_plus_days(self@, days as int) {
                Some(d) => r is Some && r->0@ == d,
                None => r is None,
            },
    {
        match chrono_add_days(self.parts(), days) {
            Some(t) => {
                proof {
                    lemma_date_plus_days_unique(
                        self@,
                        days as int,
                        triple(t),
                    );
                }
                Some(CalendarDate { year: t.0, month: t.1, day: t.2 })
            },
            None => {
                assert forall|result: Ymd| !is_date_after(self@, days as int, result) by {
                    if result.valid() {
                        assert(result.day_number() != self@.day_number() + days);
                    }
                }
                None
            },
        }
    }

    /// The day of the week: 0 for Monday up to 6 for Sunday.
    pub fn weekday(&self) -> (w: u32)
        ensures
            w == self@.weekday(),
    {
        chrono_weekday(self.parts())
    }

    /// The day of the year, from 1.
    pub fn ordinal(&self) -> (n: u32)
        ensures
            n == self@.ordinal(),
    {
        chrono_ordinal(self.parts())
    }

    /// The ISO 8601 week number.
    pub fn iso_week(&self) -> (n: u32)
        ensures
            n == iso_week_spec(self@),
    {
        chrono_iso_week(self.parts())
    }

    /// The date that a text spells in the form `YYYY-MM-DD`, or `None` for a
    /// text that is no such date.
    pub fn parse_iso(text: &str) -> (r: Option<CalendarDate>)
        ensures
            match iso_date_of(text@) {
                Some(t) => r is Some && r->0@ == ymd(t.0, t.1, t.2),
                None => r is None,
            },
    {
        match chrono_parse_iso_date(text) {
            Some(t) => Some(CalendarDate { year: t.0, month: t.1, day: t.2 }),
            None => None,
        }
    }

    /// The date in the form `YYYY-MM-DD`, which `parse_iso` reads back as the
    /// same date.
    pub fn format_iso(&self) -> (text: String)
        ensures
            text@ == iso_date_text(self@),
            reads_as(text@, self@),
    {
        chrono_format_iso_date(self.parts())
    }

    /// The English name of the day of the week.
    pub fn weekday_name(&self) -> (text: String)
        ensures
            text@ == weekday_name(self@.weekday()),
    {
        chrono_format_weekday(self.parts())
    }

    /// The English name of the month.
    pub fn month_name(&self) -> (text: String)
        ensures
            text@ == month_name(self@.month),
    {
        chrono_format_month(self.parts())
    }

    /// Whether the year of the date is a leap year.
    pub fn leap_year(&self) -> (leap: bool)
        ensures
            leap == is_leap_year(self@.year),
    {
        chrono_leap_year(self.parts())
    }
}

/// A calendar date with a time of day, without a time zone.
#[derive(Clone, Copy, Debug, PartialEq, Eq, Structural, Hash)]
pub struct LocalDateTime {
    date: CalendarDate,
    hour: u32,
    minute: u32,
    second: u32,
    nanosecond: u32,
}

impl View for LocalDateTime {
    type V = Moment;

    closed spec fn view(&self) -> Moment {
        Moment {
            date: self.date@,
            hour: self.hour as int,
            minute: self.minute as int,
            second: self.second as int,
            nanosecond: self.nanosecond as int,
        }
    }
}

impl LocalDateTime {
    #[verifier::type_invariant]
    spec fn well_formed(self) -> bool {
        self@.valid()
    }

    /// The moment of a date and a time of day, where that time exists.
    pub fn new(date: CalendarDate, hour: u32, minute: u32, second: u32, nanosecond: u32) -> (r:
        Option<LocalDateTime>)
        ensures
            valid_time(hour as int, minute as int, second as int, nanosecond as int) ==> r is Some
                && r->0@ == (Moment {
                date: date@,
                hour: hour as int,
                minute: minute as int,
                second: second as int,
                nanosecond: nanosecond as int,
            }),
            !valid_time(hour as int, minute as int, second as int, nanosecond as int) ==> r is None,
    {
        proof {
            use_type_invariant(&date);
        }
        if hour < 24 && minute < 60 && second < 60 && nanosecond < 2_000_000_000 && (nanosecond
            < 1_000_000_000 || second == 59) {
            Some(LocalDateTime { date, hour, minute, second, nanosecond })
        } else {
            None
        }
    }

    /// The first moment of a date.
    pub fn midnight(date: CalendarDate) -> (r: LocalDateTime)
        ensures
            r@ == (Moment { date: date@, hour: 0, minute: 0, second: 0, nanosecond: 0 }),
    {
        proof {
            use_type_invariant(&date);
        }
        LocalDateTime { date, hour: 0, minute: 0, second: 0, nanosecond: 0 }
    }

    /// The date and time that a text spells in the form `YYYY-MM-DDTHH:MM:SS`,
    /// or `None` for a text that is no such moment.
    pub fn parse_iso(text: &str) -> (r: Option<LocalDateTime>)
        ensures
            match iso_datetime_of(text@) {
                Some(t) => r is Some && r->0@ == moment_of(t),
                None => r is None,
            },
    {
        match chrono_parse_iso_datetime(text) {
            Some(t) => Some(
                LocalDateTime {
                    date: CalendarDate { year: t.0, month: t.1, day: t.2 },
                    hour: t.3,
                    minute: t.4,
                    second: t.5,
                    nanosecond: t.6,
                },
            ),
            None => None,
        }
    }

    /// The date.
    pub fn date(&self) -> (d: CalendarDate)
        ensures
            d@ == self@.date,
            self@.valid(),
    {
        proof {
            use_type_invariant(self);
        }
        self.date
    }

    /// The hour of the day, from 0 to 23.
    pub fn hour(&self) -> (h: u32)
        ensures
            h == self@.hour,
            self@.valid(),
    {
        proof {
            use_type_invariant(self);
        }
        self.hour
    }

    /// The minute of the hour, from 0 to 59.
    pub fn minute(&self) -> (m: u32)
        ensures
            m == self@.minute,
            self@.valid(),
    {
        proof {
            use_type_invariant(self);
        }
        self.minute
    }

    /// The second of the minute, from 0 to 59.
    pub fn second(&self) -> (s: u32)
        ensures
            s == self@.second,
            self@.valid(),
    {
        proof {
            use_type_invariant(self);
        }
        self.second
    }

    /// The nanoseconds since the second began.
    pub fn nanosecond(&self) -> (n: u32)
        ensures
            n == self@.nanosecond,
            self@.valid(),
    {
        proof {
            use_type_invariant(self);
        }
        self.nanosecond
    }

    /// The time of day as a clock shows it, `HH:MM:SS`.
    pub fn format_time(&self) -> (text: String)
        ensures
            text@ == time_text(self@.hour, self@.minute, self@.second, self@.nanosecond),
    {
        proof {
            use_type_invariant(self);
        }
        chrono_format_time(self.hour, self.minute, self.second, self.nanosecond)
    }
}

/// The length of a month: the days that the calendar gives it, and 30 for a
/// month that is not one of a year in range. It is taken as the day before
/// the first of the next month; where that first is beyond the last date in
/// range, the month is the last December and has its 31st.
pub fn days_in_month(year: i32, month: u32) -> (n: u32)
    ensures
        n == month_length(year as int, month as int),
        ymd(year as int, month as int, 1).valid() ==> n == month_days(year as int, month as int),
{
    if chrono_from_ymd_opt(year, month, 1).is_none() {
        return 30;
    }
    let first = if month == 12 {
        chrono_from_ymd_opt(year + 1, 1, 1)
    } else {
        chrono_from_ymd_opt(year, month + 1, 1)
    };
    match first {
        Some(f) => match chrono_pred_opt(f) {
            Some(p) => p.2,
            None => 30,
        },
        None => match chrono_from_ymd_opt(year, month, 31) {
            Some(last) => last.2,
            None => 30,
        },
    }
}

/// `date` moved one calendar year forward: the same month and day in the next
/// year, and February 28 from a February 29. `None` only beyond the last year
/// in range.
pub fn next_year(date: CalendarDate) -> (r: Option<CalendarDate>)
    ensures
        match next_year_spec(date@) {
            Some(d) => r is Some && r->0@ == d,
            None => r is None,
        },
{
    let year = date.year();
    match date.with_year(year + 1) {
        Some(next) => Some(next),
        None => {
            let length = days_in_month(year + 1, date.month());
            if date.day() > length {
                CalendarDate::from_ymd_opt(year + 1, date.month(), length)
            } else {
                None
            }
        },
    }
}

/// `date` moved by a number of calendar months. The day is clamped to the
/// length of the month reached; `None` where the date reached is out of range.
pub fn add_months(date: CalendarDate, months: i32) -> (r: Option<CalendarDate>)
    ensures
        match add_months_spec(date@, months as int) {
            Some(d) => r is Some && r->0@ == d,
            None => r is None,
        },
{
    let (y, m, d) = date.parts();
    let total: i64 = (m as i64 - 1) + months as i64;
    let quotient: i64 = total.checked_div_euclid(12).unwrap();
    let remainder: i64 = total.checked_rem_euclid(12).unwrap();
    let year: i32 = (y as i64 + quotient) as i32;
    let month: u32 = (remainder + 1) as u32;
    let length = days_in_month(year, month);
    let day = if d < length {
        d
    } else {
        length
    };
    CalendarDate::from_ymd_opt(year, month, day)
}

/// The ISO 8601 week number of a date lies between 1 and 53, its day of the
/// week between 0 and 6, and its day of the year between 1 and 366.
pub proof fn lemma_week_ranges(d: Ymd)
    requires
        d.valid(),
    ensures
        1 <= iso_week_spec(d) <= 53,
        0 <= d.weekday() <= 6,
        1 <= d.ordinal() <= 366,
{
}

/// The seven days of the week have seven names: Saturday and Sunday are the
/// names of days 5 and 6 and of no other.
pub proof fn lemma_weekday_names_differ()
    ensures
        forall|w: int|
            0 <= w <= 6 ==> ((#[trigger] weekday_name(w) == "Saturday"@ || weekday_name(w)
                == "Sunday"@) <==> w >= 5),
{
    reveal_strlit("Monday");
    reveal_strlit("Tuesday");
    reveal_strlit("Wednesday");
    reveal_strlit("Thursday");
    reveal_strlit("Friday");
    reveal_strlit("Saturday");
    reveal_strlit("Sunday");
    assert forall|w: int| 0 <= w <= 6 implies ((#[trigger] weekday_name(w) == "Saturday"@
        || weekday_name(w) == "Sunday"@) <==> w >= 5) by {
        let name = weekday_name(w);
        if w < 5 {
            assert(name[0] != 'S');
            assert("Saturday"@[0] == 'S');
            assert("Sunday"@[0] == 'S');
        }
    }
}

/// From any day but a leap day the step by one year keeps month and day; from
/// a leap day it leads to February 28.
pub proof fn lemma_next_year(d: Ymd)
    requires
        d.valid(),
    ensures
        d.year < MAX_YEAR ==> next_year_spec(d) == Some(
            if d.month == 2 && d.day == 29 {
                ymd(d.year + 1, 2, 28)
            } else {
                ymd(d.year + 1, d.month, d.day)
            },
        ),
        d.year >= MAX_YEAR ==> next_year_spec(d) is None,
{
}

} // verus!
