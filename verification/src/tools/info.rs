//! The calendar properties of a date.

use crate::calendar::{is_leap_year, month_days, Ymd};
use crate::date::{
    days_in_month, iso_date_text, iso_week_spec, lemma_week_ranges, lemma_weekday_names_differ,
    month_name, reads_as, weekday_name, CalendarDate,
};
use crate::parser::natural::{parse_to_date, resolve_date_spec, ParsedDate};
use crate::types::responses::{parse_error_spec, InfoResponse, UcmError};
use vstd::prelude::*;

verus! {

/// The quarter of a month, from 1 to 4.
pub open spec fn quarter_of(month: int) -> int {
    (month - 1) / 3 + 1
}

/// Whether `r` describes the date `d`, seen from `today`.
pub open spec fn is_info_of(r: InfoResponse, d: Ymd, today: Ymd) -> bool {
    &&& r.iso@ == iso_date_text(d)
    &&& reads_as(r.iso@, d)
    &&& r.day_of_week@ == weekday_name(d.weekday())
    &&& r.day_of_month == d.day
    &&& r.day_of_year == d.ordinal()
    &&& r.week_of_year == iso_week_spec(d)
    &&& r.month == d.month
    &&& r.month_name@ == month_name(d.month)
    &&& r.year == d.year
    &&& r.quarter == quarter_of(d.month)
    &&& r.is_leap_year == is_leap_year(d.year)
    &&& r.days_in_month == month_days(d.year, d.month)
    &&& r.is_weekend == (d.weekday() >= 5)
    &&& r.days_from_now == d.day_number() - today.day_number()
    &&& r.is_past == (d.day_number() < today.day_number())
}

/// The numbers of an answer stay in the ranges of the calendar: the quarter
/// from 1 to 4, the day of the year from 1 to 366, the week from 1 to 53, the
/// day of the month from 1 to the length of the month, and that length from
/// 28 to 31. The weekend is Saturday and Sunday.
pub proof fn lemma_info_ranges(r: InfoResponse, d: Ymd, today: Ymd)
    requires
        d.valid(),
        is_info_of(r, d, today),
    ensures
        1 <= r.quarter <= 4,
        1 <= r.day_of_year <= 366,
        1 <= r.week_of_year <= 53,
        1 <= r.month <= 12,
        28 <= r.days_in_month <= 31,
        1 <= r.day_of_month <= r.days_in_month,
        r.is_past == (r.days_from_now < 0),
        r.is_weekend == (r.day_of_week@ == "Saturday"@ || r.day_of_week@ == "Sunday"@),
{
    lemma_week_ranges(d);
    lemma_weekday_names_differ();
}

/// The calendar properties of a date: its place in the week, the month and
/// the year, the length of its month, and its distance in days from `today`
/// (negative for a date in the past).
pub fn date_info(date: CalendarDate, today: CalendarDate) -> (r: InfoResponse)
    ensures
        is_info_of(r, date@, today@),
{
    let days_from_now = today.days_until(&date);
    let month = date.month();
    let year = date.year();
    InfoResponse {
        iso: date.format_iso(),
        day_of_week: date.weekday_name(),
        day_of_month: date.day(),
        day_of_year: date.ordinal(),
        week_of_year: date.iso_week(),
        month,
        month_name: date.month_name(),
        year,
        quarter: (month - 1) / 3 + 1,
        is_leap_year: date.leap_year(),
        days_in_month: days_in_month(year, month),
        is_weekend: date.weekday() >= 5,
        days_from_now,
        is_past: days_from_now < 0,
    }
}

/// The calendar properties of a date given as text: a date in the form
/// `YYYY-MM-DD`, or an expression that the resolver of natural language was
/// asked about, with what it found in `resolved`. `today` is the current
/// local date.
pub fn ucm_info(date: &str, resolved: Result<ParsedDate, String>, today: CalendarDate) -> (r:
    Result<InfoResponse, UcmError>)
    ensures
        match resolve_date_spec(date@, resolved) {
            Err(message) => r is Err && r->Err_0@ == parse_error_spec(date@, message),
            Ok(d) => r is Ok && is_info_of(r->Ok_0, d, today@),
        },
{
    match parse_to_date(date, resolved) {
        Ok(parsed) => Ok(date_info(parsed, today)),
        Err(message) => Err(UcmError::parse_error(date, message.as_str())),
    }
}

} // verus!
