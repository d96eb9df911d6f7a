//! A date expression resolved to a date.

use crate::calendar::Ymd;
use crate::date::{iso_date_text, reads_as, weekday_name, CalendarDate};
use crate::parser::natural::{parse_to_date, resolve_date_spec, ParsedDate};
use crate::types::responses::{parse_error_spec, ParseResponse, UcmError};
use vstd::prelude::*;

verus! {

/// Whether `r` is the answer for `expression` resolved to the date `d`, seen
/// from `today`.
pub open spec fn is_parse_of(r: ParseResponse, expression: Seq<char>, d: Ymd, today: Ymd) -> bool {
    &&& r.iso@ == iso_date_text(d)
    &&& r.date@ == iso_date_text(d)
    &&& reads_as(r.date@, d)
    &&& r.day_of_week@ == weekday_name(d.weekday())
    &&& r.days_from_now == d.day_number() - today.day_number()
    &&& r.is_past == (d.day_number() < today.day_number())
    &&& r.parsed_expression@ == expression
}

/// The answer for `expression` resolved to `date`: the date as text, its day
/// of the week, and its distance in days from `today` (negative for a date in
/// the past).
pub fn describe_date(expression: &str, date: CalendarDate, today: CalendarDate) -> (r:
    ParseResponse)
    ensures
        is_parse_of(r, expression@, date@, today@),
{
    let days_from_now = today.days_until(&date);
    ParseResponse {
        iso: date.format_iso(),
        date: date.format_iso(),
        day_of_week: date.weekday_name(),
        days_from_now,
        is_past: days_from_now < 0,
        parsed_expression: expression.to_string(),
    }
}

/// Resolves a date expression: a date in the form `YYYY-MM-DD`, or an
/// expression that the resolver of natural language was asked about, with
/// what it found in `resolved`. `today` is the current local date.
pub fn ucm_parse(expression: &str, resolved: Result<ParsedDate, String>, today: CalendarDate) -> (r:
    Result<ParseResponse, UcmError>)
    ensures
        match resolve_date_spec(expression@, resolved) {
            Err(message) => r is Err && r->Err_0@ == parse_error_spec(expression@, message),
            Ok(d) => r is Ok && is_parse_of(r->Ok_0, expression@, d, today@),
        },
{
    match parse_to_date(expression, resolved) {
        Ok(date) => Ok(describe_date(expression, date, today)),
        Err(message) => Err(UcmError::parse_error(expression, message.as_str())),
    }
}

} // verus!
