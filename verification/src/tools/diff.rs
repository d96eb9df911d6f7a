//! The distance between two dates.

use crate::calendar::{lemma_day_number_bounds, Ymd};
use crate::date::{iso_date_text, reads_as, CalendarDate};
use crate::parser::natural::{parse_to_date, resolve_date_spec, ParsedDate};
use crate::types::duration::{between_dates_spec, magnitude, DurationBreakdown};
use crate::types::responses::{parse_error_spec, AltBreakdowns, DiffResponse, UcmError};
use vstd::prelude::*;

verus! {

/// A ratio of natural numbers rounded to the nearest whole number, halves
/// upward.
pub open spec fn rounded_ratio(numerator: nat, denominator: nat) -> nat {
    (2 * numerator + denominator) / (2 * denominator)
}

/// The weeks in a number of days, in hundredths.
pub open spec fn weeks_hundredths(total_days: int) -> nat {
    rounded_ratio(magnitude(total_days) * 100, 7)
}

/// The months of 30.44 days in a number of days, in hundredths.
pub open spec fn months_hundredths(total_days: int) -> nat {
    rounded_ratio(magnitude(total_days) * 10_000, 3_044)
}

/// Whether `r` is the answer for the distance from `from` to `to`.
pub open spec fn is_diff_of(r: DiffResponse, from: Ymd, to: Ymd) -> bool {
    let total = to.day_number() - from.day_number();
    &&& r.from_date@ == iso_date_text(from)
    &&& reads_as(r.from_date@, from)
    &&& r.to_date@ == iso_date_text(to)
    &&& reads_as(r.to_date@, to)
    &&& r.total_days == total
    &&& r.total_seconds == total * 86_400
    &&& r.is_future == (total > 0)
    &&& r.breakdown@ == between_dates_spec(from, to)
    &&& r.alt_breakdowns.total_weeks_hundredths == weeks_hundredths(total)
    &&& r.alt_breakdowns.total_months_hundredths == months_hundredths(total)
    &&& r.alt_breakdowns.total_hours == total * 24
}

/// The distance from one date to another: the days from `from` to `to`
/// (negative where `to` is earlier), the same in seconds and hours, in weeks
/// and months to two decimal places, and as a calendar breakdown.
pub fn diff_dates(from: CalendarDate, to: CalendarDate) -> (r: DiffResponse)
    ensures
        is_diff_of(r, from@, to@),
{
    let total_days = from.days_until(&to);
    proof {
        lemma_day_number_bounds(from@);
        lemma_day_number_bounds(to@);
    }
    let size: i64 = if total_days < 0 {
        -total_days
    } else {
        total_days
    };
    let alt_breakdowns = AltBreakdowns {
        total_weeks_hundredths: (2 * (size * 100) + 7) / 14,
        total_months_hundredths: (2 * (size * 10_000) + 3_044) / 6_088,
        total_hours: total_days * 24,
    };
    DiffResponse {
        from_date: from.format_iso(),
        to_date: to.format_iso(),
        total_days,
        total_seconds: total_days * 86_400,
        is_future: total_days > 0,
        breakdown: DurationBreakdown::between_dates(from, to),
        alt_breakdowns,
    }
}

/// Whether `r` is what the distance between the dates that `from` and `to`
/// spell gives: the error of the first of them that is no date, else the
/// distance.
pub open spec fn is_ucm_diff(
    r: Result<DiffResponse, UcmError>,
    from: Seq<char>,
    from_resolved: Result<ParsedDate, String>,
    to: Seq<char>,
    to_resolved: Result<ParsedDate, String>,
) -> bool {
    match resolve_date_spec(from, from_resolved) {
        Err(message) => r is Err && r->Err_0@ == parse_error_spec(from, message),
        Ok(from_date) => match resolve_date_spec(to, to_resolved) {
            Err(message) => r is Err && r->Err_0@ == parse_error_spec(to, message),
            Ok(to_date) => r is Ok && is_diff_of(r->Ok_0, from_date, to_date),
        },
    }
}

/// The distance between two dates given as text. Each text is a date in the
/// form `YYYY-MM-DD`, or an expression that the resolver of natural language
/// was asked about, with what it found in `from_resolved` and `to_resolved`.
/// A text that is no date gives the error that names it, `from` first.
pub fn ucm_diff(
    from: &str,
    from_resolved: Result<ParsedDate, String>,
    to: &str,
    to_resolved: Result<ParsedDate, String>,
) -> (r: Result<DiffResponse, UcmError>)
    ensures
        is_ucm_diff(r, from@, from_resolved, to@, to_resolved),
{
    let from_date = match parse_to_date(from, from_resolved) {
        Ok(date) => date,
        Err(message) => {
            return Err(UcmError::parse_error(from, message.as_str()));
        },
    };
    let to_date = match parse_to_date(to, to_resolved) {
        Ok(date) => date,
        Err(message) => {
            return Err(UcmError::parse_error(to, message.as_str()));
        },
    };
    Ok(diff_dates(from_date, to_date))
}

} // verus!
