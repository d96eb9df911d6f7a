//! A number of days in calendar units.
//!
//! The breakdown divides by fixed lengths: 365 days to the year and 30 to the
//! month. This is not the calendar walk that the distance between two dates
//! uses, and it is not meant to be: with a day count alone there are no dates
//! to walk between.

use crate::parser::natural::{parse_unit, unit_of, DurationUnit};
use crate::text::{lowercase, to_chars, to_lowercase};
use crate::types::duration::{
    breakdown_text, from_days_spec, DurationBreakdown, MAX_BREAKDOWN_DAYS,
};
use crate::types::responses::{invalid_unit_spec, ConvertResponse, Conversions, UcmError};
use vstd::prelude::*;

verus! {

/// The unit that a text names once it is in lower case and the letters `s`
/// at its end are gone.
pub open spec fn convert_unit_spec(from_unit: Seq<char>) -> Option<DurationUnit> {
    unit_of(lowercase(from_unit))
}

/// Whether `r` is the answer for a whole number of days given in `from_unit`.
pub open spec fn is_conversion_of(r: ConvertResponse, total_days: int, from_unit: Seq<char>) -> bool {
    let breakdown = from_days_spec(total_days);
    &&& r.input_unit@ == from_unit
    &&& r.conversions.years == breakdown.years
    &&& r.conversions.months == breakdown.months
    &&& r.conversions.weeks == breakdown.weeks
    &&& r.conversions.days == breakdown.days
    &&& r.breakdown_string@ == breakdown_text(breakdown)
}

/// The unit that a text already in lower case names: day, week, month, year,
/// hour, minute or second, with or without the letters `s` at its end.
pub fn unit_from_lowercase(lowered: &str) -> (unit: Option<DurationUnit>)
    ensures
        unit == unit_of(lowered@),
{
    parse_unit(&to_chars(lowered))
}

/// The unit that a text names, whatever its case, or the error that names
/// the text and lists the units there are.
pub fn convert_unit(from_unit: &str) -> (r: Result<DurationUnit, UcmError>)
    ensures
        match convert_unit_spec(from_unit@) {
            Some(unit) => r is Ok && r->Ok_0 == unit,
            None => r is Err && r->Err_0@ == invalid_unit_spec(from_unit@),
        },
{
    let lowered = to_lowercase(from_unit);
    match unit_from_lowercase(lowered.as_str()) {
        Some(unit) => Ok(unit),
        None => Err(UcmError::invalid_unit(from_unit)),
    }
}

/// The breakdown of a whole number of days, with its text. `from_unit` is the
/// unit that the number was given in.
pub fn convert_days(total_days: i64, from_unit: &str) -> (r: ConvertResponse)
    requires
        -MAX_BREAKDOWN_DAYS <= total_days <= MAX_BREAKDOWN_DAYS,
    ensures
        is_conversion_of(r, total_days as int, from_unit@),
{
    let breakdown = DurationBreakdown::from_days(total_days);
    ConvertResponse {
        input_unit: from_unit.to_string(),
        conversions: Conversions {
            years: breakdown.years,
            months: breakdown.months,
            weeks: breakdown.weeks,
            days: breakdown.days,
        },
        breakdown_string: breakdown.to_string_breakdown(),
    }
}

/// Converts a value that came to `total_days` whole days into calendar
/// units. `from_unit` is the unit that the value was given in; a unit that is
/// not known gives the error that names it.
pub fn ucm_convert(total_days: i64, from_unit: &str) -> (r: Result<ConvertResponse, UcmError>)
    requires
        -MAX_BREAKDOWN_DAYS <= total_days <= MAX_BREAKDOWN_DAYS,
    ensures
        match convert_unit_spec(from_unit@) {
            Some(_) => r is Ok && is_conversion_of(r->Ok_0, total_days as int, from_unit@),
            None => r is Err && r->Err_0@ == invalid_unit_spec(from_unit@),
        },
{
    match convert_unit(from_unit) {
        Ok(_) => Ok(convert_days(total_days, from_unit)),
        Err(error) => Err(error),
    }
}

} // verus!
