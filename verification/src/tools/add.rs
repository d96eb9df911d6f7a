//! A date moved by a duration.

use crate::calendar::Ymd;
use crate::date::{date_plus_days, iso_date_text, reads_as, weekday_name, CalendarDate};
use crate::parser::natural::{
    fault_message, parse_duration, parse_duration_spec, parse_to_date, resolve_date_spec,
    whole_days, DurationFault, DurationUnit, ParsedDate, SignedDuration,
};
use crate::tools::diff::{is_diff_of, is_ucm_diff};
use crate::types::responses::{parse_error_spec, AddResponse, DiffResponse, UcmError};
use vstd::prelude::*;
use vstd::string::StringExecFns;

verus! {

/// What is said of a duration that leads out of the range of dates.
pub open spec fn out_of_range_message(added: Seq<char>) -> Seq<char> {
    "Resulting date is out of range: '"@ + added + "'"@
}

/// Whether `r` is the answer for `base` moved to `result` by the duration
/// that `added` spells.
pub open spec fn is_sum_of(r: AddResponse, base: Ymd, added: Seq<char>, result: Ymd) -> bool {
    &&& r.base_date@ == iso_date_text(base)
    &&& reads_as(r.base_date@, base)
    &&& r.added@ == added
    &&& r.result_date@ == iso_date_text(result)
    &&& reads_as(r.result_date@, result)
    &&& r.day_of_week@ == weekday_name(result.weekday())
}

/// What adding a duration of `seconds` to `base` gives: the date that many
/// whole days away, or the error that names `added` where no date is.
pub open spec fn is_addition(
    r: Result<AddResponse, UcmError>,
    base: Ymd,
    seconds: int,
    added: Seq<char>,
) -> bool {
    match date_plus_days(base, whole_days(seconds)) {
        Some(result) => r is Ok && is_sum_of(r->Ok_0, base, added, result),
        None => r is Err && r->Err_0@ == parse_error_spec(added, out_of_range_message(added)),
    }
}

/// Moves a date by a duration. Only the whole days of the duration count,
/// rounded toward zero. `added` is the text that the duration was read from.
pub fn add_duration(base: CalendarDate, duration: SignedDuration, added: &str) -> (r: Result<
    AddResponse,
    UcmError,
>)
    ensures
        is_addition(r, base@, duration@, added@),
{
    match base.add_days(duration.num_days()) {
        Some(result) => Ok(
            AddResponse {
                base_date: base.format_iso(),
                added: added.to_string(),
                result_date: result.format_iso(),
                day_of_week: result.weekday_name(),
            },
        ),
        None => {
            let mut message = "Resulting date is out of range: '".to_string();
            message.append(added);
            message.append("'");
            Err(UcmError::parse_error(added, message.as_str()))
        },
    }
}

/// Whether `r` is what adding the duration that `add` spells to the date
/// that `date` spells gives: the error of the date where it is none, else
/// the error of the duration where it is none, else the sum.
pub open spec fn is_ucm_add(
    r: Result<AddResponse, UcmError>,
    date: Seq<char>,
    resolved: Result<ParsedDate, String>,
    add: Seq<char>,
) -> bool {
    match resolve_date_spec(date, resolved) {
        Err(message) => r is Err && r->Err_0@ == parse_error_spec(date, message),
        Ok(base) => match parse_duration_spec(add) {
            Err(fault) => r is Err && r->Err_0@ == parse_error_spec(add, fault_message(fault, add)),
            Ok(seconds) => is_addition(r, base, seconds, add),
        },
    }
}

/// Adds a duration to a date, both given as text. `date` is a date in the
/// form `YYYY-MM-DD`, or an expression that the resolver of natural language
/// was asked about, with what it found in `resolved`; `add` is a duration
/// such as "3 weeks" or "-5 days". Months and years in a duration count as 30
/// and 365 days. A text that cannot be read gives the error that names it,
/// the date first.
pub fn ucm_add(date: &str, resolved: Result<ParsedDate, String>, add: &str) -> (r: Result<
    AddResponse,
    UcmError,
>)
    ensures
        is_ucm_add(r, date@, resolved, add@),
{
    let base = match parse_to_date(date, resolved) {
        Ok(base) => base,
        Err(message) => {
            return Err(UcmError::parse_error(date, message.as_str()));
        },
    };
    let duration = match parse_duration(add) {
        Ok(duration) => duration,
        Err(error) => {
            let message = error.message(add);
            return Err(UcmError::parse_error(add, message.as_str()));
        },
    };
    add_duration(base, duration, add)
}

/// The days that one unit of the calendar counts in a duration: 1, 7, 30 and
/// 365 for day, week, month and year.
pub open spec fn days_per_unit(unit: DurationUnit) -> int {
    unit.seconds_spec() / 86_400
}

/// A duration of so many days, weeks, months or years has a whole number of
/// days: the count times the days of the unit.
pub proof fn lemma_whole_days_of_units(count: int, unit: DurationUnit)
    requires
        unit is Day || unit is Week || unit is Month || unit is Year,
    ensures
        whole_days(count * unit.seconds_spec()) == count * days_per_unit(unit),
{
    match unit {
        DurationUnit::Day => {
            assert(whole_days(count * 86_400) == count * 1);
        },
        DurationUnit::Week => {
            assert(whole_days(count * 604_800) == count * 7);
        },
        DurationUnit::Month => {
            assert(whole_days(count * 2_592_000) == count * 30);
        },
        _ => {
            assert(whole_days(count * 31_536_000) == count * 365);
        },
    }
}

/// Adding so many days to a date and then taking the distance from the date
/// to the result gives the count back; so many weeks give seven times the
/// count, and months and years, which a duration counts as 30 and 365 days,
/// give 30 and 365 times the count, whatever the calendar says.
pub proof fn lemma_add_then_diff(base: Ymd, count: int, unit: DurationUnit, diff: DiffResponse)
    requires
        base.valid(),
        unit is Day || unit is Week || unit is Month || unit is Year,
        date_plus_days(base, whole_days(count * unit.seconds_spec())) is Some,
        is_diff_of(diff, base, date_plus_days(base, whole_days(count * unit.seconds_spec()))->0),
    ensures
        diff.total_days == count * days_per_unit(unit),
        unit is Day ==> diff.total_days == count,
{
    lemma_whole_days_of_units(count, unit);
}

/// The same of the operations on text: where adding a duration of so many
/// days, weeks, months or years to a date gives an answer, the distance from
/// that date to the date of the answer is the count times the days of the
/// unit; for days, the count itself.
pub proof fn lemma_ucm_add_then_ucm_diff(
    date: Seq<char>,
    resolved: Result<ParsedDate, String>,
    add: Seq<char>,
    count: int,
    unit: DurationUnit,
    sum: Result<AddResponse, UcmError>,
    result_resolved: Result<ParsedDate, String>,
    diff: Result<DiffResponse, UcmError>,
)
    requires
        unit is Day || unit is Week || unit is Month || unit is Year,
        parse_duration_spec(add) == Ok::<int, DurationFault>(count * unit.seconds_spec()),
        is_ucm_add(sum, date, resolved, add),
        sum is Ok,
        is_ucm_diff(diff, date, resolved, sum->Ok_0.result_date@, result_resolved),
    ensures
        diff is Ok,
        diff->Ok_0.total_days == count * days_per_unit(unit),
        unit is Day ==> diff->Ok_0.total_days == count,
        diff->Ok_0.from_date@ == sum->Ok_0.base_date@,
        diff->Ok_0.to_date@ == sum->Ok_0.result_date@,
{
    lemma_whole_days_of_units(count, unit);
}

} // verus!
