//! What the operations answer: one plain value per operation, and the error
//! that any of them may give instead.

use crate::types::duration::DurationBreakdown;
use vstd::prelude::*;
use vstd::string::StringExecFns;

verus! {

/// The current date and time, as far as the calendar decides it.
#[derive(Debug)]
pub struct NowResponse {
    pub date: String,
    pub time: String,
    pub day_of_week: String,
    pub day_of_year: u32,
    pub week_of_year: u32,
    pub quarter: u32,
}

/// A date expression resolved to a date.
#[derive(Debug)]
pub struct ParseResponse {
    pub iso: String,
    pub date: String,
    pub day_of_week: String,
    pub days_from_now: i64,
    pub is_past: bool,
    pub parsed_expression: String,
}

/// The distance between two dates.
#[derive(Debug)]
pub struct DiffResponse {
    pub from_date: String,
    pub to_date: String,
    pub total_days: i64,
    pub total_seconds: i64,
    pub is_future: bool,
    pub breakdown: DurationBreakdown,
    pub alt_breakdowns: AltBreakdowns,
}

/// The distance between two dates in single units. Weeks and months are
/// counted in hundredths, rounded to the nearest; a month is 30.44 days.
#[derive(Clone, Copy, Debug, PartialEq, Eq, Structural)]
pub struct AltBreakdowns {
    pub total_weeks_hundredths: i64,
    pub total_months_hundredths: i64,
    pub total_hours: i64,
}

/// A date moved by a duration.
#[derive(Debug)]
pub struct AddResponse {
    pub base_date: String,
    pub added: String,
    pub result_date: String,
    pub day_of_week: String,
}

/// A whole number of days in calendar units.
#[derive(Debug)]
pub struct ConvertResponse {
    pub input_unit: String,
    pub conversions: Conversions,
    pub breakdown_string: String,
}

/// The fields of the breakdown of a whole number of days.
#[derive(Clone, Copy, Debug, PartialEq, Eq, Structural)]
pub struct Conversions {
    pub years: i32,
    pub months: i32,
    pub weeks: i32,
    pub days: i32,
}

/// The calendar properties of a date.
#[derive(Debug)]
pub struct InfoResponse {
    pub iso: String,
    pub day_of_week: String,
    pub day_of_month: u32,
    pub day_of_year: u32,
    pub week_of_year: u32,
    pub month: u32,
    pub month_name: String,
    pub year: i32,
    pub quarter: u32,
    pub is_leap_year: bool,
    pub days_in_month: u32,
    pub is_weekend: bool,
    pub days_from_now: i64,
    pub is_past: bool,
}

/// The name, version and tools of the service.
#[derive(Debug)]
pub struct StatusResponse {
    pub name: String,
    pub version: String,
    pub build: u32,
    pub description: String,
    pub tools_available: Vec<String>,
}

/// How one tool is used.
#[derive(Debug)]
pub struct ToolInstruction {
    pub name: String,
    pub description: String,
    pub parameters: String,
    pub example: String,
}

/// How the tools are used.
#[derive(Debug)]
pub struct InstructionsResponse {
    pub overview: String,
    pub tools: Vec<ToolInstruction>,
    pub response_format: String,
    pub tips: Vec<String>,
}

/// Why an operation gave no answer: the kind of error, a message, and the
/// input that was at fault.
#[derive(Debug)]
pub struct UcmError {
    pub error: String,
    pub message: String,
    pub input: Option<String>,
}

/// An error as a mathematical value.
pub struct ErrorModel {
    pub error: Seq<char>,
    pub message: Seq<char>,
    pub input: Option<Seq<char>>,
}

impl View for UcmError {
    type V = ErrorModel;

    open spec fn view(&self) -> ErrorModel {
        ErrorModel {
            error: self.error@,
            message: self.message@,
            input: match self.input {
                Some(text) => Some(text@),
                None => None,
            },
        }
    }
}

/// The error of a text that could not be turned into a date or a duration.
pub open spec fn parse_error_spec(input: Seq<char>, message: Seq<char>) -> ErrorModel {
    ErrorModel { error: "parse_error"@, message, input: Some(input) }
}

/// What the error of an unknown unit says: the unit, and the units there are.
pub open spec fn invalid_unit_message(input: Seq<char>) -> Seq<char> {
    "Invalid unit: '"@ + input
        + "'. Valid units: days, weeks, months, years, hours, minutes, seconds"@
}

/// The error of a unit that conversion does not know.
pub open spec fn invalid_unit_spec(input: Seq<char>) -> ErrorModel {
    ErrorModel { error: "invalid_unit"@, message: invalid_unit_message(input), input: Some(input) }
}

impl UcmError {
    /// The error of a text that could not be turned into a date or a
    /// duration: it carries the text and says what was wrong with it.
    pub fn parse_error(input: &str, message: &str) -> (e: UcmError)
        ensures
            e@ == parse_error_spec(input@, message@),
    {
        UcmError {
            error: "parse_error".to_string(),
            message: message.to_string(),
            input: Some(input.to_string()),
        }
    }

    /// The error of a unit that conversion does not know: it carries the unit
    /// and lists the units there are.
    pub fn invalid_unit(input: &str) -> (e: UcmError)
        ensures
            e@ == invalid_unit_spec(input@),
    {
        let mut message = "Invalid unit: '".to_string();
        message.append(input);
        message.append("'. Valid units: days, weeks, months, years, hours, minutes, seconds");
        UcmError {
            error: "invalid_unit".to_string(),
            message,
            input: Some(input.to_string()),
        }
    }
}

} // verus!
