//! How the tools are used.

use crate::tools::status::{tool_names, TOOL_COUNT};
use crate::types::responses::{InstructionsResponse, ToolInstruction};
use vstd::prelude::*;

verus! {

/// What is said of one tool: its name, what it does, what it takes, and an
/// example.
pub struct ToolText {
    pub name: Seq<char>,
    pub description: Seq<char>,
    pub parameters: Seq<char>,
    pub example: Seq<char>,
}

impl View for ToolInstruction {
    type V = ToolText;

    open spec fn view(&self) -> ToolText {
        ToolText {
            name: self.name@,
            description: self.description@,
            parameters: self.parameters@,
            example: self.example@,
        }
    }
}

/// What is said of the tools, one entry for each, in the order of
/// `tool_names`.
pub open spec fn tool_texts() -> Seq<ToolText> {
    seq![
        ToolText {
            name: "ucm_now"@,
            description: "Get the current date and time from the system."@,
            parameters: "None"@,
            example: "Returns current datetime with ISO format, unix timestamp, timezone, day of week, day of year, week number, and quarter."@,
        },
        ToolText {
            name: "ucm_parse"@,
            description: "Parse natural language date expressions into structured data."@,
            parameters: "expression: String - e.g., 'today', 'tomorrow', 'next wednesday', 'october 22', 'in 3 weeks', '2 months ago'"@,
            example: "ucm_parse('next friday') returns the date of next Friday with days_from_now and is_past indicators."@,
        },
        ToolText {
            name: "ucm_diff"@,
            description: "Calculate the difference between two dates."@,
            parameters: "from: String, to: String - Both accept natural language or ISO dates"@,
            example: "ucm_diff('today', 'december 25') returns total_days, breakdown (years/months/weeks/days), and alternative representations."@,
        },
        ToolText {
            name: "ucm_add"@,
            description: "Add a duration to a date."@,
            parameters: "date: String, add: String - e.g., '3 weeks', '-5 days', '2 months'"@,
            example: "ucm_add('today', '3 weeks') returns the date 3 weeks from now."@,
        },
        ToolText {
            name: "ucm_convert"@,
            description: "Convert a duration value between different units."@,
            parameters: "value: f64, from_unit: String (days, weeks, months, years, hours, minutes, seconds)"@,
            example: "ucm_convert(100, 'days') returns breakdown as years/months/weeks/days plus total conversions to other units."@,
        },
        ToolText {
            name: "ucm_info"@,
            description: "Get detailed information about a specific date."@,
            parameters: "date: String - natural language or ISO format"@,
            example: "ucm_info('2026-07-04') returns day_of_week, quarter, is_leap_year, days_in_month, is_weekend, and days_from_now."@,
        },
        ToolText {
            name: "ucm_status"@,
            description: "Get UCM server version, build number, and available tools."@,
            parameters: "None"@,
            example: "Returns name, version, build number, and list of all tools."@,
        },
        ToolText {
            name: "ucm_instructions"@,
            description: "Get these instructions on how to use UCM."@,
            parameters: "None"@,
            example: "Returns this help information."@,
        },
    ]
}

/// What the tools are for.
pub open spec fn overview_text() -> Seq<char> {
    "UCM (Universal Calendar Manager) provides reliable date/time calculations. All responses are JSON for easy parsing. Use these tools whenever you need to work with dates, times, durations, or temporal calculations."@
}

/// What an answer looks like.
pub open spec fn response_format_text() -> Seq<char> {
    "All tools return JSON responses. Success responses contain the requested data. Error responses contain 'error' (code), 'message' (description), and optionally 'input' (the problematic value)."@
}

/// Advice on the use of the tools.
pub open spec fn tip_texts() -> Seq<Seq<char>> {
    seq![
        "Use ucm_now first to establish the current date context."@,
        "Natural language parsing supports: today, tomorrow, yesterday, next/last weekday, month names, relative expressions (in X days, X ago)."@,
        "ISO dates (YYYY-MM-DD) are always accepted and recommended for precision."@,
        "Duration units can be singular or plural (day/days, week/weeks)."@,
        "Negative durations work with ucm_add: '-5 days' subtracts 5 days."@,
        "ucm_diff returns both exact total_days and human-friendly breakdown."@,
    ]
}

fn tool(name: &str, description: &str, parameters: &str, example: &str) -> (t: ToolInstruction)
    ensures
        t@ == (ToolText {
            name: name@,
            description: description@,
            parameters: parameters@,
            example: example@,
        }),
{
    ToolInstruction {
        name: name.to_string(),
        description: description.to_string(),
        parameters: parameters.to_string(),
        example: example.to_string(),
    }
}

fn tool_list() -> (tools: Vec<ToolInstruction>)
    ensures
        tools@.len() == tool_texts().len(),
        forall|i: int| 0 <= i < tools@.len() ==> (#[trigger] tools@[i])@ == tool_texts()[i],
{
    let mut tools: Vec<ToolInstruction> = Vec::new();
    tools.push(
        tool(
            "ucm_now",
            "Get the current date and time from the system.",
            "None",
            "Returns current datetime with ISO format, unix timestamp, timezone, day of week, day of year, week number, and quarter.",
        ),
    );
    tools.push(
        tool(
            "ucm_parse",
            "Parse natural language date expressions into structured data.",
            "expression: String - e.g., 'today', 'tomorrow', 'next wednesday', 'october 22', 'in 3 weeks', '2 months ago'",
            "ucm_parse('next friday') returns the date of next Friday with days_from_now and is_past indicators.",
        ),
    );
    tools.push(
        tool(
            "ucm_diff",
            "Calculate the difference between two dates.",
            "from: String, to: String - Both accept natural language or ISO dates",
            "ucm_diff('today', 'december 25') returns total_days, breakdown (years/months/weeks/days), and alternative representations.",
        ),
    );
    tools.push(
        tool(
            "ucm_add",
            "Add a duration to a date.",
            "date: String, add: String - e.g., '3 weeks', '-5 days', '2 months'",
            "ucm_add('today', '3 weeks') returns the date 3 weeks from now.",
        ),
    );
    tools.push(
        tool(
            "ucm_convert",
            "Convert a duration value between different units.",
            "value: f64, from_unit: String (days, weeks, months, years, hours, minutes, seconds)",
            "ucm_convert(100, 'days') returns breakdown as years/months/weeks/days plus total conversions to other units.",
        ),
    );
    tools.push(
        tool(
            "ucm_info",
            "Get detailed information about a specific date.",
            "date: String - natural language or ISO format",
            "ucm_info('2026-07-04') returns day_of_week, quarter, is_leap_year, days_in_month, is_weekend, and days_from_now.",
        ),
    );
    tools.push(
        tool(
            "ucm_status",
            "Get UCM server version, build number, and available tools.",
            "None",
            "Returns name, version, build number, and list of all tools.",
        ),
    );
    tools.push(
        tool(
            "ucm_instructions",
            "Get these instructions on how to use UCM.",
            "None",
            "Returns this help information.",
        ),
    );
    tools
}

fn tip_list() -> (tips: Vec<String>)
    ensures
        tips@.len() == tip_texts().len(),
        forall|i: int| 0 <= i < tips@.len() ==> (#[trigger] tips@[i])@ == tip_texts()[i],
{
    let mut tips: Vec<String> = Vec::new();
    tips.push("Use ucm_now first to establish the current date context.".to_string());
    tips.push(
        "Natural language parsing supports: today, tomorrow, yesterday, next/last weekday, month names, relative expressions (in X days, X ago).".to_string(),
    );
    tips.push(
        "ISO dates (YYYY-MM-DD) are always accepted and recommended for precision.".to_string(),
    );
    tips.push("Duration units can be singular or plural (day/days, week/weeks).".to_string());
    tips.push("Negative durations work with ucm_add: '-5 days' subtracts 5 days.".to_string());
    tips.push("ucm_diff returns both exact total_days and human-friendly breakdown.".to_string());
    tips
}

/// How the tools are used: an overview, an entry for each tool in the order
/// in which the status lists them, the shape of the answers, and advice.
pub fn ucm_instructions() -> (r: InstructionsResponse)
    ensures
        r.overview@ == overview_text(),
        r.tools@.len() == TOOL_COUNT,
        r.tools@.len() == tool_texts().len(),
        forall|i: int| 0 <= i < r.tools@.len() ==> (#[trigger] r.tools@[i])@ == tool_texts()[i],
        forall|i: int| 0 <= i < r.tools@.len() ==> (#[trigger] r.tools@[i]).name@ == tool_names()[i],
        r.response_format@ == response_format_text(),
        r.tips@.len() == tip_texts().len(),
        forall|i: int| 0 <= i < r.tips@.len() ==> (#[trigger] r.tips@[i])@ == tip_texts()[i],
{
    InstructionsResponse {
        overview: "UCM (Universal Calendar Manager) provides reliable date/time calculations. All responses are JSON for easy parsing. Use these tools whenever you need to work with dates, times, durations, or temporal calculations.".to_string(),
        tools: tool_list(),
        response_format: "All tools return JSON responses. Success responses contain the requested data. Error responses contain 'error' (code), 'message' (description), and optionally 'input' (the problematic value).".to_string(),
        tips: tip_list(),
    }
}

} // verus!
