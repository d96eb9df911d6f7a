//! Duration expressions such as "3 weeks" or "-5 days", and the resolution of
//! date expressions.
//!
//! A duration is an optional minus sign, a whole number and a unit. Days,
//! weeks, months and years count as 1, 7, 30 and 365 days: the lengths of
//! months and years are fixed on purpose, so that adding a duration to a date
//! is plain day arithmetic.

use crate::calendar::Ymd;
use crate::date::{
    iso_date_of, iso_datetime_of, moment_of, ymd, CalendarDate, LocalDateTime, Moment,
};
use crate::text::{
    chars_are, integer_of, lowercase, parse_integer, split_words, string_of, to_chars,
    to_lowercase, trim, trim_chars, words,
};
use vstd::prelude::*;
use vstd::string::StringExecFns;

verus! {

/// What a date expression in natural language was resolved to: the first and
/// the last moment that it covers, and whether it named a range.
#[derive(Clone, Copy, Debug, PartialEq, Eq, Structural)]
pub struct ParsedDate {
    pub start: LocalDateTime,
    pub end: LocalDateTime,
    pub is_range: bool,
}

/// What is said of an expression that the resolver could not read: the
/// expression, and the resolver's reason.
pub open spec fn could_not_parse(expression: Seq<char>, reason: Seq<char>) -> Seq<char> {
    "Could not parse '"@ + expression + "': "@ + reason
}

/// What the resolver of natural language found for an expression, or the
/// message that says why it found nothing.
pub open spec fn natural_spec(expression: Seq<char>, resolved: Result<ParsedDate, String>) -> Result<
    ParsedDate,
    Seq<char>,
> {
    match resolved {
        Ok(parsed) => Ok(parsed),
        Err(reason) => Err(could_not_parse(expression, reason@)),
    }
}

/// The date of an expression: the date that it spells as `YYYY-MM-DD`, else
/// the date of the first moment that the resolver of natural language found.
pub open spec fn resolve_date_spec(
    expression: Seq<char>,
    resolved: Result<ParsedDate, String>,
) -> Result<Ymd, Seq<char>> {
    match iso_date_of(expression) {
        Some(t) => Ok(ymd(t.0, t.1, t.2)),
        None => match natural_spec(expression, resolved) {
            Ok(parsed) => Ok(parsed.start@.date),
            Err(message) => Err(message),
        },
    }
}

/// The moment of an expression: the moment that it spells as
/// `YYYY-MM-DDTHH:MM:SS`, else the first moment of the date that it spells as
/// `YYYY-MM-DD`, else the first moment that the resolver of natural language
/// found.
pub open spec fn resolve_datetime_spec(
    expression: Seq<char>,
    resolved: Result<ParsedDate, String>,
) -> Result<Moment, Seq<char>> {
    match iso_datetime_of(expression) {
        Some(t) => Ok(moment_of(t)),
        None => match iso_date_of(expression) {
            Some(t) => Ok(
                Moment { date: ymd(t.0, t.1, t.2), hour: 0, minute: 0, second: 0, nanosecond: 0 },
            ),
            None => match natural_spec(expression, resolved) {
                Ok(parsed) => Ok(parsed.start@),
                Err(message) => Err(message),
            },
        },
    }
}

/// Takes what the resolver of natural language found for `expression`.
/// Where it found nothing, its reason is put into a message that names the
/// expression.
pub fn parse_natural(expression: &str, resolved: Result<ParsedDate, String>) -> (r: Result<
    ParsedDate,
    String,
>)
    ensures
        match natural_spec(expression@, resolved) {
            Ok(parsed) => r == Ok::<ParsedDate, String>(parsed),
            Err(message) => r is Err && r->Err_0@ == message,
        },
{
    match resolved {
        Ok(parsed) => Ok(parsed),
        Err(reason) => {
            let mut message = "Could not parse '".to_string();
            message.append(expression);
            message.append("': ");
            message.append(reason.as_str());
            Err(message)
        },
    }
}

/// The date of an expression of which `iso` is what it spells as
/// `YYYY-MM-DD`: that date, else the date of the first moment that the
/// resolver of natural language found.
pub fn date_from(iso: Option<CalendarDate>, expression: &str, resolved: Result<
    ParsedDate,
    String,
>) -> (r: Result<CalendarDate, String>)
    ensures
        match iso {
            Some(date) => r == Ok::<CalendarDate, String>(date),
            None => match natural_spec(expression@, resolved) {
                Ok(parsed) => r is Ok && r->Ok_0@ == parsed.start@.date,
                Err(message) => r is Err && r->Err_0@ == message,
            },
        },
{
    match iso {
        Some(date) => Ok(date),
        None => match parse_natural(expression, resolved) {
            Ok(parsed) => Ok(parsed.start.date()),
            Err(message) => Err(message),
        },
    }
}

/// The moment of an expression of which `iso_moment` is what it spells as
/// `YYYY-MM-DDTHH:MM:SS` and `iso_date` what it spells as `YYYY-MM-DD`: that
/// moment, else the first moment of that date, else the first moment that the
/// resolver of natural language found.
pub fn moment_from(
    iso_moment: Option<LocalDateTime>,
    iso_date: Option<CalendarDate>,
    expression: &str,
    resolved: Result<ParsedDate, String>,
) -> (r: Result<LocalDateTime, String>)
    ensures
        match iso_moment {
            Some(moment) => r == Ok::<LocalDateTime, String>(moment),
            None => match iso_date {
                Some(date) => r is Ok && r->Ok_0@ == (Moment {
                    date: date@,
                    hour: 0,
                    minute: 0,
                    second: 0,
                    nanosecond: 0,
                }),
                None => match natural_spec(expression@, resolved) {
                    Ok(parsed) => r == Ok::<LocalDateTime, String>(parsed.start),
                    Err(message) => r is Err && r->Err_0@ == message,
                },
            },
        },
{
    match iso_moment {
        Some(moment) => Ok(moment),
        None => match iso_date {
            Some(date) => Ok(LocalDateTime::midnight(date)),
            None => match parse_natural(expression, resolved) {
                Ok(parsed) => Ok(parsed.start),
                Err(message) => Err(message),
            },
        },
    }
}

/// Whether an expression must go to the resolver of natural language: it
/// must unless it spells a date as `YYYY-MM-DD`.
pub fn needs_natural(expression: &str) -> (needed: bool)
    ensures
        needed == (iso_date_of(expression@) is None),
{
    CalendarDate::parse_iso(expression).is_none()
}

/// Resolves an expression to a date. A date in the form `YYYY-MM-DD` is taken
/// as it stands, and `resolved` is not looked at; for any other expression
/// `resolved` holds what the resolver of natural language found for it.
pub fn parse_to_date(expression: &str, resolved: Result<ParsedDate, String>) -> (r: Result<
    CalendarDate,
    String,
>)
    ensures
        match resolve_date_spec(expression@, resolved) {
            Ok(date) => r is Ok && r->Ok_0@ == date,
            Err(message) => r is Err && r->Err_0@ == message,
        },
{
    date_from(CalendarDate::parse_iso(expression), expression, resolved)
}

/// Resolves an expression to a moment. A moment in the form
/// `YYYY-MM-DDTHH:MM:SS` is taken as it stands, a date in the form
/// `YYYY-MM-DD` stands for its first moment, and for any other expression
/// `resolved` holds what the resolver of natural language found for it.
pub fn parse_to_datetime(expression: &str, resolved: Result<ParsedDate, String>) -> (r: Result<
    LocalDateTime,
    String,
>)
    ensures
        match resolve_datetime_spec(expression@, resolved) {
            Ok(moment) => r is Ok && r->Ok_0@ == moment,
            Err(message) => r is Err && r->Err_0@ == message,
        },
{
    let iso_moment = LocalDateTime::parse_iso(expression);
    let iso_date = CalendarDate::parse_iso(expression);
    moment_from(iso_moment, iso_date, expression, resolved)
}

/// The largest number of seconds, in either direction, that a duration holds.
pub const MAX_DURATION_SECONDS: i64 = 9_223_372_036_854_775;

/// The seconds of a day.
pub const SECONDS_PER_DAY: i64 = 86_400;

/// An elapsed time in whole seconds, forward or backward.
#[derive(Clone, Copy, Debug, PartialEq, Eq, Structural)]
pub struct SignedDuration {
    seconds: i64,
}

impl View for SignedDuration {
    type V = int;

    closed spec fn view(&self) -> int {
        self.seconds as int
    }
}

/// Whether a number of seconds is one that a duration holds.
pub open spec fn duration_in_range(seconds: int) -> bool {
    -MAX_DURATION_SECONDS <= seconds <= MAX_DURATION_SECONDS
}

/// The whole days of a number of seconds, rounded toward zero.
pub open spec fn whole_days(seconds: int) -> int {
    if seconds >= 0 {
        seconds / 86_400
    } else {
        -((-seconds) / 86_400)
    }
}

impl SignedDuration {
    #[verifier::type_invariant]
    spec fn well_formed(self) -> bool {
        duration_in_range(self@)
    }

    /// The duration of a number of seconds, where it is in range.
    pub fn seconds(seconds: i64) -> (r: Option<SignedDuration>)
        ensures
            duration_in_range(seconds as int) ==> r is Some && r->0@ == seconds,
            !duration_in_range(seconds as int) ==> r is None,
    {
        if -MAX_DURATION_SECONDS <= seconds && seconds <= MAX_DURATION_SECONDS {
            Some(SignedDuration { seconds })
        } else {
            None
        }
    }

    /// The duration of a number of days, where it is in range.
    pub fn days(days: i64) -> (r: Option<SignedDuration>)
        ensures
            duration_in_range(days * 86_400) ==> r is Some && r->0@ == days * 86_400,
            !duration_in_range(days * 86_400) ==> r is None,
    {
        match days.checked_mul(SECONDS_PER_DAY) {
            Some(seconds) => SignedDuration::seconds(seconds),
            None => None,
        }
    }

    /// The seconds of the duration.
    pub fn num_seconds(&self) -> (n: i64)
        ensures
            n == self@,
            duration_in_range(self@),
    {
        proof {
            use_type_invariant(self);
        }
        self.seconds
    }

    /// The whole days of the duration, rounded toward zero.
    pub fn num_days(&self) -> (n: i64)
        ensures
            n == whole_days(self@),
    {
        let seconds = self.num_seconds();
        if seconds >= 0 {
            seconds / SECONDS_PER_DAY
        } else {
            -((-seconds) / SECONDS_PER_DAY)
        }
    }

    /// The same length of time in the other direction.
    pub fn negated(&self) -> (r: SignedDuration)
        ensures
            r@ == -self@,
    {
        let seconds = self.num_seconds();
        SignedDuration { seconds: -seconds }
    }
}

/// The duration itself, or the same length of time in the other direction
/// for `is_negative`.
pub fn apply_sign(duration: SignedDuration, is_negative: bool) -> (r: SignedDuration)
    ensures
        r@ == if is_negative {
            -duration@
        } else {
            duration@
        },
{
    if is_negative {
        duration.negated()
    } else {
        duration
    }
}

/// The units of a duration expression.
#[derive(Clone, Copy, Debug, PartialEq, Eq, Structural)]
pub enum DurationUnit {
    Day,
    Week,
    Month,
    Year,
    Hour,
    Minute,
    Second,
}

impl DurationUnit {
    /// The seconds that one unit stands for. A month counts as 30 days and a
    /// year as 365.
    pub open spec fn seconds_spec(self) -> int {
        match self {
            DurationUnit::Day => 86_400int,
            DurationUnit::Week => 7 * 86_400int,
            DurationUnit::Month => 30 * 86_400int,
            DurationUnit::Year => 365 * 86_400int,
            DurationUnit::Hour => 3_600int,
            DurationUnit::Minute => 60int,
            DurationUnit::Second => 1int,
        }
    }

    /// The seconds that one unit stands for.
    pub fn seconds(self) -> (n: i64)
        ensures
            n == self.seconds_spec(),
    {
        match self {
            DurationUnit::Day => 86_400,
            DurationUnit::Week => 604_800,
            DurationUnit::Month => 2_592_000,
            DurationUnit::Year => 31_536_000,
            DurationUnit::Hour => 3_600,
            DurationUnit::Minute => 60,
            DurationUnit::Second => 1,
        }
    }
}

/// A unit word without the letters `s` at its end.
pub open spec fn strip_plural(word: Seq<char>) -> Seq<char>
    decreases word.len(),
{
    if word.len() > 0 && word.last() == 's' {
        strip_plural(word.drop_last())
    } else {
        word
    }
}

/// The unit that a word names, once the letters `s` at its end are gone.
pub open spec fn unit_of(word: Seq<char>) -> Option<DurationUnit> {
    let name = strip_plural(word);
    if name == "day"@ {
        Some(DurationUnit::Day)
    } else if name == "week"@ {
        Some(DurationUnit::Week)
    } else if name == "month"@ {
        Some(DurationUnit::Month)
    } else if name == "year"@ {
        Some(DurationUnit::Year)
    } else if name == "hour"@ {
        Some(DurationUnit::Hour)
    } else if name == "minute"@ {
        Some(DurationUnit::Minute)
    } else if name == "second"@ {
        Some(DurationUnit::Second)
    } else {
        None
    }
}

/// Why a text is no duration.
#[derive(Debug)]
pub enum DurationError {
    /// The text does not consist of exactly two words.
    Format,
    /// The first word, given here, is not a whole number.
    InvalidNumber(String),
    /// The second word, given here, names no unit.
    UnknownUnit(String),
    /// The duration is longer than a `SignedDuration` holds.
    OutOfRange,
}

/// Why a text is no duration, as a mathematical value.
pub enum DurationFault {
    Format,
    InvalidNumber(Seq<char>),
    UnknownUnit(Seq<char>),
    OutOfRange,
}

impl View for DurationError {
    type V = DurationFault;

    open spec fn view(&self) -> DurationFault {
        match self {
            DurationError::Format => DurationFault::Format,
            DurationError::InvalidNumber(word) => DurationFault::InvalidNumber(word@),
            DurationError::UnknownUnit(word) => DurationFault::UnknownUnit(word@),
            DurationError::OutOfRange => DurationFault::OutOfRange,
        }
    }
}

/// What is said of a text that is no duration. `expression` is the text as it
/// was given.
pub open spec fn fault_message(fault: DurationFault, expression: Seq<char>) -> Seq<char> {
    match fault {
        DurationFault::Format => "Invalid duration format '"@ + expression
            + "'. Expected format: 'N unit' (e.g., '3 weeks')"@,
        DurationFault::InvalidNumber(word) => "Invalid number: '"@ + word + "'"@,
        DurationFault::UnknownUnit(word) => "Unknown duration unit: '"@ + word
            + "'. Valid units: days, weeks, months, years, hours, minutes, seconds"@,
        DurationFault::OutOfRange => "Duration out of range: '"@ + expression + "'"@,
    }
}

impl DurationError {
    /// What went wrong, in words. An unknown unit is named, followed by the
    /// units there are.
    pub fn message(&self, expression: &str) -> (text: String)
        ensures
            text@ == fault_message(self@, expression@),
    {
        match self {
            DurationError::Format => {
                let mut text = "Invalid duration format '".to_string();
                text.append(expression);
                text.append("'. Expected format: 'N unit' (e.g., '3 weeks')");
                text
            },
            DurationError::InvalidNumber(word) => {
                let mut text = "Invalid number: '".to_string();
                text.append(word.as_str());
                text.append("'");
                text
            },
            DurationError::UnknownUnit(word) => {
                let mut text = "Unknown duration unit: '".to_string();
                text.append(word.as_str());
                text.append(
                    "'. Valid units: days, weeks, months, years, hours, minutes, seconds",
                );
                text
            },
            DurationError::OutOfRange => {
                let mut text = "Duration out of range: '".to_string();
                text.append(expression);
                text.append("'");
                text
            },
        }
    }
}

/// What a duration expression in lower case means, in seconds: an optional
/// leading `-`, then exactly two words, a whole number and a unit. The sign
/// applies to the whole duration.
pub open spec fn duration_of(lowered: Seq<char>) -> Result<int, DurationFault> {
    let negative = lowered.len() > 0 && lowered[0] == '-';
    let body = if negative {
        lowered.skip(1)
    } else {
        lowered
    };
    let parts = words(body);
    if parts.len() != 2 {
        Err(DurationFault::Format)
    } else {
        match integer_of(parts[0]) {
            None => Err(DurationFault::InvalidNumber(parts[0])),
            Some(value) => match unit_of(parts[1]) {
                None => Err(DurationFault::UnknownUnit(parts[1])),
                Some(unit) => {
                    let seconds = value * unit.seconds_spec();
                    if duration_in_range(seconds) {
                        Ok(
                            if negative {
                                -seconds
                            } else {
                                seconds
                            },
                        )
                    } else {
                        Err(DurationFault::OutOfRange)
                    }
                },
            },
        }
    }
}

/// What a duration expression means, in seconds: the meaning of its trimmed,
/// lower-case form.
pub open spec fn parse_duration_spec(expression: Seq<char>) -> Result<int, DurationFault> {
    duration_of(lowercase(trim(expression)))
}

/// Whether a parsed duration is the one that the specification names.
pub open spec fn duration_result_is(
    result: Result<SignedDuration, DurationError>,
    expected: Result<int, DurationFault>,
) -> bool {
    match (result, expected) {
        (Ok(duration), Ok(seconds)) => duration@ == seconds,
        (Err(error), Err(fault)) => error@ == fault,
        _ => false,
    }
}

/// A unit word without the letters `s` at its end.
fn strip_plural_chars(word: &Vec<char>) -> (name: Vec<char>)
    ensures
        name@ == strip_plural(word@),
{
    let mut end = word.len();
    assert(word@.take(end as int) == word@);
    while end > 0 && word[end - 1] == 's'
        invariant
            end <= word.len(),
            strip_plural(word@) == strip_plural(word@.take(end as int)),
        decreases end,
    {
        assert(word@.take(end as int).drop_last() == word@.take(end - 1));
        end = end - 1;
    }
    let mut name: Vec<char> = Vec::new();
    let mut i: usize = 0;
    while i < end
        invariant
            i <= end <= word.len(),
            name@ == word@.take(i as int),
        decreases end - i,
    {
        name.push(word[i]);
        assert(word@.take(i + 1) == word@.take(i as int).push(word@[i as int]));
        i = i + 1;
    }
    proof {
        assert(word@.take(word.len() as int) == word@);
    }
    name
}

/// The unit that a word names, once the letters `s` at its end are gone.
pub fn parse_unit(word: &Vec<char>) -> (unit: Option<DurationUnit>)
    ensures
        unit == unit_of(word@),
{
    let name = strip_plural_chars(word);
    if chars_are(&name, "day") {
        Some(DurationUnit::Day)
    } else if chars_are(&name, "week") {
        Some(DurationUnit::Week)
    } else if chars_are(&name, "month") {
        Some(DurationUnit::Month)
    } else if chars_are(&name, "year") {
        Some(DurationUnit::Year)
    } else if chars_are(&name, "hour") {
        Some(DurationUnit::Hour)
    } else if chars_are(&name, "minute") {
        Some(DurationUnit::Minute)
    } else if chars_are(&name, "second") {
        Some(DurationUnit::Second)
    } else {
        None
    }
}

/// Parses a duration expression that is already trimmed and in lower case.
pub fn parse_normalized_duration(lowered: &str) -> (r: Result<SignedDuration, DurationError>)
    ensures
        duration_result_is(r, duration_of(lowered@)),
{
    let chars = to_chars(lowered);
    let negative = chars.len() > 0 && chars[0] == '-';
    let body = if negative {
        let mut rest: Vec<char> = Vec::new();
        let mut i: usize = 1;
        while i < chars.len()
            invariant
                1 <= i <= chars.len(),
                rest@ == chars@.subrange(1, i as int),
            decreases chars.len() - i,
        {
            rest.push(chars[i]);
            i = i + 1;
        }
        assert(rest@ == chars@.skip(1));
        rest
    } else {
        chars
    };
    let parts = split_words(&body);
    if parts.len() != 2 {
        return Err(DurationError::Format);
    }
    let value = match parse_integer(&parts[0]) {
        Some(value) => value,
        None => {
            return Err(DurationError::InvalidNumber(string_of(&parts[0])));
        },
    };
    let unit = match parse_unit(&parts[1]) {
        Some(unit) => unit,
        None => {
            return Err(DurationError::UnknownUnit(string_of(&parts[1])));
        },
    };
    let per_unit = unit.seconds();
    assert(-0x8000_0000_0000_0000 * 31_536_000 <= value * per_unit <= 0x8000_0000_0000_0000
        * 31_536_000) by (nonlinear_arith)
        requires
            -0x8000_0000_0000_0000 <= value <= 0x8000_0000_0000_0000,
            1 <= per_unit <= 31_536_000,
    ;
    let product: i128 = (value as i128) * (per_unit as i128);
    if product < -(MAX_DURATION_SECONDS as i128) || product > MAX_DURATION_SECONDS as i128 {
        return Err(DurationError::OutOfRange);
    }
    let duration = match SignedDuration::seconds(product as i64) {
        Some(duration) => duration,
        None => {
            return Err(DurationError::OutOfRange);
        },
    };
    Ok(apply_sign(duration, negative))
}

/// Parses a duration expression such as "3 weeks", "2 months" or "-5 days".
///
/// The text is trimmed and put in lower case. An optional leading `-` makes
/// the duration negative; what follows must be exactly two words, a whole
/// number and a unit (day, week, month, year, hour, minute or second, with or
/// without a final `s`).
pub fn parse_duration(expression: &str) -> (r: Result<SignedDuration, DurationError>)
    ensures
        duration_result_is(r, parse_duration_spec(expression@)),
{
    let chars = to_chars(expression);
    let trimmed = string_of(&trim_chars(&chars));
    let lowered = to_lowercase(trimmed.as_str());
    parse_normalized_duration(lowered.as_str())
}

} // verus!
