//! Signed year/month/week/day breakdowns of a span of days.
//!
//! There are two ways to a breakdown, and they differ on purpose.
//! [`DurationBreakdown::from_days`] has only a day count and divides it by
//! fixed lengths (365, 30, 7). [`DurationBreakdown::between_dates`] has two
//! anchor dates and walks the real calendar between them.

use crate::calendar::{lemma_day_number_bounds, lemma_order_is_day_order, lemma_year_length, Ymd};
use crate::date::{
    add_months, add_months_spec, lemma_next_year, next_year, next_year_spec, CalendarDate,
};
use crate::text::{decimal, join, lemma_join_push, push_decimal};
use vstd::prelude::*;
use vstd::string::StringExecFns;

verus! {

/// A span broken down into calendar units. All fields carry the sign of the
/// span; the sub-day fields are reserved and stay zero.
#[derive(Clone, Copy, Debug, PartialEq, Eq, Structural)]
pub struct DurationBreakdown {
    pub years: i32,
    pub months: i32,
    pub weeks: i32,
    pub days: i32,
    pub hours: i64,
    pub minutes: i64,
    pub seconds: i64,
}

/// A breakdown as a mathematical value.
pub struct Breakdown {
    pub years: int,
    pub months: int,
    pub weeks: int,
    pub days: int,
    pub hours: int,
    pub minutes: int,
    pub seconds: int,
}

impl View for DurationBreakdown {
    type V = Breakdown;

    open spec fn view(&self) -> Breakdown {
        Breakdown {
            years: self.years as int,
            months: self.months as int,
            weeks: self.weeks as int,
            days: self.days as int,
            hours: self.hours as int,
            minutes: self.minutes as int,
            seconds: self.seconds as int,
        }
    }
}

impl Breakdown {
    /// A breakdown of whole calendar units, with no sub-day part.
    pub open spec fn of(years: int, months: int, weeks: int, days: int) -> Breakdown {
        Breakdown { years, months, weeks, days, hours: 0, minutes: 0, seconds: 0 }
    }

    /// The same breakdown with every field negated.
    pub open spec fn negated(self) -> Breakdown {
        Breakdown {
            years: -self.years,
            months: -self.months,
            weeks: -self.weeks,
            days: -self.days,
            hours: -self.hours,
            minutes: -self.minutes,
            seconds: -self.seconds,
        }
    }

    /// Every field is zero.
    pub open spec fn is_zero(self) -> bool {
        self == Breakdown::of(0, 0, 0, 0)
    }

    /// No field is negative.
    pub open spec fn non_negative(self) -> bool {
        &&& self.years >= 0
        &&& self.months >= 0
        &&& self.weeks >= 0
        &&& self.days >= 0
        &&& self.hours >= 0
        &&& self.minutes >= 0
        &&& self.seconds >= 0
    }

    /// No field is positive.
    pub open spec fn non_positive(self) -> bool {
        self.negated().non_negative()
    }
}

/// The largest day count whose number of 365-day years fits the `years` field.
pub const MAX_BREAKDOWN_DAYS: i64 = 783_831_531_519;

/// The breakdown of a non-negative day count by fixed lengths: 365-day years,
/// then 30-day months, then weeks, then days.
pub open spec fn fixed_breakdown(days: int) -> Breakdown {
    Breakdown::of(days / 365, (days % 365) / 30, ((days % 365) % 30) / 7, ((days % 365) % 30) % 7)
}

/// The breakdown of a signed day count: that of its absolute value, with the
/// sign of the count on every field.
pub open spec fn from_days_spec(total_days: int) -> Breakdown {
    if total_days < 0 {
        fixed_breakdown(-total_days).negated()
    } else {
        fixed_breakdown(total_days)
    }
}

/// The position of a date's month on the line of all months.
pub open spec fn month_index(d: Ymd) -> int {
    d.year * 12 + d.month
}

/// Where the walk by whole years ends: the last date reached from `current`
/// by moving one year forward at a time without passing `to`. A step keeps
/// month and day; from February 29 it leads to February 28.
pub open spec fn year_walk(current: Ymd, to: Ymd) -> Ymd
    decreases to.year - current.year,
{
    match next_year_spec(current) {
        Some(next) => if next.le(to) {
            year_walk(next, to)
        } else {
            current
        },
        None => current,
    }
}

/// Where the walk by whole months ends: the last date reached from `current`
/// by moving one month forward at a time, the day clamped to each month's
/// length, without passing `to`.
pub open spec fn month_walk(current: Ymd, to: Ymd) -> Ymd
    decreases month_index(to) - month_index(current),
    when to.valid()
{
    match add_months_spec(current, 1) {
        Some(next) => if next.le(to) {
            month_walk(next, to)
        } else {
            current
        },
        None => current,
    }
}

/// The calendar walk from `from` to a date `to` that is not earlier: whole
/// years first, then whole months, then the days that are left as weeks and
/// days.
pub open spec fn walk_breakdown(from: Ymd, to: Ymd) -> Breakdown {
    let after_years = year_walk(from, to);
    let after_months = month_walk(after_years, to);
    let rest = to.day_number() - after_months.day_number();
    Breakdown::of(
        after_years.year - from.year,
        month_index(after_months) - month_index(after_years),
        rest / 7,
        rest % 7,
    )
}

/// The breakdown between two dates: the calendar walk from the earlier to the
/// later one, negated where `to` is the earlier one.
pub open spec fn between_dates_spec(from: Ymd, to: Ymd) -> Breakdown {
    if from.le(to) {
        walk_breakdown(from, to)
    } else {
        walk_breakdown(to, from).negated()
    }
}

/// The absolute value of a field.
pub open spec fn magnitude(value: int) -> nat {
    if value < 0 {
        (-value) as nat
    } else {
        value as nat
    }
}

/// One part of the text of a breakdown: the absolute value and the unit, in
/// the singular for 1 and in the plural otherwise.
pub open spec fn unit_part(value: int, singular: Seq<char>) -> Seq<char> {
    decimal(magnitude(value)) + seq![' '] + singular + if magnitude(value) == 1 {
        Seq::<char>::empty()
    } else {
        seq!['s']
    }
}

/// The part of a field in the text: none for a field that is zero.
pub open spec fn optional_part(value: int, singular: Seq<char>) -> Seq<Seq<char>> {
    if value != 0 {
        seq![unit_part(value, singular)]
    } else {
        Seq::empty()
    }
}

/// The parts of the text of a breakdown, from years down to days.
pub open spec fn breakdown_parts(b: Breakdown) -> Seq<Seq<char>> {
    optional_part(b.years, "year"@) + optional_part(b.months, "month"@) + optional_part(
        b.weeks,
        "week"@,
    ) + optional_part(b.days, "day"@)
}

/// The text of a breakdown: its parts separated by a comma and a space, or
/// "0 days" where every field is zero.
pub open spec fn breakdown_text(b: Breakdown) -> Seq<char> {
    let parts = breakdown_parts(b);
    if parts.len() == 0 {
        "0 days"@
    } else {
        join(parts, ", "@)
    }
}

/// Appends the part of one field to the text written so far.
fn push_part(out: &mut String, first: bool, value: i32, singular: &str, parts: Ghost<
    Seq<Seq<char>>,
>) -> (r: (bool, Ghost<Seq<Seq<char>>>))
    requires
        old(out)@ == join(parts@, ", "@),
        first == (parts@.len() == 0),
    ensures
        final(out)@ == join(r.1@, ", "@),
        r.0 == (r.1@.len() == 0),
        r.1@ == parts@ + optional_part(value as int, singular@),
{
    if value == 0 {
        assert(parts@ + optional_part(value as int, singular@) == parts@);
        return (first, parts);
    }
    let size: u64 = if value < 0 {
        (-(value as i64)) as u64
    } else {
        value as u64
    };
    if !first {
        out.append(", ");
    }
    push_decimal(out, size);
    proof {
        reveal_strlit(" ");
        reveal_strlit("s");
    }
    out.append(" ");
    out.append(singular);
    if size != 1 {
        out.append("s");
    }
    proof {
        let part = unit_part(value as int, singular@);
        lemma_join_push(parts@, ", "@, part);
        assert(parts@ + optional_part(value as int, singular@) == parts@.push(part));
        if first {
            assert(final(out)@ == part);
        } else {
            assert(final(out)@ == join(parts@, ", "@) + ", "@ + part);
        }
    }
    (false, Ghost(parts@.push(unit_part(value as int, singular@))))
}

/// The year walk ends at a valid date between its start and `to`, with the
/// month and day it started from.
pub proof fn lemma_year_walk(current: Ymd, to: Ymd)
    requires
        current.valid(),
        current.le(to),
    ensures
        year_walk(current, to).valid(),
        year_walk(current, to).le(to),
        year_walk(current, to).year >= current.year,
        year_walk(current, to).month == current.month,
        year_walk(current, to).day <= current.day,
    decreases to.year - current.year,
{
    match next_year_spec(current) {
        Some(next) => {
            if next.le(to) {
                lemma_year_walk(next, to);
            }
        },
        None => {},
    }
}

/// The month walk ends at a valid date between its start and `to`.
pub proof fn lemma_month_walk(current: Ymd, to: Ymd)
    requires
        current.valid(),
        to.valid(),
        current.le(to),
    ensures
        month_walk(current, to).valid(),
        month_walk(current, to).le(to),
        month_index(month_walk(current, to)) >= month_index(current),
    decreases month_index(to) - month_index(current),
{
    match add_months_spec(current, 1) {
        Some(next) => {
            if next.le(to) {
                lemma_month_walk(next, to);
            }
        },
        None => {},
    }
}

/// Whether the month and day of `a` come before those of `b` in a year.
pub open spec fn earlier_in_year(a: Ymd, b: Ymd) -> bool {
    a.month < b.month || (a.month == b.month && a.day < b.day)
}

/// The day that a date keeps when it moves through the years: its own month
/// and day, and February 28 for a leap day.
pub open spec fn yearly_anchor(d: Ymd) -> Ymd {
    if d.month == 2 && d.day == 29 {
        Ymd { year: d.year, month: 2, day: 28 }
    } else {
        d
    }
}

/// The walk by whole years ends in the year of `to`, or in the year before
/// where `to` comes earlier in its year than the start in its own. A leap day
/// counts as February 28 in the years that follow.
pub proof fn lemma_year_walk_closed_form(current: Ymd, to: Ymd)
    requires
        current.valid(),
        to.valid(),
        current.le(to),
    ensures
        year_walk(current, to).year == if earlier_in_year(to, yearly_anchor(current)) {
            to.year - 1
        } else {
            to.year
        },
    decreases to.year - current.year,
{
    lemma_next_year(current);
    match next_year_spec(current) {
        Some(next) => {
            if next.le(to) {
                lemma_year_walk_closed_form(next, to);
            }
        },
        None => {},
    }
}

/// After the walk by whole months less than a month is left: 30 days at most.
pub proof fn lemma_month_walk_rest(current: Ymd, to: Ymd)
    requires
        current.valid(),
        to.valid(),
        current.le(to),
    ensures
        0 <= to.day_number() - month_walk(current, to).day_number() <= 30,
    decreases month_index(to) - month_index(current),
{
    lemma_order_is_day_order(current, to);
    match add_months_spec(current, 1) {
        Some(next) => {
            if next.le(to) {
                lemma_month_walk_rest(next, to);
            } else {
                lemma_order_is_day_order(to, next);
                lemma_year_length(current.year);
            }
        },
        None => {},
    }
}

/// The breakdown of a day count carries one sign: no field is negative for a
/// count that is not, and none is positive for a count that is not. Weighted
/// by the fixed lengths the fields add up to the count again, and each of
/// months, weeks and days stays below the next larger unit.
pub proof fn lemma_from_days_sign_and_sum(total_days: int)
    ensures
        total_days >= 0 ==> from_days_spec(total_days).non_negative(),
        total_days <= 0 ==> from_days_spec(total_days).non_positive(),
        ({
            let b = from_days_spec(total_days);
            &&& 365 * b.years + 30 * b.months + 7 * b.weeks + b.days == total_days
            &&& -13 < b.months < 13
            &&& -5 < b.weeks < 5
            &&& -7 < b.days < 7
        }),
{
}

/// A part of the text of a breakdown names its unit in the singular where
/// the absolute value of the field is 1 and in the plural otherwise, and it
/// reads the same for a field and for its negative.
pub proof fn lemma_unit_part_number(value: int, singular: Seq<char>)
    ensures
        magnitude(value) == 1 ==> unit_part(value, singular) == seq!['1', ' '] + singular,
        magnitude(value) != 1 ==> unit_part(value, singular) == decimal(magnitude(value)) + seq![
            ' ',
        ] + singular + seq!['s'],
        unit_part(-value, singular) == unit_part(value, singular),
{
    assert(decimal(1) + seq![' '] == seq!['1', ' ']);
    assert(singular + Seq::<char>::empty() == singular);
}

/// From a date to itself every field of the breakdown is zero.
pub proof fn lemma_between_same_date(d: Ymd)
    requires
        d.valid(),
    ensures
        between_dates_spec(d, d).is_zero(),
{
}

/// Swapping the two dates negates the breakdown, field by field.
pub proof fn lemma_between_swapped(a: Ymd, b: Ymd)
    requires
        a.valid(),
        b.valid(),
    ensures
        between_dates_spec(b, a) == between_dates_spec(a, b).negated(),
{
    if a == b {
        lemma_between_same_date(a);
    }
}

/// The breakdown between two dates carries one sign: no field is negative
/// where `to` is not earlier than `from`, and none is positive where it is
/// not later. The days stay below a week and the weeks below five.
pub proof fn lemma_between_sign(from: Ymd, to: Ymd)
    requires
        from.valid(),
        to.valid(),
    ensures
        from.le(to) ==> between_dates_spec(from, to).non_negative(),
        to.le(from) ==> between_dates_spec(from, to).non_positive(),
        -7 < between_dates_spec(from, to).days < 7,
        -5 < between_dates_spec(from, to).weeks < 5,
{
    if from.le(to) {
        lemma_walk_non_negative(from, to);
        if to.le(from) {
            lemma_between_same_date(from);
        }
    } else {
        lemma_walk_non_negative(to, from);
    }
}

/// The calendar walk between two dates in order yields no negative field.
proof fn lemma_walk_non_negative(from: Ymd, to: Ymd)
    requires
        from.valid(),
        to.valid(),
        from.le(to),
    ensures
        walk_breakdown(from, to).non_negative(),
        0 <= walk_breakdown(from, to).days < 7,
        0 <= walk_breakdown(from, to).weeks < 5,
{
    lemma_year_walk(from, to);
    let after_years = year_walk(from, to);
    lemma_month_walk(after_years, to);
    lemma_month_walk_rest(after_years, to);
}

/// The years of the breakdown between two dates in order: the difference of
/// the years, less one where `to` comes earlier in its year than `from` in
/// its own. A leap day counts as February 28 in the years that follow.
pub proof fn lemma_between_years(from: Ymd, to: Ymd)
    requires
        from.valid(),
        to.valid(),
        from.le(to),
    ensures
        between_dates_spec(from, to).years == if earlier_in_year(to, yearly_anchor(from)) {
            to.year - from.year - 1
        } else {
            to.year - from.year
        },
{
    lemma_year_walk_closed_form(from, to);
}

impl DurationBreakdown {
    /// The breakdown of a day count by fixed lengths: 365 days to the year,
    /// 30 to the month, 7 to the week. The sign of the count is on every
    /// field.
    pub fn from_days(total_days: i64) -> (r: DurationBreakdown)
        requires
            -MAX_BREAKDOWN_DAYS <= total_days <= MAX_BREAKDOWN_DAYS,
        ensures
            r@ == from_days_spec(total_days as int),
    {
        let negative = total_days < 0;
        let magnitude: i64 = if negative {
            -total_days
        } else {
            total_days
        };
        let years: i64 = magnitude / 365;
        let remaining: i64 = magnitude % 365;
        let months: i64 = remaining / 30;
        let remaining: i64 = remaining % 30;
        let weeks: i64 = remaining / 7;
        let days: i64 = remaining % 7;
        if negative {
            DurationBreakdown {
                years: -(years as i32),
                months: -(months as i32),
                weeks: -(weeks as i32),
                days: -(days as i32),
                hours: 0,
                minutes: 0,
                seconds: 0,
            }
        } else {
            DurationBreakdown {
                years: years as i32,
                months: months as i32,
                weeks: weeks as i32,
                days: days as i32,
                hours: 0,
                minutes: 0,
                seconds: 0,
            }
        }
    }

    /// The breakdown in words, such as "10 years, 5 months, 3 weeks, 2 days".
    /// Fields that are zero are left out, each number is the absolute value of
    /// its field, and a unit is in the singular exactly where that number is
    /// 1. A breakdown that is zero throughout reads "0 days".
    pub fn to_string_breakdown(&self) -> (text: String)
        ensures
            text@ == breakdown_text(self@),
    {
        let mut out = String::new();
        let ghost none: Seq<Seq<char>> = Seq::empty();
        let (first, parts) = push_part(&mut out, true, self.years, "year", Ghost(none));
        let (first, parts) = push_part(&mut out, first, self.months, "month", parts);
        let (first, parts) = push_part(&mut out, first, self.weeks, "week", parts);
        let (first, parts) = push_part(&mut out, first, self.days, "day", parts);
        assert(parts@ == breakdown_parts(self@));
        if first {
            "0 days".to_string()
        } else {
            out
        }
    }

    /// The breakdown between two dates as read off a calendar: whole years
    /// from the earlier date, then whole months, then weeks and days. A step
    /// by a year or a month keeps the day of the month where the month
    /// reached has it, and takes its last day otherwise. Where `to` is the
    /// earlier date every field is negative or zero.
    pub fn between_dates(from: CalendarDate, to: CalendarDate) -> (r: DurationBreakdown)
        ensures
            r@ == between_dates_spec(from@, to@),
    {
        let forward = from.le(&to);
        let (start, end) = if forward {
            (from, to)
        } else {
            (to, from)
        };
        proof {
            lemma_year_walk(start@, end@);
        }
        let mut years: i32 = 0;
        let mut current = start;
        let mut walking = true;
        while walking
            invariant
                start@.valid(),
                end@.valid(),
                current@.valid(),
                current@.le(end@),
                years == current@.year - start@.year,
                0 <= years,
                year_walk(start@, end@) == year_walk(current@, end@),
                !walking ==> year_walk(current@, end@) == current@,
            decreases end@.year - current@.year + if walking { 1int } else { 0int },
        {
            match next_year(current) {
                Some(next) => {
                    if next.le(&end) {
                        years = years + 1;
                        current = next;
                    } else {
                        walking = false;
                    }
                },
                None => {
                    walking = false;
                },
            }
        }
        let after_years = current;
        proof {
            lemma_month_walk(after_years@, end@);
        }
        let mut months: i32 = 0;
        walking = true;
        while walking
            invariant
                end@.valid(),
                after_years@.valid(),
                current@.valid(),
                current@.le(end@),
                months == month_index(current@) - month_index(after_years@),
                0 <= months,
                month_index(current@) <= month_index(end@),
                month_walk(after_years@, end@) == month_walk(current@, end@),
                !walking ==> month_walk(current@, end@) == current@,
            decreases month_index(end@) - month_index(current@) + if walking { 1int } else { 0int },
        {
            match add_months(current, 1) {
                Some(next) => {
                    if next.le(&end) {
                        months = months + 1;
                        current = next;
                    } else {
                        walking = false;
                    }
                },
                None => {
                    walking = false;
                },
            }
        }
        let remaining = current.days_until(&end);
        proof {
            lemma_order_is_day_order(current@, end@);
            lemma_day_number_bounds(current@);
            lemma_day_number_bounds(end@);
        }
        let weeks: i32 = (remaining / 7) as i32;
        let days: i32 = (remaining % 7) as i32;
        if forward {
            DurationBreakdown { years, months, weeks, days, hours: 0, minutes: 0, seconds: 0 }
        } else {
            DurationBreakdown {
                years: -years,
                months: -months,
                weeks: -weeks,
                days: -days,
                hours: 0,
                minutes: 0,
                seconds: 0,
            }
        }
    }
}

} // verus!
