//! The proleptic Gregorian calendar as a mathematical model.
//!
//! Dates are triples of unbounded integers; everything here is specification
//! and proof. Executable dates live in [`crate::date`].

use vstd::prelude::*;

verus! {

/// The earliest year a date can carry.
pub const MIN_YEAR: i32 = -262143;

/// The latest year a date can carry.
pub const MAX_YEAR: i32 = 262142;

/// The Gregorian leap-year rule: divisible by 4, and not by 100 unless by 400.
pub open spec fn is_leap_year(year: int) -> bool {
    year % 4 == 0 && (year % 100 != 0 || year % 400 == 0)
}

/// The number of days of a month, for `month` in `1..=12`.
pub open spec fn month_days(year: int, month: int) -> int {
    if month == 2 {
        if is_leap_year(year) {
            29
        } else {
            28
        }
    } else if month == 4 || month == 6 || month == 9 || month == 11 {
        30
    } else {
        31
    }
}

/// The number of days of a year.
pub open spec fn days_in_year(year: int) -> int {
    if is_leap_year(year) {
        366
    } else {
        365
    }
}

/// The number of days of `year` that lie before the first of `month`.
pub open spec fn days_before_month(year: int, month: int) -> int {
    let leap: int = if month > 2 && is_leap_year(year) {
        1
    } else {
        0
    };
    let common: int = if month <= 1 {
        0
    } else if month == 2 {
        31
    } else if month == 3 {
        59
    } else if month == 4 {
        90
    } else if month == 5 {
        120
    } else if month == 6 {
        151
    } else if month == 7 {
        181
    } else if month == 8 {
        212
    } else if month == 9 {
        243
    } else if month == 10 {
        273
    } else if month == 11 {
        304
    } else {
        334
    };
    common + leap
}

/// The number of days between January 1 of year 1 and January 1 of `year`.
pub open spec fn days_before_year(year: int) -> int {
    let y = year - 1;
    365 * y + y / 4 - y / 100 + y / 400
}

/// A calendar date as a mathematical value.
pub struct Ymd {
    pub year: int,
    pub month: int,
    pub day: int,
}

impl Ymd {
    /// The date exists in the Gregorian calendar and its year is in range.
    pub open spec fn valid(self) -> bool {
        &&& MIN_YEAR <= self.year <= MAX_YEAR
        &&& 1 <= self.month <= 12
        &&& 1 <= self.day <= month_days(self.year, self.month)
    }

    /// The day of the year, starting from 1.
    pub open spec fn ordinal(self) -> int {
        days_before_month(self.year, self.month) + self.day
    }

    /// The number of the day, counted from January 1 of year 1 as day 1.
    pub open spec fn day_number(self) -> int {
        days_before_year(self.year) + self.ordinal()
    }

    /// Calendar order: by year, then month, then day.
    pub open spec fn lt(self, other: Ymd) -> bool {
        self.year < other.year || (self.year == other.year && (self.month < other.month || (
        self.month == other.month && self.day < other.day)))
    }

    /// Calendar order, or equal.
    pub open spec fn le(self, other: Ymd) -> bool {
        self.lt(other) || self == other
    }

    /// The day of the week, 0 for Monday up to 6 for Sunday.
    pub open spec fn weekday(self) -> int {
        (self.day_number() + 6) % 7
    }
}

/// A year has 365 days, or 366 when it is a leap year.
pub proof fn lemma_year_length(year: int)
    ensures
        days_before_year(year + 1) == days_before_year(year) + days_in_year(year),
{
}

/// Within a valid date the ordinal lies inside the year.
pub proof fn lemma_ordinal_bounds(d: Ymd)
    requires
        d.valid(),
    ensures
        1 <= d.ordinal() <= days_in_year(d.year),
{
}

/// Later years start later.
pub proof fn lemma_years_increase(a: int, b: int)
    requires
        a <= b,
    ensures
        days_before_year(b) - days_before_year(a) >= 365 * (b - a),
    decreases b - a,
{
    if a < b {
        lemma_years_increase(a, b - 1);
        lemma_year_length(b - 1);
    }
}

/// The day number respects calendar order.
pub proof fn lemma_day_number_increases(a: Ymd, b: Ymd)
    requires
        a.valid(),
        b.valid(),
        a.lt(b),
    ensures
        a.day_number() < b.day_number(),
{
    if a.year < b.year {
        lemma_ordinal_bounds(a);
        lemma_ordinal_bounds(b);
        lemma_year_length(a.year);
        lemma_years_increase(a.year + 1, b.year);
    } else if a.month < b.month {
        lemma_months_increase(a.year, a.month, b.month);
    }
}

/// Later months of one year start later, by at least the length of the earlier month.
pub proof fn lemma_months_increase(year: int, a: int, b: int)
    requires
        1 <= a < b <= 12,
    ensures
        days_before_month(year, a) + month_days(year, a) <= days_before_month(year, b),
{
}

/// Calendar order and the order of day numbers are the same order.
pub proof fn lemma_order_is_day_order(a: Ymd, b: Ymd)
    requires
        a.valid(),
        b.valid(),
    ensures
        a.lt(b) <==> a.day_number() < b.day_number(),
        a.le(b) <==> a.day_number() <= b.day_number(),
        a == b <==> a.day_number() == b.day_number(),
{
    if a.lt(b) {
        lemma_day_number_increases(a, b);
    } else if b.lt(a) {
        lemma_day_number_increases(b, a);
    } else {
        assert(a == b);
    }
}

/// The day number of a date in range stays well inside 32 bits.
pub proof fn lemma_day_number_bounds(d: Ymd)
    requires
        d.valid(),
    ensures
        -96_000_000 < d.day_number() < 96_000_000,
{
}

} // verus!
