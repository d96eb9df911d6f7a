use ucm::date::CalendarDate;
use ucm::types::duration::{DurationBreakdown, MAX_BREAKDOWN_DAYS};

fn date(year: i32, month: u32, day: u32) -> CalendarDate {
    CalendarDate::from_ymd_opt(year, month, day).unwrap()
}

fn fields(b: &DurationBreakdown) -> (i32, i32, i32, i32) {
    (b.years, b.months, b.weeks, b.days)
}

#[test]
fn test_duration_from_days() {
    let breakdown = DurationBreakdown::from_days(3823);
    assert_eq!(breakdown.years, 10);
    assert_eq!(breakdown.months, 5);
    assert_eq!(breakdown.weeks, 3);
    assert_eq!(breakdown.days, 2); // 3823 = 10*365 + 5*30 + 3*7 + 2
}

#[test]
fn test_duration_between_dates() {
    let from = date(2026, 1, 13);
    let to = date(2026, 10, 22);
    let breakdown = DurationBreakdown::between_dates(from, to);
    assert_eq!(breakdown.years, 0);
    assert_eq!(breakdown.months, 9);
}

#[test]
fn test_duration_negative() {
    let from = date(2026, 10, 22);
    let to = date(2026, 1, 13);
    let breakdown = DurationBreakdown::between_dates(from, to);
    assert_eq!(breakdown.years, 0);
    assert_eq!(breakdown.months, -9);
}

#[test]
fn from_days_negative_three_weeks() {
    let breakdown = DurationBreakdown::from_days(-21);
    assert_eq!(fields(&breakdown), (0, 0, -3, 0));
    assert_eq!(breakdown.hours, 0);
    assert_eq!(breakdown.minutes, 0);
    assert_eq!(breakdown.seconds, 0);
}

#[test]
fn from_days_zero_and_one() {
    assert_eq!(fields(&DurationBreakdown::from_days(0)), (0, 0, 0, 0));
    assert_eq!(fields(&DurationBreakdown::from_days(1)), (0, 0, 0, 1));
    assert_eq!(fields(&DurationBreakdown::from_days(-1)), (0, 0, 0, -1));
    assert_eq!(fields(&DurationBreakdown::from_days(364)), (0, 12, 0, 4));
    assert_eq!(fields(&DurationBreakdown::from_days(365)), (1, 0, 0, 0));
    assert_eq!(fields(&DurationBreakdown::from_days(100)), (0, 3, 1, 3));
}

#[test]
fn from_days_at_the_limits() {
    let top = DurationBreakdown::from_days(MAX_BREAKDOWN_DAYS);
    assert_eq!(fields(&top), (i32::MAX, 12, 0, 4));
    let bottom = DurationBreakdown::from_days(-MAX_BREAKDOWN_DAYS);
    assert_eq!(fields(&bottom), (-i32::MAX, -12, 0, -4));
}

#[test]
fn from_days_has_one_sign_and_adds_up() {
    let mut d: i64 = -5000;
    while d <= 5000 {
        let b = DurationBreakdown::from_days(d);
        let sum = 365 * b.years as i64 + 30 * b.months as i64 + 7 * b.weeks as i64 + b.days as i64;
        assert_eq!(sum, d);
        for field in [b.years, b.months, b.weeks, b.days] {
            if d >= 0 {
                assert!(field >= 0);
            }
            if d <= 0 {
                assert!(field <= 0);
            }
        }
        d += 1;
    }
}

#[test]
fn text_of_a_breakdown() {
    assert_eq!(
        DurationBreakdown::from_days(3823).to_string_breakdown(),
        "10 years, 5 months, 3 weeks, 2 days"
    );
    assert_eq!(DurationBreakdown::from_days(0).to_string_breakdown(), "0 days");
    assert_eq!(DurationBreakdown::from_days(1).to_string_breakdown(), "1 day");
    assert_eq!(DurationBreakdown::from_days(-1).to_string_breakdown(), "1 day");
    assert_eq!(DurationBreakdown::from_days(-21).to_string_breakdown(), "3 weeks");
    assert_eq!(DurationBreakdown::from_days(7).to_string_breakdown(), "1 week");
    assert_eq!(DurationBreakdown::from_days(30).to_string_breakdown(), "1 month");
    assert_eq!(DurationBreakdown::from_days(365).to_string_breakdown(), "1 year");
    assert_eq!(
        DurationBreakdown::from_days(365 + 30 + 7 + 1).to_string_breakdown(),
        "1 year, 1 month, 1 week, 1 day"
    );
    assert_eq!(DurationBreakdown::from_days(-402).to_string_breakdown(), "1 year, 1 month, 1 week");
}

#[test]
fn text_of_a_breakdown_uses_absolute_values() {
    let b = DurationBreakdown {
        years: i32::MIN,
        months: -1,
        weeks: 0,
        days: 12,
        hours: 5,
        minutes: 6,
        seconds: 7,
    };
    assert_eq!(b.to_string_breakdown(), "2147483648 years, 1 month, 12 days");
}

#[test]
fn between_same_date_is_zero() {
    for d in [date(2026, 1, 13), date(2024, 2, 29), date(-262143, 1, 1), date(262142, 12, 31)] {
        let b = DurationBreakdown::between_dates(d, d);
        assert_eq!(fields(&b), (0, 0, 0, 0));
        assert_eq!(b.to_string_breakdown(), "0 days");
    }
}

#[test]
fn between_dates_swapped_is_negated() {
    let dates = [
        date(2024, 2, 29),
        date(2023, 1, 31),
        date(2026, 10, 22),
        date(1999, 12, 31),
        date(2000, 3, 1),
        date(2031, 5, 15),
    ];
    for a in dates {
        for b in dates {
            let forward = DurationBreakdown::between_dates(a, b);
            let backward = DurationBreakdown::between_dates(b, a);
            assert_eq!(forward.years, -backward.years);
            assert_eq!(forward.months, -backward.months);
            assert_eq!(forward.weeks, -backward.weeks);
            assert_eq!(forward.days, -backward.days);
        }
    }
}

#[test]
fn between_dates_walks_the_calendar() {
    let b = DurationBreakdown::between_dates(date(2026, 1, 13), date(2026, 10, 22));
    assert_eq!(fields(&b), (0, 9, 1, 2));
    let b = DurationBreakdown::between_dates(date(2016, 5, 10), date(2026, 10, 22));
    assert_eq!(fields(&b), (10, 5, 1, 5));
    // The fixed lengths give another answer for the same span of 3817 days.
    let span = date(2016, 5, 10).days_until(&date(2026, 10, 22));
    assert_eq!(span, 3817);
    assert_eq!(fields(&DurationBreakdown::from_days(span)), (10, 5, 2, 3));
}

#[test]
fn between_dates_clamps_the_day_of_the_month() {
    // January 31 and one month is the end of February; the day then stays 28.
    let b = DurationBreakdown::between_dates(date(2023, 1, 31), date(2023, 2, 28));
    assert_eq!(fields(&b), (0, 1, 0, 0));
    let b = DurationBreakdown::between_dates(date(2023, 1, 31), date(2023, 3, 30));
    assert_eq!(fields(&b), (0, 2, 0, 2));
    let b = DurationBreakdown::between_dates(date(2024, 1, 31), date(2024, 2, 29));
    assert_eq!(fields(&b), (0, 1, 0, 0));
    let b = DurationBreakdown::between_dates(date(2023, 1, 31), date(2023, 2, 27));
    assert_eq!(fields(&b), (0, 0, 3, 6));
}

#[test]
fn between_dates_from_a_leap_day() {
    // A leap day moves to February 28 in the next year, and stays there.
    let b = DurationBreakdown::between_dates(date(2024, 2, 29), date(2025, 3, 1));
    assert_eq!(fields(&b), (1, 0, 0, 1));
    let b = DurationBreakdown::between_dates(date(2024, 2, 29), date(2028, 2, 29));
    assert_eq!(fields(&b), (4, 0, 0, 1));
    let b = DurationBreakdown::between_dates(date(2024, 2, 28), date(2028, 2, 29));
    assert_eq!(fields(&b), (4, 0, 0, 1));
    let b = DurationBreakdown::between_dates(date(2024, 2, 29), date(2025, 2, 28));
    assert_eq!(fields(&b), (1, 0, 0, 0));
    let b = DurationBreakdown::between_dates(date(2024, 2, 29), date(2025, 2, 27));
    assert_eq!(fields(&b), (0, 11, 4, 1));
    let b = DurationBreakdown::between_dates(date(2024, 2, 29), date(2024, 12, 31));
    assert_eq!(fields(&b), (0, 10, 0, 2));
    let b = DurationBreakdown::between_dates(date(2025, 3, 1), date(2024, 2, 29));
    assert_eq!(fields(&b), (-1, 0, 0, -1));
    let b = DurationBreakdown::between_dates(date(2024, 2, 29), date(2034, 4, 1));
    assert_eq!(fields(&b), (10, 1, 0, 4));
}

#[test]
fn between_dates_counts_the_years_of_the_calendar() {
    let starts = [date(2024, 2, 29), date(2023, 1, 31), date(2020, 12, 31), date(2019, 3, 1)];
    for from in starts {
        let anchor = if (from.month(), from.day()) == (2, 29) { (2, 28) } else { (from.month(), from.day()) };
        let mut n: i64 = 0;
        while n <= 6000 {
            let to = from.add_days(n).unwrap();
            let b = DurationBreakdown::between_dates(from, to);
            let mut years = to.year() - from.year();
            if (to.month(), to.day()) < anchor {
                years -= 1;
            }
            assert_eq!(b.years, years, "{n} days on");
            assert!((0..5).contains(&b.weeks) && (0..7).contains(&b.days));
            n += 1;
        }
    }
}

#[test]
fn between_dates_ends_at_the_last_year() {
    let b = DurationBreakdown::between_dates(date(262140, 2, 29), date(262142, 12, 31));
    assert_eq!(fields(&b), (2, 10, 0, 3));
    // October 31 and a month is November 30, and the day then stays 30.
    let b = DurationBreakdown::between_dates(date(262142, 10, 31), date(262142, 12, 31));
    assert_eq!(fields(&b), (0, 2, 0, 1));
    let b = DurationBreakdown::between_dates(date(262142, 11, 30), date(262142, 12, 31));
    assert_eq!(fields(&b), (0, 1, 0, 1));
    let b = DurationBreakdown::between_dates(date(262141, 12, 31), date(262142, 12, 31));
    assert_eq!(fields(&b), (1, 0, 0, 0));
}
