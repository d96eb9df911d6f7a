use ucm::calendar::{MAX_YEAR, MIN_YEAR};
use ucm::date::{add_months, days_in_month, next_year, CalendarDate, LocalDateTime};

fn date(year: i32, month: u32, day: u32) -> CalendarDate {
    CalendarDate::from_ymd_opt(year, month, day).unwrap()
}

fn parts(d: CalendarDate) -> (i32, u32, u32) {
    (d.year(), d.month(), d.day())
}

fn is_leap(year: i64) -> bool {
    year.rem_euclid(4) == 0 && (year.rem_euclid(100) != 0 || year.rem_euclid(400) == 0)
}

fn month_days(year: i64, month: i64) -> i64 {
    match month {
        2 => {
            if is_leap(year) {
                29
            } else {
                28
            }
        }
        4 | 6 | 9 | 11 => 30,
        _ => 31,
    }
}

fn ordinal(year: i64, month: i64, day: i64) -> i64 {
    let mut n = day;
    let mut m = 1;
    while m < month {
        n += month_days(year, m);
        m += 1;
    }
    n
}

fn day_number(year: i64, month: i64, day: i64) -> i64 {
    let y = year - 1;
    365 * y + y.div_euclid(4) - y.div_euclid(100) + y.div_euclid(400) + ordinal(year, month, day)
}

fn weekday(year: i64, month: i64, day: i64) -> i64 {
    (day_number(year, month, day) + 6).rem_euclid(7)
}

fn iso_weeks_in_year(year: i64) -> i64 {
    let first = weekday(year, 1, 1);
    if first == 3 || (first == 2 && is_leap(year)) {
        53
    } else {
        52
    }
}

fn iso_week(year: i64, month: i64, day: i64) -> i64 {
    let raw = (ordinal(year, month, day) - weekday(year, month, day) + 9).div_euclid(7);
    if raw < 1 {
        iso_weeks_in_year(year - 1)
    } else if raw > iso_weeks_in_year(year) {
        1
    } else {
        raw
    }
}

fn iso_text(year: i64, month: i64, day: i64) -> String {
    let y = if (0..=9999).contains(&year) {
        format!("{:04}", year)
    } else if year > 9999 {
        format!("+{}", year)
    } else {
        format!("-{:04}", -year)
    };
    format!("{}-{:02}-{:02}", y, month, day)
}

const WEEKDAYS: [&str; 7] =
    ["Monday", "Tuesday", "Wednesday", "Thursday", "Friday", "Saturday", "Sunday"];

const MONTHS: [&str; 12] = [
    "January",
    "February",
    "March",
    "April",
    "May",
    "June",
    "July",
    "August",
    "September",
    "October",
    "November",
    "December",
];

fn sample_years() -> Vec<i32> {
    let mut years = vec![MIN_YEAR, MIN_YEAR + 1, -10000, -9999, -401, -400, -100, -4, -1, 0, 1, 4];
    years.extend([99, 100, 400, 999, 1000, 1582, 1600, 1900, 9999, 10000, 12345]);
    years.extend([MAX_YEAR - 1, MAX_YEAR]);
    years.extend(1995..=2035);
    years
}

#[test]
fn a_date_exists_where_the_calendar_says_so() {
    for year in sample_years() {
        for month in 0..=14u32 {
            for day in 0..=33u32 {
                let expected = (1..=12).contains(&month)
                    && day >= 1
                    && day as i64 <= month_days(year as i64, month as i64);
                let made = CalendarDate::from_ymd_opt(year, month, day);
                assert_eq!(made.is_some(), expected, "{year}-{month}-{day}");
                if let Some(d) = made {
                    assert_eq!(parts(d), (year, month, day));
                }
            }
        }
    }
}

#[test]
fn a_date_out_of_range_does_not_exist() {
    assert!(CalendarDate::from_ymd_opt(MAX_YEAR + 1, 1, 1).is_none());
    assert!(CalendarDate::from_ymd_opt(MIN_YEAR - 1, 12, 31).is_none());
    assert!(CalendarDate::from_ymd_opt(400000, 1, 1).is_none());
    assert!(CalendarDate::from_ymd_opt(i32::MAX, 1, 1).is_none());
    assert!(CalendarDate::from_ymd_opt(i32::MIN, 1, 1).is_none());
    assert!(CalendarDate::from_ymd_opt(2015, 2, 29).is_none());
    assert!(CalendarDate::from_ymd_opt(2015, u32::MAX, 1).is_none());
    assert!(CalendarDate::from_ymd_opt(-4, 2, 29).is_some());
}

#[test]
fn calendar_values_agree_with_the_model() {
    let anchor = date(2000, 1, 1);
    let anchor_number = day_number(2000, 1, 1);
    for year in sample_years() {
        let y = year as i64;
        for month in 1..=12u32 {
            let m = month as i64;
            for day in 1..=month_days(y, m) as u32 {
                let dd = day as i64;
                let d = date(year, month, day);
                let label = format!("{year}-{month}-{day}");
                assert_eq!(anchor.days_until(&d), day_number(y, m, dd) - anchor_number, "{label}");
                assert_eq!(d.days_until(&anchor), anchor_number - day_number(y, m, dd), "{label}");
                assert_eq!(d.weekday() as i64, weekday(y, m, dd), "{label}");
                assert_eq!(d.ordinal() as i64, ordinal(y, m, dd), "{label}");
                assert_eq!(d.iso_week() as i64, iso_week(y, m, dd), "{label}");
                assert_eq!(d.leap_year(), is_leap(y), "{label}");
                assert_eq!(d.format_iso(), iso_text(y, m, dd), "{label}");
                assert_eq!(d.weekday_name(), WEEKDAYS[weekday(y, m, dd) as usize], "{label}");
                assert_eq!(d.month_name(), MONTHS[month as usize - 1], "{label}");
            }
        }
    }
}

#[test]
fn known_days_of_the_week() {
    assert_eq!(date(2026, 10, 22).weekday(), 3);
    assert_eq!(date(2026, 10, 22).weekday_name(), "Thursday");
    assert_eq!(date(2026, 1, 17).weekday_name(), "Saturday");
    assert_eq!(date(1, 1, 1).weekday_name(), "Monday");
    assert_eq!(date(2015, 9, 8).weekday_name(), "Tuesday");
    assert_eq!(date(-308, 3, 14).weekday_name(), "Friday");
}

#[test]
fn known_weeks_and_ordinals() {
    assert_eq!(date(2026, 10, 22).iso_week(), 43);
    assert_eq!(date(2026, 10, 22).ordinal(), 295);
    assert_eq!(date(2021, 1, 1).iso_week(), 53);
    assert_eq!(date(2020, 12, 31).iso_week(), 53);
    assert_eq!(date(2019, 12, 30).iso_week(), 1);
    assert_eq!(date(2024, 12, 31).ordinal(), 366);
    assert_eq!(date(2015, 9, 8).ordinal(), 251);
}

#[test]
fn known_texts_of_dates() {
    assert_eq!(date(2015, 9, 5).format_iso(), "2015-09-05");
    assert_eq!(date(0, 1, 1).format_iso(), "0000-01-01");
    assert_eq!(date(9999, 12, 31).format_iso(), "9999-12-31");
    assert_eq!(date(-1, 1, 1).format_iso(), "-0001-01-01");
    assert_eq!(date(10000, 12, 31).format_iso(), "+10000-12-31");
    assert_eq!(date(-12345, 6, 7).format_iso(), "-12345-06-07");
    assert_eq!(date(999, 6, 7).format_iso(), "0999-06-07");
}

#[test]
fn dates_are_ordered_by_the_calendar() {
    let dates = [
        date(MIN_YEAR, 1, 1),
        date(-1, 12, 31),
        date(0, 1, 1),
        date(2023, 12, 31),
        date(2024, 1, 1),
        date(2024, 1, 2),
        date(2024, 2, 1),
        date(MAX_YEAR, 12, 31),
    ];
    for (i, a) in dates.iter().enumerate() {
        for (j, b) in dates.iter().enumerate() {
            assert_eq!(a.le(b), i <= j);
            assert_eq!(a == b, i == j);
            assert_eq!(a.days_until(b) >= 0, i <= j);
        }
    }
}

#[test]
fn with_year_keeps_month_and_day() {
    assert_eq!(date(2015, 9, 8).with_year(2016).map(parts), Some((2016, 9, 8)));
    assert_eq!(date(2015, 9, 8).with_year(-308).map(parts), Some((-308, 9, 8)));
    assert_eq!(date(2016, 2, 29).with_year(2015), None);
    assert_eq!(date(2016, 2, 29).with_year(2020).map(parts), Some((2020, 2, 29)));
    assert_eq!(date(2016, 2, 28).with_year(MAX_YEAR + 1), None);
    assert_eq!(date(2016, 2, 28).with_year(MIN_YEAR - 1), None);
    assert_eq!(date(2016, 2, 28).with_year(MAX_YEAR).map(parts), Some((MAX_YEAR, 2, 28)));
}

#[test]
fn add_days_moves_by_days() {
    assert_eq!(date(2026, 1, 13).add_days(10).map(parts), Some((2026, 1, 23)));
    assert_eq!(date(2026, 1, 13).add_days(21).map(parts), Some((2026, 2, 3)));
    assert_eq!(date(2026, 1, 13).add_days(-5).map(parts), Some((2026, 1, 8)));
    assert_eq!(date(2026, 1, 13).add_days(0).map(parts), Some((2026, 1, 13)));
    assert_eq!(date(2015, 9, 5).add_days(40).map(parts), Some((2015, 10, 15)));
    assert_eq!(date(2015, 9, 5).add_days(-40).map(parts), Some((2015, 7, 27)));
    assert_eq!(date(2014, 1, 1).add_days(365 * 400 + 97).map(parts), Some((2414, 1, 1)));
    assert_eq!(date(2024, 2, 28).add_days(1).map(parts), Some((2024, 2, 29)));
    assert_eq!(date(2023, 2, 28).add_days(1).map(parts), Some((2023, 3, 1)));
}

#[test]
fn add_days_stops_at_the_ends_of_the_range() {
    assert_eq!(date(MAX_YEAR, 12, 31).add_days(1), None);
    assert_eq!(date(MIN_YEAR, 1, 1).add_days(-1), None);
    assert_eq!(date(MAX_YEAR, 12, 30).add_days(1).map(parts), Some((MAX_YEAR, 12, 31)));
    assert_eq!(date(MIN_YEAR, 1, 2).add_days(-1).map(parts), Some((MIN_YEAR, 1, 1)));
    assert_eq!(date(2015, 9, 5).add_days(1_000_000_000), None);
    assert_eq!(date(2015, 9, 5).add_days(-1_000_000_000), None);
    assert_eq!(date(2015, 9, 5).add_days(i64::MAX), None);
    assert_eq!(date(2015, 9, 5).add_days(i64::MIN), None);
    let whole = date(MIN_YEAR, 1, 1).days_until(&date(MAX_YEAR, 12, 31));
    assert_eq!(date(MIN_YEAR, 1, 1).add_days(whole).map(parts), Some((MAX_YEAR, 12, 31)));
    assert_eq!(date(MIN_YEAR, 1, 1).add_days(whole + 1), None);
}

#[test]
fn add_days_and_days_until_are_inverse() {
    let base = date(2024, 2, 29);
    let mut n: i64 = -800;
    while n <= 800 {
        let moved = base.add_days(n).unwrap();
        assert_eq!(base.days_until(&moved), n);
        assert_eq!(moved.add_days(-n), Some(base));
        n += 1;
    }
}

#[test]
fn the_length_of_a_month() {
    assert_eq!(days_in_month(2024, 2), 29);
    assert_eq!(days_in_month(2023, 2), 28);
    assert_eq!(days_in_month(1900, 2), 28);
    assert_eq!(days_in_month(2000, 2), 29);
    assert_eq!(days_in_month(2026, 10), 31);
    assert_eq!(days_in_month(2026, 4), 30);
    assert_eq!(days_in_month(2026, 12), 31);
    for year in sample_years() {
        for month in 1..=12u32 {
            assert_eq!(days_in_month(year, month) as i64, month_days(year as i64, month as i64));
        }
    }
}

#[test]
fn the_last_month_in_range_has_its_length() {
    assert_eq!(days_in_month(MAX_YEAR, 12), 31);
    assert_eq!(days_in_month(MAX_YEAR, 11), 30);
    assert_eq!(days_in_month(MAX_YEAR, 2), 28);
    assert_eq!(days_in_month(MIN_YEAR, 1), 31);
    assert_eq!(days_in_month(MIN_YEAR, 2), 28);
    assert_eq!(days_in_month(MIN_YEAR, 12), 31);
}

#[test]
fn the_length_of_a_month_out_of_range_is_thirty() {
    assert_eq!(days_in_month(MAX_YEAR + 1, 1), 30);
    assert_eq!(days_in_month(MAX_YEAR + 1, 12), 30);
    assert_eq!(days_in_month(i32::MAX, 12), 30);
    assert_eq!(days_in_month(i32::MIN, 1), 30);
    assert_eq!(days_in_month(2026, 13), 30);
    assert_eq!(days_in_month(2026, u32::MAX), 30);
    assert_eq!(days_in_month(MIN_YEAR - 1, 12), 30);
    assert_eq!(days_in_month(2026, 0), 30);
    assert_eq!(days_in_month(MIN_YEAR, 0), 30);
}

#[test]
fn next_year_keeps_month_and_day() {
    assert_eq!(next_year(date(2015, 9, 8)).map(parts), Some((2016, 9, 8)));
    assert_eq!(next_year(date(2023, 2, 28)).map(parts), Some((2024, 2, 28)));
    assert_eq!(next_year(date(2023, 12, 31)).map(parts), Some((2024, 12, 31)));
    assert_eq!(next_year(date(MAX_YEAR - 1, 12, 31)).map(parts), Some((MAX_YEAR, 12, 31)));
    assert_eq!(next_year(date(MIN_YEAR, 1, 1)).map(parts), Some((MIN_YEAR + 1, 1, 1)));
}

#[test]
fn next_year_moves_a_leap_day_to_the_end_of_february() {
    assert_eq!(next_year(date(2024, 2, 29)).map(parts), Some((2025, 2, 28)));
    assert_eq!(next_year(date(2000, 2, 29)).map(parts), Some((2001, 2, 28)));
    assert_eq!(next_year(date(-4, 2, 29)).map(parts), Some((-3, 2, 28)));
    assert_eq!(next_year(date(262140, 2, 29)).map(parts), Some((262141, 2, 28)));
    for year in sample_years() {
        if let Some(leap_day) = CalendarDate::from_ymd_opt(year, 2, 29) {
            let expected = if year < MAX_YEAR { Some((year + 1, 2, 28)) } else { None };
            assert_eq!(next_year(leap_day).map(parts), expected);
            assert_eq!(leap_day.with_year(year + 1), None);
        }
    }
}

#[test]
fn next_year_stops_at_the_last_year() {
    assert_eq!(next_year(date(MAX_YEAR, 1, 1)), None);
    assert_eq!(next_year(date(MAX_YEAR, 2, 28)), None);
    assert_eq!(next_year(date(MAX_YEAR, 12, 31)), None);
}

#[test]
fn add_months_clamps_the_day() {
    assert_eq!(add_months(date(2023, 1, 31), 1).map(parts), Some((2023, 2, 28)));
    assert_eq!(add_months(date(2024, 1, 31), 1).map(parts), Some((2024, 2, 29)));
    assert_eq!(add_months(date(2024, 3, 31), 1).map(parts), Some((2024, 4, 30)));
    assert_eq!(add_months(date(2024, 12, 15), 1).map(parts), Some((2025, 1, 15)));
    assert_eq!(add_months(date(2024, 1, 15), -1).map(parts), Some((2023, 12, 15)));
    assert_eq!(add_months(date(2024, 3, 31), -1).map(parts), Some((2024, 2, 29)));
    assert_eq!(add_months(date(2024, 5, 31), 0).map(parts), Some((2024, 5, 31)));
    assert_eq!(add_months(date(2024, 5, 31), 25).map(parts), Some((2026, 6, 30)));
    assert_eq!(add_months(date(2024, 5, 31), -27).map(parts), Some((2022, 2, 28)));
}

#[test]
fn add_months_stops_at_the_ends_of_the_range() {
    assert_eq!(add_months(date(MAX_YEAR, 12, 1), 1), None);
    assert_eq!(add_months(date(MIN_YEAR, 1, 1), -1), None);
    assert_eq!(add_months(date(2024, 1, 1), i32::MAX), None);
    assert_eq!(add_months(date(2024, 1, 1), i32::MIN), None);
    assert_eq!(add_months(date(MAX_YEAR, 10, 31), 2).map(parts), Some((MAX_YEAR, 12, 31)));
    assert_eq!(add_months(date(MAX_YEAR, 11, 30), 1).map(parts), Some((MAX_YEAR, 12, 30)));
    assert_eq!(add_months(date(MIN_YEAR, 3, 31), -2).map(parts), Some((MIN_YEAR, 1, 31)));
}

#[test]
fn iso_dates_are_read() {
    assert_eq!(CalendarDate::parse_iso("2026-10-22").map(parts), Some((2026, 10, 22)));
    assert_eq!(CalendarDate::parse_iso("2024-02-29").map(parts), Some((2024, 2, 29)));
    assert_eq!(CalendarDate::parse_iso("2023-02-29"), None);
    assert_eq!(CalendarDate::parse_iso("2015-09-31"), None);
    assert_eq!(CalendarDate::parse_iso("today"), None);
    assert_eq!(CalendarDate::parse_iso(""), None);
    assert_eq!(CalendarDate::parse_iso("2026-10-22 trailing"), None);
    assert_eq!(CalendarDate::parse_iso("2026/10/22"), None);
}

#[test]
fn what_is_written_is_read_back() {
    for year in sample_years() {
        for (month, day) in [(1, 1), (2, 28), (7, 4), (12, 31)] {
            let d = date(year, month, day);
            assert_eq!(CalendarDate::parse_iso(&d.format_iso()), Some(d));
        }
    }
}

#[test]
fn moments_hold_a_time_of_day() {
    let d = date(2026, 10, 22);
    let m = LocalDateTime::new(d, 9, 5, 7, 123).unwrap();
    assert_eq!((m.hour(), m.minute(), m.second(), m.nanosecond()), (9, 5, 7, 123));
    assert_eq!(m.date(), d);
    assert_eq!(m.format_time(), "09:05:07");
    assert_eq!(LocalDateTime::midnight(d).format_time(), "00:00:00");
    assert_eq!(LocalDateTime::midnight(d), LocalDateTime::new(d, 0, 0, 0, 0).unwrap());
    assert_eq!(LocalDateTime::new(d, 23, 59, 59, 999_999_999).unwrap().format_time(), "23:59:59");
    assert_eq!(LocalDateTime::new(d, 23, 59, 59, 1_500_000_000).unwrap().format_time(), "23:59:60");
    assert!(LocalDateTime::new(d, 24, 0, 0, 0).is_none());
    assert!(LocalDateTime::new(d, 0, 60, 0, 0).is_none());
    assert!(LocalDateTime::new(d, 0, 0, 60, 0).is_none());
    assert!(LocalDateTime::new(d, 0, 0, 58, 1_000_000_000).is_none());
    assert!(LocalDateTime::new(d, 0, 0, 59, 2_000_000_000).is_none());
}

#[test]
fn iso_moments_are_read() {
    let m = LocalDateTime::parse_iso("2026-10-22T09:05:07").unwrap();
    assert_eq!(parts(m.date()), (2026, 10, 22));
    assert_eq!((m.hour(), m.minute(), m.second(), m.nanosecond()), (9, 5, 7, 0));
    assert!(LocalDateTime::parse_iso("2026-10-22").is_none());
    assert!(LocalDateTime::parse_iso("2026-10-22T25:00:00").is_none());
    assert!(LocalDateTime::parse_iso("2026-02-30T10:00:00").is_none());
    assert!(LocalDateTime::parse_iso("now").is_none());
}

#[test]
fn a_time_of_day_exists_where_the_clock_library_has_it() {
    let d = date(2026, 10, 22);
    for hour in [0u32, 1, 12, 23, 24, 25, u32::MAX] {
        for minute in [0u32, 30, 59, 60, 61] {
            for second in [0u32, 58, 59, 60, 61] {
                for nano in [0u32, 1, 999_999_999, 1_000_000_000, 1_999_999_999, 2_000_000_000] {
                    let ours = LocalDateTime::new(d, hour, minute, second, nano);
                    let theirs = chrono::NaiveTime::from_hms_nano_opt(hour, minute, second, nano);
                    assert_eq!(ours.is_some(), theirs.is_some(), "{hour}:{minute}:{second}.{nano}");
                    if let (Some(ours), Some(theirs)) = (ours, theirs) {
                        assert_eq!(ours.format_time(), theirs.format("%H:%M:%S").to_string());
                    }
                }
            }
        }
    }
}

#[test]
fn every_year_is_written_and_read_back() {
    let mut year = MIN_YEAR;
    while year <= MAX_YEAR {
        let d = date(year, 3, 1);
        let text = d.format_iso();
        assert_eq!(text, iso_text(year as i64, 3, 1));
        assert_eq!(CalendarDate::parse_iso(&text), Some(d), "{text}");
        year += 1;
    }
}

#[test]
fn every_year_agrees_with_the_model() {
    let anchor = date(1, 1, 1);
    let mut year = MIN_YEAR;
    while year <= MAX_YEAR {
        let y = year as i64;
        for (month, day) in [(1u32, 1u32), (3, 1), (12, 31)] {
            let (m, dd) = (month as i64, day as i64);
            let d = date(year, month, day);
            assert_eq!(anchor.days_until(&d), day_number(y, m, dd) - 1, "{year}-{month}-{day}");
            assert_eq!(d.weekday() as i64, weekday(y, m, dd), "{year}-{month}-{day}");
            assert_eq!(d.ordinal() as i64, ordinal(y, m, dd), "{year}-{month}-{day}");
            assert_eq!(d.iso_week() as i64, iso_week(y, m, dd), "{year}-{month}-{day}");
        }
        assert_eq!(date(year, 1, 1).leap_year(), is_leap(y));
        assert_eq!(CalendarDate::from_ymd_opt(year, 2, 29).is_some(), is_leap(y));
        year += 1;
    }
}
