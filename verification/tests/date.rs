use jianying_jiejin::date::{date_of_unix_seconds, parse_datetime, Date};

#[test]
fn date_add_and_parse() {
    let d = Date::new(2026, 9, 8).unwrap();
    assert_eq!(d.to_string(), "2026-09-08");
    assert_eq!(d.add_days(3).to_string(), "2026-09-11");
    assert_eq!(d.days_until(Date::new(2026, 9, 11).unwrap()), 3);
    assert_eq!("20260908".parse::<Date>().unwrap(), d);
}

#[test]
fn new_rejects_impossible_dates() {
    assert!(Date::new(2026, 2, 29).is_none());
    assert!(Date::new(2024, 2, 29).is_some());
    assert!(Date::new(1900, 2, 29).is_none());
    assert!(Date::new(2000, 2, 29).is_some());
    assert!(Date::new(2026, 13, 1).is_none());
    assert!(Date::new(2026, 4, 31).is_none());
    assert!(Date::new(2026, 4, 0).is_none());
}

#[test]
fn day_arithmetic_across_boundaries() {
    let d = Date::new(2024, 12, 31).unwrap();
    assert_eq!(d.add_days(1), Date::new(2025, 1, 1).unwrap());
    assert_eq!(Date::new(2024, 3, 1).unwrap().add_days(-1), Date::new(2024, 2, 29).unwrap());
    assert_eq!(d.add_days(0), d);
    assert_eq!(Date::new(1970, 1, 1).unwrap().add_days(-1), Date::new(1969, 12, 31).unwrap());
    assert_eq!(d.days_until(Date::new(2024, 1, 1).unwrap()), -365);
    assert_eq!(d.add_days(400).add_days(-400), d);
}

#[test]
fn parse_accepts_three_forms() {
    let d = Date::new(2026, 9, 8).unwrap();
    assert_eq!(Date::parse(" 2026-09-08 "), Ok(d));
    assert_eq!(Date::parse("2026/9/8"), Ok(d));
    assert_eq!(Date::parse("20260908"), Ok(d));
    assert_eq!(Date::parse(&d.to_string()), Ok(d));
    assert_eq!(Date::parse(&d.compact()), Ok(d));
}

#[test]
fn parse_errors_name_the_problem() {
    assert_eq!(Date::parse("2026-09"), Err("expected YYYY-MM-DD, got 2026-09".to_string()));
    assert_eq!(Date::parse("x-09-08"), Err("bad year in x-09-08".to_string()));
    assert_eq!(Date::parse("2026-300-08"), Err("bad month in 2026-300-08".to_string()));
    assert_eq!(Date::parse("2026-09-aa"), Err("bad day in 2026-09-aa".to_string()));
    assert_eq!(Date::parse("2026-02-30"), Err("invalid date 2026-02-30".to_string()));
}

#[test]
fn compact_and_datetime() {
    let d = Date::new(987, 1, 2).unwrap();
    assert_eq!(d.compact(), "09870102");
    assert_eq!(d.to_string(), "0987-01-02");
    assert_eq!(parse_datetime("2026-09-20 00:00:00"), Date::new(2026, 9, 20));
    assert_eq!(parse_datetime("2026-09-20T08:00:00"), Date::new(2026, 9, 20));
    assert_eq!(parse_datetime("soon"), None);
}

#[test]
fn today_is_a_real_date() {
    let t = Date::today();
    assert!(Date::new(t.year, t.month, t.day).is_some());
    assert!(t.year >= 2024);
}

#[test]
fn checked_add_days_stays_in_range() {
    let d = Date::new(2026, 9, 11).unwrap();
    assert_eq!(d.checked_add_days(30), Date::new(2026, 10, 11));
    assert_eq!(d.checked_add_days(i32::MAX), None);
    let bad = Date { year: 2026, month: 2, day: 30 };
    assert_eq!(bad.checked_add_days(1), None);
    assert_eq!(d.checked_days_until(Date::new(2026, 9, 1).unwrap()), Some(-10));
}

#[test]
fn day_counts_follow_calendar_order() {
    let d = Date::new(2024, 2, 28).unwrap();
    assert!(d.add_days(1) > d);
    assert!(d.add_days(-1) < d);
    assert_eq!(d.add_days(1), Date::new(2024, 2, 29).unwrap());
    let a = Date::new(1999, 12, 31).unwrap();
    let b = Date::new(2000, 1, 1).unwrap();
    assert_eq!(a.days_until(b), 1);
    assert_eq!(b.days_until(a), -1);
    assert_eq!(a.days_until(a), 0);
    let c = Date::new(2000, 3, 1).unwrap();
    assert_eq!(a.days_until(b) + b.days_until(c), a.days_until(c));
}

#[test]
fn unix_seconds_to_dates() {
    assert_eq!(date_of_unix_seconds(0), Date::new(1970, 1, 1).unwrap());
    assert_eq!(date_of_unix_seconds(86_400 * 365), Date::new(1971, 1, 1).unwrap());
    let wrapped = (1u64 << 32) * 86_400 + 86_400;
    assert_eq!(date_of_unix_seconds(wrapped), Date::new(1970, 1, 2).unwrap());
}

#[test]
fn far_clock_readings_still_give_their_date() {
    assert_eq!(date_of_unix_seconds(164_160_000_000_000), Date::new(5_203_993, 4, 25).unwrap());
    let last = (i32::MAX as u64) * 86_400;
    assert_eq!(date_of_unix_seconds(last), Date::new(5_881_580, 7, 11).unwrap());
}

#[test]
fn day_arithmetic_reaches_the_ends_of_i32() {
    let epoch = Date::new(1970, 1, 1).unwrap();
    assert_eq!(epoch.add_days(i32::MAX), Date::new(5_881_580, 7, 11).unwrap());
    assert_eq!(epoch.add_days(i32::MIN), Date::new(-5_877_641, 6, 23).unwrap());
    assert_eq!(epoch.checked_add_days(i32::MAX), Some(Date::new(5_881_580, 7, 11).unwrap()));
    let last = Date::new(5_881_580, 7, 11).unwrap();
    assert_eq!(last.checked_add_days(1), None);
    assert_eq!(epoch.days_until(last), i32::MAX);
}
