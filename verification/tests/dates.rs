use chrono::{Datelike, NaiveDate};
use rbudget::date::{Date, Weekday, MAX_YEAR, MIN_YEAR};

fn ymd(year: i32, month: u32, day: u32) -> Date {
    Date::from_ymd_opt(year, month, day).unwrap()
}

#[test]
fn a_date_keeps_its_parts() {
    let d = ymd(2023, 2, 25);
    assert_eq!(d.year(), 2023);
    assert_eq!(d.month(), 2);
    assert_eq!(d.day(), 25);
}

#[test]
fn days_that_do_not_exist_are_refused() {
    assert!(Date::from_ymd_opt(2015, 3, 14).is_some());
    assert!(Date::from_ymd_opt(2015, 0, 14).is_none());
    assert!(Date::from_ymd_opt(2015, 13, 1).is_none());
    assert!(Date::from_ymd_opt(2015, 1, 0).is_none());
    assert!(Date::from_ymd_opt(2015, 2, 29).is_none());
    assert!(Date::from_ymd_opt(2023, 4, 31).is_none());
    assert!(Date::from_ymd_opt(2023, 1, 32).is_none());
}

#[test]
fn leap_years_follow_the_gregorian_rule() {
    assert!(Date::from_ymd_opt(2024, 2, 29).is_some());
    assert!(Date::from_ymd_opt(2000, 2, 29).is_some());
    assert!(Date::from_ymd_opt(1900, 2, 29).is_none());
    assert!(Date::from_ymd_opt(2100, 2, 29).is_none());
    assert!(Date::from_ymd_opt(-4, 2, 29).is_some());
    assert!(Date::from_ymd_opt(0, 2, 29).is_some());
    assert!(Date::from_ymd_opt(-1, 2, 29).is_none());
}

#[test]
fn years_out_of_range_are_refused() {
    assert_eq!(MIN_YEAR, -262143);
    assert_eq!(MAX_YEAR, 262142);
    assert!(Date::from_ymd_opt(MAX_YEAR, 12, 31).is_some());
    assert!(Date::from_ymd_opt(MAX_YEAR + 1, 1, 1).is_none());
    assert!(Date::from_ymd_opt(MIN_YEAR, 1, 1).is_some());
    assert!(Date::from_ymd_opt(MIN_YEAR - 1, 12, 31).is_none());
    assert!(Date::from_ymd_opt(400000, 1, 1).is_none());
    assert!(Date::from_ymd_opt(-400000, 1, 1).is_none());
}

#[test]
fn the_range_of_dates_is_the_range_of_chrono() {
    assert_eq!(NaiveDate::MAX.year(), MAX_YEAR);
    assert_eq!(NaiveDate::MIN.year(), MIN_YEAR);
    assert_eq!((NaiveDate::MAX.month(), NaiveDate::MAX.day()), (12, 31));
    assert_eq!((NaiveDate::MIN.month(), NaiveDate::MIN.day()), (1, 1));
}

#[test]
fn weekdays_are_those_of_the_calendar() {
    assert_eq!(ymd(2023, 2, 22).weekday(), Weekday::Wed);
    assert_eq!(ymd(2023, 2, 23).weekday(), Weekday::Thu);
    assert_eq!(ymd(2023, 2, 24).weekday(), Weekday::Fri);
    assert_eq!(ymd(2023, 2, 25).weekday(), Weekday::Sat);
    assert_eq!(ymd(2023, 2, 26).weekday(), Weekday::Sun);
    assert_eq!(ymd(2023, 2, 27).weekday(), Weekday::Mon);
    assert_eq!(ymd(2023, 2, 28).weekday(), Weekday::Tue);
    assert_eq!(ymd(2015, 9, 8).weekday(), Weekday::Tue);
    assert_eq!(ymd(-308, 3, 14).weekday(), Weekday::Fri);
    assert_eq!(ymd(1, 1, 1).weekday(), Weekday::Mon);
}

#[test]
fn the_ordinal_counts_the_days_of_the_year() {
    assert_eq!(ymd(2015, 1, 1).ordinal(), 1);
    assert_eq!(ymd(2015, 9, 8).ordinal(), 251);
    assert_eq!(ymd(-308, 3, 14).ordinal(), 74);
    assert_eq!(ymd(2015, 12, 31).ordinal(), 365);
    assert_eq!(ymd(2016, 12, 31).ordinal(), 366);
    assert_eq!(ymd(2023, 3, 1).ordinal(), 60);
    assert_eq!(ymd(2024, 3, 1).ordinal(), 61);
    assert_eq!(ymd(2024, 2, 29).ordinal(), 60);
}

#[test]
fn the_ordinal_agrees_with_chrono_through_two_years() {
    let mut d = ymd(2023, 1, 1);
    let mut n = NaiveDate::from_ymd_opt(2023, 1, 1).unwrap();
    for _ in 0..731 {
        assert_eq!(d.ordinal(), n.ordinal());
        assert_eq!((d.year(), d.month(), d.day()), (n.year(), n.month(), n.day()));
        d = d.succ_opt().unwrap();
        n = n.succ_opt().unwrap();
    }
    assert_eq!(d, ymd(2025, 1, 1));
}

#[test]
fn the_following_day_within_a_month() {
    assert_eq!(ymd(2023, 2, 23).succ_opt(), Some(ymd(2023, 2, 24)));
    assert_eq!(ymd(2023, 1, 1).succ_opt(), Some(ymd(2023, 1, 2)));
}

#[test]
fn the_following_day_at_the_end_of_a_month() {
    assert_eq!(ymd(2023, 1, 31).succ_opt(), Some(ymd(2023, 2, 1)));
    assert_eq!(ymd(2023, 4, 30).succ_opt(), Some(ymd(2023, 5, 1)));
    assert_eq!(ymd(2023, 2, 28).succ_opt(), Some(ymd(2023, 3, 1)));
    assert_eq!(ymd(2024, 2, 28).succ_opt(), Some(ymd(2024, 2, 29)));
    assert_eq!(ymd(2024, 2, 29).succ_opt(), Some(ymd(2024, 3, 1)));
    assert_eq!(ymd(1900, 2, 28).succ_opt(), Some(ymd(1900, 3, 1)));
}

#[test]
fn the_following_day_at_the_end_of_a_year() {
    assert_eq!(ymd(2023, 12, 31).succ_opt(), Some(ymd(2024, 1, 1)));
    assert_eq!(ymd(-1, 12, 31).succ_opt(), Some(ymd(0, 1, 1)));
}

#[test]
fn the_last_day_has_no_following_day() {
    assert_eq!(ymd(MAX_YEAR, 12, 31).succ_opt(), None);
    assert_eq!(ymd(MAX_YEAR, 12, 30).succ_opt(), Some(ymd(MAX_YEAR, 12, 31)));
}

#[test]
fn earlier_and_later() {
    let a = ymd(2023, 2, 23);
    assert!(a.is_before(&ymd(2023, 2, 24)));
    assert!(a.is_before(&ymd(2023, 3, 1)));
    assert!(a.is_before(&ymd(2024, 1, 1)));
    assert!(!a.is_before(&a));
    assert!(!a.is_before(&ymd(2023, 2, 22)));
    assert!(!a.is_before(&ymd(2023, 1, 31)));
    assert!(!a.is_before(&ymd(2022, 12, 31)));
    assert!(ymd(-5, 12, 31).is_before(&ymd(-4, 1, 1)));
}

#[test]
fn comparison_operators_agree_with_is_before() {
    let days = [
        ymd(2022, 12, 31),
        ymd(2023, 1, 31),
        ymd(2023, 2, 1),
        ymd(2023, 2, 28),
        ymd(2024, 1, 1),
    ];
    for a in days.iter() {
        for b in days.iter() {
            assert_eq!(a < b, a.is_before(b));
            assert_eq!(a >= b, !a.is_before(b));
        }
    }
}

#[test]
fn the_default_date() {
    let d = Date::default();
    assert_eq!((d.year(), d.month(), d.day()), (1970, 1, 1));
    let n = NaiveDate::default();
    assert_eq!((n.year(), n.month(), n.day()), (1970, 1, 1));
}
