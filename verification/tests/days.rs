use blockplot::day::{Day, Window, FIRST_ORDINARY_DAY, LAST_ORDINARY_DAY, LOOKBACK_DAYS};

#[test]
fn civil_dates_have_chrono_day_numbers() {
    assert_eq!(Day::from_ymd(1, 1, 1).unwrap().number, 1);
    assert_eq!(Day::from_ymd(1970, 1, 1).unwrap().number, 719_163);
    assert_eq!(Day::from_ymd(2020, 2, 29).unwrap().number + 1, Day::from_ymd(2020, 3, 1).unwrap().number);
    assert!(Day::from_ymd(2021, 2, 29).is_none());
    assert!(Day::from_ymd(2021, 13, 1).is_none());
    assert!(Day::from_ymd(400_000, 1, 1).is_none());
}

#[test]
fn days_print_as_dates() {
    assert_eq!(Day::from_days(719_163).text().unwrap(), "1970-01-01");
    assert_eq!(Day::from_ymd(2021, 12, 31).unwrap().text().unwrap(), "2021-12-31");
    assert_eq!(Day::from_days(1).text().unwrap(), "0001-01-01");
    assert!(Day::from_days(i32::MAX).text().is_none());
    assert!(Day::from_days(i32::MIN).text().is_none());
}

#[test]
fn days_shift_within_i32() {
    let d = Day::from_ymd(2020, 12, 31).unwrap();
    assert_eq!(d.shifted(1), Day::from_ymd(2021, 1, 1));
    assert_eq!(d.shifted(-366), Day::from_ymd(2019, 12, 31));
    assert_eq!(Day::from_days(i32::MAX).shifted(1), None);
    assert_eq!(Day::from_days(i32::MIN).shifted(-1), None);
    assert_eq!(Day::from_days(i32::MAX - 1).shifted(1), Some(Day::from_days(i32::MAX)));
    assert!(d.is_before(&Day::from_days(d.number + 1)));
    assert!(!d.is_before(&d));
}

#[test]
fn lookback_over_a_leap_day() {
    assert_eq!(LOOKBACK_DAYS, 365);
    let today = Day::from_ymd(2020, 2, 29).unwrap();
    let window = Window::lookback(today).unwrap();
    assert_eq!(window.begin, Day::from_ymd(2019, 3, 2).unwrap());
    let end_of_year = Day::from_ymd(2021, 12, 31).unwrap();
    assert_eq!(Window::lookback(end_of_year).unwrap().begin, Day::from_ymd(2021, 1, 1).unwrap());
    let since = Window::since(Day::from_ymd(2021, 1, 31).unwrap(), Day::from_ymd(2021, 2, 2).unwrap());
    assert_eq!(
        since,
        Some(Window { begin: Day::from_ymd(2021, 2, 1).unwrap(), end: Day::from_ymd(2021, 2, 2).unwrap() })
    );
}

#[test]
fn ordinary_days_always_print() {
    assert_eq!(Day::from_days(FIRST_ORDINARY_DAY).text().unwrap(), "0001-01-01");
    assert_eq!(Day::from_days(LAST_ORDINARY_DAY).text().unwrap(), "9999-12-31");
    assert_eq!(Day::from_ymd(9999, 12, 31).unwrap().number, LAST_ORDINARY_DAY);
    assert_eq!(Day::from_days(LAST_ORDINARY_DAY + 1).text().unwrap(), "+10000-01-01");
    assert_eq!(Day::from_days(0).text().unwrap(), "0000-12-31");
    assert!(Day::from_days(FIRST_ORDINARY_DAY).is_ordinary());
    assert!(Day::from_days(LAST_ORDINARY_DAY).is_ordinary());
    assert!(!Day::from_days(0).is_ordinary());
    assert!(!Day::from_days(LAST_ORDINARY_DAY + 1).is_ordinary());
    for number in [1, 365, 366, 146_097, 719_163, 737_000, 3_000_000, 3_652_059] {
        assert_eq!(Day::from_days(number).text().unwrap().len(), 10);
    }
}
