use reg_watch::simple_time::{
    day_and_month, days_in_current_year, days_since_epoch, extra_days, is_leap_year, month,
    u64_to_string, year, Moment,
};

#[test]
fn test_add_leading_zero() {
    assert_eq!(Moment::add_leading_zero(9), "09".to_string());
    assert_eq!(Moment::add_leading_zero(11), "11".to_string());
}

#[test]
fn test_to_rfc3339_string() {
    let m = Moment {
        year: 2021,
        month: 11,
        day: 10,
        hours: 12,
        minutes: 1,
        seconds: 44,
        is_leap_year: false,
    };
    assert_eq!(m.to_rfc3339_string(), "2021-11-10T12:01:44+00:00".to_string());
}

#[test]
fn test_to_string_with_offset() {
    let m = Moment {
        year: 2021,
        month: 11,
        day: 10,
        hours: 12,
        minutes: 1,
        seconds: 44,
        is_leap_year: false,
    };
    assert_eq!(
        m.to_string_with_offset("+03:00"),
        "2021-11-10T12:01:44+03:00".to_string()
    );
    assert_eq!(m.to_string_with_offset("Z"), "2021-11-10T12:01:44Z".to_string());
}

#[test]
fn test_u64_to_string() {
    assert_eq!(u64_to_string(0), "0".to_string());
    assert_eq!(u64_to_string(7), "7".to_string());
    assert_eq!(u64_to_string(10), "10".to_string());
    assert_eq!(u64_to_string(90210), "90210".to_string());
    assert_eq!(
        u64_to_string(18446744073709551615),
        "18446744073709551615".to_string()
    );
}

#[test]
fn test_month() {
    assert_eq!(Some((1, "January", 31)), month(1));
    assert_eq!(Some((2, "February", 28)), month(2));
    assert_eq!(Some((3, "March", 31)), month(3));
    assert_eq!(Some((4, "April", 30)), month(4));
    assert_eq!(Some((5, "May", 31)), month(5));
    assert_eq!(Some((6, "June", 30)), month(6));
    assert_eq!(Some((7, "July", 31)), month(7));
    assert_eq!(Some((8, "August", 31)), month(8));
    assert_eq!(Some((9, "September", 30)), month(9));
    assert_eq!(Some((10, "October", 31)), month(10));
    assert_eq!(Some((11, "November", 30)), month(11));
    assert_eq!(Some((12, "December", 31)), month(12));
    assert_eq!(None, month(99));
    assert_eq!(None, month(13));
}

#[test]
fn test_day_and_month() {
    assert_eq!((31, 1), day_and_month(31, false));
    assert_eq!((29, 2), day_and_month(60, true));
    assert_eq!((1, 3), day_and_month(60, false));
    assert_eq!((1, 3), day_and_month(61, true));
    assert_eq!((28, 2), day_and_month(59, false));
    assert_eq!((31, 12), day_and_month(365, false));
    assert_eq!((31, 12), day_and_month(366, true));
}

#[test]
fn test_year() {
    assert_eq!(2022, year(1646815260));
    assert_eq!(2021, year(1640908740));
    assert_eq!(2020, year(1583743260));
    assert_eq!(2009, year(1262303999));
    assert_eq!(2010, year(1262304000));
}

#[test]
fn test_from_duration_since_epoch() {
    let m = Moment::from_duration_since_epoch(1262303999);
    assert_eq!(
        (2009, 12, 31, 23, 59, 59),
        (m.year, m.month, m.day, m.hours, m.minutes, m.seconds)
    );

    let m = Moment::from_duration_since_epoch(1262304000);
    assert_eq!(
        (2010, 1, 1, 0, 0, 0),
        (m.year, m.month, m.day, m.hours, m.minutes, m.seconds)
    );

    let m = Moment::from_duration_since_epoch(1583020799);
    assert_eq!(
        (2020, 2, 29, 23, 59, 59),
        (m.year, m.month, m.day, m.hours, m.minutes, m.seconds)
    );

    let m = Moment::from_duration_since_epoch(1583020800);
    assert_eq!(
        (2020, 3, 1, 0, 0, 0),
        (m.year, m.month, m.day, m.hours, m.minutes, m.seconds)
    );
}

#[test]
fn test_extra_days() {
    assert_eq!(14, extra_days(2025));
    assert_eq!(13, extra_days(2021));
    assert_eq!(12, extra_days(2020));
    assert_eq!(11, extra_days(2016));
    assert_eq!(10, extra_days(2012));
    assert_eq!(9, extra_days(2008));
    assert_eq!(8, extra_days(2004));
    assert_eq!(0, extra_days(1971));
    assert_eq!(1, extra_days(1973));
    assert_eq!(2, extra_days(1977));
}

#[test]
fn test_is_leap_year() {
    assert_eq!(true, is_leap_year(2020));
    assert_eq!(false, is_leap_year(2021));
    assert_eq!(false, is_leap_year(2013));
    assert_eq!(true, is_leap_year(2016));
    assert_eq!(true, is_leap_year(2012));
    assert_eq!(true, is_leap_year(2008));
    assert_eq!(true, is_leap_year(2004));
    assert_eq!(true, is_leap_year(1980));
    assert_eq!(true, is_leap_year(1972));
    assert_eq!(true, is_leap_year(1976));
}

#[test]
fn test_is_leap_year_series() {
    for y in (1972..=2024).step_by(4) {
        assert!(is_leap_year(y), "{} must be a leap year", y);
    }
    for y in [1971, 1973, 2021, 2022, 2023] {
        assert!(!is_leap_year(y), "{} must not be a leap year", y);
    }
}

#[test]
fn test_days_in_current_year() {
    let y = year(1634328000);
    let ext_days = extra_days(y);
    let ds = days_since_epoch(1634328000);

    assert_eq!(288, days_in_current_year(y, ds, ext_days));

    let y = year(1640995199);
    let ext_days = extra_days(y);
    let ds = days_since_epoch(1640995199);

    assert_eq!(365, days_in_current_year(y, ds, ext_days));

    let y = year(1609372800);
    let ext_days = extra_days(y);
    let ds = days_since_epoch(1609372800);

    assert_eq!(366, days_in_current_year(y, ds, ext_days));

    let y = year(1577836800);
    let ext_days = extra_days(y);
    let ds = days_since_epoch(1577836800);

    assert_eq!(1, days_in_current_year(y, ds, ext_days));

    let y = year(1582934400);
    let ext_days = extra_days(y);
    let ds = days_since_epoch(1582934400);

    assert_eq!(60, days_in_current_year(y, ds, ext_days));

    let y = year(1609286400);
    let ext_days = extra_days(y);
    let ds = days_since_epoch(1609286400);

    assert_eq!(365, days_in_current_year(y, ds, ext_days));
}

#[test]
fn test_days_since_epoch() {
    assert_eq!(18992, days_since_epoch(1640908800));
    assert_eq!(0, days_since_epoch(0));
}

#[test]
fn test_moment_new() {
    let m = Moment::new().expect("the clock reads after the Unix epoch");
    assert!(m.year >= 2024);
    assert!(1 <= m.month && m.month <= 12);
    assert!(1 <= m.day && m.day <= 31);
    assert!(m.hours < 24 && m.minutes < 60 && m.seconds < 60);
}
