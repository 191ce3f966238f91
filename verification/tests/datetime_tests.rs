use alipay_rs::util::{format_datetime, get_hour_min_sec, get_moth_day};

#[test]
fn formats_known_timestamps() {
    assert_eq!(format_datetime(0), "1970-01-01 08:00:00");
    assert_eq!(format_datetime(1), "1970-01-01 08:00:01");
    assert_eq!(format_datetime(86400), "1970-01-02 08:00:00");
    assert_eq!(format_datetime(86401), "1970-01-02 08:00:01");
    assert_eq!(format_datetime(1000000000), "2001-09-09 09:46:40");
    assert_eq!(format_datetime(1596115205), "2020-07-30 21:20:05");
}

#[test]
fn the_date_and_the_hour_share_one_zone() {
    // the last second of 2023 and the first second of 2024, both at UTC+8
    assert_eq!(format_datetime(1704067199), "2024-01-01 07:59:59");
    assert_eq!(format_datetime(1704067200), "2024-01-01 08:00:00");
    // late UTC evening is already past midnight at UTC+8
    assert_eq!(format_datetime(946655999), "1999-12-31 23:59:59");
    assert_eq!(format_datetime(946656000), "2000-01-01 00:00:00");
}

#[test]
fn leap_days_render() {
    assert_eq!(format_datetime(951753600), "2000-02-29 00:00:00");
    assert_eq!(format_datetime(1709179200), "2024-02-29 12:00:00");
}

#[test]
fn hour_minute_second() {
    assert_eq!(get_hour_min_sec(0), (8, 0, 0));
    assert_eq!(get_hour_min_sec(3661), (9, 1, 1));
    // the +8 zone shift wraps past midnight
    assert_eq!(get_hour_min_sec(16 * 3600), (0, 0, 0));
    assert_eq!(get_hour_min_sec(23 * 3600), (7, 0, 0));
}

#[test]
fn month_day_walk() {
    assert_eq!(get_moth_day(false, 1), (1, 1));
    assert_eq!(get_moth_day(false, 31), (1, 31));
    assert_eq!(get_moth_day(false, 32), (2, 1));
    assert_eq!(get_moth_day(false, 59), (2, 28));
    assert_eq!(get_moth_day(false, 60), (3, 1));
    assert_eq!(get_moth_day(true, 60), (2, 29));
    assert_eq!(get_moth_day(true, 61), (3, 1));
    assert_eq!(get_moth_day(false, 365), (12, 31));
    assert_eq!(get_moth_day(true, 366), (12, 31));
}

#[test]
fn datetime_has_the_wire_shape() {
    let now = alipay_rs::datetime().unwrap();
    let bytes = now.as_bytes();
    assert_eq!(bytes.len(), 19);
    assert_eq!(bytes[4], b'-');
    assert_eq!(bytes[7], b'-');
    assert_eq!(bytes[10], b' ');
    assert_eq!(bytes[13], b':');
    assert_eq!(bytes[16], b':');
    // the month and day fields of a real date never read zero
    assert_ne!(&now[5..7], "00");
    assert_ne!(&now[8..10], "00");
}
