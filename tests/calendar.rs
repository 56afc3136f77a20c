use astrolabe::calendar::{
    calendar_of, date_label_text, julian_seconds, CivilTime, CALENDAR_MAX, CALENDAR_MIN,
    YEAR_MAX, YEAR_MIN,
};
use astrolabe::clock::ShownDate;

fn civil(year: i32, month: u32, day: u32, hour: u32, minute: u32, second: u32) -> CivilTime {
    CivilTime { year, month, day, hour, minute, second }
}

#[test]
fn epoch_fields() {
    let c = calendar_of(&ShownDate::from_timestamp(0)).unwrap();
    assert_eq!(c, civil(1970, 1, 1, 0, 0, 0));
}

#[test]
fn fields_before_epoch() {
    let c = calendar_of(&ShownDate::from_timestamp(-1)).unwrap();
    assert_eq!(c, civil(1969, 12, 31, 23, 59, 59));
}

#[test]
fn leap_day_fields() {
    // 2024-02-29T13:14:15Z
    let c = calendar_of(&ShownDate::from_timestamp(1709212455)).unwrap();
    assert_eq!(c, civil(2024, 2, 29, 13, 14, 15));
}

#[test]
fn out_of_range_has_no_fields() {
    let first = calendar_of(&ShownDate::from_timestamp(CALENDAR_MIN)).unwrap();
    assert_eq!(first, civil(-262143, 1, 1, 0, 0, 0));
    let last = calendar_of(&ShownDate::from_timestamp(CALENDAR_MAX)).unwrap();
    assert_eq!(last, civil(262142, 12, 31, 23, 59, 59));
    assert!(calendar_of(&ShownDate::from_timestamp(8_100_000_000_000)).is_some());
    assert!(calendar_of(&ShownDate::from_timestamp(CALENDAR_MIN - 1)).is_none());
    assert!(calendar_of(&ShownDate::from_timestamp(CALENDAR_MAX + 1)).is_none());
    assert!(calendar_of(&ShownDate::from_timestamp(i64::MAX)).is_none());
    assert!(calendar_of(&ShownDate::from_timestamp(i64::MIN)).is_none());
}

#[test]
fn j2000_epoch() {
    // 2000-01-01T12:00:00 is JD 2451545.0
    assert_eq!(julian_seconds(&civil(2000, 1, 1, 12, 0, 0)), 2451545 * 86400);
}

#[test]
fn unix_epoch_julian_date() {
    // 1970-01-01T00:00:00 is JD 2440587.5
    assert_eq!(julian_seconds(&civil(1970, 1, 1, 0, 0, 0)), 2440587 * 86400 + 43200);
}

#[test]
fn meeus_examples() {
    // 1988-01-27 at midnight is JD 2447187.5
    assert_eq!(julian_seconds(&civil(1988, 1, 27, 0, 0, 0)), 2447187 * 86400 + 43200);
    // 1600-01-01 at midnight is JD 2305447.5
    assert_eq!(julian_seconds(&civil(1600, 1, 1, 0, 0, 0)), 2305447 * 86400 + 43200);
    // 1957-10-04 at 19:26:24 is JD 2436116.31
    assert_eq!(julian_seconds(&civil(1957, 10, 4, 19, 26, 24)), 243611631 * 864);
}

#[test]
fn julian_date_grows_across_month_and_year_ends() {
    let pairs = [
        (civil(2023, 12, 31, 23, 59, 59), civil(2024, 1, 1, 0, 0, 0)),
        (civil(2024, 2, 29, 23, 59, 59), civil(2024, 3, 1, 0, 0, 0)),
        (civil(1900, 2, 28, 23, 59, 59), civil(1900, 3, 1, 0, 0, 0)),
        (civil(-4713, 12, 31, 23, 59, 59), civil(-4712, 1, 1, 0, 0, 0)),
    ];
    for (a, b) in pairs {
        assert_eq!(julian_seconds(&a) + 1, julian_seconds(&b));
    }
}

#[test]
fn julian_date_follows_unix_time() {
    for secs in [-200_000_000_000i64, -1, 0, 951_782_400, 1_704_067_200, 7_000_000_000_000] {
        let c = calendar_of(&ShownDate::from_timestamp(secs)).unwrap();
        assert_eq!(julian_seconds(&c), secs + 2440587 * 86400 + 43200);
    }
}

#[test]
fn extreme_years_do_not_overflow() {
    let lo = julian_seconds(&civil(i32::MIN, 1, 1, 0, 0, 0));
    let hi = julian_seconds(&civil(i32::MAX, 12, 31, 23, 59, 59));
    assert!(lo < hi);
}

#[test]
fn date_label_four_digit_year() {
    let c = calendar_of(&ShownDate::from_timestamp(1706659200)).unwrap();
    assert_eq!(date_label_text(&c).unwrap(), "2024-01-31");
}

#[test]
fn date_label_pads_small_years() {
    assert_eq!(date_label_text(&civil(5, 3, 1, 0, 0, 0)).unwrap(), "0005-03-01");
    assert_eq!(date_label_text(&civil(0, 12, 9, 0, 0, 0)).unwrap(), "0000-12-09");
}

#[test]
fn date_label_signs_years_outside_four_digits() {
    assert_eq!(date_label_text(&civil(-44, 3, 15, 0, 0, 0)).unwrap(), "-0044-03-15");
    assert_eq!(date_label_text(&civil(12345, 6, 7, 0, 0, 0)).unwrap(), "+12345-06-07");
}

#[test]
fn date_label_beyond_limit() {
    assert_eq!(date_label_text(&civil(YEAR_MAX, 12, 31, 0, 0, 0)).unwrap(), "+262142-12-31");
    assert_eq!(date_label_text(&civil(YEAR_MIN, 1, 1, 0, 0, 0)).unwrap(), "-262143-01-01");
    assert!(date_label_text(&civil(YEAR_MAX + 1, 1, 1, 0, 0, 0)).is_none());
    assert!(date_label_text(&civil(YEAR_MIN - 1, 12, 31, 0, 0, 0)).is_none());
    assert!(date_label_text(&civil(i32::MIN, 1, 1, 0, 0, 0)).is_none());
}
