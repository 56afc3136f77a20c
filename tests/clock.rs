use astrolabe::calendar::calendar_of;
use astrolabe::clock::{simulated_seconds, ShownDate, ACCEL};

#[test]
fn one_real_second_is_thirty_days() {
    // 2024-01-01T00:00:00Z
    let mut date = ShownDate::from_timestamp(1704067200);
    date.advance(1_000_000_000);
    // 2024-01-31T00:00:00Z
    assert_eq!(date.secs, 1706659200);
    let c = calendar_of(&date).unwrap();
    assert_eq!((c.year, c.month, c.day, c.hour, c.minute, c.second), (2024, 1, 31, 0, 0, 0));
}

#[test]
fn accel_is_thirty_days_per_second() {
    assert_eq!(ACCEL, 30 * 86400);
    assert_eq!(simulated_seconds(1_000_000_000), 2_592_000);
}

#[test]
fn short_deltas_are_truncated() {
    // 1/ACCEL of a second is about 385.8 ns
    assert_eq!(simulated_seconds(385), 0);
    assert_eq!(simulated_seconds(386), 1);
    assert_eq!(simulated_seconds(0), 0);
    assert_eq!(simulated_seconds(16_666_667), 43_200);
}

#[test]
fn advancing_twice_matches_advancing_once_for_whole_steps() {
    let mut a = ShownDate::from_timestamp(0);
    a.advance(250_000_000);
    a.advance(500_000_000);
    let mut b = ShownDate::from_timestamp(0);
    b.advance(750_000_000);
    assert_eq!(a, b);
}

#[test]
fn advancing_twice_loses_at_most_one_second() {
    let mut a = ShownDate::from_timestamp(100);
    a.advance(200);
    a.advance(200);
    let mut b = ShownDate::from_timestamp(100);
    b.advance(400);
    assert_eq!(a.secs, 100);
    assert_eq!(b.secs, 101);
}

#[test]
fn advance_keeps_subsecond_part() {
    let mut d = ShownDate { secs: -5, nanos: 123 };
    d.advance(2_000_000_000);
    assert_eq!(d, ShownDate { secs: 5_183_995, nanos: 123 });
}

#[test]
fn u64_max_elapsed_does_not_overflow() {
    assert_eq!(simulated_seconds(u64::MAX), 47_813_960_639_055_157);
}
