//! The time gate against concrete instants.

use elvish::timegate::{accessible_at, is_day_accessible, is_leap, unlock_timestamp};

// Local midnight, fixed UTC-5, of 2015-12-01.
const UNLOCK_2015_DAY_1: i64 = 1448946000;

// Local midnight, fixed UTC-5, of 2020-12-25 (a leap year).
const UNLOCK_2020_DAY_25: i64 = 1608872400;

// Local midnight, fixed UTC-5, of 2023-12-10.
const UNLOCK_2023_DAY_10: i64 = 1702184400;

#[test]
fn unlock_instant_of_first_day_2015() {
    assert_eq!(unlock_timestamp(2015, 1), UNLOCK_2015_DAY_1);
}

#[test]
fn unlock_instant_of_last_day_leap_year() {
    assert_eq!(unlock_timestamp(2020, 25), UNLOCK_2020_DAY_25);
}

#[test]
fn unlock_instant_2023_day_10() {
    assert_eq!(unlock_timestamp(2023, 10), UNLOCK_2023_DAY_10);
}

#[test]
fn unlock_instant_2024_day_3() {
    // 2024 is a leap year: December is one day later in the year.
    assert_eq!(unlock_timestamp(2024, 3), 1733202000);
}

#[test]
fn closed_just_before_unlock() {
    // 2023-12-09, 23:00, fixed UTC-5.
    assert!(!accessible_at(1702180800, 2023, 10));
}

#[test]
fn open_just_after_unlock() {
    // 2023-12-10, 00:00:01, fixed UTC-5.
    assert!(accessible_at(1702184401, 2023, 10));
}

#[test]
fn open_exactly_at_unlock() {
    assert!(accessible_at(UNLOCK_2023_DAY_10, 2023, 10));
    assert!(!accessible_at(UNLOCK_2023_DAY_10 - 1, 2023, 10));
}

#[test]
fn strictly_past_year_is_always_open() {
    // Any day of 2022, judged from any instant of 2023 or later.
    for day in 1..=25u8 {
        assert!(accessible_at(1701795600, 2022, day));
    }
}

#[test]
fn system_clock_sees_past_years_open() {
    // The machine clock is well past these years.
    assert!(is_day_accessible(2015, 1));
    assert!(is_day_accessible(2022, 25));
}

#[test]
fn leap_year_rule() {
    assert!(is_leap(2020));
    assert!(!is_leap(2023));
    assert!(is_leap(2000));
    assert!(!is_leap(1900));
}
