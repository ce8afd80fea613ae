//! Civil-date conversion and the date strings the library renders.

use study_tracker::calendar::{
    civil_from_epoch_days, date_for_heatmap, days_from_civil, epoch_from_civil, format_date,
    rfc2822_utc, rfc3339_millis_utc, today_jst_midnight_in_utc, Date, JST_OFFSET_SECONDS,
};

fn date(year: u32, month: u32, day: u32) -> Date {
    Date { year, month, day }
}

#[test]
fn epoch_day_zero_is_the_epoch() {
    assert_eq!(civil_from_epoch_days(0), date(1970, 1, 1));
    assert_eq!(days_from_civil(date(1970, 1, 1)), 0);
}

#[test]
fn civil_conversion_round_trips() {
    let samples = [
        date(1970, 1, 1),
        date(1999, 12, 31),
        date(2000, 2, 29),
        date(2023, 9, 30),
        date(2024, 2, 29),
        date(2024, 6, 21),
        date(2100, 3, 1),
        date(9897, 12, 31),
    ];
    for d in samples {
        assert_eq!(civil_from_epoch_days(days_from_civil(d)), d);
    }
}

#[test]
fn leap_years_follow_the_gregorian_rules() {
    // 2000-02-29 exists, 1900 had no February 29th.
    assert_eq!(days_from_civil(date(2000, 3, 1)) - days_from_civil(date(2000, 2, 28)), 2);
    assert_eq!(days_from_civil(date(1971, 3, 1)) - days_from_civil(date(1971, 2, 28)), 1);
}

#[test]
fn rfc2822_renders_known_timestamps() {
    let t = epoch_from_civil(date(2024, 6, 21), 23, 12, 0);
    assert_eq!(rfc2822_utc(t), "Fri, 21 Jun 2024 23:12:00 +0000");

    assert_eq!(rfc2822_utc(0), "Thu, 01 Jan 1970 00:00:00 +0000");
}

#[test]
fn rfc3339_renders_known_timestamps() {
    let t = epoch_from_civil(date(2023, 7, 15), 15, 0, 0);
    assert_eq!(rfc3339_millis_utc(t), "2023-07-15T15:00:00.000Z");
}

#[test]
fn test_format_date_converts_utc_to_tokyo_time() {
    let utc_time = epoch_from_civil(date(2025, 10, 7), 9, 39, 0);

    let tokyo_date = format_date(utc_time);

    assert_eq!(tokyo_date, "07/10/2025, 06:39 pm +09:00")
}

#[test]
fn test_date_for_heatmap() {
    let early_date = epoch_from_civil(date(2023, 2, 12), 0, 0, 0) - JST_OFFSET_SECONDS;
    assert_eq!(date_for_heatmap(early_date), "2023-02-12");

    let late_date = epoch_from_civil(date(2023, 10, 1), 0, 0, 0) - JST_OFFSET_SECONDS;
    assert_eq!(date_for_heatmap(late_date), "2023-10-01");
}

#[test]
fn jst_midnight_is_fifteen_hundred_utc_of_the_previous_day() {
    // 2023-07-15 15:02:15 UTC is already 2023-07-16 in Japan.
    let now = epoch_from_civil(date(2023, 7, 15), 15, 2, 15);
    let midnight = today_jst_midnight_in_utc(now);
    assert_eq!(rfc3339_millis_utc(midnight), "2023-07-15T15:00:00.000Z");

    let now = epoch_from_civil(date(2023, 7, 15), 14, 58, 15);
    let midnight = today_jst_midnight_in_utc(now);
    assert_eq!(rfc3339_millis_utc(midnight), "2023-07-14T15:00:00.000Z");
}
