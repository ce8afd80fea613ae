//! Combining per-resource expiries into one response-level expiry, and
//! the header it is announced with.

use study_tracker::calendar::{epoch_from_civil, Date};
use study_tracker::expiry::{combine, generate_expiry_header};

fn date(year: u32, month: u32, day: u32) -> Date {
    Date { year, month, day }
}

#[test]
fn combine_picks_earliest_present_value() {
    let t1: u64 = 1700000000;
    let t2: u64 = 1700000500;
    assert_eq!(combine(&vec![Some(t1), None, Some(t2)]), Some(t1));
    assert_eq!(combine(&vec![Some(t2), None, Some(t1)]), Some(t1));
    assert_eq!(combine(&vec![None, None]), None);
    assert_eq!(combine(&vec![]), None);
    assert_eq!(combine(&vec![None, Some(t2)]), Some(t2));
}

#[test]
fn test_generate_expiry_header() {
    let expires_at = epoch_from_civil(date(2024, 6, 21), 23, 12, 0);
    let (header_name, header_value) = generate_expiry_header(expires_at);

    assert_eq!(header_name, "expires");
    assert_eq!(header_value, "Fri, 21 Jun 2024 23:12:00 +0000");
}

#[test]
fn test_add_expiry_header_uses_nearest_expiry() {
    let oldest_year = epoch_from_civil(date(2023, 6, 21), 23, 12, 0);
    let recent_year = epoch_from_civil(date(2024, 6, 21), 23, 12, 0);

    let expiry_times = vec![Some(recent_year), Some(oldest_year)];
    let combined = combine(&expiry_times);

    assert_eq!(combined, Some(oldest_year));
    assert_eq!(
        generate_expiry_header(combined.unwrap()).1,
        "Wed, 21 Jun 2023 23:12:00 +0000"
    );
}

#[test]
fn test_add_expiry_header_handles_none() {
    let recent_year = epoch_from_civil(date(2024, 6, 21), 23, 12, 0);

    let expiry_times = vec![Some(recent_year), None];

    assert_eq!(combine(&expiry_times), Some(recent_year));
}

#[test]
fn test_add_expiry_header_skips_on_empty() {
    let expiry_times = vec![None, None];
    assert_eq!(combine(&expiry_times), None);

    assert_eq!(combine(&vec![]), None);
}
