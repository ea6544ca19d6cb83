use coral::clock::{is_eastern_dst, millis_readable, millis_rfc3339};

#[test]
fn epoch_as_rfc3339() {
    assert_eq!(millis_rfc3339(0), "1970-01-01T00:00:00+00:00");
}

#[test]
fn readable_timestamp() {
    assert_eq!(millis_readable(947638923004), "Jan 12, 2000 01:02 UTC");
}

#[test]
fn out_of_range_timestamp_is_empty() {
    assert_eq!(millis_readable(i64::MAX), "");
    assert_eq!(millis_rfc3339(i64::MIN), "");
}

#[test]
fn dst_starts_on_second_sunday_of_march() {
    assert!(!is_eastern_dst(2024, 3, 9));
    assert!(is_eastern_dst(2024, 3, 10));
    assert!(!is_eastern_dst(2025, 3, 8));
    assert!(is_eastern_dst(2025, 3, 9));
}

#[test]
fn dst_ends_on_first_sunday_of_november() {
    assert!(is_eastern_dst(2024, 11, 2));
    assert!(!is_eastern_dst(2024, 11, 3));
    assert!(is_eastern_dst(2025, 7, 4));
    assert!(!is_eastern_dst(2025, 1, 15));
    assert!(!is_eastern_dst(2025, 12, 25));
}
