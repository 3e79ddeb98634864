use silo::convert::text_value;
use silo::datetime::{date_value, moment_value, text_of, time_value};
use silo::value::SqlValue;

#[test]
fn times_are_stored_with_their_fraction() {
    assert_eq!(time_value(13, 5, 9, 250_000_000), Some(text_value("13:05:09.25")));
    assert_eq!(time_value(0, 0, 0, 0), Some(text_value("00:00:00.0")));
    assert!(time_value(24, 0, 0, 0).is_none());
    assert!(time_value(0, 60, 0, 0).is_none());
    assert!(time_value(0, 0, 0, 1_000_000_000).is_none());
}

#[test]
fn dates_are_stored_year_first() {
    assert!(date_value(2026, 10, 28) == Some(text_value("2026-10-28")));
    assert!(date_value(2024, 2, 29) == Some(text_value("2024-02-29")));
    assert!(date_value(2019, 2, 29).is_none());
    assert!(date_value(2019, 0, 1).is_none());
    assert!(date_value(2019, 13, 1).is_none());
}

#[test]
fn moments_are_stored_with_their_offset() {
    assert!(moment_value(0, 0) == Some(text_value("1970-01-01 00:00:00.0+00:00")));
    assert!(
        moment_value(1_500_000_000, 3600 + 1800)
            == Some(text_value("1970-01-01 01:30:01.5+01:30"))
    );
    assert!(moment_value(-1_000_000_000, -3600) == Some(text_value("1969-12-31 22:59:59.0-01:00")));
    assert!(moment_value(0, 100 * 3600).is_none());
    assert!(moment_value(i128::MAX, 0).is_none());
}

#[test]
fn formatted_text_is_stored_as_text() {
    assert!(text_of(Some("x".to_string())) == Some(SqlValue::Text("x".to_string())));
    assert!(text_of(None).is_none());
}
