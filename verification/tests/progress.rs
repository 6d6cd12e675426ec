use vector_screen::ui::progress::format_duration;

#[test]
fn test_zero_seconds() {
    assert_eq!(format_duration(0), "0s");
}

#[test]
fn test_seconds_only() {
    assert_eq!(format_duration(5), "5s");
    assert_eq!(format_duration(59), "59s");
}

#[test]
fn test_minutes_and_seconds() {
    assert_eq!(format_duration(65), "1m 5s");
    assert_eq!(format_duration(125), "2m 5s");
    assert_eq!(format_duration(60), "1m");
    assert_eq!(format_duration(3_599), "59m 59s");
}

#[test]
fn test_hours_and_minutes() {
    assert_eq!(format_duration(3_661), "1h 1m");
    assert_eq!(format_duration(5_400), "1h 30m");
    assert_eq!(format_duration(7_200), "2h");
}

#[test]
fn test_days() {
    assert_eq!(format_duration(86_400), "1d");
    assert_eq!(format_duration(90_000), "1d 1h");
}

#[test]
fn test_large_values() {
    assert_eq!(format_duration(360_000), "4d 4h");
}

#[test]
fn duration_skips_zero_units() {
    assert_eq!(format_duration(3_601), "1h 1s");
    assert_eq!(format_duration(86_401), "1d 1s");
    assert_eq!(format_duration(u64::MAX), "213503982334601d 7h");
}
