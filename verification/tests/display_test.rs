use nfs_gaze::display::format_duration;

#[test]
fn test_format_duration() {
    assert_eq!(format_duration(0), "0.0ms");
    assert_eq!(format_duration(500), "0.5ms");
    assert_eq!(format_duration(1500), "1.5ms");
    assert_eq!(format_duration(10000), "10.0ms");
}

#[test]
fn display_test_test_format_duration() {
    assert_eq!(format_duration(0), "0.0ms");
    assert_eq!(format_duration(500), "0.5ms");
    assert_eq!(format_duration(1500), "1.5ms");
    assert_eq!(format_duration(10000), "10.0ms");
}

#[test]
fn test_format_duration_negative() {
    assert_eq!(format_duration(-500), "-0.5ms");
    assert_eq!(format_duration(-10000), "-10.0ms");
}

#[test]
fn test_format_duration_rounds_half_away_from_zero() {
    assert_eq!(format_duration(49), "0.0ms");
    assert_eq!(format_duration(50), "0.1ms");
    assert_eq!(format_duration(1049), "1.0ms");
    assert_eq!(format_duration(1050), "1.1ms");
}
