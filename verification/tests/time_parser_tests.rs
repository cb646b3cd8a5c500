use video_clip_rs::seconds::Seconds;
use video_clip_rs::TimeParser;
use video_clip_rs::VideoClipError;

fn secs(s: i64) -> Seconds {
    Seconds::from_millis(s * 1000)
}

#[test]
fn test_parse_seconds() {
    assert_eq!(TimeParser::parse_to_seconds("120").unwrap(), secs(120));
    assert_eq!(
        TimeParser::parse_to_seconds("45.5").unwrap(),
        Seconds::from_millis(45_500)
    );
    assert_eq!(TimeParser::parse_to_seconds("0").unwrap(), secs(0));
    assert_eq!(
        TimeParser::parse_to_seconds("3600.5").unwrap(),
        Seconds::from_millis(3_600_500)
    );
}

#[test]
fn test_parse_mm_ss() {
    assert_eq!(TimeParser::parse_to_seconds("2:30").unwrap(), secs(150));
    assert_eq!(TimeParser::parse_to_seconds("10:45").unwrap(), secs(645));
    assert_eq!(TimeParser::parse_to_seconds("0:30").unwrap(), secs(30));
    assert_eq!(TimeParser::parse_to_seconds("59:59").unwrap(), secs(3599));
    assert_eq!(
        TimeParser::parse_to_seconds("1:05.5").unwrap(),
        Seconds::from_millis(65_500)
    );
}

#[test]
fn test_parse_hh_mm_ss() {
    assert_eq!(TimeParser::parse_to_seconds("1:30:45").unwrap(), secs(5445));
    assert_eq!(TimeParser::parse_to_seconds("2:00:00").unwrap(), secs(7200));
    assert_eq!(TimeParser::parse_to_seconds("0:05:30").unwrap(), secs(330));
    assert_eq!(
        TimeParser::parse_to_seconds("12:34:56.5").unwrap(),
        Seconds::from_millis(45_296_500)
    );
}

#[test]
fn test_parse_empty_string() {
    assert_eq!(TimeParser::parse_to_seconds("").unwrap(), secs(0));
    assert_eq!(TimeParser::parse_to_seconds("   ").unwrap(), secs(0));
}

#[test]
fn test_parse_invalid_formats() {
    assert!(TimeParser::parse_to_seconds("invalid").is_err());
    assert!(TimeParser::parse_to_seconds("1:2:3:4").is_err());
    assert!(TimeParser::parse_to_seconds(":30").is_err());
    assert!(TimeParser::parse_to_seconds("30:").is_err());
    assert!(TimeParser::parse_to_seconds("abc:30").is_err());
    assert!(TimeParser::parse_to_seconds("30:abc").is_err());
}

#[test]
fn test_parse_edge_cases() {
    // Large numbers
    assert_eq!(
        TimeParser::parse_to_seconds("999:59:59").unwrap(),
        secs(3_599_999)
    );
    // Decimals in minutes/hours (should work)
    assert_eq!(TimeParser::parse_to_seconds("1.5:30").unwrap(), secs(120));
}

#[test]
fn test_parse_with_units() {
    assert_eq!(TimeParser::parse_to_seconds("30s").unwrap(), secs(30));
    assert_eq!(TimeParser::parse_to_seconds("5m").unwrap(), secs(300));
    assert_eq!(TimeParser::parse_to_seconds("2h").unwrap(), secs(7200));
    assert_eq!(TimeParser::parse_to_seconds("1.5h").unwrap(), secs(5400));
    assert_eq!(TimeParser::parse_to_seconds("2.5m").unwrap(), secs(150));
    assert_eq!(
        TimeParser::parse_to_seconds("45.7s").unwrap(),
        Seconds::from_millis(45_700)
    );
}

#[test]
fn test_parse_complex_formats() {
    assert_eq!(TimeParser::parse_to_seconds("1h30m").unwrap(), secs(5400));
    assert_eq!(TimeParser::parse_to_seconds("1h30m45s").unwrap(), secs(5445));
    assert_eq!(TimeParser::parse_to_seconds("2m30s").unwrap(), secs(150));
    assert_eq!(TimeParser::parse_to_seconds("1h45s").unwrap(), secs(3645));
    assert_eq!(TimeParser::parse_to_seconds("90m").unwrap(), secs(5400));
    assert_eq!(TimeParser::parse_to_seconds("1h 30m 45s").unwrap(), secs(5445));
}

#[test]
fn test_parse_invalid_complex_formats() {
    assert!(TimeParser::parse_to_seconds("1h30x").is_err());
    assert!(TimeParser::parse_to_seconds("abc30m").is_err());
    // "30m45" should parse as 30 minutes + 45 seconds = 1845 seconds
    assert_eq!(TimeParser::parse_to_seconds("30m45").unwrap(), secs(1845));
    assert!(TimeParser::parse_to_seconds("h30m").is_err());
}

#[test]
fn test_format_time() {
    assert_eq!(TimeParser::format_time(secs(150)), "02-30");
    assert_eq!(TimeParser::format_time(secs(3661)), "61-01");
    assert_eq!(TimeParser::format_time(secs(0)), "00-00");
    assert_eq!(TimeParser::format_time(Seconds::from_millis(59_900)), "00-59");
    assert_eq!(TimeParser::format_time(secs(3600)), "60-00");
}

#[test]
fn test_format_time_readable() {
    assert_eq!(TimeParser::format_time_readable(secs(150)), "02:30");
    assert_eq!(TimeParser::format_time_readable(secs(3661)), "01:01:01");
    assert_eq!(TimeParser::format_time_readable(secs(0)), "00:00");
    assert_eq!(TimeParser::format_time_readable(secs(59)), "00:59");
    assert_eq!(TimeParser::format_time_readable(secs(3600)), "01:00:00");
    assert_eq!(
        TimeParser::format_time_readable(Seconds::from_millis(7_323_500)),
        "02:02:03"
    );
}

#[test]
fn test_format_edge_cases() {
    // Very large times
    assert_eq!(TimeParser::format_time_readable(secs(359_999)), "99:59:59");
    // Fractional seconds (should truncate)
    assert_eq!(
        TimeParser::format_time_readable(Seconds::from_millis(61_900)),
        "01:01"
    );
}

#[test]
fn test_validate_time_range() {
    assert!(TimeParser::validate_time_range(secs(100), secs(200)).is_ok());
    assert_eq!(
        TimeParser::validate_time_range(secs(100), secs(200)).unwrap(),
        secs(100)
    );
    assert!(TimeParser::validate_time_range(secs(0), Seconds::from_millis(100)).is_ok());
    assert_eq!(
        TimeParser::validate_time_range(secs(0), Seconds::from_millis(100)).unwrap(),
        Seconds::from_millis(100)
    );
}

#[test]
fn test_validate_invalid_ranges() {
    assert!(TimeParser::validate_time_range(secs(200), secs(100)).is_err());
    assert!(TimeParser::validate_time_range(secs(100), secs(100)).is_err());
    // Negative start is technically valid
    assert!(TimeParser::validate_time_range(secs(-10), secs(50)).is_ok());
}

#[test]
fn test_validate_error_messages() {
    match TimeParser::validate_time_range(secs(200), secs(100)) {
        Err(VideoClipError::InvalidTimeRange { start, end }) => {
            assert_eq!(start, secs(200));
            assert_eq!(end, secs(100));
        }
        _ => panic!("Expected InvalidTimeRange error"),
    }
}

#[test]
fn test_parse_and_validate_workflow() {
    let start = TimeParser::parse_to_seconds("1:30").unwrap();
    let end = TimeParser::parse_to_seconds("2:45").unwrap();
    let duration = TimeParser::validate_time_range(start, end).unwrap();
    assert_eq!(duration, secs(75));
}

#[test]
fn test_format_after_parse() {
    let time_str = "1:30:45";
    let seconds = TimeParser::parse_to_seconds(time_str).unwrap();
    let formatted = TimeParser::format_time_readable(seconds);
    assert_eq!(formatted, "01:30:45");
}

#[test]
fn test_all_time_formats() {
    // Test basic seconds
    assert_eq!(TimeParser::parse_to_seconds("30").unwrap(), secs(30));
    assert_eq!(
        TimeParser::parse_to_seconds("90.5").unwrap(),
        Seconds::from_millis(90_500)
    );

    // Test MM:SS format
    assert_eq!(TimeParser::parse_to_seconds("1:30").unwrap(), secs(90));
    assert_eq!(TimeParser::parse_to_seconds("10:45").unwrap(), secs(645));

    // Test HH:MM:SS format
    assert_eq!(TimeParser::parse_to_seconds("1:05:30").unwrap(), secs(3930));
    assert_eq!(TimeParser::parse_to_seconds("2:00:15").unwrap(), secs(7215));

    // Test unit suffixes
    assert_eq!(TimeParser::parse_to_seconds("45s").unwrap(), secs(45));
    assert_eq!(TimeParser::parse_to_seconds("5m").unwrap(), secs(300));
    assert_eq!(TimeParser::parse_to_seconds("2h").unwrap(), secs(7200));

    // Test complex formats
    assert_eq!(TimeParser::parse_to_seconds("1h30m").unwrap(), secs(5400));
    assert_eq!(TimeParser::parse_to_seconds("2h15m30s").unwrap(), secs(8130));
    assert_eq!(TimeParser::parse_to_seconds("1m30s").unwrap(), secs(90));
}

#[test]
fn test_invalid_formats() {
    assert!(TimeParser::parse_to_seconds("invalid").is_err());
    assert!(TimeParser::parse_to_seconds("1:2:3:4").is_err());
    assert!(TimeParser::parse_to_seconds("abc:30").is_err());
    assert!(TimeParser::parse_to_seconds("30:abc").is_err());
    assert!(TimeParser::parse_to_seconds("1h30x").is_err());
}

#[test]
fn test_time_range_validation() {
    // Valid ranges
    assert_eq!(
        TimeParser::validate_time_range(secs(0), secs(30)).unwrap(),
        secs(30)
    );
    assert_eq!(
        TimeParser::validate_time_range(secs(60), secs(120)).unwrap(),
        secs(60)
    );

    // Invalid ranges
    assert!(TimeParser::validate_time_range(secs(120), secs(60)).is_err());
    assert!(TimeParser::validate_time_range(secs(100), secs(100)).is_err());

    // Check error type
    match TimeParser::validate_time_range(secs(100), secs(50)) {
        Err(VideoClipError::InvalidTimeRange { start, end }) => {
            assert_eq!(start, secs(100));
            assert_eq!(end, secs(50));
        }
        _ => panic!("Expected InvalidTimeRange error"),
    }
}

#[test]
fn test_time_formatting() {
    // Test readable formatting
    assert_eq!(TimeParser::format_time_readable(secs(90)), "01:30");
    assert_eq!(TimeParser::format_time_readable(secs(3661)), "01:01:01");
    assert_eq!(TimeParser::format_time_readable(secs(0)), "00:00");
    assert_eq!(TimeParser::format_time_readable(secs(7320)), "02:02:00");

    // Test filename-safe formatting
    assert_eq!(TimeParser::format_time(secs(90)), "01-30");
    assert_eq!(TimeParser::format_time(secs(3661)), "61-01");
}

#[test]
fn test_very_long_durations() {
    // Test 24+ hour videos
    assert_eq!(TimeParser::parse_to_seconds("25:30:45").unwrap(), secs(91_845));
    assert_eq!(
        TimeParser::parse_to_seconds("100:00:00").unwrap(),
        secs(360_000)
    );

    // Test complex long formats
    assert_eq!(
        TimeParser::parse_to_seconds("48h30m15s").unwrap(),
        secs(174_615)
    );
}

#[test]
fn test_decimal_precision() {
    // Test precise decimal handling
    assert_eq!(
        TimeParser::parse_to_seconds("30.123").unwrap(),
        Seconds::from_millis(30_123)
    );
    assert_eq!(
        TimeParser::parse_to_seconds("1:30.456").unwrap(),
        Seconds::from_millis(90_456)
    );
    assert_eq!(TimeParser::parse_to_seconds("2.5m").unwrap(), secs(150));
}

#[test]
fn test_whitespace_handling() {
    // Test various whitespace scenarios
    assert_eq!(TimeParser::parse_to_seconds(" 30 ").unwrap(), secs(30));
    assert_eq!(TimeParser::parse_to_seconds("1h 30m 45s").unwrap(), secs(5445));
    assert_eq!(TimeParser::parse_to_seconds("  1:30:45  ").unwrap(), secs(5445));
}

#[test]
fn test_zero_duration_edge_cases() {
    // Test zero values
    assert_eq!(TimeParser::parse_to_seconds("0").unwrap(), secs(0));
    assert_eq!(TimeParser::parse_to_seconds("0:00").unwrap(), secs(0));
    assert_eq!(TimeParser::parse_to_seconds("0h0m0s").unwrap(), secs(0));

    // Test very small durations
    assert_eq!(
        TimeParser::validate_time_range(secs(0), Seconds::from_millis(100)).unwrap(),
        Seconds::from_millis(100)
    );
    assert_eq!(
        TimeParser::validate_time_range(secs(100), Seconds::from_millis(100_001)).unwrap(),
        Seconds::from_millis(1)
    );
}

#[test]
fn test_error_messages() {
    // Test InvalidTimeFormat error
    match TimeParser::parse_to_seconds("invalid_time") {
        Err(VideoClipError::InvalidTimeFormat(msg)) => {
            assert!(msg.contains("invalid_time"));
        }
        _ => panic!("Expected InvalidTimeFormat error"),
    }

    // Test InvalidTimeRange error
    match TimeParser::validate_time_range(secs(100), secs(50)) {
        Err(VideoClipError::InvalidTimeRange { start, end }) => {
            assert_eq!(start, secs(100));
            assert_eq!(end, secs(50));
        }
        _ => panic!("Expected InvalidTimeRange error"),
    }
}

#[test]
fn test_error_display() {
    let error = VideoClipError::InvalidTimeFormat("bad_time".to_string());
    let error_str = error.message();
    assert!(error_str.contains("Invalid time format: bad_time"));

    let error = VideoClipError::InvalidTimeRange {
        start: secs(100),
        end: secs(50),
    };
    let error_str = error.message();
    assert!(error_str.contains("End time (50) must be after start time (100)"));
}
