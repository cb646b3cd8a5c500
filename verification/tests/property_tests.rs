use video_clip_rs::ffmpeg::generate_ffmpeg_command;
use video_clip_rs::seconds::Seconds;
use video_clip_rs::AudioCodec;
use video_clip_rs::FFmpegCommand;
use video_clip_rs::TimeParser;
use video_clip_rs::VideoClipError;

fn secs(s: i64) -> Seconds {
    Seconds::from_millis(s * 1000)
}

#[test]
fn test_validate_range_rejects_empty_and_reversed() {
    for s in [0i64, 1, 90, 3600] {
        let sv = secs(s);
        assert!(matches!(
            TimeParser::validate_time_range(sv, sv),
            Err(VideoClipError::InvalidTimeRange { .. })
        ));
        assert!(matches!(
            TimeParser::validate_time_range(sv, Seconds::from_millis(sv.as_millis() - 1)),
            Err(VideoClipError::InvalidTimeRange { .. })
        ));
        if s > 0 {
            assert_eq!(TimeParser::validate_time_range(secs(0), sv).unwrap(), sv);
        }
    }
}

#[test]
fn test_parse_format_round_trip() {
    // Re-parsing the readable rendering gives back the same whole-second
    // value, though not necessarily the same text.
    for expr in ["1:30:45", "90m", "2h15m30s", "645"] {
        let first = TimeParser::parse_to_seconds(expr).unwrap();
        let rendered = TimeParser::format_time_readable(first);
        let second = TimeParser::parse_to_seconds(&rendered).unwrap();
        assert_eq!(first, second);
    }
}

#[test]
fn test_end_to_end_clip_planning() {
    let start = TimeParser::parse_to_seconds("1:30").unwrap();
    let end = TimeParser::parse_to_seconds("3:00").unwrap();
    assert_eq!(start, secs(90));
    assert_eq!(end, secs(180));
    let duration = TimeParser::validate_time_range(start, end).unwrap();
    assert_eq!(duration, secs(90));

    let cmd = FFmpegCommand::with_audio_options(
        "in.mp4".to_string(),
        "out.mp4".to_string(),
        start,
        duration,
        AudioCodec::Auto,
        true,
    );
    let args = cmd.build_command();
    assert_eq!(args[args.len() - 2], "-y");
    assert_eq!(args[args.len() - 1], "out.mp4");
    let cmd_string = cmd.get_command_string();
    assert!(cmd_string.contains("-ss 90"));
    assert!(cmd_string.contains("-t 90"));
    assert!(cmd_string.contains("-c:a copy"));
}

#[test]
fn test_generate_ffmpeg_command_exact() {
    let command = generate_ffmpeg_command("in.mp4", "out.mp4", "1:30", "3:00").unwrap();
    assert_eq!(
        command,
        "ffmpeg -i in.mp4 -ss 90 -t 90 -c copy -avoid_negative_ts make_zero -y out.mp4"
    );

    let fractional = generate_ffmpeg_command("a.mp4", "b.mp4", "5.5", "31.25").unwrap();
    assert_eq!(
        fractional,
        "ffmpeg -i a.mp4 -ss 5.5 -t 25.75 -c copy -avoid_negative_ts make_zero -y b.mp4"
    );
}

#[test]
fn test_generate_ffmpeg_command_errors() {
    assert!(matches!(
        generate_ffmpeg_command("in.mp4", "out.mp4", "bogus", "3:00"),
        Err(VideoClipError::InvalidTimeFormat(_))
    ));
    assert!(matches!(
        generate_ffmpeg_command("in.mp4", "out.mp4", "1:30", "abc:30"),
        Err(VideoClipError::InvalidTimeFormat(_))
    ));
    assert!(matches!(
        generate_ffmpeg_command("in.mp4", "out.mp4", "3:00", "1:30"),
        Err(VideoClipError::InvalidTimeRange { .. })
    ));
}

#[test]
fn test_audio_failure_classifier_case_insensitive() {
    let cmd = FFmpegCommand::new(
        "in.mp4".to_string(),
        "out.mp4".to_string(),
        secs(0),
        secs(10),
    );
    assert!(cmd.is_audio_error("Could Not Find Codec Parameters For Stream"));
    assert!(cmd.is_audio_error("...AUDIO CODEC mismatch..."));
    assert!(!cmd.is_audio_error("Permission denied"));
    assert!(!cmd.is_audio_error(""));
}

#[test]
fn test_error_message_texts() {
    assert_eq!(
        VideoClipError::FFmpegNotFound.message(),
        "FFmpeg not installed or not in PATH"
    );
    assert_eq!(
        VideoClipError::FFmpegError("boom".to_string()).message(),
        "FFmpeg execution failed: boom"
    );
    assert_eq!(
        VideoClipError::IoError("disk full".to_string()).message(),
        "IO error: disk full"
    );
    assert_eq!(
        VideoClipError::FileNotFound("x.mp4".to_string()).message(),
        "File not found: x.mp4"
    );
    assert_eq!(
        VideoClipError::InvalidPath("dir/".to_string()).message(),
        "Invalid file path: dir/"
    );
    assert_eq!(
        VideoClipError::InvalidTimeRange {
            start: Seconds::from_millis(5_500),
            end: secs(-10),
        }
        .message(),
        "End time (-10) must be after start time (5.5)"
    );
}

#[test]
fn test_parse_overflowing_value_is_rejected() {
    // a value beyond the millisecond range is an invalid expression
    assert!(TimeParser::parse_to_seconds("99999999999999999999").is_err());
    assert!(TimeParser::parse_to_seconds("99999999999999999999h").is_err());
}

#[test]
fn test_seconds_accessors() {
    let s = Seconds::from_secs(90);
    assert_eq!(s.as_millis(), 90_000);
    assert_eq!(s.whole_secs(), 90);
    assert_eq!(Seconds::zero(), Seconds::from_millis(0));
    assert_eq!(Seconds::from_millis(1500).whole_secs(), 1);
}

#[test]
fn test_trailing_number_counts_as_seconds() {
    // a unit-less number is added as seconds wherever it stands
    assert_eq!(TimeParser::parse_to_seconds("1h30").unwrap(), secs(3630));
    assert_eq!(TimeParser::parse_to_seconds("30m45").unwrap(), secs(1845));
}
