use video_clip_rs::seconds::Seconds;
use video_clip_rs::ClipRequest;
use video_clip_rs::TimeParser;
use video_clip_rs::VideoClipError;
use video_clip_rs::VideoClipper;

fn secs(s: i64) -> Seconds {
    Seconds::from_millis(s * 1000)
}

#[test]
fn test_output_filename_generation() {
    let clipper = VideoClipper::new();
    let output = clipper.generate_output_filename(
        "test_video.mp4",
        secs(125), // 2:05
        secs(190), // 3:10
    );

    assert!(output.contains("test_video_clip_02-05_to_03-10.mp4"));
}

#[test]
fn video_clipper_test_filename_with_special_characters() {
    let clipper = VideoClipper::new();
    let output = clipper.generate_output_filename("my video (2023).mov", secs(0), secs(30));

    let filename = output.rsplit('/').next().unwrap();
    assert!(filename.contains("my video (2023)_clip"));
    assert!(filename.ends_with(".mp4"));
}

#[test]
fn test_filename_without_extension() {
    let clipper = VideoClipper::new();
    let output = clipper.generate_output_filename("video_file", secs(60), secs(120));

    let filename = output.rsplit('/').next().unwrap();
    assert!(filename.contains("video_file_clip_01-00_to_02-00.mp4"));
}

#[test]
fn test_filename_with_custom_output_dir() {
    let clipper = VideoClipper::with_output_dir("custom/output dir".to_string());
    let output = clipper.generate_output_filename("test.mp4", secs(0), secs(30));

    assert!(output.starts_with("custom/output dir/"));
}

#[test]
fn test_validate_nonexistent_file() {
    let clipper = VideoClipper::new();
    let result = clipper.validate_input_file("nonexistent.mp4", false, false);
    assert!(result.is_err());

    match result {
        Err(VideoClipError::FileNotFound(_)) => {}
        _ => panic!("Expected FileNotFound error"),
    }
}

#[test]
fn test_validate_existing_file() {
    let clipper = VideoClipper::new();
    assert!(clipper.validate_input_file("present.mp4", true, false).is_ok());
    // found at a candidate location instead of at its own path
    assert!(clipper.validate_input_file("elsewhere.mp4", false, true).is_ok());
}

#[test]
fn test_validate_path_without_file_name() {
    let clipper = VideoClipper::new();
    let result = clipper.validate_input_file("videos/", false, false);
    match result {
        Err(VideoClipError::InvalidPath(p)) => assert_eq!(p, "videos/"),
        _ => panic!("Expected InvalidPath error"),
    }
}

#[test]
fn test_candidate_paths() {
    let clipper = VideoClipper::new();
    let candidates = clipper.candidate_paths("videos/input.mp4");
    assert_eq!(
        candidates,
        vec![
            "downloads/input.mp4".to_string(),
            "videos/input.mp4".to_string()
        ]
    );
}

#[test]
fn video_clipper_test_prepare_clip_command() {
    let clipper = VideoClipper::new();
    let request = ClipRequest {
        input_file: "test.mp4".to_string(),
        start_time: "1:00".to_string(),
        end_time: "2:00".to_string(),
        output_dir: None,
    };

    let result = clipper.prepare_clip_command(&request);
    assert!(result.is_ok());

    if let Ok(clip_result) = result {
        assert_eq!(clip_result.duration, secs(60));
        assert_eq!(clip_result.start_seconds, secs(60));
        assert_eq!(clip_result.end_seconds, secs(120));
        assert!(clip_result.command.contains("ffmpeg"));
        assert!(clip_result.command.contains("-ss 60"));
        assert!(clip_result.command.contains("-t 60"));
    }
}

#[test]
fn video_clipper_test_prepare_clip_invalid_times() {
    let clipper = VideoClipper::new();
    let request = ClipRequest {
        input_file: "test.mp4".to_string(),
        start_time: "2:00".to_string(),
        end_time: "1:00".to_string(), // End before start
        output_dir: None,
    };

    let result = clipper.prepare_clip_command(&request);
    assert!(result.is_err());
}

#[test]
fn test_full_workflow_preparation() {
    let clipper = VideoClipper::new();
    let request = ClipRequest {
        input_file: "sample.mp4".to_string(),
        start_time: "0:30".to_string(),
        end_time: "1:45".to_string(),
        output_dir: None,
    };

    // Test time parsing
    let start_sec = TimeParser::parse_to_seconds(&request.start_time).unwrap();
    let end_sec = TimeParser::parse_to_seconds(&request.end_time).unwrap();
    let duration = TimeParser::validate_time_range(start_sec, end_sec).unwrap();

    assert_eq!(start_sec, secs(30));
    assert_eq!(end_sec, secs(105));
    assert_eq!(duration, secs(75));

    // Test filename generation
    let output_path = clipper.generate_output_filename(&request.input_file, start_sec, end_sec);

    let filename = output_path.rsplit('/').next().unwrap();
    assert!(filename.contains("sample_clip_00-30_to_01-45.mp4"));
}

#[test]
fn test_clipper_creation() {
    let clipper = VideoClipper::new();
    assert!(format!("{:?}", clipper).contains("VideoClipper"));

    let clipper = VideoClipper::with_output_dir("another output".to_string());
    assert!(format!("{:?}", clipper).contains("VideoClipper"));
}

#[test]
fn test_filename_generation() {
    let clipper = VideoClipper::new();

    let output = clipper.generate_output_filename("test_video.mp4", secs(30), secs(120));
    let filename = output.rsplit('/').next().unwrap();

    assert!(filename.contains("test_video_clip_00-30_to_02-00.mp4"));
    assert!(filename.ends_with(".mp4"));
}

#[test]
fn integration_tests_test_filename_with_special_characters() {
    let clipper = VideoClipper::new();

    let output = clipper.generate_output_filename("My Video (2023).mov", secs(0), secs(60));
    let filename = output.rsplit('/').next().unwrap();

    assert!(filename.contains("My Video (2023)_clip"));
    assert!(filename.ends_with(".mp4"));
}

#[test]
fn integration_tests_test_prepare_clip_command() {
    let clipper = VideoClipper::new();
    let request = ClipRequest {
        input_file: "test.mp4".to_string(),
        start_time: "30s".to_string(),
        end_time: "2m".to_string(),
        output_dir: None,
    };

    let result = clipper.prepare_clip_command(&request);
    assert!(result.is_ok());

    let clip_result = result.unwrap();
    assert_eq!(clip_result.start_seconds, secs(30));
    assert_eq!(clip_result.end_seconds, secs(120));
    assert_eq!(clip_result.duration, secs(90));
    assert!(clip_result.command.contains("ffmpeg"));
}

#[test]
fn integration_tests_test_prepare_clip_invalid_times() {
    let clipper = VideoClipper::new();
    let request = ClipRequest {
        input_file: "test.mp4".to_string(),
        start_time: "2m".to_string(),
        end_time: "1m".to_string(), // End before start
        output_dir: None,
    };

    let result = clipper.prepare_clip_command(&request);
    assert!(result.is_err());

    match result.unwrap_err() {
        VideoClipError::InvalidTimeRange { .. } => {}
        _ => panic!("Expected InvalidTimeRange error"),
    }
}

#[test]
fn test_filename_edge_cases() {
    let clipper = VideoClipper::new();

    // Empty filename
    let output = clipper.generate_output_filename("", secs(0), secs(30));
    let filename = output.rsplit('/').next().unwrap();
    assert!(filename.contains("clip_00-00_to_00-30.mp4"));

    // Very long filename (should be handled gracefully)
    let long_name = "a".repeat(200) + ".mp4";
    let output = clipper.generate_output_filename(&long_name, secs(0), secs(30));
    assert!(output.ends_with(".mp4"));
}
