//! Error type for time parsing, range validation and clip planning.

use vstd::prelude::*;

use crate::seconds::Seconds;
use crate::strutil::millis_disp;
use crate::strutil::millis_to_display;

verus! {

/// Everything that can go wrong while planning or running a clip.
#[derive(Debug, Clone)]
pub enum VideoClipError {
    /// A time expression that the grammar does not accept, or whose value
    /// does not fit the millisecond representation. Holds the trimmed text.
    InvalidTimeFormat(String),
    /// An end time at or before the start time.
    InvalidTimeRange { start: Seconds, end: Seconds },
    /// An input path at which no file was found.
    FileNotFound(String),
    /// The external transcoding tool is not installed or not on the path.
    FFmpegNotFound,
    /// The external transcoding tool ran and failed; holds its diagnostic.
    FFmpegError(String),
    /// A filesystem operation failed; holds the underlying description.
    IoError(String),
    /// A path from which no file name could be read.
    InvalidPath(String),
}

/// The descriptive text of an error, as `message` renders it.
pub open spec fn spec_message(e: VideoClipError) -> Seq<char> {
    match e {
        VideoClipError::InvalidTimeFormat(t) => "Invalid time format: "@ + t@,
        VideoClipError::InvalidTimeRange { start, end } => "End time ("@ + millis_disp(
            end.millis as int,
        ) + ") must be after start time ("@ + millis_disp(start.millis as int) + ")"@,
        VideoClipError::FileNotFound(p) => "File not found: "@ + p@,
        VideoClipError::FFmpegNotFound => "FFmpeg not installed or not in PATH"@,
        VideoClipError::FFmpegError(t) => "FFmpeg execution failed: "@ + t@,
        VideoClipError::IoError(t) => "IO error: "@ + t@,
        VideoClipError::InvalidPath(p) => "Invalid file path: "@ + p@,
    }
}

impl VideoClipError {
    /// The descriptive text of the error, with the offending input, the
    /// mismatched start and end pair, or the tool's own diagnostic embedded.
    pub fn message(&self) -> (r: String)
        requires
            self matches VideoClipError::InvalidTimeRange { start, end } ==> start.millis
                > i64::MIN && end.millis > i64::MIN,
        ensures
            r@ == spec_message(*self),
    {
        match self {
            VideoClipError::InvalidTimeFormat(t) => {
                let mut r = String::from_str("Invalid time format: ");
                r.append(t.as_str());
                r
            },
            VideoClipError::InvalidTimeRange { start, end } => {
                let mut r = String::from_str("End time (");
                let end_disp = millis_to_display(end.millis);
                r.append(end_disp.as_str());
                r.append(") must be after start time (");
                let start_disp = millis_to_display(start.millis);
                r.append(start_disp.as_str());
                r.append(")");
                r
            },
            VideoClipError::FileNotFound(p) => {
                let mut r = String::from_str("File not found: ");
                r.append(p.as_str());
                r
            },
            VideoClipError::FFmpegNotFound => String::from_str(
                "FFmpeg not installed or not in PATH",
            ),
            VideoClipError::FFmpegError(t) => {
                let mut r = String::from_str("FFmpeg execution failed: ");
                r.append(t.as_str());
                r
            },
            VideoClipError::IoError(t) => {
                let mut r = String::from_str("IO error: ");
                r.append(t.as_str());
                r
            },
            VideoClipError::InvalidPath(p) => {
                let mut r = String::from_str("Invalid file path: ");
                r.append(p.as_str());
                r
            },
        }
    }
}

} // verus!
