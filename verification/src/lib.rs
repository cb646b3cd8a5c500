//! Video clip planning library.
//!
//! Converts human-entered time expressions (`"90"`, `"1:30"`, `"1h30m45s"`)
//! into fixed-point second counts, renders them back into display formats,
//! and deterministically builds the argument list for an external
//! transcoding tool, including the audio-codec fallback used when a first
//! attempt fails for an audio-compatibility reason.
//!
//! Time is held as a whole number of milliseconds: every quantity the
//! grammar can denote at millisecond precision is represented exactly.

pub mod error;
pub mod ffmpeg;
pub mod seconds;
pub mod strutil;
pub mod time_parser;
pub mod video_clipper;

pub use crate::error::VideoClipError;
pub use crate::ffmpeg::AudioCodec;
pub use crate::ffmpeg::FFmpegCommand;
pub use crate::ffmpeg::RetryDecision;
pub use crate::seconds::Seconds;
pub use crate::time_parser::TimeParser;
pub use crate::video_clipper::ClipRequest;
pub use crate::video_clipper::ClipResult;
pub use crate::video_clipper::VideoClipper;
