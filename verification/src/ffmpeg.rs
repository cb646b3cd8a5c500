//! The transcode command builder.
//!
//! From an immutable clip description (paths, start, duration, audio
//! policy) it deterministically builds the external tool's argument
//! list, a human-readable command string, and the fallback argument list
//! used after a failure diagnosed as audio-related. It also holds the
//! audio-failure classifier and the one-shot retry decision.

use vstd::prelude::*;

use crate::error::VideoClipError;
use crate::seconds::Seconds;
use crate::strutil::chars_of;
use crate::strutil::ci_contains;
use crate::strutil::contains_ci;
use crate::strutil::millis_disp;
use crate::strutil::millis_to_display;
use crate::time_parser::parse_spec;
use crate::time_parser::trim_spec;
use crate::time_parser::TimeParser;

verus! {

/// The audio codec policy for a clip. `Auto` asks for a zero-re-encode
/// copy first; the caller retries with the fallback arguments when that
/// fails for an audio reason.
#[derive(Debug, Clone)]
pub enum AudioCodec {
    Copy,
    Aac,
    Mp3,
    Auto,
}

/// An immutable description of one transcode invocation.
#[derive(Debug, Clone)]
pub struct FFmpegCommand {
    pub input: String,
    pub output: String,
    pub start_time: Seconds,
    pub duration: Seconds,
    pub audio_codec: AudioCodec,
    pub preserve_audio_quality: bool,
}

/// The audio-codec tokens of the primary argument list.
pub open spec fn audio_tokens(codec: AudioCodec, preserve: bool) -> Seq<Seq<char>> {
    match codec {
        AudioCodec::Copy => seq!["-c:a"@, "copy"@],
        AudioCodec::Auto => seq!["-c:a"@, "copy"@],
        AudioCodec::Aac => if preserve {
            seq!["-c:a"@, "aac"@, "-b:a"@, "128k"@]
        } else {
            seq!["-c:a"@, "aac"@]
        },
        AudioCodec::Mp3 => if preserve {
            seq!["-c:a"@, "mp3"@, "-b:a"@, "128k"@]
        } else {
            seq!["-c:a"@, "mp3"@]
        },
    }
}

/// The fixed token order of the primary argument list.
pub open spec fn primary_args_spec(cmd: FFmpegCommand) -> Seq<Seq<char>> {
    seq![
        "-i"@,
        cmd.input@,
        "-ss"@,
        millis_disp(cmd.start_time.millis as int),
        "-t"@,
        millis_disp(cmd.duration.millis as int),
        "-map"@,
        "0:v?"@,
        "-map"@,
        "0:a?"@,
        "-c:v"@,
        "copy"@,
    ] + audio_tokens(cmd.audio_codec, cmd.preserve_audio_quality) + seq![
        "-avoid_negative_ts"@,
        "make_zero"@,
        "-async"@,
        "1"@,
        "-vsync"@,
        "2"@,
        "-y"@,
        cmd.output@,
    ]
}

/// The fallback argument list: the same structure with the audio codec
/// forced to `aac` at a 128k bitrate, whatever the configured policy.
pub open spec fn fallback_args_spec(cmd: FFmpegCommand) -> Seq<Seq<char>> {
    seq![
        "-i"@,
        cmd.input@,
        "-ss"@,
        millis_disp(cmd.start_time.millis as int),
        "-t"@,
        millis_disp(cmd.duration.millis as int),
        "-map"@,
        "0:v?"@,
        "-map"@,
        "0:a?"@,
        "-c:v"@,
        "copy"@,
        "-c:a"@,
        "aac"@,
        "-b:a"@,
        "128k"@,
        "-avoid_negative_ts"@,
        "make_zero"@,
        "-async"@,
        "1"@,
        "-vsync"@,
        "2"@,
        "-y"@,
        cmd.output@,
    ]
}

/// The audio-codec words of the display command string.
pub open spec fn audio_codec_str(codec: AudioCodec, preserve: bool) -> Seq<char> {
    match codec {
        AudioCodec::Copy => "-c:a copy"@,
        AudioCodec::Auto => "-c:a copy"@,
        AudioCodec::Aac => if preserve {
            "-c:a aac -b:a 128k"@
        } else {
            "-c:a aac"@
        },
        AudioCodec::Mp3 => if preserve {
            "-c:a mp3 -b:a 128k"@
        } else {
            "-c:a mp3"@
        },
    }
}

/// The display rendering of a command: the tool name and the primary
/// arguments joined by single spaces, with no shell escaping.
pub open spec fn command_string_parts(
    input: Seq<char>,
    output: Seq<char>,
    start_ms: int,
    dur_ms: int,
    codec: AudioCodec,
    preserve: bool,
) -> Seq<char> {
    "ffmpeg -i "@ + input + " -ss "@ + millis_disp(start_ms) + " -t "@ + millis_disp(dur_ms)
        + " -map 0:v? -map 0:a? -c:v copy "@ + audio_codec_str(codec, preserve)
        + " -avoid_negative_ts make_zero -async 1 -vsync 2 -y "@ + output
}

/// The display rendering of `cmd`.
pub open spec fn command_string_spec(cmd: FFmpegCommand) -> Seq<char> {
    command_string_parts(
        cmd.input@,
        cmd.output@,
        cmd.start_time.millis as int,
        cmd.duration.millis as int,
        cmd.audio_codec,
        cmd.preserve_audio_quality,
    )
}

/// Whether a diagnostic text names a known audio-incompatibility: a
/// case-insensitive substring match against the fixed phrase set.
pub open spec fn audio_error_spec(s: Seq<char>) -> bool {
    ci_contains(s, "codec not currently supported in container"@) || ci_contains(
        s,
        "could not find codec parameters for stream"@,
    ) || ci_contains(s, "invalid codec tag"@) || ci_contains(s, "audio codec"@) || ci_contains(
        s,
        "stream copy"@,
    ) || ci_contains(s, "does not support codec"@)
}

/// What to do once the primary invocation has finished.
#[derive(Debug, Clone, PartialEq, Eq, Structural)]
pub enum RetryDecision {
    /// The primary run succeeded: return its result.
    Succeeded,
    /// The primary run failed for an audio reason: run the fallback
    /// arguments once and return that outcome as final.
    RetryWithFallback,
    /// The primary run failed for another reason: surface it, no retry.
    FailWithPrimary,
}

impl FFmpegCommand {
    /// A command with the default policy: try an audio stream copy, and
    /// let the caller fall back to re-encoding when that fails.
    pub fn new(input: String, output: String, start_time: Seconds, duration: Seconds) -> (r:
        FFmpegCommand)
        ensures
            r.input == input,
            r.output == output,
            r.start_time == start_time,
            r.duration == duration,
            r.audio_codec is Auto,
            r.preserve_audio_quality == true,
    {
        FFmpegCommand {
            input,
            output,
            start_time,
            duration,
            audio_codec: AudioCodec::Auto,
            preserve_audio_quality: true,
        }
    }

    /// A command with an explicit audio codec policy.
    pub fn with_audio_options(
        input: String,
        output: String,
        start_time: Seconds,
        duration: Seconds,
        audio_codec: AudioCodec,
        preserve_quality: bool,
    ) -> (r: FFmpegCommand)
        ensures
            r.input == input,
            r.output == output,
            r.start_time == start_time,
            r.duration == duration,
            r.audio_codec == audio_codec,
            r.preserve_audio_quality == preserve_quality,
    {
        FFmpegCommand { input, output, start_time, duration, audio_codec, preserve_audio_quality: preserve_quality }
    }

    /// Replaces the audio codec policy.
    pub fn set_audio_codec(&mut self, codec: AudioCodec)
        ensures
            final(self).audio_codec == codec,
            final(self).input == old(self).input,
            final(self).output == old(self).output,
            final(self).start_time == old(self).start_time,
            final(self).duration == old(self).duration,
            final(self).preserve_audio_quality == old(self).preserve_audio_quality,
    {
        self.audio_codec = codec;
    }

    /// Replaces the preserve-quality flag.
    pub fn set_preserve_audio_quality(&mut self, preserve: bool)
        ensures
            final(self).preserve_audio_quality == preserve,
            final(self).input == old(self).input,
            final(self).output == old(self).output,
            final(self).start_time == old(self).start_time,
            final(self).duration == old(self).duration,
            final(self).audio_codec == old(self).audio_codec,
    {
        self.preserve_audio_quality = preserve;
    }

    /// Builds the primary argument list, in the fixed token order.
    pub fn build_command(&self) -> (r: Vec<String>)
        requires
            self.start_time.millis >= 0,
            self.duration.millis >= 0,
        ensures
            r.deep_view() == primary_args_spec(*self),
    {
        let mut r: Vec<String> = Vec::new();
        r.push(String::from_str("-i"));
        r.push(self.input.clone());
        r.push(String::from_str("-ss"));
        r.push(millis_to_display(self.start_time.millis));
        r.push(String::from_str("-t"));
        r.push(millis_to_display(self.duration.millis));
        r.push(String::from_str("-map"));
        r.push(String::from_str("0:v?"));
        r.push(String::from_str("-map"));
        r.push(String::from_str("0:a?"));
        r.push(String::from_str("-c:v"));
        r.push(String::from_str("copy"));
        match &self.audio_codec {
            AudioCodec::Copy => {
                r.push(String::from_str("-c:a"));
                r.push(String::from_str("copy"));
            },
            AudioCodec::Aac => {
                r.push(String::from_str("-c:a"));
                r.push(String::from_str("aac"));
                if self.preserve_audio_quality {
                    r.push(String::from_str("-b:a"));
                    r.push(String::from_str("128k"));
                }
            },
            AudioCodec::Mp3 => {
                r.push(String::from_str("-c:a"));
                r.push(String::from_str("mp3"));
                if self.preserve_audio_quality {
                    r.push(String::from_str("-b:a"));
                    r.push(String::from_str("128k"));
                }
            },
            AudioCodec::Auto => {
                r.push(String::from_str("-c:a"));
                r.push(String::from_str("copy"));
            },
        }
        r.push(String::from_str("-avoid_negative_ts"));
        r.push(String::from_str("make_zero"));
        r.push(String::from_str("-async"));
        r.push(String::from_str("1"));
        r.push(String::from_str("-vsync"));
        r.push(String::from_str("2"));
        r.push(String::from_str("-y"));
        r.push(self.output.clone());
        proof {
            assert(r.deep_view() =~~= primary_args_spec(*self));
        }
        r
    }

    /// Builds the fallback argument list: audio forced to `aac` at 128k.
    pub fn build_fallback_command(&self) -> (r: Vec<String>)
        requires
            self.start_time.millis >= 0,
            self.duration.millis >= 0,
        ensures
            r.deep_view() == fallback_args_spec(*self),
    {
        let mut r: Vec<String> = Vec::new();
        r.push(String::from_str("-i"));
        r.push(self.input.clone());
        r.push(String::from_str("-ss"));
        r.push(millis_to_display(self.start_time.millis));
        r.push(String::from_str("-t"));
        r.push(millis_to_display(self.duration.millis));
        r.push(String::from_str("-map"));
        r.push(String::from_str("0:v?"));
        r.push(String::from_str("-map"));
        r.push(String::from_str("0:a?"));
        r.push(String::from_str("-c:v"));
        r.push(String::from_str("copy"));
        r.push(String::from_str("-c:a"));
        r.push(String::from_str("aac"));
        r.push(String::from_str("-b:a"));
        r.push(String::from_str("128k"));
        r.push(String::from_str("-avoid_negative_ts"));
        r.push(String::from_str("make_zero"));
        r.push(String::from_str("-async"));
        r.push(String::from_str("1"));
        r.push(String::from_str("-vsync"));
        r.push(String::from_str("2"));
        r.push(String::from_str("-y"));
        r.push(self.output.clone());
        proof {
            assert(r.deep_view() =~~= fallback_args_spec(*self));
        }
        r
    }

    /// Renders the command for display or logging: the tool name and the
    /// primary arguments joined by spaces. Paths are not shell-escaped.
    pub fn get_command_string(&self) -> (r: String)
        requires
            self.start_time.millis >= 0,
            self.duration.millis >= 0,
        ensures
            r@ == command_string_spec(*self),
    {
        let mut r = String::from_str("ffmpeg -i ");
        r.append(self.input.as_str());
        r.append(" -ss ");
        let sd = millis_to_display(self.start_time.millis);
        r.append(sd.as_str());
        r.append(" -t ");
        let dd = millis_to_display(self.duration.millis);
        r.append(dd.as_str());
        r.append(" -map 0:v? -map 0:a? -c:v copy ");
        match &self.audio_codec {
            AudioCodec::Copy => r.append("-c:a copy"),
            AudioCodec::Aac => {
                if self.preserve_audio_quality {
                    r.append("-c:a aac -b:a 128k")
                } else {
                    r.append("-c:a aac")
                }
            },
            AudioCodec::Mp3 => {
                if self.preserve_audio_quality {
                    r.append("-c:a mp3 -b:a 128k")
                } else {
                    r.append("-c:a mp3")
                }
            },
            AudioCodec::Auto => r.append("-c:a copy"),
        }
        r.append(" -avoid_negative_ts make_zero -async 1 -vsync 2 -y ");
        r.append(self.output.as_str());
        proof {
            assert(r@ =~= command_string_spec(*self));
        }
        r
    }

    /// Classifies a diagnostic text: whether it names one of the fixed
    /// audio-incompatibility phrases, matched case-insensitively.
    pub fn is_audio_error(&self, stderr: &str) -> (r: bool)
        ensures
            r == audio_error_spec(stderr@),
    {
        let hay = chars_of(stderr);
        contains_ci(&hay, "codec not currently supported in container") || contains_ci(
            &hay,
            "could not find codec parameters for stream",
        ) || contains_ci(&hay, "invalid codec tag") || contains_ci(&hay, "audio codec")
            || contains_ci(&hay, "stream copy") || contains_ci(&hay, "does not support codec")
    }

    /// The one-shot retry policy: success is final; an audio-related
    /// failure earns exactly one retry with the fallback arguments; any
    /// other failure is surfaced as it stands.
    pub fn retry_decision(&self, primary_succeeded: bool, stderr: &str) -> (r: RetryDecision)
        ensures
            primary_succeeded ==> r is Succeeded,
            !primary_succeeded && audio_error_spec(stderr@) ==> r is RetryWithFallback,
            !primary_succeeded && !audio_error_spec(stderr@) ==> r is FailWithPrimary,
    {
        if primary_succeeded {
            RetryDecision::Succeeded
        } else if self.is_audio_error(stderr) {
            RetryDecision::RetryWithFallback
        } else {
            RetryDecision::FailWithPrimary
        }
    }
}

/// Under the `Copy` and `Auto` policies the primary arguments ask for an
/// audio stream copy: they hold the adjacent tokens `-c:a` `copy`.
pub proof fn lemma_primary_args_copy_policy(cmd: FFmpegCommand)
    requires
        cmd.audio_codec is Copy || cmd.audio_codec is Auto,
    ensures
        exists|i: int|
            0 <= i && i + 1 < primary_args_spec(cmd).len() && #[trigger] primary_args_spec(cmd)[i]
                == "-c:a"@ && primary_args_spec(cmd)[i + 1] == "copy"@,
{
    let args = primary_args_spec(cmd);
    assert(args[12] == "-c:a"@ && args[13] == "copy"@ && args.len() == 22);
}

/// Under the `Aac` policy without preserved quality the primary
/// arguments select the `aac` codec and carry no bitrate token anywhere
/// the builder writes its own tokens (every position but the input and
/// output paths).
pub proof fn lemma_primary_args_aac_without_bitrate(cmd: FFmpegCommand)
    requires
        cmd.audio_codec is Aac,
        !cmd.preserve_audio_quality,
        cmd.start_time.millis >= 0,
        cmd.duration.millis >= 0,
    ensures
        exists|i: int|
            0 <= i && i + 1 < primary_args_spec(cmd).len() && #[trigger] primary_args_spec(cmd)[i]
                == "-c:a"@ && primary_args_spec(cmd)[i + 1] == "aac"@,
        forall|i: int|
            0 <= i < primary_args_spec(cmd).len() && i != 1 && i != primary_args_spec(cmd).len()
                - 1 ==> #[trigger] primary_args_spec(cmd)[i] != "-b:a"@,
{
    let args = primary_args_spec(cmd);
    assert(args[12] == "-c:a"@ && args[13] == "aac"@ && args.len() == 22);
    proof_literals_differ();
    assert forall|i: int| 0 <= i < args.len() && i != 1 && i != args.len() - 1 implies #[trigger] args[i]
        != "-b:a"@ by {
        if i == 3 || i == 5 {
            let m = if i == 3 {
                cmd.start_time.millis as int
            } else {
                cmd.duration.millis as int
            };
            crate::strutil::lemma_millis_disp_nonneg_first(m as nat);
            reveal_strlit("-b:a");
            assert("-b:a"@[0] == '-');
            assert(millis_disp(m)[0] != '-');
        }
    }
}

/// The fallback arguments force `aac` at a 128k bitrate, whatever the
/// configured policy: they hold the run `-c:a` `aac` `-b:a` `128k`.
pub proof fn lemma_fallback_args_force_aac(cmd: FFmpegCommand)
    ensures
        exists|i: int|
            0 <= i && i + 3 < fallback_args_spec(cmd).len() && #[trigger] fallback_args_spec(cmd)[i]
                == "-c:a"@ && fallback_args_spec(cmd)[i + 1] == "aac"@ && fallback_args_spec(cmd)[i
                + 2] == "-b:a"@ && fallback_args_spec(cmd)[i + 3] == "128k"@,
{
    let args = fallback_args_spec(cmd);
    assert(args[12] == "-c:a"@ && args[13] == "aac"@ && args[14] == "-b:a"@ && args[15] == "128k"@
        && args.len() == 24);
}

/// The builder's fixed tokens differ from the bitrate token.
proof fn proof_literals_differ()
    ensures
        "-i"@ != "-b:a"@,
        "-ss"@ != "-b:a"@,
        "-t"@ != "-b:a"@,
        "-map"@ != "-b:a"@,
        "0:v?"@ != "-b:a"@,
        "0:a?"@ != "-b:a"@,
        "-c:v"@ != "-b:a"@,
        "copy"@ != "-b:a"@,
        "-c:a"@ != "-b:a"@,
        "aac"@ != "-b:a"@,
        "-avoid_negative_ts"@ != "-b:a"@,
        "make_zero"@ != "-b:a"@,
        "-async"@ != "-b:a"@,
        "1"@ != "-b:a"@,
        "-vsync"@ != "-b:a"@,
        "2"@ != "-b:a"@,
        "-y"@ != "-b:a"@,
{
    reveal_strlit("-i");
    reveal_strlit("-ss");
    reveal_strlit("-t");
    reveal_strlit("-map");
    reveal_strlit("0:v?");
    reveal_strlit("0:a?");
    reveal_strlit("-c:v");
    reveal_strlit("copy");
    reveal_strlit("-c:a");
    reveal_strlit("aac");
    reveal_strlit("-avoid_negative_ts");
    reveal_strlit("make_zero");
    reveal_strlit("-async");
    reveal_strlit("1");
    reveal_strlit("-vsync");
    reveal_strlit("2");
    reveal_strlit("-y");
    reveal_strlit("-b:a");
    assert("-b:a"@.len() == 4 && "-b:a"@[1] == 'b');
    assert("-i"@.len() == 2);
    assert("-ss"@.len() == 3);
    assert("-t"@.len() == 2);
    assert("-map"@.len() == 4 && "-map"@[1] == 'm');
    assert("0:v?"@.len() == 4 && "0:v?"@[1] == ':');
    assert("0:a?"@.len() == 4 && "0:a?"@[1] == ':');
    assert("-c:v"@.len() == 4 && "-c:v"@[1] == 'c');
    assert("copy"@.len() == 4 && "copy"@[1] == 'o');
    assert("-c:a"@.len() == 4 && "-c:a"@[1] == 'c');
    assert("aac"@.len() == 3);
    assert("-avoid_negative_ts"@.len() == 18);
    assert("make_zero"@.len() == 9);
    assert("-async"@.len() == 6);
    assert("1"@.len() == 1);
    assert("-vsync"@.len() == 6);
    assert("2"@.len() == 1);
    assert("-y"@.len() == 2);
}

/// Whether the grammar accepts `o` with a value the millisecond
/// representation can hold.
pub open spec fn fits_millis(o: Option<int>) -> bool {
    o matches Some(v) && 0 <= v <= i64::MAX
}

/// The simplified display command built by `generate_ffmpeg_command`.
pub open spec fn simple_command_spec(
    input: Seq<char>,
    output: Seq<char>,
    start_ms: int,
    dur_ms: int,
) -> Seq<char> {
    "ffmpeg -i "@ + input + " -ss "@ + millis_disp(start_ms) + " -t "@ + millis_disp(dur_ms)
        + " -c copy -avoid_negative_ts make_zero -y "@ + output
}

/// Parses a start and an end expression and renders the one-line stream
/// copy command between them. Fails with `InvalidTimeFormat` when either
/// expression is rejected (the start is reported first) and with
/// `InvalidTimeRange` when the end does not lie strictly after the start.
pub fn generate_ffmpeg_command(
    input_file: &str,
    output_file: &str,
    start_time: &str,
    end_time: &str,
) -> (r: Result<String, VideoClipError>)
    ensures
        ({
            let ps = parse_spec(start_time@);
            let pe = parse_spec(end_time@);
            match r {
                Ok(cs) => fits_millis(ps) && fits_millis(pe) && (match (ps, pe) {
                    (Some(a), Some(b)) => b > a && cs@ == simple_command_spec(
                        input_file@,
                        output_file@,
                        a,
                        b - a,
                    ),
                    _ => false,
                }),
                Err(e) => if !fits_millis(ps) {
                    e matches VideoClipError::InvalidTimeFormat(t) && t@ == trim_spec(start_time@)
                } else if !fits_millis(pe) {
                    e matches VideoClipError::InvalidTimeFormat(t) && t@ == trim_spec(end_time@)
                } else {
                    match (ps, pe) {
                        (Some(a), Some(b)) => b <= a && (e
                            matches VideoClipError::InvalidTimeRange { start, end } && start.millis
                            == a && end.millis == b),
                        _ => false,
                    }
                },
            }
        }),
{
    let start_sec = match TimeParser::parse_to_seconds(start_time) {
        Ok(s) => s,
        Err(e) => {
            return Err(e);
        },
    };
    let end_sec = match TimeParser::parse_to_seconds(end_time) {
        Ok(s) => s,
        Err(e) => {
            return Err(e);
        },
    };
    let duration = match TimeParser::validate_time_range(start_sec, end_sec) {
        Ok(d) => d,
        Err(e) => {
            return Err(e);
        },
    };
    let mut r = String::from_str("ffmpeg -i ");
    r.append(input_file);
    r.append(" -ss ");
    let sd = millis_to_display(start_sec.as_millis());
    r.append(sd.as_str());
    r.append(" -t ");
    let dd = millis_to_display(duration.as_millis());
    r.append(dd.as_str());
    r.append(" -c copy -avoid_negative_ts make_zero -y ");
    r.append(output_file);
    proof {
        assert(r@ =~= simple_command_spec(
            input_file@,
            output_file@,
            start_sec.millis as int,
            duration.millis as int,
        ));
    }
    Ok(r)
}

} // verus!
