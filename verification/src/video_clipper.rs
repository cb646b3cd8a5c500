//! Clip requests, clip planning and output-file naming.
//!
//! Paths are plain strings with `/` as the separator; the file name is
//! what follows the last separator and the stem is the file name up to
//! its last dot (a leading dot does not start an extension).

use vstd::prelude::*;

use crate::error::VideoClipError;
use crate::ffmpeg::command_string_parts;
use crate::ffmpeg::fits_millis;
use crate::ffmpeg::AudioCodec;
use crate::ffmpeg::FFmpegCommand;
use crate::seconds::Seconds;
use crate::strutil::chars_of;
use crate::time_parser::parse_spec;
use crate::time_parser::trim_spec;
use crate::time_parser::format_time_spec;
use crate::time_parser::TimeParser;

verus! {

/// A request to clip one video: the input path and the raw start and end
/// expressions, with an optional output directory override.
#[derive(Debug, Clone)]
pub struct ClipRequest {
    pub input_file: String,
    pub start_time: String,
    pub end_time: String,
    pub output_dir: Option<String>,
}

/// The outcome of planning (and possibly running) one clip.
#[derive(Debug, Clone)]
pub struct ClipResult {
    pub input_file: String,
    pub output_file: String,
    pub start_seconds: Seconds,
    pub end_seconds: Seconds,
    pub duration: Seconds,
    pub file_size_bytes: Option<u64>,
    pub command: String,
}

/// Plans clips: parses the requested times, names the output file and
/// builds the transcode command.
#[derive(Debug, Clone)]
pub struct VideoClipper {
    pub output_dir: String,
}

/// The position of the last occurrence of `c` in `s`, or `-1`.
pub open spec fn rfind_char(s: Seq<char>, c: char) -> int
    decreases s.len(),
{
    if s.len() == 0 {
        -1
    } else if s.last() == c {
        s.len() - 1
    } else {
        rfind_char(s.drop_last(), c)
    }
}

/// Characterization of `rfind_char`: `-1` exactly when `c` does not
/// occur, otherwise the position of an occurrence that none follows.
pub proof fn lemma_rfind_char(s: Seq<char>, c: char)
    ensures
        rfind_char(s, c) == -1 ==> forall|i: int| 0 <= i < s.len() ==> s[i] != c,
        rfind_char(s, c) != -1 ==> 0 <= rfind_char(s, c) < s.len() && s[rfind_char(s, c)] == c
            && forall|j: int| rfind_char(s, c) < j < s.len() ==> s[j] != c,
    decreases s.len(),
{
    if s.len() == 0 {
    } else if s.last() == c {
    } else {
        lemma_rfind_char(s.drop_last(), c);
        assert(forall|i: int| 0 <= i < s.len() - 1 ==> s.drop_last()[i] == s[i]);
    }
}

/// An occurrence that none follows is the last one.
pub proof fn lemma_rfind_char_at(s: Seq<char>, c: char, k: int)
    requires
        0 <= k < s.len(),
        s[k] == c,
        forall|j: int| k < j < s.len() ==> s[j] != c,
    ensures
        rfind_char(s, c) == k,
{
    lemma_rfind_char(s, c);
}

/// The file name of the path `p`: what follows the last `/`.
pub open spec fn file_name_spec(p: Seq<char>) -> Seq<char> {
    p.skip(rfind_char(p, '/') + 1)
}

/// The stem of the path `p`: its file name up to the last dot, except
/// that a dot in first position does not start an extension.
pub open spec fn file_stem_spec(p: Seq<char>) -> Seq<char> {
    let n = file_name_spec(p);
    let d = rfind_char(n, '.');
    if d <= 0 {
        n
    } else {
        n.take(d)
    }
}

/// The stem used in a clip's file name: the path's stem, or `clip` for a
/// path with no file name.
pub open spec fn clip_stem_spec(p: Seq<char>) -> Seq<char> {
    if file_name_spec(p).len() == 0 {
        "clip"@
    } else {
        file_stem_spec(p)
    }
}

/// `name` under the directory `dir`: joined with a single `/`, with no
/// separator added after an empty `dir` or one that already ends in `/`.
pub open spec fn join_spec(dir: Seq<char>, name: Seq<char>) -> Seq<char> {
    if dir.len() == 0 {
        name
    } else if dir.last() == '/' {
        dir + name
    } else {
        dir + "/"@ + name
    }
}

/// The file name of a clip of `input` between the millisecond offsets
/// `start_ms` and `end_ms`: the stem, both times in the compact `MM-SS`
/// form, and an `mp4` extension.
pub open spec fn clip_name_spec(input: Seq<char>, start_ms: int, end_ms: int) -> Seq<char> {
    clip_stem_spec(input) + "_clip_"@ + format_time_spec(start_ms) + "_to_"@ + format_time_spec(
        end_ms,
    ) + ".mp4"@
}

/// Where the clip of `input` goes: its name under the directory `dir`.
pub open spec fn output_path_spec(dir: Seq<char>, input: Seq<char>, start_ms: int, end_ms: int) -> Seq<
    char,
> {
    join_spec(dir, clip_name_spec(input, start_ms, end_ms))
}

/// The absolute position where the file name of `v` starts.
fn name_start(v: &Vec<char>) -> (r: usize)
    ensures
        r <= v@.len(),
        file_name_spec(v@) == v@.skip(r as int),
{
    let n = v.len();
    let mut i: usize = n;
    while i > 0
        invariant
            i <= n,
            n == v@.len(),
            forall|j: int| i <= j < n ==> v@[j] != '/',
        decreases i,
    {
        if v[i - 1] == '/' {
            proof {
                lemma_rfind_char_at(v@, '/', i as int - 1);
            }
            return i;
        }
        i = i - 1;
    }
    proof {
        lemma_rfind_char(v@, '/');
        if rfind_char(v@, '/') != -1 {
            assert(v@[rfind_char(v@, '/')] == '/');
        }
        assert(v@.skip(0) =~= v@);
    }
    0
}

/// The length of the stem within the file name `v[ns ..]`.
fn stem_len(v: &Vec<char>, ns: usize) -> (r: usize)
    requires
        ns <= v@.len(),
        file_name_spec(v@) == v@.skip(ns as int),
    ensures
        r <= v@.len() - ns,
        file_stem_spec(v@) == v@.subrange(ns as int, ns as int + r as int),
{
    let ghost name = v@.skip(ns as int);
    let n = v.len();
    let mut i: usize = n;
    while i > ns
        invariant
            ns <= i <= n,
            n == v@.len(),
            name == v@.skip(ns as int),
            file_name_spec(v@) == name,
            forall|j: int| i <= j < n ==> v@[j] != '.',
        decreases i,
    {
        if v[i - 1] == '.' {
            proof {
                let k = i as int - 1 - ns as int;
                assert(name[k] == v@[i as int - 1]);
                assert forall|j: int| k < j < name.len() implies #[trigger] name[j] != '.' by {
                    assert(name[j] == v@[ns + j]);
                }
                lemma_rfind_char_at(name, '.', k);
            }
            if i - 1 == ns {
                // a leading dot does not start an extension
                proof {
                    assert(name =~= v@.subrange(ns as int, n as int));
                }
                return n - ns;
            }
            proof {
                assert(name.take(i as int - 1 - ns as int) =~= v@.subrange(
                    ns as int,
                    i as int - 1,
                ));
            }
            return i - 1 - ns;
        }
        i = i - 1;
    }
    proof {
        assert forall|j: int| 0 <= j < name.len() implies #[trigger] name[j] != '.' by {
            assert(name[j] == v@[ns + j]);
        }
        lemma_rfind_char(name, '.');
        if rfind_char(name, '.') != -1 {
            assert(name[rfind_char(name, '.')] == '.');
        }
        assert(name =~= v@.subrange(ns as int, n as int));
    }
    n - ns
}

impl VideoClipper {
    /// A clipper that writes into the `downloads` directory.
    pub fn new() -> (r: VideoClipper)
        ensures
            r.output_dir@ == "downloads"@,
    {
        VideoClipper { output_dir: String::from_str("downloads") }
    }

    /// A clipper that writes into the given directory.
    pub fn with_output_dir(output_dir: String) -> (r: VideoClipper)
        ensures
            r.output_dir == output_dir,
    {
        VideoClipper { output_dir }
    }

    /// The places to look for an input file that is not at its own path:
    /// its file name under the output directory, then the path itself.
    pub fn candidate_paths(&self, path: &str) -> (r: Vec<String>)
        requires
            file_name_spec(path@).len() > 0,
        ensures
            r.deep_view() == seq![
                join_spec(self.output_dir@, file_name_spec(path@)),
                path@,
            ],
    {
        let v = chars_of(path);
        let ns = name_start(&v);
        let name = path.substring_char(ns, v.len());
        proof {
            assert(v@.subrange(ns as int, v@.len() as int) =~= file_name_spec(path@));
        }
        let joined = join_path(self.output_dir.as_str(), name);
        let mut r: Vec<String> = Vec::new();
        r.push(joined);
        r.push(String::from_str(path));
        proof {
            assert(r.deep_view() =~~= seq![
                join_spec(self.output_dir@, file_name_spec(path@)),
                path@,
            ]);
        }
        r
    }

    /// Decides whether an input path is usable, given which locations
    /// hold a file: the path itself, or any of `candidate_paths`. A path
    /// without a file name is invalid; one found nowhere is not found.
    pub fn validate_input_file(&self, path: &str, path_exists: bool, candidate_exists: bool) -> (r:
        Result<(), VideoClipError>)
        ensures
            path_exists ==> r is Ok,
            !path_exists && file_name_spec(path@).len() == 0 ==> (r matches Err(e)
                && e matches VideoClipError::InvalidPath(p) && p@ == path@),
            !path_exists && file_name_spec(path@).len() > 0 && candidate_exists ==> r is Ok,
            !path_exists && file_name_spec(path@).len() > 0 && !candidate_exists ==> (r matches Err(
                e,
            ) && e matches VideoClipError::FileNotFound(p) && p@ == path@),
    {
        if path_exists {
            return Ok(());
        }
        let v = chars_of(path);
        let ns = name_start(&v);
        if ns == v.len() {
            return Err(VideoClipError::InvalidPath(String::from_str(path)));
        }
        if candidate_exists {
            return Ok(());
        }
        Err(VideoClipError::FileNotFound(String::from_str(path)))
    }

    /// Names the output file for a clip of `input_file` between
    /// `start_sec` and `end_sec`, under the clipper's output directory.
    pub fn generate_output_filename(&self, input_file: &str, start_sec: Seconds, end_sec: Seconds) -> (r:
        String)
        requires
            start_sec.millis >= 0,
            end_sec.millis >= 0,
        ensures
            r@ == output_path_spec(
                self.output_dir@,
                input_file@,
                start_sec.millis as int,
                end_sec.millis as int,
            ),
    {
        let name = self.clip_file_name(input_file, start_sec, end_sec);
        join_path(self.output_dir.as_str(), name.as_str())
    }

    /// The bare file name of a clip of `input_file` between `start_sec`
    /// and `end_sec`, without a directory.
    pub fn clip_file_name(&self, input_file: &str, start_sec: Seconds, end_sec: Seconds) -> (r:
        String)
        requires
            start_sec.millis >= 0,
            end_sec.millis >= 0,
        ensures
            r@ == clip_name_spec(input_file@, start_sec.millis as int, end_sec.millis as int),
    {
        let v = chars_of(input_file);
        let ns = name_start(&v);
        let mut r: String;
        if ns == v.len() {
            r = String::from_str("clip");
            proof {
                reveal_strlit("clip");
                assert(r@ =~= clip_stem_spec(input_file@));
            }
        } else {
            let sl = stem_len(&v, ns);
            r = String::from_str(input_file.substring_char(ns, ns + sl));
            proof {
                assert(file_name_spec(input_file@).len() > 0);
                assert(r@ =~= clip_stem_spec(input_file@));
            }
        }
        r.append("_clip_");
        let sf = TimeParser::format_time(start_sec);
        r.append(sf.as_str());
        r.append("_to_");
        let ef = TimeParser::format_time(end_sec);
        r.append(ef.as_str());
        r.append(".mp4");
        proof {
            assert(r@ =~= clip_name_spec(
                input_file@,
                start_sec.millis as int,
                end_sec.millis as int,
            ));
        }
        r
    }

    /// Plans a clip without running anything: parses and validates the
    /// requested times, names the output file under the clipper's output
    /// directory, and renders the command for the default policy. The
    /// size is unknown at planning time.
    pub fn prepare_clip_command(&self, request: &ClipRequest) -> (r: Result<
        ClipResult,
        VideoClipError,
    >)
        ensures
            ({
                let ps = parse_spec(request.start_time@);
                let pe = parse_spec(request.end_time@);
                match r {
                    Ok(res) => fits_millis(ps) && fits_millis(pe) && (match (ps, pe) {
                        (Some(a), Some(b)) => b > a && res.start_seconds.millis == a
                            && res.end_seconds.millis == b && res.duration.millis == b - a
                            && res.input_file@ == request.input_file@ && res.output_file@
                            == output_path_spec(self.output_dir@, request.input_file@, a, b)
                            && res.command@ == command_string_parts(
                            request.input_file@,
                            output_path_spec(self.output_dir@, request.input_file@, a, b),
                            a,
                            b - a,
                            AudioCodec::Auto,
                            true,
                        ) && res.file_size_bytes is None,
                        _ => false,
                    }),
                    Err(e) => if !fits_millis(ps) {
                        e matches VideoClipError::InvalidTimeFormat(t) && t@ == trim_spec(
                            request.start_time@,
                        )
                    } else if !fits_millis(pe) {
                        e matches VideoClipError::InvalidTimeFormat(t) && t@ == trim_spec(
                            request.end_time@,
                        )
                    } else {
                        match (ps, pe) {
                            (Some(a), Some(b)) => b <= a && (e
                                matches VideoClipError::InvalidTimeRange { start, end }
                                && start.millis == a && end.millis == b),
                            _ => false,
                        }
                    },
                }
            }),
    {
        let start_sec = match TimeParser::parse_to_seconds(request.start_time.as_str()) {
            Ok(s) => s,
            Err(e) => {
                return Err(e);
            },
        };
        let end_sec = match TimeParser::parse_to_seconds(request.end_time.as_str()) {
            Ok(s) => s,
            Err(e) => {
                return Err(e);
            },
        };
        let duration = match TimeParser::validate_time_range(start_sec, end_sec) {
            Ok(d) => d,
            Err(e) => {
                return Err(e);
            },
        };
        let output_path = self.generate_output_filename(request.input_file.as_str(), start_sec, end_sec);
        let ffmpeg = FFmpegCommand::new(
            request.input_file.clone(),
            output_path.clone(),
            start_sec,
            duration,
        );
        let command_string = ffmpeg.get_command_string();
        Ok(
            ClipResult {
                input_file: request.input_file.clone(),
                output_file: output_path,
                start_seconds: start_sec,
                end_seconds: end_sec,
                duration,
                file_size_bytes: None,
                command: command_string,
            },
        )
    }

}

impl Default for VideoClipper {
    /// The same clipper as `new`: output under `downloads`.
    fn default() -> (r: VideoClipper)
        ensures
            r.output_dir@ == "downloads"@,
    {
        VideoClipper::new()
    }
}

/// Joins `name` under `dir` with a single `/` separator.
pub fn join_path(dir: &str, name: &str) -> (r: String)
    ensures
        r@ == join_spec(dir@, name@),
{
    let dn = dir.unicode_len();
    if dn == 0 {
        return String::from_str(name);
    }
    let last = dir.get_char(dn - 1);
    let mut r = String::from_str(dir);
    if last != '/' {
        r.append("/");
        proof {
            reveal_strlit("/");
        }
    }
    r.append(name);
    proof {
        assert(r@ =~= join_spec(dir@, name@));
    }
    r
}

} // verus!
