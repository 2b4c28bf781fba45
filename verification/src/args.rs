//! What the command line decides: which video, which of its streams, where to
//! put the download, how much to log and print.

use core::cmp::Ordering;

use vstd::prelude::*;

use crate::error::Error;
use crate::formats::{AudioQuality, Quality, QualityLabel};
use crate::id::{Id, IdBuf, raw_id};
use crate::order::{cmp_stream, reverse, stream_order};
use crate::stream::{Stream, opt_index, usize_int};
use vstd::string::StringExecFns;

verus! {

/// An arbitrary video identifier, like the video's url or its id.
pub struct Identifier {
    pub identifier: String,
}

impl Identifier {
    /// The owned id found in the identifier.
    pub fn id(&self) -> (r: Result<IdBuf, Error>)
        ensures
            match r {
                Ok(id) => raw_id(self.identifier@) == Some(id@) && id.owned(),
                Err(e) => raw_id(self.identifier@) is None && e is BadIdFormat,
            },
    {
        match Id::from_raw(self.identifier.as_str()) {
            Ok(id) => Ok(id.into_owned()),
            Err(e) => Err(e),
        }
    }
}

/// Which streams the command line accepts, and whether it wants the best or
/// the worst of them.
pub struct StreamFilter {
    pub best_quality: bool,
    pub worst_quality: bool,
    pub no_video: bool,
    pub no_audio: bool,
    pub ignore_missing_video: bool,
    pub ignore_missing_audio: bool,
    pub quality: Option<Quality>,
    pub video_quality: Option<QualityLabel>,
    pub audio_quality: Option<AudioQuality>,
}

impl StreamFilter {
    /// Whether the filter accepts the stream: a video track exactly when one
    /// is wanted (`--no-video` asks for none, `--ignore-missing-video` accepts
    /// either), the same for audio, and the requested qualities.
    pub open spec fn accepts(&self, s: Stream) -> bool {
        let video_ok = (!self.no_video) != !(s.includes_video_track || self.ignore_missing_video);
        let audio_ok = (!self.no_audio) != !(s.includes_audio_track || self.ignore_missing_audio);
        let quality_ok = match self.quality {
            Some(q) => s.quality == q,
            None => true,
        };
        let video_quality_ok = match self.video_quality {
            Some(q) => s.quality_label == Some(q),
            None => true,
        };
        let audio_quality_ok = match self.audio_quality {
            Some(q) => s.audio_quality == Some(q),
            None => true,
        };
        video_ok && audio_ok && quality_ok && video_quality_ok && audio_quality_ok
    }

    /// The order in which the wanted stream is the greatest: the stream order
    /// for the best quality (the default), its reverse for the worst.
    pub open spec fn preference(&self, l: Stream, r: Stream) -> Ordering {
        if self.best_quality || !self.worst_quality {
            stream_order(l, r)
        } else {
            stream_order(r, l)
        }
    }

    /// Whether the filter accepts the stream.
    pub fn stream_matches(&self, stream: &Stream) -> (b: bool)
        ensures
            b == self.accepts(*stream),
    {
        let video_ok = !self.no_video ^ !(stream.includes_video_track || self.ignore_missing_video);
        let audio_ok = !self.no_audio ^ !(stream.includes_audio_track || self.ignore_missing_audio);
        let quality_ok = match self.quality {
            Some(q) => stream.quality == q,
            None => true,
        };
        let video_quality_ok = match self.video_quality {
            Some(q) => stream.quality_label == Some(q),
            None => true,
        };
        let audio_quality_ok = match self.audio_quality {
            Some(q) => stream.audio_quality == Some(q),
            None => true,
        };
        video_ok && audio_ok && quality_ok && video_quality_ok && audio_quality_ok
    }

    /// Compares two streams so that the wanted one is the greatest.
    pub fn max_stream(&self, lhs: &Stream, rhs: &Stream) -> (o: Ordering)
        ensures
            o == self.preference(*lhs, *rhs),
    {
        if self.best_quality || !self.worst_quality {
            cmp_stream(lhs, rhs)
        } else {
            cmp_stream(rhs, lhs)
        }
    }

    /// The stream that `max_by` over the accepted streams gives: going through
    /// them in order, a later stream replaces the current one unless the
    /// current one compares greater.
    pub open spec fn fold_max(&self, s: Seq<Stream>, i: int, acc: Option<int>) -> Option<int>
        decreases s.len() - i,
    {
        if i < 0 || i >= s.len() {
            acc
        } else if !self.accepts(s[i]) {
            self.fold_max(s, i + 1, acc)
        } else {
            match acc {
                None => self.fold_max(s, i + 1, Some(i)),
                Some(a) => if self.preference(s[a], s[i]) == Ordering::Greater {
                    self.fold_max(s, i + 1, Some(a))
                } else {
                    self.fold_max(s, i + 1, Some(i))
                },
            }
        }
    }

    /// The position of the stream to download: the greatest of the accepted
    /// streams in the filter's preference; `NoStreams` when none is accepted.
    pub fn pick_stream(&self, streams: &Vec<Stream>) -> (r: Result<usize, Error>)
        ensures
            match r {
                Ok(i) => self.fold_max(streams@, 0, None) == Some(usize_int(i)),
                Err(e) => self.fold_max(streams@, 0, None) is None && e is NoStreams,
            },
    {
        let mut best: Option<usize> = None;
        let mut i: usize = 0;
        while i < streams.len()
            invariant
                i <= streams@.len(),
                best matches Some(b) ==> b < streams@.len(),
                self.fold_max(streams@, 0, None) == self.fold_max(
                    streams@,
                    usize_int(i),
                    opt_index(best),
                ),
            decreases streams@.len() - i,
        {
            if self.stream_matches(&streams[i]) {
                match best {
                    None => {
                        best = Some(i);
                    },
                    Some(b) => {
                        let keep = match self.max_stream(&streams[b], &streams[i]) {
                            Ordering::Greater => true,
                            _ => false,
                        };
                        if !keep {
                            best = Some(i);
                        }
                    },
                }
            }
            i = i + 1;
        }
        match best {
            Some(b) => Ok(b),
            None => Err(Error::NoStreams),
        }
    }
}

/// Streams that the width does not rank (none has one) and that all have a
/// bitrate, such as a video's audio-only streams.
pub open spec fn ranked_by_bitrate(s: Seq<Stream>) -> bool {
    forall|k: int| 0 <= k < s.len() ==> (#[trigger] s[k]).width is None && s[k].bitrate is Some
}

/// The bitrate of a stream that has one.
pub open spec fn bitrate_of(s: Stream) -> u64 {
    s.bitrate->0
}

/// Among streams that only their bitrates rank, the filter picks an accepted
/// stream with the highest bitrate of the accepted ones for the best quality
/// (the default), and one with the lowest for the worst quality.
pub proof fn lemma_pick_by_bitrate(f: StreamFilter, s: Seq<Stream>)
    requires
        ranked_by_bitrate(s),
    ensures
        f.fold_max(s, 0, None) matches Some(b) ==> 0 <= b < s.len() && f.accepts(s[b]) && forall|k: int|
            0 <= k < s.len() && f.accepts(#[trigger] s[k]) ==> if f.best_quality || !f.worst_quality {
                bitrate_of(s[k]) <= bitrate_of(s[b])
            } else {
                bitrate_of(s[b]) <= bitrate_of(s[k])
            },
        f.fold_max(s, 0, None) is None ==> forall|k: int| 0 <= k < s.len() ==> !f.accepts(#[trigger] s[k]),
{
    lemma_fold_max_by_bitrate(f, s, 0, None);
}

/// The wanted bitrate order between two streams: `a` is at most as wanted as `b`.
pub open spec fn bitrate_no_better(f: StreamFilter, a: Stream, b: Stream) -> bool {
    if f.best_quality || !f.worst_quality {
        bitrate_of(a) <= bitrate_of(b)
    } else {
        bitrate_of(b) <= bitrate_of(a)
    }
}

proof fn lemma_fold_max_by_bitrate(f: StreamFilter, s: Seq<Stream>, i: int, acc: Option<int>)
    requires
        ranked_by_bitrate(s),
        0 <= i <= s.len(),
        acc matches Some(a) ==> 0 <= a < i && f.accepts(s[a]) && forall|k: int|
            0 <= k < i && f.accepts(#[trigger] s[k]) ==> bitrate_no_better(f, s[k], s[a]),
        acc is None ==> forall|k: int| 0 <= k < i ==> !f.accepts(#[trigger] s[k]),
    ensures
        f.fold_max(s, i, acc) matches Some(b) ==> 0 <= b < s.len() && f.accepts(s[b]) && forall|k: int|
            0 <= k < s.len() && f.accepts(#[trigger] s[k]) ==> bitrate_no_better(f, s[k], s[b]),
        f.fold_max(s, i, acc) is None ==> forall|k: int| 0 <= k < s.len() ==> !f.accepts(#[trigger] s[k]),
    decreases s.len() - i,
{
    if i < s.len() {
        if !f.accepts(s[i]) {
            lemma_fold_max_by_bitrate(f, s, i + 1, acc);
        } else {
            match acc {
                None => {
                    lemma_fold_max_by_bitrate(f, s, i + 1, Some(i));
                },
                Some(a) => {
                    let sa = s[a];
                    let si = s[i];
                    assert(sa.width is None && sa.bitrate is Some);
                    assert(si.width is None && si.bitrate is Some);
                    crate::order::lemma_stream_order_by_width_then_bitrate(sa, si);
                    crate::order::lemma_stream_order_by_width_then_bitrate(si, sa);
                    if f.preference(sa, si) == Ordering::Greater {
                        lemma_fold_max_by_bitrate(f, s, i + 1, Some(a));
                    } else {
                        assert forall|k: int| 0 <= k < i + 1 && f.accepts(#[trigger] s[k]) implies bitrate_no_better(
                            f,
                            s[k],
                            s[i],
                        ) by {
                            if k < i {
                                assert(bitrate_no_better(f, s[k], s[a]));
                            }
                        }
                        lemma_fold_max_by_bitrate(f, s, i + 1, Some(i));
                    }
                },
            }
        }
    }
}

/// By default the command line wants a stream with both a video and an audio
/// track, and the best of those.
pub proof fn lemma_default_filter(f: StreamFilter, l: Stream, r: Stream)
    requires
        !f.best_quality,
        !f.worst_quality,
        !f.no_video,
        !f.no_audio,
        !f.ignore_missing_video,
        !f.ignore_missing_audio,
        f.quality is None,
        f.video_quality is None,
        f.audio_quality is None,
    ensures
        f.accepts(l) == (l.includes_video_track && l.includes_audio_track),
        f.preference(l, r) == stream_order(l, r),
{
}

/// Asking for the worst quality reverses the preference of the best quality.
pub proof fn lemma_worst_reverses_best(f: StreamFilter, g: StreamFilter, l: Stream, r: Stream)
    requires
        f.best_quality,
        !g.best_quality,
        g.worst_quality,
    ensures
        g.preference(l, r) == reverse(f.preference(l, r)),
{
    crate::order::lemma_cmp_stream_antisymmetric(l, r);
}

// ---------------------------------------------------------------------------
// Logging
// ---------------------------------------------------------------------------

/// How much the library logs.
#[derive(Clone, Copy, Debug, PartialEq, Eq, Structural)]
pub enum LevelFilter {
    Off,
    Error,
    Warn,
    Info,
    Debug,
    Trace,
}

/// When to color log messages.
#[derive(Clone, Copy, Debug, PartialEq, Eq, Structural)]
pub enum ColorUsage {
    Always,
    Never,
}

/// The logging options of the command line.
pub struct LoggingArgs {
    /// How many times `-v` was given.
    pub verbose: u8,
    pub color: ColorUsage,
    pub quiet: bool,
}

/// The log level that `-v` given `verbose` times selects.
pub open spec fn level_for(verbose: u8) -> LevelFilter {
    if verbose == 1 {
        LevelFilter::Error
    } else if verbose == 2 {
        LevelFilter::Warn
    } else if verbose == 0 || verbose == 3 {
        LevelFilter::Info
    } else if verbose == 4 {
        LevelFilter::Debug
    } else {
        LevelFilter::Trace
    }
}

impl LoggingArgs {
    /// The log level for the library: none given is `Info`, `-v` is `Error`,
    /// and each further `-v` one level more, up to `Trace`.
    pub fn level_filter(&self) -> (l: LevelFilter)
        ensures
            l == level_for(self.verbose),
    {
        match self.verbose {
            1 => LevelFilter::Error,
            2 => LevelFilter::Warn,
            0 | 3 => LevelFilter::Info,
            4 => LevelFilter::Debug,
            _ => LevelFilter::Trace,
        }
    }
}

// ---------------------------------------------------------------------------
// Output
// ---------------------------------------------------------------------------

/// The format in which information is printed.
#[derive(Clone, Copy, Debug, PartialEq, Eq, Structural)]
pub enum OutputFormat {
    Debug,
    PrettyDebug,
    Json,
    PrettyJson,
    Yaml,
}

impl Default for OutputFormat {
    fn default() -> (f: Self)
        ensures
            f == OutputFormat::PrettyJson,
    {
        OutputFormat::PrettyJson
    }
}

// ---------------------------------------------------------------------------
// Where to download to
// ---------------------------------------------------------------------------

/// A download destination: the directory (the working directory when absent)
/// and the file name within it.
pub struct DownloadPath {
    pub dir: Option<String>,
    pub file_name: String,
}

/// The file name for a download: the given one, or `<VIDEO_ID>.<extension>`.
pub open spec fn file_name_for(filename: Option<String>, extension: Seq<char>, id: Seq<char>) -> Seq<char> {
    match filename {
        Some(f) => f@,
        None => id + "."@ + extension,
    }
}

/// Where a download goes: the given file name (by default `<VIDEO_ID>.<extension>`)
/// in the given directory (by default the working directory).
pub fn download_path(
    filename: Option<String>,
    extension: &str,
    dir: Option<String>,
    video_id: Id<'_>,
) -> (p: DownloadPath)
    ensures
        p.dir == dir,
        p.file_name@ == file_name_for(filename, extension@, video_id@),
{
    let file_name = match filename {
        Some(f) => f,
        None => {
            let mut name = String::from_str(video_id.as_str());
            name.append(".");
            name.append(extension);
            name
        },
    };
    DownloadPath { dir, file_name }
}

} // verus!
