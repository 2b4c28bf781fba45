//! The decisions of the plain download command (`rustube <ID> [options]`):
//! its stream filters, its quality order, and where its download goes.

use core::cmp::Ordering;

use vstd::prelude::*;

use crate::error::Error;
use crate::formats::{
    AudioQuality,
    Quality,
    QualityLabel,
    audio_quality_key,
    audio_quality_rank,
    quality_key,
    quality_label_key,
    quality_label_rank,
    quality_rank,
};
use crate::id::{Id, IdBuf, raw_id};
use crate::order::{cmp_int, cmp_u64, stream_order, cmp_stream};
use crate::stream::{Stream, opt_index, usize_int};

verus! {

/// The track filter of the plain download command.
pub struct StreamFilter {
    pub best_quality: bool,
    pub worst_quality: bool,
    pub no_video: bool,
    pub no_audio: bool,
    pub ignore_missing_video: bool,
    pub ignore_missing_audio: bool,
}

impl StreamFilter {
    /// Whether the filter accepts the stream. `--no-video` asks for a stream
    /// without a video track; otherwise a video track is needed unless
    /// `--ignore-missing-video` accepts its absence. The same for audio.
    pub open spec fn accepts(&self, s: Stream) -> bool {
        let video_ok = if self.no_video {
            !s.includes_video_track
        } else {
            s.includes_video_track || self.ignore_missing_video
        };
        let audio_ok = if self.no_audio {
            !s.includes_audio_track
        } else {
            s.includes_audio_track || self.ignore_missing_audio
        };
        video_ok && audio_ok
    }

    /// Whether the filter accepts the stream.
    pub fn stream_matches(&self, stream: &Stream) -> (b: bool)
        ensures
            b == self.accepts(*stream),
    {
        let video_ok = if self.no_video {
            !stream.includes_video_track
        } else {
            stream.includes_video_track || self.ignore_missing_video
        };
        let audio_ok = if self.no_audio {
            !stream.includes_audio_track
        } else {
            stream.includes_audio_track || self.ignore_missing_audio
        };
        video_ok && audio_ok
    }

    /// Compares two streams so that the wanted one is the greatest: the best
    /// quality unless only the worst is asked for.
    pub fn max_stream(&self, lhs: &Stream, rhs: &Stream) -> (o: Ordering)
        ensures
            o == (if self.best_quality || !self.worst_quality {
                stream_order(*lhs, *rhs)
            } else {
                stream_order(*rhs, *lhs)
            }),
    {
        if self.best_quality || !self.worst_quality {
            cmp_stream(lhs, rhs)
        } else {
            cmp_stream(rhs, lhs)
        }
    }
}

/// The quality filter of the plain download command.
pub struct QualityFilter {
    pub quality: Option<Quality>,
    pub video_quality: Option<QualityLabel>,
    pub audio_quality: Option<AudioQuality>,
}

impl QualityFilter {
    /// Whether the stream has every quality that is asked for.
    pub open spec fn accepts(&self, s: Stream) -> bool {
        &&& (self.quality matches Some(q) ==> s.quality == q)
        &&& (self.video_quality matches Some(q) ==> s.quality_label == Some(q))
        &&& (self.audio_quality matches Some(q) ==> s.audio_quality == Some(q))
    }

    /// Whether the stream has every quality that is asked for.
    pub fn stream_matches(&self, stream: &Stream) -> (b: bool)
        ensures
            b == self.accepts(*stream),
    {
        let quality_ok = match self.quality {
            Some(q) => stream.quality == q,
            None => true,
        };
        let video_quality_ok = match self.video_quality {
            Some(q) => stream.quality_label == Some(q),
            None => true,
        };
        let audio_quality_ok = match self.audio_quality {
            Some(q) => stream.audio_quality == Some(q),
            None => true,
        };
        quality_ok && video_quality_ok && audio_quality_ok
    }
}

/// The download options of the plain download command.
pub struct DownloadOptions {
    pub identifier: String,
    pub best_quality: bool,
    pub worst_quality: bool,
    pub quality: Option<Quality>,
    pub video_quality: Option<QualityLabel>,
    pub audio_quality: Option<AudioQuality>,
    pub no_video: bool,
    pub no_audio: bool,
    pub ignore_missing_video: bool,
    pub ignore_missing_audio: bool,
    pub dir: Option<String>,
    pub filename: Option<String>,
}

/// Where the plain download command downloads to; the file it writes is the
/// path it reports.
pub enum DownloadTarget {
    /// Download to `dir` joined with `filename`; that path is reported.
    DirAndFile(String, String),
    /// Download to `<VIDEO_ID>.mp4` in `dir`; that path is reported.
    Dir(String),
    /// Download to `filename`; `filename` is reported.
    File(String),
    /// Download to `<VIDEO_ID>.mp4` in the working directory; that path is reported.
    WorkingDir,
}

impl DownloadOptions {
    /// Whether the options accept the stream: `--no-video` asks for a stream
    /// without a video track; otherwise a video track is needed unless
    /// `--ignore-missing-video` accepts its absence. The same for audio; and
    /// every quality that is asked for.
    pub open spec fn accepts(&self, s: Stream) -> bool {
        let video_ok = if self.no_video {
            !s.includes_video_track
        } else {
            s.includes_video_track || self.ignore_missing_video
        };
        let audio_ok = if self.no_audio {
            !s.includes_audio_track
        } else {
            s.includes_audio_track || self.ignore_missing_audio
        };
        let quality_ok = match self.quality {
            Some(q) => s.quality == q,
            None => true,
        };
        let label_ok = match self.video_quality {
            Some(q) => s.quality_label == Some(q),
            None => true,
        };
        let audio_quality_ok = match self.audio_quality {
            Some(q) => s.audio_quality == Some(q),
            None => true,
        };
        video_ok && audio_ok && quality_ok && label_ok && audio_quality_ok
    }

    /// The quality order: by audio quality for audio-only downloads, by quality
    /// label for video-only ones, and otherwise by quality label, then audio
    /// quality (each when both streams have it), then quality.
    pub open spec fn quality_order(&self, s0: Stream, s1: Stream) -> Ordering {
        if self.no_video {
            cmp_int(audio_quality_key(s0.audio_quality), audio_quality_key(s1.audio_quality))
        } else if self.no_audio {
            cmp_int(quality_label_key(s0.quality_label), quality_label_key(s1.quality_label))
        } else if s0.quality_label is Some && s1.quality_label is Some {
            cmp_int(quality_label_key(s0.quality_label), quality_label_key(s1.quality_label))
        } else if s0.audio_quality is Some && s1.audio_quality is Some {
            cmp_int(audio_quality_key(s0.audio_quality), audio_quality_key(s1.audio_quality))
        } else {
            cmp_int(quality_key(s0.quality), quality_key(s1.quality))
        }
    }

    /// The order in which the wanted stream is the greatest.
    pub open spec fn preference(&self, s0: Stream, s1: Stream) -> Ordering {
        if self.worst_quality {
            self.quality_order(s1, s0)
        } else {
            self.quality_order(s0, s1)
        }
    }

    /// The stream that `max_by` over the accepted streams gives.
    pub open spec fn fold_max(&self, s: Seq<Stream>, i: int, acc: Option<int>) -> Option<int>
        decreases s.len() - i,
    {
        if i < 0 || i >= s.len() {
            acc
        } else if !self.accepts(s[i]) {
            self.fold_max(s, i + 1, acc)
        } else {
            match acc {
                None => self.fold_max(s, i + 1, Some(i)),
                Some(a) => if self.preference(s[a], s[i]) == Ordering::Greater {
                    self.fold_max(s, i + 1, Some(a))
                } else {
                    self.fold_max(s, i + 1, Some(i))
                },
            }
        }
    }

    /// Whether the options accept the stream.
    pub fn stream_ok(&self, stream: &Stream) -> (b: bool)
        ensures
            b == self.accepts(*stream),
    {
        let video_ok = if self.no_video {
            !stream.includes_video_track
        } else {
            stream.includes_video_track || self.ignore_missing_video
        };
        let audio_ok = if self.no_audio {
            !stream.includes_audio_track
        } else {
            stream.includes_audio_track || self.ignore_missing_audio
        };
        let quality_ok = match self.quality {
            Some(q) => stream.quality == q,
            None => true,
        };
        let label_ok = match self.video_quality {
            Some(q) => stream.quality_label == Some(q),
            None => true,
        };
        let audio_quality_ok = match self.audio_quality {
            Some(q) => stream.audio_quality == Some(q),
            None => true,
        };
        video_ok && audio_ok && quality_ok && label_ok && audio_quality_ok
    }

    /// Compares two streams in the quality order of the options.
    pub fn cmp_quality(&self, stream0: &Stream, stream1: &Stream) -> (o: Ordering)
        ensures
            o == self.quality_order(*stream0, *stream1),
    {
        if self.no_video {
            cmp_u64(audio_quality_rank(stream0.audio_quality), audio_quality_rank(stream1.audio_quality))
        } else if self.no_audio {
            cmp_u64(quality_label_rank(stream0.quality_label), quality_label_rank(stream1.quality_label))
        } else {
            if stream0.quality_label.is_some() && stream1.quality_label.is_some() {
                return cmp_u64(
                    quality_label_rank(stream0.quality_label),
                    quality_label_rank(stream1.quality_label),
                );
            }
            if stream0.audio_quality.is_some() && stream1.audio_quality.is_some() {
                return cmp_u64(
                    audio_quality_rank(stream0.audio_quality),
                    audio_quality_rank(stream1.audio_quality),
                );
            }
            cmp_u64(quality_rank(stream0.quality), quality_rank(stream1.quality))
        }
    }

    /// The position of the stream to download: the greatest accepted stream in
    /// the preference of the options; `NoStreams` when none is accepted.
    pub fn pick_stream(&self, streams: &Vec<Stream>) -> (r: Result<usize, Error>)
        ensures
            match r {
                Ok(i) => self.fold_max(streams@, 0, None) == Some(usize_int(i)),
                Err(e) => self.fold_max(streams@, 0, None) is None && e is NoStreams,
            },
    {
        let mut best: Option<usize> = None;
        let mut i: usize = 0;
        while i < streams.len()
            invariant
                i <= streams@.len(),
                best matches Some(b) ==> b < streams@.len(),
                self.fold_max(streams@, 0, None) == self.fold_max(
                    streams@,
                    usize_int(i),
                    opt_index(best),
                ),
            decreases streams@.len() - i,
        {
            if self.stream_ok(&streams[i]) {
                match best {
                    None => {
                        best = Some(i);
                    },
                    Some(b) => {
                        let order = if self.worst_quality {
                            self.cmp_quality(&streams[i], &streams[b])
                        } else {
                            self.cmp_quality(&streams[b], &streams[i])
                        };
                        let keep = match order {
                            Ordering::Greater => true,
                            _ => false,
                        };
                        if !keep {
                            best = Some(i);
                        }
                    },
                }
            }
            i = i + 1;
        }
        match best {
            Some(b) => Ok(b),
            None => Err(Error::NoStreams),
        }
    }

    /// Where to download to, from the given directory and file name.
    pub fn target(&self) -> (t: DownloadTarget)
        ensures
            match (self.dir, self.filename) {
                (Some(d), Some(f)) => t matches DownloadTarget::DirAndFile(d2, f2) && d2 == d && f2
                    == f,
                (Some(d), None) => t matches DownloadTarget::Dir(d2) && d2 == d,
                (None, Some(f)) => t matches DownloadTarget::File(f2) && f2 == f,
                (None, None) => t is WorkingDir,
            },
    {
        match (&self.dir, &self.filename) {
            (Some(dir), Some(filename)) => DownloadTarget::DirAndFile(dir.clone(), filename.clone()),
            (Some(dir), None) => DownloadTarget::Dir(dir.clone()),
            (None, Some(filename)) => DownloadTarget::File(filename.clone()),
            (None, None) => DownloadTarget::WorkingDir,
        }
    }
}

/// The rank that decides a download without video (its audio quality) or
/// without audio (its quality label).
pub open spec fn single_track_rank(o: DownloadOptions, s: Stream) -> int {
    if o.no_video {
        audio_quality_key(s.audio_quality)
    } else {
        quality_label_key(s.quality_label)
    }
}

/// `a` is at most as wanted as `b`: its rank is no higher for the best
/// quality, no lower for the worst.
pub open spec fn rank_no_better(o: DownloadOptions, a: Stream, b: Stream) -> bool {
    if o.worst_quality {
        single_track_rank(o, b) <= single_track_rank(o, a)
    } else {
        single_track_rank(o, a) <= single_track_rank(o, b)
    }
}

/// A download without video picks an accepted stream of the highest audio
/// quality (the lowest with `--worst-quality`) among the accepted ones; a
/// download without audio does the same by quality label.
pub proof fn lemma_single_track_pick(o: DownloadOptions, s: Seq<Stream>)
    requires
        o.no_video || o.no_audio,
    ensures
        o.fold_max(s, 0, None) matches Some(b) ==> 0 <= b < s.len() && o.accepts(s[b]) && forall|k: int|
            0 <= k < s.len() && o.accepts(#[trigger] s[k]) ==> rank_no_better(o, s[k], s[b]),
        o.fold_max(s, 0, None) is None ==> forall|k: int| 0 <= k < s.len() ==> !o.accepts(#[trigger] s[k]),
{
    lemma_fold_max_single_track(o, s, 0, None);
}

proof fn lemma_fold_max_single_track(o: DownloadOptions, s: Seq<Stream>, i: int, acc: Option<int>)
    requires
        o.no_video || o.no_audio,
        0 <= i <= s.len(),
        acc matches Some(a) ==> 0 <= a < i && o.accepts(s[a]) && forall|k: int|
            0 <= k < i && o.accepts(#[trigger] s[k]) ==> rank_no_better(o, s[k], s[a]),
        acc is None ==> forall|k: int| 0 <= k < i ==> !o.accepts(#[trigger] s[k]),
    ensures
        o.fold_max(s, i, acc) matches Some(b) ==> 0 <= b < s.len() && o.accepts(s[b]) && forall|k: int|
            0 <= k < s.len() && o.accepts(#[trigger] s[k]) ==> rank_no_better(o, s[k], s[b]),
        o.fold_max(s, i, acc) is None ==> forall|k: int| 0 <= k < s.len() ==> !o.accepts(#[trigger] s[k]),
    decreases s.len() - i,
{
    if i < s.len() {
        if !o.accepts(s[i]) {
            lemma_fold_max_single_track(o, s, i + 1, acc);
        } else {
            match acc {
                None => {
                    lemma_fold_max_single_track(o, s, i + 1, Some(i));
                },
                Some(a) => {
                    if o.preference(s[a], s[i]) == Ordering::Greater {
                        lemma_fold_max_single_track(o, s, i + 1, Some(a));
                    } else {
                        assert forall|k: int| 0 <= k < i + 1 && o.accepts(#[trigger] s[k]) implies rank_no_better(
                            o,
                            s[k],
                            s[i],
                        ) by {
                            if k < i {
                                assert(rank_no_better(o, s[k], s[a]));
                            }
                        }
                        lemma_fold_max_single_track(o, s, i + 1, Some(i));
                    }
                },
            }
        }
    }
}

/// The owned id in a video identifier.
pub fn extract_id(s: &str) -> (r: Result<IdBuf, Error>)
    ensures
        match r {
            Ok(id) => raw_id(s@) == Some(id@) && id.owned(),
            Err(e) => raw_id(s@) is None && e is BadIdFormat,
        },
{
    match Id::from_raw(s) {
        Ok(id) => Ok(id.into_owned()),
        Err(e) => Err(e),
    }
}

/// A check succeeds with the video's streams when there is at least one.
pub fn check_streams(streams: Vec<Stream>) -> (r: Result<Vec<Stream>, Error>)
    ensures
        match r {
            Ok(s) => s == streams && streams@.len() > 0,
            Err(e) => streams@.len() == 0 && e is NoStreams,
        },
{
    if streams.len() > 0 {
        Ok(streams)
    } else {
        Err(Error::NoStreams)
    }
}

} // verus!
