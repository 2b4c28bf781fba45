//! A video with its streams, and the choice of its best and worst streams.

use vstd::prelude::*;

use crate::id::{Id, IdBuf};
use crate::stream::{Stream, StreamKey, TrackFilter, opt_index, pick_stream, picked};

verus! {

/// A YouTube video whose streams are known.
pub struct Video {
    pub(crate) video_id: IdBuf,
    pub(crate) title: String,
    pub(crate) is_age_restricted: bool,
    pub(crate) streams: Vec<Stream>,
}

/// The stream that `r` refers to in `streams` is the one the choice picks.
pub open spec fn picked_ref(
    streams: Seq<Stream>,
    r: Option<&Stream>,
    f: TrackFilter,
    k: StreamKey,
    max: bool,
) -> bool {
    exists|i: Option<int>|
        picked(streams, i, f, k, max) && match (i, r) {
            (Some(i), Some(s)) => *s == streams[i],
            (None, None) => true,
            _ => false,
        }
}

impl Video {
    /// A video from its id, title, age restriction and streams.
    pub fn new(video_id: IdBuf, title: String, is_age_restricted: bool, streams: Vec<Stream>) -> (v: Self)
        ensures
            v.spec_id() == video_id@,
            v.spec_title() == title@,
            v.spec_is_age_restricted() == is_age_restricted,
            v.spec_streams() == streams@,
    {
        Video { video_id, title, is_age_restricted, streams }
    }

    pub closed spec fn spec_streams(&self) -> Seq<Stream> {
        self.streams@
    }

    pub closed spec fn spec_id(&self) -> Seq<char> {
        self.video_id@
    }

    pub closed spec fn spec_title(&self) -> Seq<char> {
        self.title@
    }

    pub closed spec fn spec_is_age_restricted(&self) -> bool {
        self.is_age_restricted
    }

    /// The video's streams.
    pub fn streams(&self) -> (s: &Vec<Stream>)
        ensures
            s@ == self.spec_streams(),
    {
        &self.streams
    }

    /// Takes the video's streams.
    pub fn into_streams(self) -> (s: Vec<Stream>)
        ensures
            s@ == self.spec_streams(),
    {
        self.streams
    }

    /// The video's id.
    pub fn id(&self) -> (id: Id<'_>)
        ensures
            id@ == self.spec_id(),
    {
        self.video_id.as_borrowed()
    }

    /// The video's title.
    pub fn title(&self) -> (t: &str)
        ensures
            t@ == self.spec_title(),
    {
        self.title.as_str()
    }

    /// Whether the video is age restricted.
    pub fn is_age_restricted(&self) -> (b: bool)
        ensures
            b == self.spec_is_age_restricted(),
    {
        self.is_age_restricted
    }

    fn pick(&self, f: TrackFilter, k: StreamKey, max: bool) -> (r: Option<&Stream>)
        ensures
            picked_ref(self.spec_streams(), r, f, k, max),
    {
        match pick_stream(&self.streams, f, k, max) {
            Some(i) => {
                let r = Some(&self.streams[i]);
                assert(picked(self.spec_streams(), Some(i as int), f, k, max));
                r
            },
            None => {
                assert(picked(self.spec_streams(), None, f, k, max));
                None
            },
        }
    }

    /// Among the streams with both a video and an audio track, the last one with
    /// the highest quality label.
    pub fn best_quality(&self) -> (r: Option<&Stream>)
        ensures
            picked_ref(self.spec_streams(), r, TrackFilter::VideoAndAudio, StreamKey::QualityLabel, true),
    {
        self.pick(TrackFilter::VideoAndAudio, StreamKey::QualityLabel, true)
    }

    /// Among the streams with both a video and an audio track, the first one with
    /// the lowest quality label.
    pub fn worst_quality(&self) -> (r: Option<&Stream>)
        ensures
            picked_ref(self.spec_streams(), r, TrackFilter::VideoAndAudio, StreamKey::QualityLabel, false),
    {
        self.pick(TrackFilter::VideoAndAudio, StreamKey::QualityLabel, false)
    }

    /// Among the streams with a video track, the last one with the greatest width.
    pub fn best_video(&self) -> (r: Option<&Stream>)
        ensures
            picked_ref(self.spec_streams(), r, TrackFilter::Video, StreamKey::Width, true),
    {
        self.pick(TrackFilter::Video, StreamKey::Width, true)
    }

    /// Among the streams with a video track, the first one with the least width.
    pub fn worst_video(&self) -> (r: Option<&Stream>)
        ensures
            picked_ref(self.spec_streams(), r, TrackFilter::Video, StreamKey::Width, false),
    {
        self.pick(TrackFilter::Video, StreamKey::Width, false)
    }

    /// Among the streams with an audio track, the last one with the highest bitrate.
    pub fn best_audio(&self) -> (r: Option<&Stream>)
        ensures
            picked_ref(self.spec_streams(), r, TrackFilter::Audio, StreamKey::Bitrate, true),
    {
        self.pick(TrackFilter::Audio, StreamKey::Bitrate, true)
    }

    /// Among the streams with an audio track, the first one with the lowest bitrate.
    pub fn worst_audio(&self) -> (r: Option<&Stream>)
        ensures
            picked_ref(self.spec_streams(), r, TrackFilter::Audio, StreamKey::Bitrate, false),
    {
        self.pick(TrackFilter::Audio, StreamKey::Bitrate, false)
    }
}

} // verus!
