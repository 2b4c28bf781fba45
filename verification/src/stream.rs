//! Streams: the downloadable formats of a video, what they contain, and how
//! the best and worst of them are picked.

use vstd::prelude::*;

use crate::error::Error;
use crate::formats::{
    AudioQuality, ColorInfo, FormatType, ProjectionType, Quality, QualityLabel, Range,
    quality_label_key, opt_u64_key, quality_label_rank, opt_u64_lt,
};
use crate::id::IdBuf;
use crate::itags::ItagProfile;
use vstd::string::{StrSliceExecFns, StringExecFns};
use crate::text::{ascii_eq_ignore_case, ascii_lower, codecs_error_text, spec_ascii_eq_ignore_case, format_codecs_error, texts_of};

verus! {

/// A media type such as `video/mp4`: its type and subtype.
#[derive(Clone, Debug)]
pub struct MediaType {
    pub type_: String,
    pub subtype: String,
}

/// The media type of a format together with its codecs.
#[derive(Clone, Debug)]
pub struct MimeType {
    pub mime: MediaType,
    pub codecs: Vec<String>,
}

/// Where a format can be fetched, and its still scrambled signature if it has one.
#[derive(Clone, Debug)]
pub struct SignatureCipher {
    pub url: String,
    pub s: Option<String>,
}

/// A format as YouTube describes it in the player response.
#[derive(Clone, Debug)]
pub struct RawFormat {
    pub format_type: Option<FormatType>,
    pub approx_duration_ms: Option<u64>,
    pub audio_channels: Option<u8>,
    pub audio_quality: Option<AudioQuality>,
    pub audio_sample_rate: Option<u64>,
    pub average_bitrate: Option<u64>,
    pub bitrate: Option<u64>,
    pub color_info: Option<ColorInfo>,
    pub content_length: Option<u64>,
    pub fps: u8,
    pub height: Option<u64>,
    pub high_replication: Option<bool>,
    pub index_range: Option<Range>,
    pub init_range: Option<Range>,
    pub itag: u64,
    /// Milliseconds since the UNIX epoch.
    pub last_modified: i64,
    pub mime_type: MimeType,
    pub projection_type: ProjectionType,
    pub quality: Quality,
    pub quality_label: Option<QualityLabel>,
    pub signature_cipher: SignatureCipher,
    pub width: Option<u64>,
}

/// A downloadable stream of a video, with everything that is known about it.
#[derive(Clone, Debug)]
pub struct Stream {
    pub mime: MediaType,
    pub codecs: Vec<String>,
    pub video_codec: Option<String>,
    pub audio_codec: Option<String>,
    pub is_dash: bool,
    pub abr: Option<u64>,
    pub resolution: Option<u64>,
    pub is_progressive: bool,
    pub includes_video_track: bool,
    pub includes_audio_track: bool,
    pub is_3d: bool,
    pub is_hdr: bool,
    pub is_live: bool,
    pub format_type: Option<FormatType>,
    pub approx_duration_ms: Option<u64>,
    pub audio_channels: Option<u8>,
    pub audio_quality: Option<AudioQuality>,
    pub audio_sample_rate: Option<u64>,
    pub average_bitrate: Option<u64>,
    pub bitrate: Option<u64>,
    pub color_info: Option<ColorInfo>,
    pub content_length: Option<u64>,
    pub fps: u8,
    pub height: Option<u64>,
    pub high_replication: Option<bool>,
    pub index_range: Option<Range>,
    pub init_range: Option<Range>,
    pub is_otf: bool,
    pub itag: u64,
    /// Milliseconds since the UNIX epoch.
    pub last_modified: i64,
    pub projection_type: ProjectionType,
    pub quality: Quality,
    pub quality_label: Option<QualityLabel>,
    pub signature_cipher: SignatureCipher,
    pub width: Option<u64>,
    /// The video the stream belongs to.
    pub video_id: IdBuf,
}

// ---------------------------------------------------------------------------
// Codecs and tracks
// ---------------------------------------------------------------------------

/// A format is adaptive when it lists an odd number of codecs.
pub open spec fn spec_is_adaptive(codecs: Seq<String>) -> bool {
    codecs.len() % 2 != 0
}

/// A format is progressive when it is not adaptive.
pub open spec fn spec_is_progressive(codecs: Seq<String>) -> bool {
    !spec_is_adaptive(codecs)
}

/// A format has a video track when it is progressive or its media type is `video`.
pub open spec fn spec_includes_video_track(codecs: Seq<String>, mime: MediaType) -> bool {
    spec_is_progressive(codecs) || spec_ascii_eq_ignore_case(mime.type_@, "video"@)
}

/// A format has an audio track when it is progressive or its media type is `audio`.
pub open spec fn spec_includes_audio_track(codecs: Seq<String>, mime: MediaType) -> bool {
    spec_is_progressive(codecs) || spec_ascii_eq_ignore_case(mime.type_@, "audio"@)
}

/// Whether the format lists an odd number of codecs.
pub fn is_adaptive(codecs: &Vec<String>) -> (b: bool)
    ensures
        b == spec_is_adaptive(codecs@),
{
    codecs.len() % 2 != 0
}

/// Whether the format lists an even number of codecs.
pub fn is_progressive(codecs: &Vec<String>) -> (b: bool)
    ensures
        b == spec_is_progressive(codecs@),
{
    !is_adaptive(codecs)
}

/// Whether the format has a video track.
pub fn includes_video_track(codecs: &Vec<String>, mime: &MediaType) -> (b: bool)
    ensures
        b == spec_includes_video_track(codecs@, *mime),
{
    is_progressive(codecs) || ascii_eq_ignore_case(mime.type_.as_str(), "video")
}

/// Whether the format has an audio track.
pub fn includes_audio_track(codecs: &Vec<String>, mime: &MediaType) -> (b: bool)
    ensures
        b == spec_includes_audio_track(codecs@, *mime),
{
    is_progressive(codecs) || ascii_eq_ignore_case(mime.type_.as_str(), "audio")
}

/// The video and audio codec of a format: a progressive format lists exactly
/// the two, an adaptive one lists the codec of its single track first.
pub open spec fn spec_parse_codecs(m: MimeType) -> Option<(Option<String>, Option<String>)> {
    let codecs = m.codecs@;
    if !spec_is_adaptive(codecs) {
        if codecs.len() == 2 {
            Some((Some(codecs[0]), Some(codecs[1])))
        } else {
            None
        }
    } else if spec_includes_video_track(codecs, m.mime) {
        Some((Some(codecs[0]), None))
    } else if spec_includes_audio_track(codecs, m.mime) {
        Some((None, Some(codecs[0])))
    } else {
        Some((None, None))
    }
}

/// Splits the codecs of a format into its video and audio codec; fails when a
/// progressive format does not list exactly two codecs.
pub fn parse_codecs(mime_type: &MimeType) -> (r: Result<(Option<String>, Option<String>), Error>)
    ensures
        match r {
            Ok(codecs) => spec_parse_codecs(*mime_type) == Some(codecs),
            Err(e) => spec_parse_codecs(*mime_type) is None && (e matches Error::UnexpectedResponse(m)
                && m@ == codecs_error_text(texts_of(mime_type.codecs@))),
        },
{
    let codecs = &mime_type.codecs;
    if !is_adaptive(codecs) {
        if codecs.len() == 2 {
            Ok((Some(codecs[0].clone()), Some(codecs[1].clone())))
        } else {
            Err(Error::UnexpectedResponse(format_codecs_error(codecs)))
        }
    } else if includes_video_track(codecs, &mime_type.mime) {
        Ok((Some(codecs[0].clone()), None))
    } else if includes_audio_track(codecs, &mime_type.mime) {
        Ok((None, Some(codecs[0].clone())))
    } else {
        Ok((None, None))
    }
}

// ---------------------------------------------------------------------------
// From a format to a stream
// ---------------------------------------------------------------------------

/// The stream that a format describes, when its codecs can be split.
pub open spec fn spec_stream_of(raw: RawFormat, video_id: IdBuf) -> Option<Stream> {
    match spec_parse_codecs(raw.mime_type) {
        None => None,
        Some((video_codec, audio_codec)) => {
            let profile = ItagProfile::spec_of(raw.itag);
            let codecs = raw.mime_type.codecs@;
            Some(
                Stream {
                    mime: raw.mime_type.mime,
                    codecs: raw.mime_type.codecs,
                    video_codec,
                    audio_codec,
                    is_dash: profile.is_dash,
                    abr: profile.abr,
                    resolution: profile.resolution,
                    is_progressive: spec_is_progressive(codecs),
                    includes_video_track: spec_includes_video_track(codecs, raw.mime_type.mime),
                    includes_audio_track: spec_includes_audio_track(codecs, raw.mime_type.mime),
                    is_3d: profile.is_3d,
                    is_hdr: profile.is_hdr,
                    is_live: profile.is_live,
                    format_type: raw.format_type,
                    approx_duration_ms: raw.approx_duration_ms,
                    audio_channels: raw.audio_channels,
                    audio_quality: raw.audio_quality,
                    audio_sample_rate: raw.audio_sample_rate,
                    average_bitrate: raw.average_bitrate,
                    bitrate: raw.bitrate,
                    color_info: raw.color_info,
                    content_length: raw.content_length,
                    fps: raw.fps,
                    height: raw.height,
                    high_replication: raw.high_replication,
                    index_range: raw.index_range,
                    init_range: raw.init_range,
                    is_otf: raw.format_type == Some(FormatType::Otf),
                    itag: raw.itag,
                    last_modified: raw.last_modified,
                    projection_type: raw.projection_type,
                    quality: raw.quality,
                    quality_label: raw.quality_label,
                    signature_cipher: raw.signature_cipher,
                    width: raw.width,
                    video_id,
                },
            )
        },
    }
}

impl Stream {
    /// The stream that a format describes: the format's own fields, what its
    /// codecs and media type say about its tracks, and what its itag says.
    pub fn from_raw_format(raw_format: RawFormat, video_id: IdBuf) -> (r: Result<Self, Error>)
        ensures
            match r {
                Ok(stream) => spec_stream_of(raw_format, video_id) == Some(stream),
                Err(e) => spec_stream_of(raw_format, video_id) is None && (e matches Error::UnexpectedResponse(
                    m,
                ) && m@ == codecs_error_text(texts_of(raw_format.mime_type.codecs@))),
            },
    {
        let (video_codec, audio_codec) = match parse_codecs(&raw_format.mime_type) {
            Ok(codecs) => codecs,
            Err(e) => {
                return Err(e);
            },
        };
        let itag_profile = ItagProfile::from_itag(raw_format.itag);
        let is_progressive = is_progressive(&raw_format.mime_type.codecs);
        let includes_video_track = includes_video_track(
            &raw_format.mime_type.codecs,
            &raw_format.mime_type.mime,
        );
        let includes_audio_track = includes_audio_track(
            &raw_format.mime_type.codecs,
            &raw_format.mime_type.mime,
        );
        let is_otf = match raw_format.format_type {
            Some(FormatType::Otf) => true,
            None => false,
        };
        let ghost spec_s = spec_stream_of(raw_format, video_id);
        let stream = Stream {
                mime: raw_format.mime_type.mime,
                codecs: raw_format.mime_type.codecs,
                video_codec,
                audio_codec,
                is_dash: itag_profile.is_dash,
                abr: itag_profile.abr,
                resolution: itag_profile.resolution,
                is_progressive,
                includes_video_track,
                includes_audio_track,
                is_3d: itag_profile.is_3d,
                is_hdr: itag_profile.is_hdr,
                is_live: itag_profile.is_live,
                format_type: raw_format.format_type,
                approx_duration_ms: raw_format.approx_duration_ms,
                audio_channels: raw_format.audio_channels,
                audio_quality: raw_format.audio_quality,
                audio_sample_rate: raw_format.audio_sample_rate,
                average_bitrate: raw_format.average_bitrate,
                bitrate: raw_format.bitrate,
                color_info: raw_format.color_info,
                content_length: raw_format.content_length,
                fps: raw_format.fps,
                height: raw_format.height,
                high_replication: raw_format.high_replication,
                index_range: raw_format.index_range,
                init_range: raw_format.init_range,
                is_otf,
                itag: raw_format.itag,
                last_modified: raw_format.last_modified,
                projection_type: raw_format.projection_type,
                quality: raw_format.quality,
                quality_label: raw_format.quality_label,
                signature_cipher: raw_format.signature_cipher,
                width: raw_format.width,
                video_id,
            };
        proof {
            if let Some(f) = raw_format.format_type {
                assert(f == FormatType::Otf);
            }
        }
        Ok(stream)
    }
}

/// The content length a stream answers with without asking: the one it
/// carries, unless that is absent or 0.
pub open spec fn spec_known_length(s: Stream) -> Option<u64> {
    match s.content_length {
        Some(n) => if n != 0 {
            Some(n)
        } else {
            None
        },
        None => None,
    }
}

impl Stream {
    /// The content length the stream already knows, so that no request is
    /// needed: none when it was not given or given as 0.
    pub fn known_content_length(&self) -> (r: Option<u64>)
        ensures
            r == spec_known_length(*self),
    {
        match self.content_length {
            Some(n) => if n != 0 {
                Some(n)
            } else {
                None
            },
            None => None,
        }
    }

    /// Records a content length that a request reported, so that later
    /// calls answer with it; nothing else about the stream changes.
    pub fn record_content_length(&mut self, length: u64)
        ensures
            *final(self) == (Stream { content_length: Some(length), ..*old(self) }),
    {
        self.content_length = Some(length);
    }
}

/// Once a non-zero content length is recorded, the stream knows it and
/// later calls need no request.
pub proof fn lemma_recorded_length_is_known(s: Stream, length: u64)
    requires
        length != 0,
    ensures
        spec_known_length(Stream { content_length: Some(length), ..s }) == Some(length),
{
}

impl Stream {
    /// The file a download without a given path goes to, in the working
    /// directory or a given one: `<video id>.mp4`.
    pub fn video_file_name(&self) -> (name: String)
        ensures
            name@ == self.video_id@ + ".mp4"@,
    {
        let mut name = String::from_str(self.video_id.as_str());
        name.append(".mp4");
        name
    }
}

/// The file name a stream is saved under by default: `video`, with the media
/// subtype as its extension when there is one.
pub open spec fn file_name_of(subtype: Seq<char>) -> Seq<char> {
    if subtype.len() == 0 {
        "video"@
    } else {
        "video."@ + subtype
    }
}

impl Stream {
    /// The file name the stream is saved under by default.
    pub fn file_path(&self) -> (p: String)
        ensures
            p@ == file_name_of(self.mime.subtype@),
    {
        if self.mime.subtype.as_str().unicode_len() == 0 {
            String::from_str("video")
        } else {
            let mut p = String::from_str("video.");
            p.append(self.mime.subtype.as_str());
            p
        }
    }
}

// ---------------------------------------------------------------------------
// Picking streams
// ---------------------------------------------------------------------------

/// Which streams take part in a choice.
#[derive(Clone, Copy, Debug, PartialEq, Eq, Structural)]
pub enum TrackFilter {
    /// Streams with both a video and an audio track.
    VideoAndAudio,
    /// Streams with a video track.
    Video,
    /// Streams with an audio track.
    Audio,
}

/// By what streams are compared in a choice.
#[derive(Clone, Copy, Debug, PartialEq, Eq, Structural)]
pub enum StreamKey {
    QualityLabel,
    Width,
    Bitrate,
}

/// Whether a stream takes part in a choice.
pub open spec fn track_ok(f: TrackFilter, s: Stream) -> bool {
    match f {
        TrackFilter::VideoAndAudio => s.includes_video_track && s.includes_audio_track,
        TrackFilter::Video => s.includes_video_track,
        TrackFilter::Audio => s.includes_audio_track,
    }
}

/// The value by which a stream is compared in a choice.
pub open spec fn stream_key(k: StreamKey, s: Stream) -> int {
    match k {
        StreamKey::QualityLabel => quality_label_key(s.quality_label),
        StreamKey::Width => opt_u64_key(s.width),
        StreamKey::Bitrate => opt_u64_key(s.bitrate),
    }
}

/// Stream `i` is the last of the streams that take part whose key is greatest.
pub open spec fn is_last_max(s: Seq<Stream>, i: int, f: TrackFilter, k: StreamKey) -> bool {
    &&& 0 <= i < s.len()
    &&& track_ok(f, s[i])
    &&& forall|j: int|
        0 <= j < s.len() && track_ok(f, #[trigger] s[j]) ==> stream_key(k, s[j]) <= stream_key(
            k,
            s[i],
        )
    &&& forall|j: int|
        i < j < s.len() && track_ok(f, #[trigger] s[j]) ==> stream_key(k, s[j]) < stream_key(
            k,
            s[i],
        )
}

/// Stream `i` is the first of the streams that take part whose key is least.
pub open spec fn is_first_min(s: Seq<Stream>, i: int, f: TrackFilter, k: StreamKey) -> bool {
    &&& 0 <= i < s.len()
    &&& track_ok(f, s[i])
    &&& forall|j: int|
        0 <= j < s.len() && track_ok(f, #[trigger] s[j]) ==> stream_key(k, s[i]) <= stream_key(
            k,
            s[j],
        )
    &&& forall|j: int|
        0 <= j < i && track_ok(f, #[trigger] s[j]) ==> stream_key(k, s[i]) < stream_key(k, s[j])
}

/// No stream takes part in the choice.
pub open spec fn none_take_part(s: Seq<Stream>, f: TrackFilter) -> bool {
    forall|j: int| 0 <= j < s.len() ==> !track_ok(f, #[trigger] s[j])
}

/// The stream picked for a choice: the last greatest (`max`) or first least one.
pub open spec fn picked(s: Seq<Stream>, r: Option<int>, f: TrackFilter, k: StreamKey, max: bool) -> bool {
    match r {
        Some(i) => if max {
            is_last_max(s, i, f, k)
        } else {
            is_first_min(s, i, f, k)
        },
        None => none_take_part(s, f),
    }
}

/// What the choices of a video give, in terms of the streams' own fields:
/// the best audio stream has an audio track and a bitrate at least that of
/// every audio stream with a bitrate, and the worst one at most that of every
/// audio stream (having one itself when any audio stream lacks none); the same
/// for the width of the video streams; the best and worst quality among the
/// streams with both tracks has a quality label ranked at least, or at most,
/// that of every such stream.
pub proof fn lemma_choices_by_fields(s: Seq<Stream>, i: int)
    ensures
        is_last_max(s, i, TrackFilter::Audio, StreamKey::Bitrate) ==> s[i].includes_audio_track && forall|j: int|
            0 <= j < s.len() && (#[trigger] s[j]).includes_audio_track && s[j].bitrate is Some ==> s[i].bitrate is Some
                && s[j].bitrate->0 <= s[i].bitrate->0,
        is_first_min(s, i, TrackFilter::Audio, StreamKey::Bitrate) ==> s[i].includes_audio_track && forall|j: int|
            0 <= j < s.len() && (#[trigger] s[j]).includes_audio_track && s[i].bitrate is Some ==> s[j].bitrate is Some
                && s[i].bitrate->0 <= s[j].bitrate->0,
        is_last_max(s, i, TrackFilter::Video, StreamKey::Width) ==> s[i].includes_video_track && forall|j: int|
            0 <= j < s.len() && (#[trigger] s[j]).includes_video_track && s[j].width is Some ==> s[i].width is Some
                && s[j].width->0 <= s[i].width->0,
        is_first_min(s, i, TrackFilter::Video, StreamKey::Width) ==> s[i].includes_video_track && forall|j: int|
            0 <= j < s.len() && (#[trigger] s[j]).includes_video_track && s[i].width is Some ==> s[j].width is Some
                && s[i].width->0 <= s[j].width->0,
        is_last_max(s, i, TrackFilter::VideoAndAudio, StreamKey::QualityLabel) ==> s[i].includes_video_track
            && s[i].includes_audio_track && forall|j: int|
            0 <= j < s.len() && (#[trigger] s[j]).includes_video_track && s[j].includes_audio_track
                ==> quality_label_key(s[j].quality_label) <= quality_label_key(s[i].quality_label),
        is_first_min(s, i, TrackFilter::VideoAndAudio, StreamKey::QualityLabel) ==> s[i].includes_video_track
            && s[i].includes_audio_track && forall|j: int|
            0 <= j < s.len() && (#[trigger] s[j]).includes_video_track && s[j].includes_audio_track
                ==> quality_label_key(s[i].quality_label) <= quality_label_key(s[j].quality_label),
{
    assert forall|j: int| 0 <= j < s.len() && track_ok(TrackFilter::Audio, #[trigger] s[j]) implies (is_last_max(s, i, TrackFilter::Audio, StreamKey::Bitrate) && s[j].bitrate is Some ==> s[i].bitrate is Some && s[j].bitrate->0 <= s[i].bitrate->0) && (is_first_min(s, i, TrackFilter::Audio, StreamKey::Bitrate) && s[i].bitrate is Some ==> s[j].bitrate is Some && s[i].bitrate->0 <= s[j].bitrate->0) by {
        assert(stream_key(StreamKey::Bitrate, s[j]) == opt_u64_key(s[j].bitrate));
    }
    assert forall|j: int| 0 <= j < s.len() && track_ok(TrackFilter::Video, #[trigger] s[j]) implies (is_last_max(s, i, TrackFilter::Video, StreamKey::Width) && s[j].width is Some ==> s[i].width is Some && s[j].width->0 <= s[i].width->0) && (is_first_min(s, i, TrackFilter::Video, StreamKey::Width) && s[i].width is Some ==> s[j].width is Some && s[i].width->0 <= s[j].width->0) by {
        assert(stream_key(StreamKey::Width, s[j]) == opt_u64_key(s[j].width));
    }
    assert forall|j: int| 0 <= j < s.len() && track_ok(TrackFilter::VideoAndAudio, #[trigger] s[j]) implies (is_last_max(s, i, TrackFilter::VideoAndAudio, StreamKey::QualityLabel) ==> quality_label_key(s[j].quality_label) <= quality_label_key(s[i].quality_label)) && (is_first_min(s, i, TrackFilter::VideoAndAudio, StreamKey::QualityLabel) ==> quality_label_key(s[i].quality_label) <= quality_label_key(s[j].quality_label)) by {
        assert(stream_key(StreamKey::QualityLabel, s[j]) == quality_label_key(s[j].quality_label));
    }
}

/// What a format's codecs and media type make of its stream: a format with
/// two codecs is progressive, has both tracks and gives its first codec as the
/// video codec and its second as the audio codec; a format with one codec is
/// adaptive, and with media type `video` it has only a video track whose codec
/// it is, with `audio` only an audio track whose codec it is; a format with
/// an even number of codecs other than two gives no stream.
pub proof fn lemma_tracks_of_formats(raw: RawFormat, video_id: IdBuf)
    ensures
        ({
            let codecs = raw.mime_type.codecs@;
            let kind = raw.mime_type.mime.type_@;
            &&& codecs.len() == 2 ==> (spec_stream_of(raw, video_id) matches Some(st) && st.is_progressive
                && st.includes_video_track && st.includes_audio_track && st.video_codec == Some(codecs[0])
                && st.audio_codec == Some(codecs[1]))
            &&& (codecs.len() == 1 && kind == "video"@) ==> (spec_stream_of(raw, video_id) matches Some(st)
                && !st.is_progressive && st.includes_video_track && !st.includes_audio_track
                && st.video_codec == Some(codecs[0]) && st.audio_codec is None)
            &&& (codecs.len() == 1 && kind == "audio"@) ==> (spec_stream_of(raw, video_id) matches Some(st)
                && !st.is_progressive && !st.includes_video_track && st.includes_audio_track
                && st.video_codec is None && st.audio_codec == Some(codecs[0]))
            &&& (codecs.len() % 2 == 0 && codecs.len() != 2) <==> spec_stream_of(raw, video_id) is None
        }),
{
    reveal_strlit("video");
    reveal_strlit("audio");
    let kind = raw.mime_type.mime.type_@;
    if kind == "video"@ {
        assert(spec_ascii_eq_ignore_case(kind, "video"@));
        assert(ascii_lower(kind[0]) != ascii_lower("audio"@[0]));
        assert(!spec_ascii_eq_ignore_case(kind, "audio"@));
    }
    if kind == "audio"@ {
        assert(spec_ascii_eq_ignore_case(kind, "audio"@));
        assert(ascii_lower(kind[0]) != ascii_lower("video"@[0]));
        assert(!spec_ascii_eq_ignore_case(kind, "video"@));
    }
}

/// A stream keeps what its format says about it and takes from its itag what
/// the itag tables say: the resolution and audio bitrate of the itag, and its
/// own video id.
pub proof fn lemma_stream_keeps_its_format(raw: RawFormat, video_id: IdBuf)
    ensures
        spec_stream_of(raw, video_id) matches Some(st) ==> (st.itag == raw.itag && st.width == raw.width
            && st.height == raw.height && st.bitrate == raw.bitrate && st.quality == raw.quality
            && st.quality_label == raw.quality_label && st.audio_quality == raw.audio_quality
            && st.content_length == raw.content_length && st.fps == raw.fps
            && st.signature_cipher == raw.signature_cipher && st.video_id == video_id
            && st.resolution == crate::itags::itag_resolution_abr(raw.itag).0
            && st.abr == crate::itags::itag_resolution_abr(raw.itag).1),
{
}

fn track_ok_exec(f: TrackFilter, s: &Stream) -> (b: bool)
    ensures
        b == track_ok(f, *s),
{
    match f {
        TrackFilter::VideoAndAudio => s.includes_video_track && s.includes_audio_track,
        TrackFilter::Video => s.includes_video_track,
        TrackFilter::Audio => s.includes_audio_track,
    }
}

fn key_lt(k: StreamKey, a: &Stream, b: &Stream) -> (r: bool)
    ensures
        r == (stream_key(k, *a) < stream_key(k, *b)),
{
    match k {
        StreamKey::QualityLabel => quality_label_rank(a.quality_label) < quality_label_rank(
            b.quality_label,
        ),
        StreamKey::Width => opt_u64_lt(a.width, b.width),
        StreamKey::Bitrate => opt_u64_lt(a.bitrate, b.bitrate),
    }
}

/// The position of the stream picked for a choice: among the streams that pass
/// the filter, the last one with the greatest key (`max`), or the first one
/// with the least key; `None` when no stream passes.
pub fn pick_stream(streams: &Vec<Stream>, f: TrackFilter, k: StreamKey, max: bool) -> (r: Option<usize>)
    ensures
        picked(streams@, opt_index(r), f, k, max),
{
    let mut best: Option<usize> = None;
    let mut i: usize = 0;
    while i < streams.len()
        invariant
            i <= streams@.len(),
            picked(streams@.subrange(0, i as int), opt_index(best), f, k, max),
            best matches Some(b) ==> b < i,
        decreases streams@.len() - i,
    {
        let ghost prev = streams@.subrange(0, i as int);
        let ghost next = streams@.subrange(0, i + 1);
        proof {
            assert forall|j: int| 0 <= j < i implies #[trigger] next[j] == prev[j] by {}
            assert(next[i as int] == streams@[i as int]);
        }
        if track_ok_exec(f, &streams[i]) {
            match best {
                None => {
                    best = Some(i);
                },
                Some(b) => {
                    let replace = if max {
                        !key_lt(k, &streams[i], &streams[b])
                    } else {
                        key_lt(k, &streams[i], &streams[b])
                    };
                    if replace {
                        best = Some(i);
                    }
                },
            }
        }
        proof {
            assert(prev[0] == next[0] || i == 0);
        }
        i = i + 1;
    }
    proof {
        assert(streams@.subrange(0, streams@.len() as int) =~= streams@);
    }
    best
}

/// A `usize` as an integer.
pub open spec fn usize_int(i: usize) -> int {
    i as int
}

/// The exec form of an optional index.
pub open spec fn opt_index(r: Option<usize>) -> Option<int> {
    match r {
        Some(i) => Some(i as int),
        None => None,
    }
}

} // verus!
