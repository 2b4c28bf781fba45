//! The plain data that YouTube's player response holds about a video and its formats.

use vstd::prelude::*;

verus! {

/// The type of a format.
#[derive(Clone, Copy, Debug, PartialEq, Eq, Structural)]
pub enum FormatType {
    /// `FORMAT_STREAM_TYPE_OTF`
    Otf,
}

/// The colour primaries of a video format.
#[derive(Clone, Copy, Debug, PartialEq, Eq, Structural)]
pub enum ColorInfoPrimary {
    /// `COLOR_PRIMARIES_BT709`
    BT709,
}

/// The transfer characteristics of a video format.
#[derive(Clone, Copy, Debug, PartialEq, Eq, Structural)]
pub enum TransferCharacteristics {
    /// `COLOR_TRANSFER_CHARACTERISTICS_BT709`
    BT709,
}

/// The matrix coefficients of a video format.
#[derive(Clone, Copy, Debug, PartialEq, Eq, Structural)]
pub enum MatrixCoefficients {
    /// `COLOR_MATRIX_COEFFICIENTS_BT709`
    BT709,
}

/// The colour description of a video format.
#[derive(Clone, Copy, Debug, PartialEq, Eq, Structural)]
pub struct ColorInfo {
    pub primaries: ColorInfoPrimary,
    pub transfer_characteristics: TransferCharacteristics,
    pub matrix_coefficients: MatrixCoefficients,
}

/// The projection of a video format.
#[derive(Clone, Copy, Debug, PartialEq, Eq, Structural)]
pub enum ProjectionType {
    /// `RECTANGULAR`
    Rectangular,
}

/// The audio quality of a format, from low to high.
#[derive(Clone, Copy, Debug, PartialEq, Eq, PartialOrd, Ord, Hash, Structural)]
pub enum AudioQuality {
    /// `AUDIO_QUALITY_LOW`
    Low,
    /// `AUDIO_QUALITY_MEDIUM`
    Medium,
    /// `AUDIO_QUALITY_HIGH`
    High,
}

/// The quality of a format, from low to high.
#[derive(Clone, Copy, Debug, PartialEq, Eq, PartialOrd, Ord, Hash, Structural)]
pub enum Quality {
    /// `tiny`
    Tiny,
    /// `small`
    Small,
    /// `medium`
    Medium,
    /// `large`
    Large,
    /// `hd720`
    Hd720,
    /// `hd1080`
    Hd1080,
}

/// The quality label of a video format, from low to high.
#[derive(Clone, Copy, Debug, PartialEq, Eq, PartialOrd, Ord, Hash, Structural)]
pub enum QualityLabel {
    /// `144p`
    P144,
    /// `240p`
    P240,
    /// `360p`
    P360,
    /// `480p`
    P480,
    /// `720p`
    P720,
    /// `1080p`
    P1080,
}

/// A byte range `start..end` of a stream.
#[derive(Clone, Copy, Debug, PartialEq, Eq, Structural)]
pub struct Range {
    pub start: u64,
    pub end: u64,
}

/// The embed information of a video.
#[derive(Clone, Debug)]
pub struct Embed {
    pub iframe_url: String,
    pub flash_url: String,
    pub width: i32,
    pub height: i32,
    pub flash_secure_url: String,
}

/// A text given as `{ "simpleText": ... }`.
#[derive(Clone, Debug)]
pub struct SimpleText {
    pub simple_text: String,
}

/// The player assets of a video page.
#[derive(Clone, Debug)]
pub struct Assets {
    /// The path of the player's javascript.
    pub js: String,
}

/// How the mini player plays a video.
#[derive(Clone, Copy, Debug, PartialEq, Eq, Structural)]
pub enum PlaybackMode {
    /// `PLAYBACK_MODE_ALLOW`
    Allow,
}

/// The mini player renderer of a video.
#[derive(Clone, Copy, Debug, PartialEq, Eq, Structural)]
pub struct MiniplayerRenderer {
    pub playback_mode: PlaybackMode,
}

/// The mini player of a video.
#[derive(Clone, Copy, Debug, PartialEq, Eq, Structural)]
pub struct MiniPlayer {
    pub miniplayer_renderer: MiniplayerRenderer,
}

/// Whether a video can be played.
#[derive(Clone, Copy, Debug, PartialEq, Eq, Structural)]
pub enum Status {
    /// `OK`
    Okay,
    Unplayable,
    LoginRequired,
}

/// Why a video cannot be played.
#[derive(Clone, Copy, Debug, PartialEq, Eq, Structural)]
pub enum Reason {
    /// "Join this channel to get access to members-only content like this video, and other exclusive perks."
    MembersOnly,
    /// "This live stream recording is not available."
    RecordingNotAvailable,
    /// "This is a private video. Please sign in to verify that you may see it."
    PrivateVideo,
}

/// Whether and how a video can be played.
#[derive(Clone, Debug)]
pub struct PlayabilityStatus {
    pub status: Status,
    pub playable_in_embed: bool,
    pub miniplayer: MiniPlayer,
    pub messages: Vec<Reason>,
    pub context_params: String,
}

// ---------------------------------------------------------------------------
// Orders
// ---------------------------------------------------------------------------

/// The position of an audio quality in its order, `None` lowest.
pub open spec fn audio_quality_key(q: Option<AudioQuality>) -> int {
    match q {
        None => 0,
        Some(AudioQuality::Low) => 1,
        Some(AudioQuality::Medium) => 2,
        Some(AudioQuality::High) => 3,
    }
}

/// The position of a quality in its order.
pub open spec fn quality_key(q: Quality) -> int {
    match q {
        Quality::Tiny => 0,
        Quality::Small => 1,
        Quality::Medium => 2,
        Quality::Large => 3,
        Quality::Hd720 => 4,
        Quality::Hd1080 => 5,
    }
}

/// The position of a quality label in its order, `None` lowest.
pub open spec fn quality_label_key(q: Option<QualityLabel>) -> int {
    match q {
        None => 0,
        Some(QualityLabel::P144) => 1,
        Some(QualityLabel::P240) => 2,
        Some(QualityLabel::P360) => 3,
        Some(QualityLabel::P480) => 4,
        Some(QualityLabel::P720) => 5,
        Some(QualityLabel::P1080) => 6,
    }
}

/// The position of an optional number in the order of `Option<u64>`, `None` lowest.
pub open spec fn opt_u64_key(v: Option<u64>) -> int {
    match v {
        None => -1,
        Some(x) => x as int,
    }
}

/// The position of an audio quality in its order (`None` lowest).
pub fn audio_quality_rank(q: Option<AudioQuality>) -> (r: u64)
    ensures
        r == audio_quality_key(q),
{
    match q {
        None => 0,
        Some(AudioQuality::Low) => 1,
        Some(AudioQuality::Medium) => 2,
        Some(AudioQuality::High) => 3,
    }
}

/// The position of a quality in its order.
pub fn quality_rank(q: Quality) -> (r: u64)
    ensures
        r == quality_key(q),
{
    match q {
        Quality::Tiny => 0,
        Quality::Small => 1,
        Quality::Medium => 2,
        Quality::Large => 3,
        Quality::Hd720 => 4,
        Quality::Hd1080 => 5,
    }
}

/// The position of a quality label in its order (`None` lowest).
pub fn quality_label_rank(q: Option<QualityLabel>) -> (r: u64)
    ensures
        r == quality_label_key(q),
{
    match q {
        None => 0,
        Some(QualityLabel::P144) => 1,
        Some(QualityLabel::P240) => 2,
        Some(QualityLabel::P360) => 3,
        Some(QualityLabel::P480) => 4,
        Some(QualityLabel::P720) => 5,
        Some(QualityLabel::P1080) => 6,
    }
}

/// Whether `a < b` in the order of `Option<u64>` (`None` lowest).
pub fn opt_u64_lt(a: Option<u64>, b: Option<u64>) -> (r: bool)
    ensures
        r == (opt_u64_key(a) < opt_u64_key(b)),
{
    match (a, b) {
        (None, Some(_)) => true,
        (Some(x), Some(y)) => x < y,
        _ => false,
    }
}

/// Qualities, quality labels and audio qualities are ranked in their natural
/// order, from the lowest to the highest, and a missing label or audio
/// quality ranks below every present one.
pub proof fn lemma_quality_ranks_follow_the_scale()
    ensures
        quality_key(Quality::Tiny) < quality_key(Quality::Small),
        quality_key(Quality::Small) < quality_key(Quality::Medium),
        quality_key(Quality::Medium) < quality_key(Quality::Large),
        quality_key(Quality::Large) < quality_key(Quality::Hd720),
        quality_key(Quality::Hd720) < quality_key(Quality::Hd1080),
        quality_label_key(None) < quality_label_key(Some(QualityLabel::P144)),
        quality_label_key(Some(QualityLabel::P144)) < quality_label_key(Some(QualityLabel::P240)),
        quality_label_key(Some(QualityLabel::P240)) < quality_label_key(Some(QualityLabel::P360)),
        quality_label_key(Some(QualityLabel::P360)) < quality_label_key(Some(QualityLabel::P480)),
        quality_label_key(Some(QualityLabel::P480)) < quality_label_key(Some(QualityLabel::P720)),
        quality_label_key(Some(QualityLabel::P720)) < quality_label_key(Some(QualityLabel::P1080)),
        audio_quality_key(None) < audio_quality_key(Some(AudioQuality::Low)),
        audio_quality_key(Some(AudioQuality::Low)) < audio_quality_key(Some(AudioQuality::Medium)),
        audio_quality_key(Some(AudioQuality::Medium)) < audio_quality_key(Some(AudioQuality::High)),
        forall|a: Option<QualityLabel>, b: Option<QualityLabel>|
            quality_label_key(a) == quality_label_key(b) ==> a == b,
        forall|a: Option<AudioQuality>, b: Option<AudioQuality>|
            audio_quality_key(a) == audio_quality_key(b) ==> a == b,
        forall|a: Quality, b: Quality| quality_key(a) == quality_key(b) ==> a == b,
        forall|a: Option<u64>, b: Option<u64>| #![trigger opt_u64_key(a), opt_u64_key(b)]
            (a is Some && b is Some) ==> (opt_u64_key(a) < opt_u64_key(b) <==> a->0 < b->0),
        forall|a: Option<u64>| #[trigger] opt_u64_key(a) < opt_u64_key(Some(0u64)) <==> a is None,
{
}

} // verus!
