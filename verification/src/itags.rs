//! What a format's itag says about its stream: resolution, audio bitrate and a few flags.

use vstd::prelude::*;

verus! {

/// Itags of HDR streams.
pub open spec fn is_hdr_itag(itag: u64) -> bool {
    330 <= itag <= 337
}

/// Itags of streams with 60 frames per second.
pub open spec fn is_60fps_itag(itag: u64) -> bool {
    ||| itag == 298 || itag == 299 || itag == 302 || itag == 303 || itag == 308 || itag == 315
    ||| 330 <= itag <= 337
}

/// Itags of 3D streams.
pub open spec fn is_3d_itag(itag: u64) -> bool {
    (82 <= itag <= 85) || (100 <= itag <= 102)
}

/// Itags of live streams.
pub open spec fn is_live_itag(itag: u64) -> bool {
    (91 <= itag <= 96) || itag == 132 || itag == 151
}

/// Itags of DASH video streams in an mp4 container.
pub open spec fn is_dash_mp4_video_itag(itag: u64) -> bool {
    ||| 133 <= itag <= 138
    ||| itag == 160 || itag == 212 || itag == 264 || itag == 266 || itag == 298 || itag == 299
}

/// Itags of DASH audio streams in an mp4 container.
pub open spec fn is_dash_mp4_audio_itag(itag: u64) -> bool {
    ||| 139 <= itag <= 141
    ||| itag == 256 || itag == 258 || itag == 325 || itag == 328
}

/// Itags of DASH video streams in a webm container.
pub open spec fn is_dash_webm_video_itag(itag: u64) -> bool {
    ||| 167 <= itag <= 170
    ||| itag == 218 || itag == 219 || itag == 278
    ||| 242 <= itag <= 248
    ||| itag == 271 || itag == 272 || itag == 302 || itag == 303 || itag == 308 || itag == 313
    ||| itag == 315
}

/// Itags of DASH audio streams in a webm container.
pub open spec fn is_dash_webm_audio_itag(itag: u64) -> bool {
    itag == 171 || itag == 172 || (249 <= itag <= 251)
}

/// Itags of DASH streams of any kind.
pub open spec fn is_dash_itag(itag: u64) -> bool {
    ||| is_dash_mp4_video_itag(itag)
    ||| is_dash_mp4_audio_itag(itag)
    ||| is_dash_webm_video_itag(itag)
    ||| is_dash_webm_audio_itag(itag)
}

/// The resolution in pixels and the audio bitrate in kbit/s that YouTube uses for an itag.
pub open spec fn itag_resolution_abr(itag: u64) -> (Option<u64>, Option<u64>) {
    if itag == 5 { (Some(240), Some(64)) }
    else if itag == 6 { (Some(270), Some(64)) }
    else if itag == 13 { (Some(144), None) }
    else if itag == 17 { (Some(144), Some(24)) }
    else if itag == 18 { (Some(360), Some(96)) }
    else if itag == 22 { (Some(720), Some(192)) }
    else if itag == 34 { (Some(360), Some(128)) }
    else if itag == 35 { (Some(480), Some(128)) }
    else if itag == 36 { (Some(240), None) }
    else if itag == 37 { (Some(1080), Some(192)) }
    else if itag == 38 { (Some(3072), Some(192)) }
    else if itag == 43 { (Some(360), Some(128)) }
    else if itag == 44 { (Some(480), Some(128)) }
    else if itag == 45 { (Some(720), Some(192)) }
    else if itag == 46 { (Some(1080), Some(192)) }
    else if itag == 59 { (Some(480), Some(128)) }
    else if itag == 78 { (Some(480), Some(128)) }
    else if itag == 82 { (Some(360), Some(128)) }
    else if itag == 83 { (Some(480), Some(128)) }
    else if itag == 84 { (Some(720), Some(192)) }
    else if itag == 85 { (Some(1080), Some(192)) }
    else if itag == 91 { (Some(144), Some(48)) }
    else if itag == 92 { (Some(240), Some(48)) }
    else if itag == 93 { (Some(360), Some(128)) }
    else if itag == 94 { (Some(480), Some(128)) }
    else if itag == 95 { (Some(720), Some(256)) }
    else if itag == 96 { (Some(1080), Some(256)) }
    else if itag == 100 { (Some(360), Some(128)) }
    else if itag == 101 { (Some(480), Some(192)) }
    else if itag == 102 { (Some(720), Some(192)) }
    else if itag == 132 { (Some(240), Some(48)) }
    else if itag == 151 { (Some(720), Some(24)) }
    // DASH video
    else if itag == 133 { (Some(240), None) }
    else if itag == 134 { (Some(360), None) }
    else if itag == 135 { (Some(480), None) }
    else if itag == 136 { (Some(720), None) }
    else if itag == 137 { (Some(1080), None) }
    else if itag == 138 { (Some(2160), None) }
    else if itag == 160 { (Some(144), None) }
    else if itag == 167 { (Some(360), None) }
    else if itag == 168 { (Some(480), None) }
    else if itag == 169 { (Some(720), None) }
    else if itag == 170 { (Some(1080), None) }
    else if itag == 212 { (Some(480), None) }
    else if itag == 218 { (Some(480), None) }
    else if itag == 219 { (Some(480), None) }
    else if itag == 242 { (Some(240), None) }
    else if itag == 243 { (Some(360), None) }
    else if itag == 244 { (Some(480), None) }
    else if itag == 245 { (Some(480), None) }
    else if itag == 246 { (Some(480), None) }
    else if itag == 247 { (Some(720), None) }
    else if itag == 248 { (Some(1080), None) }
    else if itag == 264 { (Some(1440), None) }
    else if itag == 266 { (Some(2160), None) }
    else if itag == 271 { (Some(1440), None) }
    else if itag == 272 { (Some(2160), None) }
    else if itag == 278 { (Some(144), None) }
    else if itag == 298 { (Some(720), None) }
    else if itag == 299 { (Some(1080), None) }
    else if itag == 302 { (Some(720), None) }
    else if itag == 303 { (Some(1080), None) }
    else if itag == 308 { (Some(1440), None) }
    else if itag == 313 { (Some(2160), None) }
    else if itag == 315 { (Some(2160), None) }
    else if itag == 330 { (Some(144), None) }
    else if itag == 331 { (Some(240), None) }
    else if itag == 332 { (Some(360), None) }
    else if itag == 333 { (Some(480), None) }
    else if itag == 334 { (Some(720), None) }
    else if itag == 335 { (Some(1080), None) }
    else if itag == 336 { (Some(1440), None) }
    else if itag == 337 { (Some(2160), None) }
    // DASH audio
    else if itag == 139 { (None, Some(48)) }
    else if itag == 140 { (None, Some(128)) }
    else if itag == 141 { (None, Some(256)) }
    else if itag == 171 { (None, Some(128)) }
    else if itag == 172 { (None, Some(256)) }
    else if itag == 249 { (None, Some(50)) }
    else if itag == 250 { (None, Some(70)) }
    else if itag == 251 { (None, Some(160)) }
    else { (None, None) }
}

/// Everything that is known about a stream from its itag alone.
pub struct ItagProfile {
    pub resolution: Option<u64>,
    pub abr: Option<u64>,
    pub is_live: bool,
    pub is_3d: bool,
    pub is_hdr: bool,
    pub fps: u8,
    pub is_dash: bool,
}

impl ItagProfile {
    /// The profile that YouTube's itag tables give for `itag`.
    pub open spec fn spec_of(itag: u64) -> ItagProfile {
        ItagProfile {
            resolution: itag_resolution_abr(itag).0,
            abr: itag_resolution_abr(itag).1,
            is_live: is_live_itag(itag),
            is_3d: is_3d_itag(itag),
            is_hdr: is_hdr_itag(itag),
            fps: if is_60fps_itag(itag) { 60 } else { 30 },
            is_dash: is_dash_itag(itag),
        }
    }

    pub fn from_itag(itag: u64) -> (profile: Self)
        ensures
            profile == Self::spec_of(itag),
    {
        let (resolution, abr) = resolution_abr_from_itag(itag);
        let is_dash = contains_itag_dash_mp4_video(itag) || contains_itag_dash_mp4_audio(itag)
            || contains_itag_dash_webm_video(itag) || contains_itag_dash_webm_audio(itag);
        ItagProfile {
            resolution,
            abr,
            is_live: contains_itag_live(itag),
            is_3d: contains_itag_3d(itag),
            is_hdr: contains_itag_hdr(itag),
            fps: if contains_itag_60fps(itag) { 60 } else { 30 },
            is_dash,
        }
    }
}

fn contains_itag_hdr(itag: u64) -> (b: bool)
    ensures b == is_hdr_itag(itag),
{
    matches!(itag, 330 | 331 | 332 | 333 | 334 | 335 | 336 | 337)
}

fn contains_itag_60fps(itag: u64) -> (b: bool)
    ensures b == is_60fps_itag(itag),
{
    matches!(itag, 298 | 299 | 302 | 303 | 308 | 315 | 330 | 331 | 332 | 333 | 334 | 335 | 336 | 337)
}

fn contains_itag_3d(itag: u64) -> (b: bool)
    ensures b == is_3d_itag(itag),
{
    matches!(itag, 82 | 83 | 84 | 85 | 100 | 101 | 102)
}

fn contains_itag_live(itag: u64) -> (b: bool)
    ensures b == is_live_itag(itag),
{
    matches!(itag, 91 | 92 | 93 | 94 | 95 | 96 | 132 | 151)
}

fn contains_itag_dash_mp4_video(itag: u64) -> (b: bool)
    ensures b == is_dash_mp4_video_itag(itag),
{
    matches!(itag, 133 | 134 | 135 | 136 | 137 | 138 | 160 | 212 | 264 | 266 | 298 | 299)
}

fn contains_itag_dash_mp4_audio(itag: u64) -> (b: bool)
    ensures b == is_dash_mp4_audio_itag(itag),
{
    matches!(itag, 139 | 140 | 141 | 256 | 258 | 325 | 328)
}

fn contains_itag_dash_webm_video(itag: u64) -> (b: bool)
    ensures b == is_dash_webm_video_itag(itag),
{
    matches!(itag, 167 | 168 | 169 | 170 | 218 | 219 | 278 | 242 | 243 | 244 | 245 | 246 | 247 | 248
        | 271 | 272 | 302 | 303 | 308 | 313 | 315)
}

fn contains_itag_dash_webm_audio(itag: u64) -> (b: bool)
    ensures b == is_dash_webm_audio_itag(itag),
{
    matches!(itag, 171 | 172 | 249 | 250 | 251)
}

/// The resolution in pixels and the abr in kbit/s of an itag.
pub fn resolution_abr_from_itag(itag: u64) -> (r: (Option<u64>, Option<u64>))
    ensures
        r == itag_resolution_abr(itag),
{
    match itag {
        5 => (Some(240), Some(64)),
        6 => (Some(270), Some(64)),
        13 => (Some(144), None),
        17 => (Some(144), Some(24)),
        18 => (Some(360), Some(96)),
        22 => (Some(720), Some(192)),
        34 => (Some(360), Some(128)),
        35 => (Some(480), Some(128)),
        36 => (Some(240), None),
        37 => (Some(1080), Some(192)),
        38 => (Some(3072), Some(192)),
        43 => (Some(360), Some(128)),
        44 => (Some(480), Some(128)),
        45 => (Some(720), Some(192)),
        46 => (Some(1080), Some(192)),
        59 => (Some(480), Some(128)),
        78 => (Some(480), Some(128)),
        82 => (Some(360), Some(128)),
        83 => (Some(480), Some(128)),
        84 => (Some(720), Some(192)),
        85 => (Some(1080), Some(192)),
        91 => (Some(144), Some(48)),
        92 => (Some(240), Some(48)),
        93 => (Some(360), Some(128)),
        94 => (Some(480), Some(128)),
        95 => (Some(720), Some(256)),
        96 => (Some(1080), Some(256)),
        100 => (Some(360), Some(128)),
        101 => (Some(480), Some(192)),
        102 => (Some(720), Some(192)),
        132 => (Some(240), Some(48)),
        151 => (Some(720), Some(24)),
        // DASH video
        133 => (Some(240), None),
        134 => (Some(360), None),
        135 => (Some(480), None),
        136 => (Some(720), None),
        137 => (Some(1080), None),
        138 => (Some(2160), None),
        160 => (Some(144), None),
        167 => (Some(360), None),
        168 => (Some(480), None),
        169 => (Some(720), None),
        170 => (Some(1080), None),
        212 => (Some(480), None),
        218 => (Some(480), None),
        219 => (Some(480), None),
        242 => (Some(240), None),
        243 => (Some(360), None),
        244 => (Some(480), None),
        245 => (Some(480), None),
        246 => (Some(480), None),
        247 => (Some(720), None),
        248 => (Some(1080), None),
        264 => (Some(1440), None),
        266 => (Some(2160), None),
        271 => (Some(1440), None),
        272 => (Some(2160), None),
        278 => (Some(144), None),
        298 => (Some(720), None),
        299 => (Some(1080), None),
        302 => (Some(720), None),
        303 => (Some(1080), None),
        308 => (Some(1440), None),
        313 => (Some(2160), None),
        315 => (Some(2160), None),
        330 => (Some(144), None),
        331 => (Some(240), None),
        332 => (Some(360), None),
        333 => (Some(480), None),
        334 => (Some(720), None),
        335 => (Some(1080), None),
        336 => (Some(1440), None),
        337 => (Some(2160), None),
        // DASH audio
        139 => (None, Some(48)),
        140 => (None, Some(128)),
        141 => (None, Some(256)),
        171 => (None, Some(128)),
        172 => (None, Some(256)),
        249 => (None, Some(50)),
        250 => (None, Some(70)),
        251 => (None, Some(160)),
        _ => (None, None),
    }
}

/// Every HDR itag is also a 60 fps itag, so an HDR profile always reports 60 fps.
pub proof fn lemma_hdr_profile_is_60fps(itag: u64)
    ensures
        ItagProfile::spec_of(itag).is_hdr ==> ItagProfile::spec_of(itag).fps == 60,
        ItagProfile::spec_of(itag).fps == 30 || ItagProfile::spec_of(itag).fps == 60,
{
}

/// The heights of YouTube's video ladder, from 144p to 2160p.
pub open spec fn ladder_heights() -> Seq<u64> {
    seq![144, 240, 360, 480, 720, 1080, 1440, 2160]
}

/// The rungs of YouTube's DASH video ladders: each ladder lists its itags from
/// the lowest resolution to the highest, one for each height of
/// `ladder_heights`. H.264 in mp4, VP9 in webm, and VP9 HDR.
pub open spec fn dash_ladders() -> Seq<Seq<u64>> {
    seq![
        seq![160, 133, 134, 135, 136, 137, 264, 266],
        seq![278, 242, 243, 244, 247, 248, 271, 313],
        seq![330, 331, 332, 333, 334, 335, 336, 337],
    ]
}

/// Every rung of a DASH video ladder is a video-only stream at the height of
/// its rung: the `k`-th itag of each ladder has the `k`-th height and no
/// audio bitrate.
pub proof fn lemma_dash_video_ladders(l: int, k: int)
    requires
        0 <= l < dash_ladders().len(),
        0 <= k < ladder_heights().len(),
    ensures
        dash_ladders()[l].len() == ladder_heights().len(),
        itag_resolution_abr(dash_ladders()[l][k]) == (Some(ladder_heights()[k]), None::<u64>),
{
}

/// The 60 fps DASH video itags: 720p (298 and 302), 1080p (299 and 303),
/// 1440p (308) and 2160p (315), all video-only.
pub proof fn lemma_high_frame_rate_heights(itag: u64)
    requires
        is_60fps_itag(itag) && !is_hdr_itag(itag),
    ensures
        itag_resolution_abr(itag).1 is None,
        (itag == 298 || itag == 302) ==> itag_resolution_abr(itag).0 == Some(720u64),
        (itag == 299 || itag == 303) ==> itag_resolution_abr(itag).0 == Some(1080u64),
        itag == 308 ==> itag_resolution_abr(itag).0 == Some(1440u64),
        itag == 315 ==> itag_resolution_abr(itag).0 == Some(2160u64),
{
}

/// DASH audio streams have no resolution; their audio bitrates are those of
/// YouTube's audio formats: AAC 48, 128 and 256 kbit/s (139, 140, 141),
/// Vorbis 128 and 256 (171, 172), Opus 50, 70 and 160 (249, 250, 251).
pub proof fn lemma_dash_audio_bitrates(itag: u64)
    ensures
        (139 <= itag <= 141 || is_dash_webm_audio_itag(itag)) ==> itag_resolution_abr(itag).0 is None,
        itag == 139 ==> itag_resolution_abr(itag).1 == Some(48u64),
        itag == 140 ==> itag_resolution_abr(itag).1 == Some(128u64),
        itag == 141 ==> itag_resolution_abr(itag).1 == Some(256u64),
        itag == 171 ==> itag_resolution_abr(itag).1 == Some(128u64),
        itag == 172 ==> itag_resolution_abr(itag).1 == Some(256u64),
        itag == 249 ==> itag_resolution_abr(itag).1 == Some(50u64),
        itag == 250 ==> itag_resolution_abr(itag).1 == Some(70u64),
        itag == 251 ==> itag_resolution_abr(itag).1 == Some(160u64),
{
}

/// A DASH video itag gives a video-only stream of one of the ladder's heights.
pub proof fn lemma_dash_tracks(itag: u64)
    ensures
        (is_dash_mp4_video_itag(itag) || is_dash_webm_video_itag(itag)) ==> (itag_resolution_abr(itag).1 is None
            && itag_resolution_abr(itag).0 is Some && ladder_heights().contains(itag_resolution_abr(itag).0->0)),
{
    if is_dash_mp4_video_itag(itag) || is_dash_webm_video_itag(itag) {
        let h = itag_resolution_abr(itag).0->0;
        let hs = ladder_heights();
        if h == 144 { assert(hs[0] == h); }
        else if h == 240 { assert(hs[1] == h); }
        else if h == 360 { assert(hs[2] == h); }
        else if h == 480 { assert(hs[3] == h); }
        else if h == 720 { assert(hs[4] == h); }
        else if h == 1080 { assert(hs[5] == h); }
        else if h == 1440 { assert(hs[6] == h); }
        else { assert(hs[7] == h); }
    }
}

} // verus!
