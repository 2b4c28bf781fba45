//! How much information the command line prints, as a set of flags parsed
//! from text such as `url | general | video-track`.

use vstd::prelude::*;

use crate::error::Error;
use crate::text::{collect_chars, is_white_space, is_white_space_exec, level_error_text, lit_at_chars, string_push, format_level_error};

verus! {

/// The url of a stream.
pub const URL: u8 = 0b0000_0001;
/// General information about a stream.
pub const GENERAL: u8 = 0b0000_0010;
/// Information about the video track.
pub const VIDEO_TRACK: u8 = 0b0000_0100;
/// Information about the audio track.
pub const AUDIO_TRACK: u8 = 0b0000_1000;
/// Everything about the selected parts.
pub const VERBOSE: u8 = 0b1000_0000;
/// Information about the video itself.
pub const VIDEO: u8 = 0b0100_0000;
/// All the flags.
pub const ALL: u8 = 0b1100_1111;

/// A set of output flags: only the flags above can be set.
#[derive(Clone, Copy, Debug, PartialEq, Eq, Structural)]
pub struct OutputLevel {
    bits: u8,
}

/// `bits` holds no flag but those of `ALL`.
pub open spec fn within_all(bits: u8) -> bool {
    bits | ALL == ALL
}

impl OutputLevel {
    #[verifier::type_invariant]
    spec fn flags_known(self) -> bool {
        within_all(self.bits)
    }
}

impl View for OutputLevel {
    type V = u8;

    /// The flags of the level.
    closed spec fn view(&self) -> u8 {
        self.bits
    }
}

/// Every word stands for flags of `ALL` only.
proof fn lemma_token_within_all(t: Seq<char>)
    ensures
        token_level(t) matches Some(b) ==> within_all(b),
{
    assert(URL | ALL == ALL) by (bit_vector);
    assert(GENERAL | ALL == ALL) by (bit_vector);
    assert(VIDEO_TRACK | ALL == ALL) by (bit_vector);
    assert(AUDIO_TRACK | ALL == ALL) by (bit_vector);
    assert(VERBOSE | ALL == ALL) by (bit_vector);
    assert(ALL | ALL == ALL) by (bit_vector);
    assert(VIDEO | ALL == ALL) by (bit_vector);
}

proof fn lemma_union_within_all(a: u8, b: u8)
    requires
        within_all(a),
        within_all(b),
    ensures
        within_all(a | b),
{
    assert((a | b) | ALL == ALL) by (bit_vector)
        requires
            a | ALL == ALL,
            b | ALL == ALL,
    ;
}

/// What a single word of the level text stands for.
pub open spec fn token_level(t: Seq<char>) -> Option<u8> {
    if t == "url"@ {
        Some(URL)
    } else if t == "general"@ {
        Some(GENERAL)
    } else if t == "video-track"@ {
        Some(VIDEO_TRACK)
    } else if t == "audio-track"@ {
        Some(AUDIO_TRACK)
    } else if t == "verbose"@ {
        Some(VERBOSE)
    } else if t == "full"@ {
        Some(ALL)
    } else if t == "video"@ {
        Some(VIDEO)
    } else {
        None
    }
}

/// Words are separated by white space, `,` and `|`.
pub open spec fn is_level_sep(c: char) -> bool {
    is_white_space(c) || c == ',' || c == '|'
}

/// The non-empty words of `cs` from position `i` on, `cur` being the word read so far.
pub open spec fn level_words(cs: Seq<char>, i: int, cur: Seq<char>) -> Seq<Seq<char>>
    decreases cs.len() - i,
{
    if i < 0 || i >= cs.len() {
        if cur.len() > 0 {
            seq![cur]
        } else {
            seq![]
        }
    } else if is_level_sep(cs[i]) {
        let head: Seq<Seq<char>> = if cur.len() > 0 {
            seq![cur]
        } else {
            seq![]
        };
        head + level_words(cs, i + 1, seq![])
    } else {
        level_words(cs, i + 1, cur.push(cs[i]))
    }
}

/// The union of the flags of the words from position `i` on, added to `acc`;
/// `None` as soon as a word is unknown.
pub open spec fn union_of_words(ws: Seq<Seq<char>>, i: int, acc: u8) -> Option<u8>
    decreases ws.len() - i,
{
    if i < 0 || i >= ws.len() {
        Some(acc)
    } else {
        match token_level(ws[i]) {
            None => None,
            Some(b) => union_of_words(ws, i + 1, acc | b),
        }
    }
}

/// The flags that a level text stands for.
pub open spec fn level_of(s: Seq<char>) -> Option<u8> {
    union_of_words(level_words(s, 0, seq![]), 0, 0)
}

/// The first of the words that stands for no flag.
pub open spec fn first_unknown(ws: Seq<Seq<char>>) -> Option<Seq<char>>
    decreases ws.len(),
{
    if ws.len() == 0 {
        None
    } else if token_level(ws[0]) is None {
        Some(ws[0])
    } else {
        first_unknown(ws.drop_first())
    }
}

/// The message of the error for a level text: it names the first unknown word.
pub open spec fn level_error_of(s: Seq<char>) -> Option<Seq<char>> {
    match first_unknown(level_words(s, 0, seq![])) {
        Some(w) => Some(level_error_text(w)),
        None => None,
    }
}

fn token_level_exec(t: &Vec<char>) -> (r: Option<u8>)
    ensures
        r == token_level(t@),
{
    proof {
        reveal_strlit("url");
        reveal_strlit("general");
        reveal_strlit("video-track");
        reveal_strlit("audio-track");
        reveal_strlit("verbose");
        reveal_strlit("full");
        reveal_strlit("video");
    }
    let n = t.len();
    if n == 3 && lit_at_chars(t, 0, "url") {
        assert(t@ =~= t@.subrange(0, 3));
        Some(URL)
    } else if n == 7 && lit_at_chars(t, 0, "general") {
        assert(t@ =~= t@.subrange(0, 7));
        Some(GENERAL)
    } else if n == 11 && lit_at_chars(t, 0, "video-track") {
        assert(t@ =~= t@.subrange(0, 11));
        Some(VIDEO_TRACK)
    } else if n == 11 && lit_at_chars(t, 0, "audio-track") {
        assert(t@ =~= t@.subrange(0, 11));
        Some(AUDIO_TRACK)
    } else if n == 7 && lit_at_chars(t, 0, "verbose") {
        assert(t@ =~= t@.subrange(0, 7));
        Some(VERBOSE)
    } else if n == 4 && lit_at_chars(t, 0, "full") {
        assert(t@ =~= t@.subrange(0, 4));
        Some(ALL)
    } else if n == 5 && lit_at_chars(t, 0, "video") {
        assert(t@ =~= t@.subrange(0, 5));
        Some(VIDEO)
    } else {
        proof {
            if t@.len() == 3 {
                assert(t@ == "url"@ ==> t@.subrange(0, 3) =~= "url"@);
            }
            if t@.len() == 7 {
                assert(t@ == "general"@ ==> t@.subrange(0, 7) =~= "general"@);
                assert(t@ == "verbose"@ ==> t@.subrange(0, 7) =~= "verbose"@);
            }
            if t@.len() == 11 {
                assert(t@ == "video-track"@ ==> t@.subrange(0, 11) =~= "video-track"@);
                assert(t@ == "audio-track"@ ==> t@.subrange(0, 11) =~= "audio-track"@);
            }
            if t@.len() == 4 {
                assert(t@ == "full"@ ==> t@.subrange(0, 4) =~= "full"@);
            }
            if t@.len() == 5 {
                assert(t@ == "video"@ ==> t@.subrange(0, 5) =~= "video"@);
            }
        }
        None
    }
}

proof fn lemma_words_split(cs: Seq<char>, i: int, cur: Seq<char>)
    requires
        0 <= i < cs.len(),
        is_level_sep(cs[i]),
    ensures
        level_words(cs, i, cur) == (if cur.len() > 0 {
            seq![cur]
        } else {
            Seq::<Seq<char>>::empty()
        }) + level_words(cs, i + 1, seq![]),
{
}

proof fn lemma_union_append(ws: Seq<Seq<char>>, w: Seq<char>, rest: Seq<Seq<char>>, acc: u8)
    requires
        ws == seq![w] + rest,
    ensures
        union_of_words(ws, 0, acc) == match token_level(w) {
            None => None,
            Some(b) => union_of_words(rest, 0, acc | b),
        },
{
    assert(ws[0] == w);
    assert(rest =~= ws.subrange(1, ws.len() as int));
    if let Some(b) = token_level(w) {
        lemma_union_shift(ws, rest, 1, acc | b);
    }
}

proof fn lemma_union_shift(ws: Seq<Seq<char>>, rest: Seq<Seq<char>>, k: int, acc: u8)
    requires
        0 <= k <= ws.len(),
        rest == ws.subrange(k, ws.len() as int),
    ensures
        union_of_words(ws, k, acc) == union_of_words(rest, 0, acc),
    decreases ws.len() - k,
{
    if k < ws.len() {
        assert(rest[0] == ws[k]);
        assert(rest.subrange(1, rest.len() as int) =~= ws.subrange(k + 1, ws.len() as int));
        if let Some(b) = token_level(ws[k]) {
            lemma_union_shift(ws, rest.subrange(1, rest.len() as int), k + 1, acc | b);
            lemma_union_shift(rest, rest.subrange(1, rest.len() as int), 1, acc | b);
        }
    }
}

impl OutputLevel {
    /// No flag.
    pub fn empty() -> (l: Self)
        ensures
            l@ == 0,
    {
        assert(0u8 | ALL == ALL) by (bit_vector);
        OutputLevel { bits: 0 }
    }

    /// Every flag.
    pub fn all() -> (l: Self)
        ensures
            l@ == ALL,
    {
        assert(ALL | ALL == ALL) by (bit_vector);
        OutputLevel { bits: ALL }
    }

    /// The level with the flags of `bits` that exist; the others are dropped.
    pub fn from_bits_truncate(bits: u8) -> (l: Self)
        ensures
            l@ == bits & ALL,
    {
        assert((bits & ALL) | ALL == ALL) by (bit_vector);
        OutputLevel { bits: bits & ALL }
    }

    /// The flags of the level.
    pub fn bits(&self) -> (b: u8)
        ensures
            b == self@,
            within_all(b),
    {
        proof {
            use_type_invariant(self);
        }
        self.bits
    }

    /// Whether all flags of `other` are set in `self`.
    pub fn contains(&self, other: OutputLevel) -> (b: bool)
        ensures
            b == (self@ & other@ == other@),
    {
        self.bits & other.bits == other.bits
    }

    /// Parses words separated by white space, `,` or `|`: `url`, `general`,
    /// `video-track`, `audio-track`, `verbose`, `video`, or `full` for all;
    /// the result is the union of their flags. Any other word is an error.
    pub fn from_str(s: &str) -> (r: Result<Self, Error>)
        ensures
            match r {
                Ok(l) => level_of(s@) == Some(l@),
                Err(e) => level_of(s@) is None && (e matches Error::Custom(m) && level_error_of(s@)
                    == Some(m@)),
            },
    {
        let cs = collect_chars(s);
        let mut level: u8 = 0;
        assert(0u8 | ALL == ALL) by (bit_vector);
        let mut cur: Vec<char> = Vec::new();
        let mut cur_text = String::new();
        let mut i: usize = 0;
        while i < cs.len()
            invariant
                cs@ == s@,
                i <= cs@.len(),
                cur_text@ == cur@,
                within_all(level),
                level_of(s@) == union_of_words(level_words(cs@, i as int, cur@), 0, level),
                first_unknown(level_words(s@, 0, seq![])) == first_unknown(level_words(cs@, i as int, cur@)),
            decreases cs@.len() - i,
        {
            let c = cs[i];
            if is_white_space_exec(c) || c == ',' || c == '|' {
                proof {
                    lemma_words_split(cs@, i as int, cur@);
                }
                if cur.len() > 0 {
                    proof {
                        lemma_union_append(
                            level_words(cs@, i as int, cur@),
                            cur@,
                            level_words(cs@, i + 1, seq![]),
                            level,
                        );
                    }
                    proof {
                        let rest = level_words(cs@, i + 1, seq![]);
                        assert((seq![cur@] + rest).drop_first() =~= rest);
                        assert((seq![cur@] + rest)[0] == cur@);
                    }
                    match token_level_exec(&cur) {
                        Some(b) => {
                            proof {
                                lemma_token_within_all(cur@);
                                lemma_union_within_all(level, b);
                            }
                            level = level | b;
                        },
                        None => {
                            return Err(Error::Custom(format_level_error(cur_text.as_str())));
                        },
                    }
                } else {
                    assert(level_words(cs@, i as int, cur@) =~= level_words(cs@, i + 1, seq![]));
                }
                cur = Vec::new();
                cur_text = String::new();
                proof {
                    assert(cur@ =~= seq![]);
                }
            } else {
                cur.push(c);
                string_push(&mut cur_text, c);
            }
            i = i + 1;
        }
        if cur.len() > 0 {
            proof {
                lemma_union_append(
                    level_words(cs@, i as int, cur@),
                    cur@,
                    Seq::<Seq<char>>::empty(),
                    level,
                );
                assert(seq![cur@][0] == cur@);
                assert(seq![cur@].drop_first() =~= Seq::<Seq<char>>::empty());
            }
            match token_level_exec(&cur) {
                Some(b) => {
                    proof {
                        lemma_token_within_all(cur@);
                        lemma_union_within_all(level, b);
                    }
                    level = level | b;
                },
                None => {
                    return Err(Error::Custom(format_level_error(cur_text.as_str())));
                },
            }
        }
        Ok(OutputLevel { bits: level })
    }
}

/// A field of a stream that the command line can print.
#[derive(Clone, Copy, Debug, PartialEq, Eq, Structural)]
pub enum StreamField {
    SignatureCipher,
    Mime,
    Quality,
    IncludesVideoTrack,
    IncludesAudioTrack,
    ApproxDurationMs,
    Codecs,
    IsProgressive,
    Height,
    Width,
    QualityLabel,
    Fps,
    FormatType,
    ColorInfo,
    HighReplication,
    IsOtf,
    AudioQuality,
    Bitrate,
    AudioSampleRate,
    AudioChannels,
    LoudnessDb,
    AverageBitrate,
    IndexRange,
    InitRange,
    Itag,
    LastModified,
    ProjectionType,
}

/// The number of groups of stream fields.
pub open spec fn field_group_count() -> int {
    8
}

/// The flags that the `k`-th group of stream fields needs, all of them.
pub open spec fn field_group_mask(k: int) -> u8 {
    if k == 0 {
        URL
    } else if k == 1 {
        GENERAL
    } else if k == 2 {
        GENERAL | VERBOSE
    } else if k == 3 {
        VIDEO_TRACK
    } else if k == 4 {
        VIDEO_TRACK | VERBOSE
    } else if k == 5 {
        AUDIO_TRACK
    } else if k == 6 {
        AUDIO_TRACK | VERBOSE
    } else {
        ALL
    }
}

/// The fields of the `k`-th group, in the order in which they are printed.
pub open spec fn field_group(k: int) -> Seq<StreamField> {
    if k == 0 {
        seq![StreamField::SignatureCipher]
    } else if k == 1 {
        seq![
            StreamField::Mime,
            StreamField::Quality,
            StreamField::IncludesVideoTrack,
            StreamField::IncludesAudioTrack,
            StreamField::ApproxDurationMs,
        ]
    } else if k == 2 {
        seq![StreamField::Codecs, StreamField::IsProgressive]
    } else if k == 3 {
        seq![StreamField::Height, StreamField::Width, StreamField::QualityLabel, StreamField::Fps]
    } else if k == 4 {
        seq![
            StreamField::FormatType,
            StreamField::ColorInfo,
            StreamField::HighReplication,
            StreamField::IsOtf,
        ]
    } else if k == 5 {
        seq![
            StreamField::AudioQuality,
            StreamField::Bitrate,
            StreamField::AudioSampleRate,
            StreamField::AudioChannels,
            StreamField::LoudnessDb,
        ]
    } else if k == 6 {
        seq![StreamField::AverageBitrate]
    } else {
        seq![
            StreamField::IndexRange,
            StreamField::InitRange,
            StreamField::Itag,
            StreamField::LastModified,
            StreamField::ProjectionType,
        ]
    }
}

/// The fields of the `k`-th group when `bits` holds all the flags it needs.
pub open spec fn selected_group(bits: u8, k: int) -> Seq<StreamField> {
    if bits & field_group_mask(k) == field_group_mask(k) {
        field_group(k)
    } else {
        Seq::empty()
    }
}

/// The selected fields of the first `k` groups, in order.
pub open spec fn fields_upto(bits: u8, k: int) -> Seq<StreamField>
    decreases k,
{
    if k <= 0 {
        Seq::empty()
    } else {
        fields_upto(bits, k - 1) + selected_group(bits, k - 1)
    }
}

fn group_mask_exec(k: usize) -> (m: u8)
    requires
        k < 8,
    ensures
        m == field_group_mask(k as int),
{
    if k == 0 {
        URL
    } else if k == 1 {
        GENERAL
    } else if k == 2 {
        GENERAL | VERBOSE
    } else if k == 3 {
        VIDEO_TRACK
    } else if k == 4 {
        VIDEO_TRACK | VERBOSE
    } else if k == 5 {
        AUDIO_TRACK
    } else if k == 6 {
        AUDIO_TRACK | VERBOSE
    } else {
        ALL
    }
}

fn group_exec(k: usize) -> (r: Vec<StreamField>)
    requires
        k < 8,
    ensures
        r@ == field_group(k as int),
{
    let r = if k == 0 {
        vec![StreamField::SignatureCipher]
    } else if k == 1 {
        vec![
            StreamField::Mime,
            StreamField::Quality,
            StreamField::IncludesVideoTrack,
            StreamField::IncludesAudioTrack,
            StreamField::ApproxDurationMs,
        ]
    } else if k == 2 {
        vec![StreamField::Codecs, StreamField::IsProgressive]
    } else if k == 3 {
        vec![StreamField::Height, StreamField::Width, StreamField::QualityLabel, StreamField::Fps]
    } else if k == 4 {
        vec![
            StreamField::FormatType,
            StreamField::ColorInfo,
            StreamField::HighReplication,
            StreamField::IsOtf,
        ]
    } else if k == 5 {
        vec![
            StreamField::AudioQuality,
            StreamField::Bitrate,
            StreamField::AudioSampleRate,
            StreamField::AudioChannels,
            StreamField::LoudnessDb,
        ]
    } else if k == 6 {
        vec![StreamField::AverageBitrate]
    } else {
        vec![
            StreamField::IndexRange,
            StreamField::InitRange,
            StreamField::Itag,
            StreamField::LastModified,
            StreamField::ProjectionType,
        ]
    };
    assert(r@ =~= field_group(k as int));
    r
}

impl OutputLevel {
    /// The fields of a stream that are printed at this level, in order: each
    /// group of fields is printed when the level holds all the flags the group
    /// needs (see `field_group_mask`).
    pub fn stream_fields(&self) -> (r: Vec<StreamField>)
        ensures
            r@ == fields_upto(self@, field_group_count()),
    {
        let mut r: Vec<StreamField> = Vec::new();
        let mut k: usize = 0;
        while k < 8
            invariant
                k <= 8,
                r@ == fields_upto(self.bits, k as int),
            decreases 8 - k,
        {
            let mask = group_mask_exec(k);
            if self.bits & mask == mask {
                let mut g = group_exec(k);
                r.append(&mut g);
            }
            proof {
                assert(r@ =~= fields_upto(self.bits, k as int) + selected_group(self.bits, k as int));
            }
            k = k + 1;
        }
        r
    }
}

/// At the level `full` every group of stream fields is printed, and at the
/// empty level none is.
pub proof fn lemma_field_selection_bounds()
    ensures
        fields_upto(ALL, field_group_count()) == field_group(0) + field_group(1) + field_group(2)
            + field_group(3) + field_group(4) + field_group(5) + field_group(6) + field_group(7),
        fields_upto(0, field_group_count()).len() == 0,
{
    assert(ALL & URL == URL) by (bit_vector);
    assert(ALL & GENERAL == GENERAL) by (bit_vector);
    assert(ALL & (GENERAL | VERBOSE) == (GENERAL | VERBOSE)) by (bit_vector);
    assert(ALL & VIDEO_TRACK == VIDEO_TRACK) by (bit_vector);
    assert(ALL & (VIDEO_TRACK | VERBOSE) == (VIDEO_TRACK | VERBOSE)) by (bit_vector);
    assert(ALL & AUDIO_TRACK == AUDIO_TRACK) by (bit_vector);
    assert(ALL & (AUDIO_TRACK | VERBOSE) == (AUDIO_TRACK | VERBOSE)) by (bit_vector);
    assert(ALL & ALL == ALL) by (bit_vector);
    assert(0u8 & URL != URL) by (bit_vector);
    assert(0u8 & GENERAL != GENERAL) by (bit_vector);
    assert(0u8 & (GENERAL | VERBOSE) != (GENERAL | VERBOSE)) by (bit_vector);
    assert(0u8 & VIDEO_TRACK != VIDEO_TRACK) by (bit_vector);
    assert(0u8 & (VIDEO_TRACK | VERBOSE) != (VIDEO_TRACK | VERBOSE)) by (bit_vector);
    assert(0u8 & AUDIO_TRACK != AUDIO_TRACK) by (bit_vector);
    assert(0u8 & (AUDIO_TRACK | VERBOSE) != (AUDIO_TRACK | VERBOSE)) by (bit_vector);
    assert(0u8 & ALL != ALL) by (bit_vector);
    reveal_with_fuel(fields_upto, 9);
    assert(fields_upto(ALL, 8) =~= field_group(0) + field_group(1) + field_group(2) + field_group(3)
        + field_group(4) + field_group(5) + field_group(6) + field_group(7));
    assert(fields_upto(0, 8) =~= Seq::<StreamField>::empty());
}

/// The fields `fields` when `shown` holds, and none otherwise.
pub open spec fn fields_if(shown: bool, fields: Seq<StreamField>) -> Seq<StreamField> {
    if shown {
        fields
    } else {
        Seq::empty()
    }
}

/// Whether the flags `bits` hold the flag `flag`.
pub open spec fn has_flag(bits: u8, flag: u8) -> bool {
    bits & flag == flag
}

/// Which fields of a stream each output level prints, flag by flag:
/// `url` the signature cipher; `general` the mime type, quality, both track
/// flags and the duration, and with `verbose` also the codecs and whether the
/// stream is progressive; `video-track` the height, width, quality label and
/// frame rate, and with `verbose` also the format type, colour info, high
/// replication and whether it is OTF; `audio-track` the audio quality,
/// bitrate, sample rate, channels and loudness, and with `verbose` also the
/// average bitrate; every flag together adds the index and init ranges, the
/// itag, the modification time and the projection type. The groups come in
/// that order.
pub proof fn lemma_fields_of_each_flag(bits: u8)
    ensures
        fields_upto(bits, field_group_count()) == fields_if(has_flag(bits, URL), seq![StreamField::SignatureCipher])
            + fields_if(
            has_flag(bits, GENERAL),
            seq![
                StreamField::Mime,
                StreamField::Quality,
                StreamField::IncludesVideoTrack,
                StreamField::IncludesAudioTrack,
                StreamField::ApproxDurationMs,
            ],
        ) + fields_if(
            has_flag(bits, GENERAL) && has_flag(bits, VERBOSE),
            seq![StreamField::Codecs, StreamField::IsProgressive],
        ) + fields_if(
            has_flag(bits, VIDEO_TRACK),
            seq![StreamField::Height, StreamField::Width, StreamField::QualityLabel, StreamField::Fps],
        ) + fields_if(
            has_flag(bits, VIDEO_TRACK) && has_flag(bits, VERBOSE),
            seq![
                StreamField::FormatType,
                StreamField::ColorInfo,
                StreamField::HighReplication,
                StreamField::IsOtf,
            ],
        ) + fields_if(
            has_flag(bits, AUDIO_TRACK),
            seq![
                StreamField::AudioQuality,
                StreamField::Bitrate,
                StreamField::AudioSampleRate,
                StreamField::AudioChannels,
                StreamField::LoudnessDb,
            ],
        ) + fields_if(
            has_flag(bits, AUDIO_TRACK) && has_flag(bits, VERBOSE),
            seq![StreamField::AverageBitrate],
        ) + fields_if(
            has_flag(bits, URL) && has_flag(bits, GENERAL) && has_flag(bits, VIDEO_TRACK) && has_flag(
                bits,
                AUDIO_TRACK,
            ) && has_flag(bits, VIDEO) && has_flag(bits, VERBOSE),
            seq![
                StreamField::IndexRange,
                StreamField::InitRange,
                StreamField::Itag,
                StreamField::LastModified,
                StreamField::ProjectionType,
            ],
        ),
{
    assert((bits & (GENERAL | VERBOSE) == (GENERAL | VERBOSE)) == (bits & GENERAL == GENERAL && bits
        & VERBOSE == VERBOSE)) by (bit_vector);
    assert((bits & (VIDEO_TRACK | VERBOSE) == (VIDEO_TRACK | VERBOSE)) == (bits & VIDEO_TRACK
        == VIDEO_TRACK && bits & VERBOSE == VERBOSE)) by (bit_vector);
    assert((bits & (AUDIO_TRACK | VERBOSE) == (AUDIO_TRACK | VERBOSE)) == (bits & AUDIO_TRACK
        == AUDIO_TRACK && bits & VERBOSE == VERBOSE)) by (bit_vector);
    assert((bits & ALL == ALL) == (bits & URL == URL && bits & GENERAL == GENERAL && bits
        & VIDEO_TRACK == VIDEO_TRACK && bits & AUDIO_TRACK == AUDIO_TRACK && bits & VIDEO == VIDEO
        && bits & VERBOSE == VERBOSE)) by (bit_vector);
    reveal_with_fuel(fields_upto, 9);
    assert(fields_upto(bits, 8) =~= selected_group(bits, 0) + selected_group(bits, 1) + selected_group(
        bits,
        2,
    ) + selected_group(bits, 3) + selected_group(bits, 4) + selected_group(bits, 5) + selected_group(
        bits,
        6,
    ) + selected_group(bits, 7));
}

/// A level that holds `video-track` prints the height, width, quality label
/// and frame rate of a stream, whatever else it holds.
pub proof fn lemma_video_track_fields(bits: u8)
    requires
        has_flag(bits, VIDEO_TRACK),
    ensures
        fields_upto(bits, field_group_count()).contains(StreamField::Height),
        fields_upto(bits, field_group_count()).contains(StreamField::Width),
        fields_upto(bits, field_group_count()).contains(StreamField::QualityLabel),
        fields_upto(bits, field_group_count()).contains(StreamField::Fps),
{
    lemma_fields_of_each_flag(bits);
    let a = fields_if(has_flag(bits, URL), seq![StreamField::SignatureCipher]) + fields_if(
        has_flag(bits, GENERAL),
        seq![
            StreamField::Mime,
            StreamField::Quality,
            StreamField::IncludesVideoTrack,
            StreamField::IncludesAudioTrack,
            StreamField::ApproxDurationMs,
        ],
    ) + fields_if(
        has_flag(bits, GENERAL) && has_flag(bits, VERBOSE),
        seq![StreamField::Codecs, StreamField::IsProgressive],
    );
    let f = fields_upto(bits, field_group_count());
    let n = a.len() as int;
    assert(f[n] == StreamField::Height);
    assert(f[n + 1] == StreamField::Width);
    assert(f[n + 2] == StreamField::QualityLabel);
    assert(f[n + 3] == StreamField::Fps);
}

/// Levels combine: the text `a|b` stands for the union of the flags of `a`
/// and of `b`, and is refused when either is.
pub proof fn lemma_levels_combine(a: Seq<char>, b: Seq<char>)
    ensures
        level_of(a + "|"@ + b) == match (level_of(a), level_of(b)) {
            (Some(x), Some(y)) => Some(x | y),
            _ => None,
        },
{
    reveal_strlit("|");
    let s = a + "|"@ + b;
    lemma_words_of_joined(a, b, 0, seq![]);
    lemma_union_concat(level_words(a, 0, seq![]), level_words(b, 0, seq![]), 0);
    if let Some(x) = level_of(a) {
        lemma_union_acc(level_words(b, 0, seq![]), 0, x);
        if let Some(y) = level_of(b) {
            assert(x | y == y | x) by (bit_vector);
        }
    }
}

/// The words of `a|b` are the words of `a` followed by those of `b`.
proof fn lemma_words_of_joined(a: Seq<char>, b: Seq<char>, i: int, cur: Seq<char>)
    requires
        0 <= i <= a.len(),
    ensures
        level_words(a + "|"@ + b, i, cur) == level_words(a, i, cur) + level_words(b, 0, seq![]),
    decreases a.len() - i,
{
    reveal_strlit("|");
    let s = a + "|"@ + b;
    if i == a.len() {
        assert(s[i] == '|');
        lemma_words_shift(s, b, a.len() + 1 as int, 0, seq![]);
        let head: Seq<Seq<char>> = if cur.len() > 0 {
            seq![cur]
        } else {
            seq![]
        };
        assert(level_words(a, i, cur) == head);
    } else {
        assert(s[i] == a[i]);
        if is_level_sep(a[i]) {
            lemma_words_of_joined(a, b, i + 1, seq![]);
            let head: Seq<Seq<char>> = if cur.len() > 0 {
                seq![cur]
            } else {
                seq![]
            };
            assert(head + (level_words(a, i + 1, seq![]) + level_words(b, 0, seq![])) =~= (head
                + level_words(a, i + 1, seq![])) + level_words(b, 0, seq![]));
        } else {
            lemma_words_of_joined(a, b, i + 1, cur.push(a[i]));
        }
    }
}

/// Reading words in a text from position `k + j` is reading them in its
/// suffix `b` from position `j`, when `b` is what follows position `k`.
proof fn lemma_words_shift(s: Seq<char>, b: Seq<char>, k: int, j: int, cur: Seq<char>)
    requires
        0 <= k,
        0 <= j <= b.len(),
        s.len() == k + b.len(),
        forall|t: int| 0 <= t < b.len() ==> s[k + t] == #[trigger] b[t],
    ensures
        level_words(s, k + j, cur) == level_words(b, j, cur),
    decreases b.len() - j,
{
    if j < b.len() {
        assert(s[k + j] == b[j]);
        if is_level_sep(b[j]) {
            lemma_words_shift(s, b, k, j + 1, seq![]);
        } else {
            lemma_words_shift(s, b, k, j + 1, cur.push(b[j]));
        }
    }
}

/// Reading the words of two lists one after the other.
proof fn lemma_union_concat(ws1: Seq<Seq<char>>, ws2: Seq<Seq<char>>, acc: u8)
    ensures
        union_of_words(ws1 + ws2, 0, acc) == match union_of_words(ws1, 0, acc) {
            Some(x) => union_of_words(ws2, 0, x),
            None => None,
        },
    decreases ws1.len(),
{
    if ws1.len() == 0 {
        assert(ws1 + ws2 =~= ws2);
    } else {
        let w = ws1[0];
        let rest1 = ws1.drop_first();
        assert(ws1 =~= seq![w] + rest1);
        assert(ws1 + ws2 =~= seq![w] + (rest1 + ws2));
        lemma_union_append(ws1 + ws2, w, rest1 + ws2, acc);
        lemma_union_append(ws1, w, rest1, acc);
        if let Some(b) = token_level(w) {
            lemma_union_concat(rest1, ws2, acc | b);
        }
    }
}

/// The union of a list of words, added to `acc`, is `acc` with the union of
/// the list added.
proof fn lemma_union_acc(ws: Seq<Seq<char>>, i: int, acc: u8)
    ensures
        union_of_words(ws, i, acc) == match union_of_words(ws, i, 0) {
            Some(u) => Some(acc | u),
            None => None,
        },
    decreases ws.len() - i,
{
    if 0 <= i < ws.len() {
        if let Some(b) = token_level(ws[i]) {
            lemma_union_acc(ws, i + 1, acc | b);
            lemma_union_acc(ws, i + 1, 0 | b);
            if let Some(u) = union_of_words(ws, i + 1, 0) {
                assert((acc | b) | u == acc | ((0 | b) | u)) by (bit_vector);
            }
        }
    } else {
        assert(acc | 0 == acc) by (bit_vector);
    }
}

} // verus!
