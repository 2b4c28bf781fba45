//! Comparing streams: the orders the command line uses to pick the best or
//! worst of the streams that match its filters.

use core::cmp::Ordering;

use vstd::prelude::*;

use crate::formats::{
    audio_quality_key,
    audio_quality_rank,
    quality_key,
    quality_label_key,
    quality_label_rank,
    quality_rank,
};
use crate::stream::Stream;

verus! {

/// The order of two integers.
pub open spec fn cmp_int(a: int, b: int) -> Ordering {
    if a < b {
        Ordering::Less
    } else if a == b {
        Ordering::Equal
    } else {
        Ordering::Greater
    }
}

/// The reverse of an order.
pub open spec fn reverse(o: Ordering) -> Ordering {
    match o {
        Ordering::Less => Ordering::Greater,
        Ordering::Equal => Ordering::Equal,
        Ordering::Greater => Ordering::Less,
    }
}

/// The order of two optional values when both are present and differ.
pub open spec fn opts_order(a: Option<int>, b: Option<int>) -> Option<Ordering> {
    match (a, b) {
        (Some(x), Some(y)) => if x == y {
            None
        } else {
            Some(cmp_int(x, y))
        },
        _ => None,
    }
}

/// A `u64` option as an integer option.
pub open spec fn opt_int(v: Option<u64>) -> Option<int> {
    match v {
        Some(x) => Some(x as int),
        None => None,
    }
}

/// A quality label as an optional position in its order.
pub open spec fn opt_label(v: Option<crate::formats::QualityLabel>) -> Option<int> {
    match v {
        Some(_) => Some(quality_label_key(v)),
        None => None,
    }
}

/// An audio quality as an optional position in its order.
pub open spec fn opt_audio(v: Option<crate::formats::AudioQuality>) -> Option<int> {
    match v {
        Some(_) => Some(audio_quality_key(v)),
        None => None,
    }
}

/// The order of two streams: by width, then bitrate, then quality label, then
/// audio quality (each only when both streams have it and it differs), and
/// finally by quality.
pub open spec fn stream_order(l: Stream, r: Stream) -> Ordering {
    match opts_order(opt_int(l.width), opt_int(r.width)) {
        Some(o) => o,
        None => match opts_order(opt_int(l.bitrate), opt_int(r.bitrate)) {
            Some(o) => o,
            None => match opts_order(opt_label(l.quality_label), opt_label(r.quality_label)) {
                Some(o) => o,
                None => match opts_order(opt_audio(l.audio_quality), opt_audio(r.audio_quality)) {
                    Some(o) => o,
                    None => cmp_int(quality_key(l.quality), quality_key(r.quality)),
                },
            },
        },
    }
}

/// A `u64` as an integer.
pub open spec fn u64_int(a: u64) -> int {
    a as int
}

/// The order of two `u64` values.
pub fn cmp_u64(a: u64, b: u64) -> (o: Ordering)
    ensures
        o == cmp_int(u64_int(a), u64_int(b)),
{
    if a < b {
        Ordering::Less
    } else if a == b {
        Ordering::Equal
    } else {
        Ordering::Greater
    }
}

/// The order of two optional values, when both are present and differ.
pub fn cmp_opts(lhs: &Option<u64>, rhs: &Option<u64>) -> (o: Option<Ordering>)
    ensures
        o == opts_order(opt_int(*lhs), opt_int(*rhs)),
{
    match (lhs, rhs) {
        (Some(l), Some(r)) => {
            if *l == *r {
                None
            } else {
                Some(cmp_u64(*l, *r))
            }
        },
        _ => None,
    }
}

fn label_opt(v: Option<crate::formats::QualityLabel>) -> (r: Option<u64>)
    ensures
        opt_int(r) == opt_label(v),
{
    match v {
        Some(_) => Some(quality_label_rank(v)),
        None => None,
    }
}

fn audio_opt(v: Option<crate::formats::AudioQuality>) -> (r: Option<u64>)
    ensures
        opt_int(r) == opt_audio(v),
{
    match v {
        Some(_) => Some(audio_quality_rank(v)),
        None => None,
    }
}

/// Compares two streams: by width, then bitrate, then quality label, then
/// audio quality, and finally by quality.
pub fn cmp_stream(lhs: &Stream, rhs: &Stream) -> (o: Ordering)
    ensures
        o == stream_order(*lhs, *rhs),
{
    if let Some(o) = cmp_opts(&lhs.width, &rhs.width) {
        return o;
    }
    if let Some(o) = cmp_opts(&lhs.bitrate, &rhs.bitrate) {
        return o;
    }
    if let Some(o) = cmp_opts(&label_opt(lhs.quality_label), &label_opt(rhs.quality_label)) {
        return o;
    }
    if let Some(o) = cmp_opts(&audio_opt(lhs.audio_quality), &audio_opt(rhs.audio_quality)) {
        return o;
    }
    cmp_u64(quality_rank(lhs.quality), quality_rank(rhs.quality))
}

/// Comparing two streams the other way round gives the reverse order.
pub proof fn lemma_cmp_stream_antisymmetric(l: Stream, r: Stream)
    ensures
        stream_order(r, l) == reverse(stream_order(l, r)),
{
}

/// Comparing a stream with itself gives `Equal`.
pub proof fn lemma_cmp_stream_reflexive(s: Stream)
    ensures
        stream_order(s, s) == Ordering::Equal,
{
}

/// Streams are ordered by width first and by bitrate next: when both
/// streams have a width and the widths differ, the narrower stream is the
/// lesser; when the widths do not decide (one is missing or they are equal)
/// and both streams have a bitrate and the bitrates differ, the stream with
/// the lower bitrate is the lesser.
pub proof fn lemma_stream_order_by_width_then_bitrate(l: Stream, r: Stream)
    ensures
        (l.width is Some && r.width is Some && l.width->0 < r.width->0) ==> stream_order(l, r) == Ordering::Less,
        (l.width is Some && r.width is Some && l.width->0 > r.width->0) ==> stream_order(l, r) == Ordering::Greater,
        ((l.width is None || r.width is None || l.width == r.width) && l.bitrate is Some && r.bitrate is Some
            && l.bitrate->0 < r.bitrate->0) ==> stream_order(l, r) == Ordering::Less,
        ((l.width is None || r.width is None || l.width == r.width) && l.bitrate is Some && r.bitrate is Some
            && l.bitrate->0 > r.bitrate->0) ==> stream_order(l, r) == Ordering::Greater,
{
}

/// When neither the widths nor the bitrates decide (for each, one is missing
/// or they are equal), streams are ordered by quality label when both have
/// one and they differ, then by audio quality likewise, and otherwise by
/// quality; each in its rank from low to high.
pub proof fn lemma_stream_order_after_bitrate(l: Stream, r: Stream)
    requires
        l.width is None || r.width is None || l.width == r.width,
        l.bitrate is None || r.bitrate is None || l.bitrate == r.bitrate,
    ensures
        (l.quality_label is Some && r.quality_label is Some && l.quality_label != r.quality_label)
            ==> stream_order(l, r) == cmp_int(quality_label_key(l.quality_label), quality_label_key(r.quality_label)),
        (l.quality_label is None || r.quality_label is None || l.quality_label == r.quality_label) && (
        l.audio_quality is Some && r.audio_quality is Some && l.audio_quality != r.audio_quality) ==> stream_order(
            l,
            r,
        ) == cmp_int(audio_quality_key(l.audio_quality), audio_quality_key(r.audio_quality)),
        (l.quality_label is None || r.quality_label is None || l.quality_label == r.quality_label) && (
        l.audio_quality is None || r.audio_quality is None || l.audio_quality == r.audio_quality) ==> stream_order(
            l,
            r,
        ) == cmp_int(quality_key(l.quality), quality_key(r.quality)),
{
    crate::formats::lemma_quality_ranks_follow_the_scale();
}

} // verus!
