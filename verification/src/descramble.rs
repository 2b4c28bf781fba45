//! From the formats of a player response to the streams of a video: which
//! formats need their signature deciphered, and turning formats into streams.

use vstd::prelude::*;

use crate::error::Error;
use crate::id::IdBuf;
use crate::page::{contains_text, url_already_contains_signature};
use crate::stream::{RawFormat, SignatureCipher, Stream, spec_parse_codecs, spec_stream_of};

verus! {

/// What is done with a format's signature before it is downloaded.
#[derive(Debug, Clone, Copy, PartialEq, Eq, Structural)]
pub enum SignatureAction {
    /// The format carries a scrambled signature: decipher it and append it
    /// to the url as `sig`.
    Decipher,
    /// The url is signed already.
    Keep,
}

/// The url of a format is signed already.
pub open spec fn url_is_signed(url: Seq<char>) -> bool {
    contains_text(url, "signature"@) || contains_text(url, "&sig="@) || contains_text(url, "&lsig="@)
}

/// What is done with the signature of a format, or the error when the format
/// has neither a scrambled signature nor a signed url.
pub fn signature_action(cipher: &SignatureCipher) -> (r: Result<SignatureAction, Error>)
    ensures
        match r {
            Ok(SignatureAction::Decipher) => cipher.s is Some,
            Ok(SignatureAction::Keep) => cipher.s is None && url_is_signed(cipher.url@),
            Err(e) => cipher.s is None && !url_is_signed(cipher.url@) && e is UnexpectedResponse,
        },
{
    match cipher.s {
        Some(_) => Ok(SignatureAction::Decipher),
        None => if url_already_contains_signature(cipher.url.as_str()) {
            Ok(SignatureAction::Keep)
        } else {
            Err(
                Error::UnexpectedResponse(
                    "RawFormat did not contain a signature (s), nor did the url".to_string(),
                ),
            )
        },
    }
}

/// `s` is the stream of `raw` for the video `video_id`.
pub open spec fn is_stream_of(raw: RawFormat, video_id: Seq<char>, s: Stream) -> bool {
    s.video_id@ == video_id && spec_stream_of(raw, s.video_id) == Some(s)
}

/// Two streams that agree in every field, their video ids in text: they may
/// differ only in whether that text is borrowed or owned.
pub open spec fn same_stream(a: Stream, b: Stream) -> bool {
    a.video_id@ == b.video_id@ && a == (Stream { video_id: a.video_id, ..b })
}

/// The streams of a video depend on its formats and its id alone: two lists
/// of streams that both stand for the same formats of the same video are the
/// same, stream by stream. So two descramblings of equal video information
/// give equal videos.
pub proof fn lemma_streams_determined(
    raws: Seq<RawFormat>,
    video_id: Seq<char>,
    s0: Seq<Stream>,
    s1: Seq<Stream>,
)
    requires
        s0.len() == raws.len(),
        s1.len() == raws.len(),
        forall|i: int| 0 <= i < raws.len() ==> is_stream_of(#[trigger] raws[i], video_id, s0[i]),
        forall|i: int| 0 <= i < raws.len() ==> is_stream_of(#[trigger] raws[i], video_id, s1[i]),
    ensures
        forall|i: int| 0 <= i < raws.len() ==> same_stream(#[trigger] s0[i], s1[i]),
{
    assert forall|i: int| 0 <= i < raws.len() implies same_stream(#[trigger] s0[i], s1[i]) by {
        assert(is_stream_of(raws[i], video_id, s0[i]));
        assert(is_stream_of(raws[i], video_id, s1[i]));
    }
}

/// The codecs of every format of `raws` can be split.
pub open spec fn all_convert(raws: Seq<RawFormat>) -> bool {
    forall|i: int| 0 <= i < raws.len() ==> (#[trigger] spec_parse_codecs(raws[i].mime_type)) is Some
}

/// Appends the streams of `raws` to `streams`, in order; fails on the first
/// format whose codecs cannot be split.
fn push_streams(streams: &mut Vec<Stream>, raws: Vec<RawFormat>, video_id: &IdBuf) -> (r: Result<(), Error>)
    ensures
        match r {
            Ok(()) => all_convert(raws@) && final(streams)@.len() == old(streams)@.len() + raws@.len()
                && final(streams)@.subrange(0, old(streams)@.len() as int) == old(streams)@
                && forall|i: int| 0 <= i < raws@.len() ==> is_stream_of(
                #[trigger] raws@[i],
                video_id@,
                final(streams)@[old(streams)@.len() + i],
            ),
            Err(e) => !all_convert(raws@) && e is UnexpectedResponse,
        },
{
    let ghost start = streams@;
    let ghost all = raws@;
    let mut rest = raws;
    let mut i: usize = 0;
    let n = rest.len();
    while i < n
        invariant
            n == all.len(),
            all == raws@,
            start == old(streams)@,
            i <= n,
            rest@ == all.subrange(i as int, n as int),
            streams@.len() == start.len() + i,
            streams@.subrange(0, start.len() as int) == start,
            forall|j: int| 0 <= j < i ==> #[trigger] spec_parse_codecs(all[j].mime_type) is Some,
            forall|j: int| 0 <= j < i ==> is_stream_of(#[trigger] all[j], video_id@, streams@[start.len() + j]),
        decreases n - i,
    {
        let raw = rest.remove(0);
        proof {
            assert(raw == all[i as int]);
            assert(rest@ =~= all.subrange(i + 1, n as int));
        }
        match Stream::from_raw_format(raw, video_id.clone()) {
            Ok(s) => {
                let ghost before = streams@;
                streams.push(s);
                proof {
                    assert(streams@.subrange(0, start.len() as int) =~= before.subrange(0, start.len() as int));
                    assert forall|j: int| 0 <= j <= i implies is_stream_of(#[trigger] all[j], video_id@, streams@[start.len() + j]) by {
                        if j < i {
                            assert(streams@[start.len() + j] == before[start.len() + j]);
                        }
                    }
                }
            },
            Err(e) => {
                proof {
                    assert(!all_convert(all)) by {
                        assert(spec_parse_codecs(all[i as int].mime_type) is None);
                    }
                }
                return Err(e);
            },
        }
        i = i + 1;
    }
    Ok(())
}

/// The streams of a video: one for each of its formats and then one for each
/// of its adaptive formats, in order; fails on the first format whose codecs
/// cannot be split.
pub fn initialize_streams(
    formats: Vec<RawFormat>,
    adaptive_formats: Vec<RawFormat>,
    video_id: &IdBuf,
) -> (r: Result<Vec<Stream>, Error>)
    ensures
        match r {
            Ok(streams) => all_convert(formats@ + adaptive_formats@) && streams@.len()
                == formats@.len() + adaptive_formats@.len() && forall|i: int|
                0 <= i < streams@.len() ==> is_stream_of(
                    #[trigger] (formats@ + adaptive_formats@)[i],
                    video_id@,
                    streams@[i],
                ),
            Err(e) => !all_convert(formats@ + adaptive_formats@) && e is UnexpectedResponse,
        },
{
    let ghost f = formats@;
    let ghost a = adaptive_formats@;
    let ghost raws = f + a;
    let mut streams: Vec<Stream> = Vec::new();
    match push_streams(&mut streams, formats, video_id) {
        Ok(()) => {},
        Err(e) => {
            proof {
                assert(!all_convert(raws)) by {
                    let j = choose|j: int| 0 <= j < f.len() && !(#[trigger] spec_parse_codecs(f[j].mime_type) is Some);
                    assert(raws[j] == f[j]);
                }
            }
            return Err(e);
        },
    }
    let ghost mid = streams@;
    match push_streams(&mut streams, adaptive_formats, video_id) {
        Ok(()) => {},
        Err(e) => {
            proof {
                assert(!all_convert(raws)) by {
                    let j = choose|j: int| 0 <= j < a.len() && !(#[trigger] spec_parse_codecs(a[j].mime_type) is Some);
                    assert(raws[f.len() + j] == a[j]);
                }
            }
            return Err(e);
        },
    }
    proof {
        assert forall|i: int| 0 <= i < raws.len() implies #[trigger] spec_parse_codecs(raws[i].mime_type) is Some by {
            if i < f.len() {
                assert(raws[i] == f[i]);
            } else {
                assert(raws[i] == a[i - f.len()]);
            }
        }
        assert forall|i: int| 0 <= i < streams@.len() implies is_stream_of(#[trigger] raws[i], video_id@, streams@[i]) by {
            if i < f.len() {
                assert(raws[i] == f[i]);
                assert(streams@[i] == streams@.subrange(0, mid.len() as int)[i]);
                assert(mid[i] == mid.subrange(0, f.len() as int)[i]);
            } else {
                assert(raws[i] == a[i - f.len()]);
            }
        }
    }
    Ok(streams)
}

} // verus!
