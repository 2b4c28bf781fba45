//! The `mimeType` text of a format, such as
//! `video/mp4; codecs="avc1.4d401e, mp4a.40.2"`: its media type and codecs.

use vstd::prelude::*;

use crate::page::{lemma_word_run_ge, word_run_end, word_run_end_exec};
use crate::stream::{MediaType, MimeType};
use crate::text::{
    ascii_lower, collect_chars, is_white_space, is_white_space_exec, is_word_char, lit_at_chars,
    spec_lit_at, word_char,
};
use std::str::FromStr;
use vstd::string::StrSliceExecFns;

verus! {

/// A character of the codecs class `[a-zA-Z-0-9.,\s]`.
pub open spec fn is_codecs_char(c: char) -> bool {
    ||| ('a' <= c && c <= 'z')
    ||| ('A' <= c && c <= 'Z')
    ||| ('0' <= c && c <= '9')
    ||| c == '-'
    ||| c == '.'
    ||| c == ','
    ||| is_white_space(c)
}

/// The end of the run of codecs characters from position `i`.
pub open spec fn codecs_run_end(cs: Seq<char>, i: int) -> int
    decreases cs.len() - i,
{
    if 0 <= i < cs.len() && is_codecs_char(cs[i]) {
        codecs_run_end(cs, i + 1)
    } else {
        i
    }
}

/// The two captures (start and end of each) of the pattern
/// `(\w+/\w+);\scodecs="([a-zA-Z-0-9.,\s]*)"` for a match that starts at `p`.
pub open spec fn mime_match_at(cs: Seq<char>, p: int) -> Option<(int, int, int, int)> {
    if 0 <= p < cs.len() && word_char(cs[p]) {
        let e1 = word_run_end(cs, p);
        let e2 = word_run_end(cs, e1 + 1);
        if e1 < cs.len() && cs[e1] == '/' && e2 > e1 + 1 && e2 + 1 < cs.len() && cs[e2] == ';'
            && is_white_space(cs[e2 + 1]) && spec_lit_at(cs, e2 + 2, "codecs=\""@) {
            let a = e2 + 10;
            let b = codecs_run_end(cs, a);
            if b < cs.len() && cs[b] == '"' {
                Some((p, e2, a, b))
            } else {
                None
            }
        } else {
            None
        }
    } else {
        None
    }
}

/// The captures of the leftmost match at or after `p`.
pub open spec fn mime_find(cs: Seq<char>, p: int) -> Option<(int, int, int, int)>
    decreases cs.len() + 1 - p,
{
    if p < 0 || p > cs.len() {
        None
    } else {
        match mime_match_at(cs, p) {
            Some(m) => Some(m),
            None => mime_find(cs, p + 1),
        }
    }
}

/// A text `t/u` with `t` and `u` non-empty runs of `\w`.
pub open spec fn is_word_pair(s: Seq<char>) -> bool {
    let slash = word_run_end(s, 0);
    &&& 0 < slash < s.len()
    &&& s[slash] == '/'
    &&& word_run_end(s, slash + 1) == s.len()
    &&& s.len() > slash + 1
}

/// Every character is ASCII.
pub open spec fn is_ascii_text(s: Seq<char>) -> bool {
    forall|i: int| 0 <= i < s.len() ==> #[trigger] s[i] <= '\x7f'
}

/// The text with its ASCII upper-case letters made lower-case.
pub open spec fn ascii_lowercase(s: Seq<char>) -> Seq<char> {
    s.map_values(|c: char| ascii_lower(c))
}

/// Calls `mime::Mime::from_str` on a text `t/u` of two runs of `\w` and gives
/// the type and subtype of the result.
///
/// Trusted, as mime 0.3's parser shows it: such a text is accepted when all
/// its bytes are token characters, which for these characters means when it
/// is ASCII; the parser keeps the text lower-cased, so the type is `t` and the
/// subtype `u`, lower-cased.
#[verifier::external_body]
fn mime_from_str(s: &str) -> (r: Option<(String, String)>)
    requires
        is_word_pair(s@),
    ensures
        r is Some <==> is_ascii_text(s@),
        r matches Some((t, u)) ==> t@ == ascii_lowercase(s@.subrange(0, word_run_end(s@, 0)))
            && u@ == ascii_lowercase(s@.subrange(word_run_end(s@, 0) + 1, s@.len() as int)),
{
    match mime::Mime::from_str(s) {
        Ok(m) => Some((m.type_().as_str().to_string(), m.subtype().as_str().to_string())),
        Err(_) => None,
    }
}

/// The parts of a codecs text between its `, ` separators, found from left to
/// right as `str::split(", ")` finds them; `start` is where the current part
/// began and `i` where the search goes on.
pub open spec fn split_codecs_from(s: Seq<char>, start: int, i: int) -> Seq<Seq<char>>
    decreases s.len() - i,
{
    if i < start || i + 2 > s.len() {
        seq![s.subrange(start, s.len() as int)]
    } else if s[i] == ',' && s[i + 1] == ' ' {
        seq![s.subrange(start, i)] + split_codecs_from(s, i + 2, i + 2)
    } else {
        split_codecs_from(s, start, i + 1)
    }
}

/// The codecs that a codecs text lists.
pub open spec fn split_codecs(s: Seq<char>) -> Seq<Seq<char>> {
    split_codecs_from(s, 0, 0)
}

/// The texts of a list of strings.
pub open spec fn string_views(v: Seq<String>) -> Seq<Seq<char>> {
    v.map_values(|x: String| x@)
}

/// Why a `mimeType` text could not be read.
#[derive(Debug)]
pub enum MimeTypeError {
    /// The text does not match `(\w+/\w+);\scodecs="([a-zA-Z-0-9.,\s]*)"`.
    NoMatch,
    /// The media type, given here, is not one that `mime` accepts.
    InvalidMime(String),
}

/// What a `mimeType` text says, or why it cannot be read.
pub open spec fn mime_type_text_ok(s: Seq<char>, m: MimeType) -> bool {
    match mime_find(s, 0) {
        Some((p, e, a, b)) => {
            let t = s.subrange(p, e);
            let slash = word_run_end(t, 0);
            &&& is_ascii_text(t)
            &&& m.mime.type_@ == ascii_lowercase(t.subrange(0, slash))
            &&& m.mime.subtype@ == ascii_lowercase(t.subrange(slash + 1, t.len() as int))
            &&& string_views(m.codecs@) == split_codecs(s.subrange(a, b))
        },
        None => false,
    }
}

fn is_codecs_char_exec(c: char) -> (b: bool)
    ensures
        b == is_codecs_char(c),
{
    ('a' <= c && c <= 'z') || ('A' <= c && c <= 'Z') || ('0' <= c && c <= '9') || c == '-' || c
        == '.' || c == ',' || is_white_space_exec(c)
}

fn codecs_run_end_exec(cs: &Vec<char>, i: usize) -> (r: usize)
    requires
        i <= cs@.len(),
    ensures
        r == codecs_run_end(cs@, i as int),
        i <= r <= cs@.len(),
{
    let mut k = i;
    while k < cs.len() && is_codecs_char_exec(cs[k])
        invariant
            i <= k <= cs@.len(),
            codecs_run_end(cs@, i as int) == codecs_run_end(cs@, k as int),
        decreases cs@.len() - k,
    {
        k = k + 1;
    }
    k
}

fn mime_match_at_exec(cs: &Vec<char>, p: usize) -> (r: Option<(usize, usize, usize, usize)>)
    requires
        p <= cs@.len(),
    ensures
        match r {
            Some((a1, b1, a2, b2)) => mime_match_at(cs@, p as int) == Some(
                (a1 as int, b1 as int, a2 as int, b2 as int),
            ) && a1 <= b1 <= a2 <= b2 < cs@.len(),
            None => mime_match_at(cs@, p as int) is None,
        },
{
    proof {
        reveal_strlit("codecs=\"");
    }
    let n = cs.len();
    if !(p < n && is_word_char(cs[p])) {
        return None;
    }
    let e1 = word_run_end_exec(cs, p);
    if !(e1 < n && cs[e1] == '/') {
        return None;
    }
    let e2 = word_run_end_exec(cs, e1 + 1);
    if !(e2 > e1 + 1 && e2 < n - 1 && cs[e2] == ';' && is_white_space_exec(cs[e2 + 1])
        && lit_at_chars(cs, e2 + 2, "codecs=\"")) {
        return None;
    }
    let a = e2 + 10;
    let b = codecs_run_end_exec(cs, a);
    if b < n && cs[b] == '"' {
        Some((p, e2, a, b))
    } else {
        None
    }
}

fn mime_find_exec(cs: &Vec<char>) -> (r: Option<(usize, usize, usize, usize)>)
    ensures
        match r {
            Some((a1, b1, a2, b2)) => mime_find(cs@, 0) == Some(
                (a1 as int, b1 as int, a2 as int, b2 as int),
            ) && a1 <= b1 <= a2 <= b2 < cs@.len() && mime_match_at(cs@, a1 as int) == Some(
                (a1 as int, b1 as int, a2 as int, b2 as int),
            ),
            None => mime_find(cs@, 0) is None,
        },
{
    let n = cs.len();
    let mut p: usize = 0;
    while p <= n
        invariant
            n == cs@.len(),
            mime_find(cs@, 0) == mime_find(cs@, p as int),
        decreases n + 1 - p,
    {
        let m = mime_match_at_exec(cs, p);
        if m.is_some() {
            return m;
        }
        if p == n {
            proof {
                assert(mime_find(cs@, p + 1) is None);
            }
            return None;
        }
        p = p + 1;
    }
    None
}

/// The codecs that a codecs text lists, separated by `, `.
pub fn split_codecs_exec(s: &str) -> (r: Vec<String>)
    ensures
        string_views(r@) == split_codecs(s@),
{
    let cs = collect_chars(s);
    let n = cs.len();
    let mut parts: Vec<String> = Vec::new();
    let mut start: usize = 0;
    let mut i: usize = 0;
    while i < n && n - i >= 2
        invariant
            cs@ == s@,
            n == s@.len(),
            start <= i <= n,
            string_views(parts@) + split_codecs_from(s@, start as int, i as int) == split_codecs(s@),
        decreases n - i,
    {
        if cs[i] == ',' && cs[i + 1] == ' ' {
            let part = s.substring_char(start, i).to_string();
            let ghost before = parts@;
            parts.push(part);
            proof {
                assert(string_views(parts@) =~= string_views(before).push(s@.subrange(start as int, i as int)));
                assert(split_codecs_from(s@, start as int, i as int) == seq![s@.subrange(start as int, i as int)] + split_codecs_from(s@, i + 2, i + 2));
                assert(string_views(before) + (seq![s@.subrange(start as int, i as int)] + split_codecs_from(s@, i + 2, i + 2)) =~= string_views(parts@) + split_codecs_from(s@, i + 2, i + 2));
            }
            start = i + 2;
            i = i + 2;
        } else {
            i = i + 1;
        }
    }
    let last = s.substring_char(start, n).to_string();
    let ghost before = parts@;
    parts.push(last);
    proof {
        assert(split_codecs_from(s@, start as int, i as int) == seq![s@.subrange(start as int, n as int)]);
        assert(string_views(parts@) =~= string_views(before) + seq![s@.subrange(start as int, n as int)]);
    }
    parts
}

proof fn lemma_word_pair(cs: Seq<char>, p: int, e: int)
    requires
        mime_match_at(cs, p) matches Some((a1, b1, a2, b2)) && a1 == p && b1 == e,
    ensures
        is_word_pair(cs.subrange(p, e)),
        word_run_end(cs.subrange(p, e), 0) == word_run_end(cs, p) - p,
{
    let t = cs.subrange(p, e);
    let e1 = word_run_end(cs, p);
    lemma_word_run_ge(cs, p + 1);
    lemma_word_run_ge(cs, e1 + 2);
    lemma_word_run_shift(cs, p, e, p);
    lemma_word_run_shift(cs, p, e, e1 + 1);
    assert(t[e1 - p] == cs[e1]);
}

/// Runs of word characters read the same in a window that ends where the run
/// of the whole text ends.
proof fn lemma_word_run_shift(cs: Seq<char>, p: int, e: int, i: int)
    requires
        0 <= p <= i <= e <= cs.len(),
        word_run_end(cs, i) <= e,
        e < cs.len() ==> !word_char(cs[e]),
    ensures
        word_run_end(cs.subrange(p, e), i - p) == word_run_end(cs, i) - p,
    decreases e - i,
{
    if i < e && word_char(cs[i]) {
        lemma_word_run_shift(cs, p, e, i + 1);
    }
}

/// Reads a `mimeType` text: the media type that `mime` makes of the first
/// `type/subtype` followed by `; codecs="..."`, and the codecs listed there.
pub fn parse_mime_type(s: &str) -> (r: Result<MimeType, MimeTypeError>)
    ensures
        match r {
            Ok(m) => mime_type_text_ok(s@, m),
            Err(MimeTypeError::NoMatch) => mime_find(s@, 0) is None,
            Err(MimeTypeError::InvalidMime(t)) => mime_find(s@, 0) matches Some((p, e, a, b))
                && t@ == s@.subrange(p, e) && !is_ascii_text(t@),
        },
{
    let cs = collect_chars(s);
    let (p, e, a, b) = match mime_find_exec(&cs) {
        Some(m) => m,
        None => {
            return Err(MimeTypeError::NoMatch);
        },
    };
    let t = s.substring_char(p, e);
    proof {
        lemma_word_pair(s@, p as int, e as int);
    }
    let (type_, subtype) = match mime_from_str(t) {
        Some(parts) => parts,
        None => {
            return Err(MimeTypeError::InvalidMime(t.to_string()));
        },
    };
    let codecs = split_codecs_exec(s.substring_char(a, b));
    Ok(MimeType { mime: MediaType { type_, subtype }, codecs })
}

} // verus!
