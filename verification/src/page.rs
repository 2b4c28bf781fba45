//! What a video's watch page and stream urls tell: age restriction, whether a
//! url is already signed, where the player's javascript is, and the embedded
//! player response.

use vstd::prelude::*;

use crate::error::Error;
use crate::js_object::{assignment_end, assignment_end_exec, is_quote};
use crate::text::{collect_chars, is_word_char, lit_at_chars, spec_lit_at, word_char};
use vstd::string::StringExecFns;
use vstd::string::StrSliceExecFns;

verus! {

/// `needle` occurs in `haystack`.
pub open spec fn contains_text(haystack: Seq<char>, needle: Seq<char>) -> bool {
    exists|i: int| #[trigger] spec_lit_at(haystack, i, needle)
}

/// Whether `needle` occurs in `haystack`.
pub fn text_contains(haystack: &Vec<char>, needle: &str) -> (b: bool)
    ensures
        b == contains_text(haystack@, needle@),
{
    let n = haystack.len();
    let m = needle.unicode_len();
    if m > n {
        assert forall|i: int| !#[trigger] spec_lit_at(haystack@, i, needle@) by {}
        return false;
    }
    let last = n - m;
    let mut i: usize = 0;
    loop
        invariant
            n == haystack@.len(),
            m == needle@.len(),
            m <= n,
            last == n - m,
            i <= last,
            forall|j: int| 0 <= j < i ==> !#[trigger] spec_lit_at(haystack@, j, needle@),
        decreases last - i,
    {
        if lit_at_chars(haystack, i, needle) {
            return true;
        }
        if i == last {
            assert forall|j: int| !#[trigger] spec_lit_at(haystack@, j, needle@) by {
                if 0 <= j < i {
                }
            }
            return false;
        }
        i = i + 1;
    }
}

/// A watch page is of an age-restricted video when it holds `og:restrictions:age`.
pub fn is_age_restricted(watch_html: &str) -> (b: bool)
    ensures
        b == contains_text(watch_html@, "og:restrictions:age"@),
{
    let cs = collect_chars(watch_html);
    text_contains(&cs, "og:restrictions:age")
}

/// A url is already signed when it holds `signature`, `&sig=` or `&lsig=`.
pub fn url_already_contains_signature(url: &str) -> (b: bool)
    ensures
        b == (contains_text(url@, "signature"@) || contains_text(url@, "&sig="@) || contains_text(
            url@,
            "&lsig="@,
        )),
{
    let cs = collect_chars(url);
    text_contains(&cs, "signature") || (text_contains(&cs, "&sig=") || text_contains(&cs, "&lsig="))
}

// ---------------------------------------------------------------------------
// The player's javascript: `(/s/player/[\w\d]+/[\w\d_/.]+/base\.js)`
// ---------------------------------------------------------------------------

/// A character of the class `[\w\d_/.]`.
pub open spec fn is_path_char(c: char) -> bool {
    word_char(c) || c == '_' || c == '/' || c == '.'
}

/// The end of the run of word characters from position `i`.
pub open spec fn word_run_end(cs: Seq<char>, i: int) -> int
    decreases cs.len() - i,
{
    if 0 <= i < cs.len() && word_char(cs[i]) {
        word_run_end(cs, i + 1)
    } else {
        i
    }
}

/// The end of the run of path characters from position `i`.
pub open spec fn path_run_end(cs: Seq<char>, i: int) -> int
    decreases cs.len() - i,
{
    if 0 <= i < cs.len() && is_path_char(cs[i]) {
        path_run_end(cs, i + 1)
    } else {
        i
    }
}

/// The last position `e`, from `hi` down to `lo`, at which `/base.js` stands.
pub open spec fn last_base_js(cs: Seq<char>, lo: int, hi: int) -> Option<int>
    decreases hi - lo + 1,
{
    if hi < lo {
        None
    } else if spec_lit_at(cs, hi, "/base.js"@) {
        Some(hi)
    } else {
        last_base_js(cs, lo, hi - 1)
    }
}

/// Where the match of the player pattern that starts at `p` ends.
pub open spec fn player_js_match_at(cs: Seq<char>, p: int) -> Option<int> {
    if spec_lit_at(cs, p, "/s/player/"@) {
        let a = p + 10;
        let b = word_run_end(cs, a);
        if b > a && b < cs.len() && cs[b] == '/' {
            let q = b + 1;
            let r = path_run_end(cs, q);
            match last_base_js(cs, q + 1, r - 8) {
                Some(e) => Some(e + 8),
                None => None,
            }
        } else {
            None
        }
    } else {
        None
    }
}

/// The leftmost match of the player pattern at or after `p`: its start and end.
pub open spec fn player_js_find(cs: Seq<char>, p: int) -> Option<(int, int)>
    decreases cs.len() + 1 - p,
{
    if p < 0 || p > cs.len() {
        None
    } else {
        match player_js_match_at(cs, p) {
            Some(e) => Some((p, e)),
            None => player_js_find(cs, p + 1),
        }
    }
}

pub(crate) fn word_run_end_exec(cs: &Vec<char>, i: usize) -> (r: usize)
    requires
        i <= cs@.len(),
    ensures
        r == word_run_end(cs@, i as int),
        i <= r <= cs@.len(),
{
    let mut k = i;
    while k < cs.len() && is_word_char(cs[k])
        invariant
            i <= k <= cs@.len(),
            word_run_end(cs@, i as int) == word_run_end(cs@, k as int),
        decreases cs@.len() - k,
    {
        k = k + 1;
    }
    k
}

fn path_run_end_exec(cs: &Vec<char>, i: usize) -> (r: usize)
    requires
        i <= cs@.len(),
    ensures
        r == path_run_end(cs@, i as int),
        i <= r <= cs@.len(),
{
    let mut k = i;
    while k < cs.len() && (is_word_char(cs[k]) || cs[k] == '_' || cs[k] == '/' || cs[k] == '.')
        invariant
            i <= k <= cs@.len(),
            path_run_end(cs@, i as int) == path_run_end(cs@, k as int),
        decreases cs@.len() - k,
    {
        k = k + 1;
    }
    k
}

fn player_js_match_at_exec(cs: &Vec<char>, p: usize) -> (r: Option<usize>)
    requires
        p <= cs@.len(),
    ensures
        match r {
            Some(e) => player_js_match_at(cs@, p as int) == Some(e as int) && e <= cs@.len(),
            None => player_js_match_at(cs@, p as int) is None,
        },
{
    proof {
        reveal_strlit("/s/player/");
        reveal_strlit("/base.js");
    }
    if p > cs.len() || cs.len() - p < 10 || !lit_at_chars(cs, p, "/s/player/") {
        return None;
    }
    let a = p + 10;
    let b = word_run_end_exec(cs, a);
    if !(b > a && b < cs.len() && cs[b] == '/') {
        return None;
    }
    let q = b + 1;
    let r = path_run_end_exec(cs, q);
    // the last `/base.js` between q + 1 and r - 8
    if r < 8 {
        assert(last_base_js(cs@, q + 1, r - 8) is None);
        return None;
    }
    let mut e = r - 8;
    assert(player_js_match_at(cs@, p as int) == match last_base_js(cs@, q + 1, r - 8) {
        Some(x) => Some(x + 8),
        None => None::<int>,
    });
    while e > q
        invariant
            q >= 1,
            q <= cs@.len(),
            r <= cs@.len(),
            r >= 8,
            e <= r - 8,
            last_base_js(cs@, q + 1, r - 8) == last_base_js(cs@, q + 1, e as int),
            player_js_match_at(cs@, p as int) == match last_base_js(cs@, q + 1, r - 8) {
                Some(x) => Some(x + 8),
                None => None::<int>,
            },
        decreases e,
    {
        if lit_at_chars(cs, e, "/base.js") {
            return Some(e + 8);
        }
        e = e - 1;
    }
    None
}

/// The message for a page without the player's javascript.
pub open spec fn js_error_text(html: Seq<char>) -> Seq<char> {
    "could not extract the ytplayer-javascript from: "@ + html
}

fn js_error(html: &str) -> (r: String)
    ensures
        r@ == js_error_text(html@),
{
    let mut m = String::from_str("could not extract the ytplayer-javascript from: ");
    m.append(html);
    m
}

/// The path of the player's javascript in a watch page: the first
/// `/s/player/<word>/<path>/base.js` it holds.
pub fn get_ytplayer_js(html: &str) -> (r: Result<&str, Error>)
    ensures
        match r {
            Ok(js) => player_js_find(html@, 0) matches Some((p, e)) && js@ == html@.subrange(p, e),
            Err(e) => player_js_find(html@, 0) is None && (e matches Error::UnexpectedResponse(m) && m@
                == js_error_text(html@)),
        },
{
    let cs = collect_chars(html);
    let n = cs.len();
    let mut p: usize = 0;
    while p <= n
        invariant
            p <= n,
            n == cs@.len(),
            cs@ == html@,
            player_js_find(html@, 0) == player_js_find(html@, p as int),
        decreases n + 1 - p,
    {
        if let Some(e) = player_js_match_at_exec(&cs, p) {
            proof {
                lemma_match_after_start(cs@, p as int);
            }
            return Ok(html.substring_char(p, e));
        }
        if p == n {
            proof {
                assert(player_js_find(html@, n + 1) is None);
            }
            return Err(Error::UnexpectedResponse(js_error(html)));
        }
        p = p + 1;
    }
    Err(Error::UnexpectedResponse(js_error(html)))
}

proof fn lemma_match_after_start(cs: Seq<char>, p: int)
    requires
        0 <= p,
    ensures
        player_js_match_at(cs, p) matches Some(e) ==> p <= e,
{
    if let Some(e) = player_js_match_at(cs, p) {
        lemma_word_run_ge(cs, p + 10);
        lemma_path_run_ge(cs, word_run_end(cs, p + 10) + 1);
        lemma_last_base_js_ge(cs, word_run_end(cs, p + 10) + 2, path_run_end(cs, word_run_end(cs, p + 10) + 1) - 8);
    }
}

pub(crate) proof fn lemma_word_run_ge(cs: Seq<char>, i: int)
    ensures
        word_run_end(cs, i) >= i,
    decreases cs.len() - i,
{
    if 0 <= i < cs.len() && word_char(cs[i]) {
        lemma_word_run_ge(cs, i + 1);
    }
}

proof fn lemma_path_run_ge(cs: Seq<char>, i: int)
    ensures
        path_run_end(cs, i) >= i,
    decreases cs.len() - i,
{
    if 0 <= i < cs.len() && is_path_char(cs[i]) {
        lemma_path_run_ge(cs, i + 1);
    }
}

proof fn lemma_last_base_js_ge(cs: Seq<char>, lo: int, hi: int)
    ensures
        last_base_js(cs, lo, hi) matches Some(e) ==> lo <= e <= hi,
    decreases hi - lo + 1,
{
    if hi >= lo && !spec_lit_at(cs, hi, "/base.js"@) {
        lemma_last_base_js_ge(cs, lo, hi - 1);
    }
}


// ---------------------------------------------------------------------------
// The embedded player response:
// `window\[['"]ytInitialPlayerResponse['"]]\s*=\s*(\{[^\n]+});`
// ---------------------------------------------------------------------------

/// The first position at or after `i` that holds a line feed, or the end.
pub open spec fn line_end(cs: Seq<char>, i: int) -> int
    decreases cs.len() - i,
{
    if 0 <= i < cs.len() && cs[i] != '\n' {
        line_end(cs, i + 1)
    } else {
        i
    }
}

/// The last position `q`, from `hi` down to `lo`, at which `};` stands.
pub open spec fn last_close(cs: Seq<char>, lo: int, hi: int) -> Option<int>
    decreases hi - lo + 1,
{
    if hi < lo {
        None
    } else if 0 <= hi && hi + 1 < cs.len() && cs[hi] == '}' && cs[hi + 1] == ';' {
        Some(hi)
    } else {
        last_close(cs, lo, hi - 1)
    }
}

/// The span of the object captured by a match of the player-response pattern
/// that starts at `p`: the longest `{..}` on one line that a `;` follows.
pub open spec fn player_response_match_at(cs: Seq<char>, p: int) -> Option<(int, int)> {
    if spec_lit_at(cs, p, "window["@) && p + 32 < cs.len() && is_quote(cs[p + 7])
        && spec_lit_at(cs, p + 8, "ytInitialPlayerResponse"@) && is_quote(cs[p + 31]) && cs[p
        + 32] == ']' {
        match assignment_end(cs, p + 33) {
            Some(j) => if 0 <= j < cs.len() && cs[j] == '{' {
                match last_close(cs, j + 2, line_end(cs, j + 1) - 1) {
                    Some(q) => Some((j, q + 1)),
                    None => None,
                }
            } else {
                None
            },
            None => None,
        }
    } else {
        None
    }
}

/// The captured span of the leftmost match at or after `p`.
pub open spec fn player_response_find(cs: Seq<char>, p: int) -> Option<(int, int)>
    decreases cs.len() + 1 - p,
{
    if p < 0 || p > cs.len() {
        None
    } else {
        match player_response_match_at(cs, p) {
            Some(span) => Some(span),
            None => player_response_find(cs, p + 1),
        }
    }
}

fn line_end_exec(cs: &Vec<char>, i: usize) -> (r: usize)
    requires
        i <= cs@.len(),
    ensures
        r == line_end(cs@, i as int),
        i <= r <= cs@.len(),
{
    let mut k = i;
    while k < cs.len() && cs[k] != '\n'
        invariant
            i <= k <= cs@.len(),
            line_end(cs@, i as int) == line_end(cs@, k as int),
        decreases cs@.len() - k,
    {
        k = k + 1;
    }
    k
}

fn last_close_exec(cs: &Vec<char>, lo: usize, hi: usize) -> (r: Option<usize>)
    requires
        hi < cs@.len(),
    ensures
        match r {
            Some(q) => last_close(cs@, lo as int, hi as int) == Some(q as int),
            None => last_close(cs@, lo as int, hi as int) is None,
        },
{
    let mut k = hi;
    loop
        invariant
            k <= hi < cs@.len(),
            last_close(cs@, lo as int, hi as int) == last_close(cs@, lo as int, k as int),
        decreases k,
    {
        if k < lo {
            return None;
        }
        if k < cs.len() - 1 && cs[k] == '}' && cs[k + 1] == ';' {
            return Some(k);
        }
        if k == 0 {
            assert(last_close(cs@, lo as int, -1) is None);
            return None;
        }
        k = k - 1;
    }
}

fn player_response_match_at_exec(cs: &Vec<char>, p: usize) -> (r: Option<(usize, usize)>)
    requires
        p <= cs@.len(),
    ensures
        match r {
            Some((a, b)) => player_response_match_at(cs@, p as int) == Some((a as int, b as int))
                && a <= b <= cs@.len(),
            None => player_response_match_at(cs@, p as int) is None,
        },
{
    proof {
        reveal_strlit("window[");
        reveal_strlit("ytInitialPlayerResponse");
    }
    let n = cs.len();
    if !(lit_at_chars(cs, p, "window[") && n - p > 32 && (cs[p + 7] == '\'' || cs[p + 7] == '"')
        && lit_at_chars(cs, p + 8, "ytInitialPlayerResponse") && (cs[p + 31] == '\'' || cs[p
        + 31] == '"') && cs[p + 32] == ']') {
        return None;
    }
    let j = match assignment_end_exec(cs, p + 33) {
        Some(j) => j,
        None => return None,
    };
    if !(j < n && cs[j] == '{') {
        return None;
    }
    let le = line_end_exec(cs, j + 1);
    if le - j < 3 {
        return None;
    }
    let found = last_close_exec(cs, j + 2, le - 1);
    match found {
        Some(q) => {
            proof {
                lemma_last_close_range(cs@, (j + 2) as int, le - 1);
            }
            Some((j, q + 1))
        },
        None => None,
    }
}

proof fn lemma_last_close_range(cs: Seq<char>, lo: int, hi: int)
    ensures
        last_close(cs, lo, hi) matches Some(q) ==> lo <= q <= hi && q + 1 < cs.len(),
    decreases hi - lo + 1,
{
    if hi >= lo && !(0 <= hi && hi + 1 < cs.len() && cs[hi] == '}' && cs[hi + 1] == ';') {
        lemma_last_close_range(cs, lo, hi - 1);
    }
}

/// The player response embedded in a watch page: the object that the first
/// `window["ytInitialPlayerResponse"] = {..};` assignment holds.
pub fn initial_player_response(watch_html: &str) -> (r: Option<&str>)
    ensures
        match r {
            Some(obj) => player_response_find(watch_html@, 0) matches Some((a, b))
                && obj@ == watch_html@.subrange(a, b),
            None => player_response_find(watch_html@, 0) is None,
        },
{
    let cs = collect_chars(watch_html);
    let n = cs.len();
    let mut p: usize = 0;
    while p <= n
        invariant
            p <= n,
            n == cs@.len(),
            cs@ == watch_html@,
            player_response_find(watch_html@, 0) == player_response_find(watch_html@, p as int),
        decreases n + 1 - p,
    {
        if let Some((a, b)) = player_response_match_at_exec(&cs, p) {
            return Some(watch_html.substring_char(a, b));
        }
        if p == n {
            proof {
                assert(player_response_find(watch_html@, n + 1) is None);
            }
            return None;
        }
        p = p + 1;
    }
    None
}

} // verus!
