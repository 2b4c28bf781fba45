//! YouTube video identifiers and the URL shapes they are found in.
//!
//! The four accepted shapes (tried in this order) are:
//! - watch url: `^(https?://)?(www\.)?youtube.\w\w\w?/watch\?v=(?P<id>[a-zA-Z0-9_-]{11})(&.*)?$`
//! - embed url: `^(https?://)?(www\.)?youtube.\w\w\w?/embed/(?P<id>[a-zA-Z0-9_-]{11})\\?(\?.*)?$`
//! - share url: `^(https?://)?youtu\.be/(?P<id>[a-zA-Z0-9_-]{11})$`
//! - bare id:   `^(?P<id>[a-zA-Z0-9_-]{11})$`
//!
//! Each shape is matched with the same preference order as a backtracking
//! regular-expression engine (optional groups are tried present first).

use std::borrow::Cow;

use vstd::prelude::*;

use crate::error::Error;
use crate::text::{is_word_char, word_char, lit_at, spec_lit_at};
use vstd::string::{StrSliceExecFns, StringExecFns};

verus! {

// ---------------------------------------------------------------------------
// The grammar of identifiers
// ---------------------------------------------------------------------------

/// A character that may occur in a video id: `[a-zA-Z0-9_-]`.
pub open spec fn is_id_char(c: char) -> bool {
    ||| ('a' <= c && c <= 'z')
    ||| ('A' <= c && c <= 'Z')
    ||| ('0' <= c && c <= '9')
    ||| c == '_'
    ||| c == '-'
}

/// A character that a url may hold unescaped, in a path segment as in a query
/// parameter: an unreserved character of RFC 3986.
pub open spec fn is_url_unreserved(c: char) -> bool {
    ||| ('a' <= c && c <= 'z')
    ||| ('A' <= c && c <= 'Z')
    ||| ('0' <= c && c <= '9')
    ||| c == '-'
    ||| c == '.'
    ||| c == '_'
    ||| c == '~'
}

/// A video id can always be used as a url segment or a url parameter: every
/// one of its characters is unreserved.
pub proof fn lemma_id_is_url_safe(s: Seq<char>)
    requires
        is_valid_id(s),
    ensures
        forall|k: int| 0 <= k < s.len() ==> #[trigger] is_url_unreserved(s[k]),
{
    assert forall|k: int| 0 <= k < s.len() implies #[trigger] is_url_unreserved(s[k]) by {
        assert(is_id_char(s[k]));
    }
}

/// The length of every video id.
pub open spec fn id_len() -> int {
    11
}

/// `s` matches `^[a-zA-Z0-9_-]{11}$`.
pub open spec fn is_valid_id(s: Seq<char>) -> bool {
    &&& s.len() == id_len()
    &&& forall|k: int| 0 <= k < s.len() ==> #[trigger] is_id_char(s[k])
}

/// Eleven id characters start at position `i` of `s`.
pub open spec fn id_at(s: Seq<char>, i: int) -> bool {
    &&& 0 <= i
    &&& i + id_len() <= s.len()
    &&& forall|k: int| i <= k < i + id_len() ==> #[trigger] is_id_char(s[k])
}

/// No newline occurs in `s` from position `i` on (what `.*` before `$` needs).
pub open spec fn no_newline_from(s: Seq<char>, i: int) -> bool {
    forall|k: int| i <= k < s.len() ==> #[trigger] s[k] != '\n'
}

/// The first of two alternatives that succeeds.
pub open spec fn first_some(a: Option<int>, b: Option<int>) -> Option<int> {
    if a is Some { a } else { b }
}

/// `(&.*)?$` at position `k`.
pub open spec fn watch_tail(s: Seq<char>, k: int) -> bool {
    ||| k == s.len()
    ||| (0 <= k < s.len() && s[k] == '&' && no_newline_from(s, k + 1))
}

/// `(\?.*)?$` at position `k`.
pub open spec fn query_tail(s: Seq<char>, k: int) -> bool {
    ||| k == s.len()
    ||| (0 <= k < s.len() && s[k] == '?' && no_newline_from(s, k + 1))
}

/// `\\?(\?.*)?$` at position `k`.
pub open spec fn embed_tail(s: Seq<char>, k: int) -> bool {
    ||| (0 <= k < s.len() && s[k] == '\\' && query_tail(s, k + 1))
    ||| query_tail(s, k)
}

/// The path that follows the domain in a youtube url.
#[derive(Clone, Copy, Debug, PartialEq, Eq, Structural)]
pub enum PathShape {
    /// `/watch\?v=<id>(&.*)?$`
    Watch,
    /// `/embed/<id>\\?(\?.*)?$`
    Embed,
    /// `/shorts/<id>(\?.*)?$`
    Shorts,
}

/// The path after the domain, in the given shape. Gives the position of the id.
pub open spec fn path_match(s: Seq<char>, j: int, shape: PathShape) -> Option<int> {
    match shape {
        PathShape::Watch => if spec_lit_at(s, j, "/watch?v="@) && id_at(s, j + 9) && watch_tail(
            s,
            j + 20,
        ) {
            Some(j + 9)
        } else {
            None
        },
        PathShape::Embed => if spec_lit_at(s, j, "/embed/"@) && id_at(s, j + 7) && embed_tail(
            s,
            j + 18,
        ) {
            Some(j + 7)
        } else {
            None
        },
        PathShape::Shorts => if spec_lit_at(s, j, "/shorts/"@) && id_at(s, j + 8) && query_tail(
            s,
            j + 19,
        ) {
            Some(j + 8)
        } else {
            None
        },
    }
}

/// `youtube.\w\w\w?` at position `i`, followed by the path.
pub open spec fn domain_match(s: Seq<char>, i: int, shape: PathShape) -> Option<int> {
    if spec_lit_at(s, i, "youtube"@) && i + 10 <= s.len() && s[i + 7] != '\n' && word_char(
        s[i + 8],
    ) && word_char(s[i + 9]) {
        let three = if i + 10 < s.len() && word_char(s[i + 10]) {
            path_match(s, i + 11, shape)
        } else {
            None
        };
        first_some(three, path_match(s, i + 10, shape))
    } else {
        None
    }
}

/// `(www\.)?` at position `i`, followed by the domain.
pub open spec fn www_match(s: Seq<char>, i: int, shape: PathShape) -> Option<int> {
    let with_www = if spec_lit_at(s, i, "www."@) {
        domain_match(s, i + 4, shape)
    } else {
        None
    };
    first_some(with_www, domain_match(s, i, shape))
}

/// `^(https?://)?(www\.)?youtube.\w\w\w?` followed by the path.
pub open spec fn youtube_url_match(s: Seq<char>, shape: PathShape) -> Option<int> {
    let https = if spec_lit_at(s, 0, "https://"@) {
        www_match(s, 8, shape)
    } else {
        None
    };
    let http = if spec_lit_at(s, 0, "http://"@) {
        www_match(s, 7, shape)
    } else {
        None
    };
    first_some(https, first_some(http, www_match(s, 0, shape)))
}

/// The position of the id in a watch url, if `s` is one.
pub open spec fn watch_url_match(s: Seq<char>) -> Option<int> {
    youtube_url_match(s, PathShape::Watch)
}

/// The position of the id in an embed url, if `s` is one.
pub open spec fn embed_url_match(s: Seq<char>) -> Option<int> {
    youtube_url_match(s, PathShape::Embed)
}

/// The position of the id in a shorts url, if `s` is one.
pub open spec fn shorts_url_match(s: Seq<char>) -> Option<int> {
    youtube_url_match(s, PathShape::Shorts)
}

/// `youtu\.be/<id>$` at position `i`.
pub open spec fn share_rest(s: Seq<char>, i: int) -> Option<int> {
    if spec_lit_at(s, i, "youtu.be/"@) && id_at(s, i + 9) && i + 20 == s.len() {
        Some(i + 9)
    } else {
        None
    }
}

/// The position of the id in a share url, if `s` is one.
pub open spec fn share_url_match(s: Seq<char>) -> Option<int> {
    let https = if spec_lit_at(s, 0, "https://"@) {
        share_rest(s, 8)
    } else {
        None
    };
    let http = if spec_lit_at(s, 0, "http://"@) {
        share_rest(s, 7)
    } else {
        None
    };
    first_some(https, first_some(http, share_rest(s, 0)))
}

/// The position of the id if `s` is a bare id.
pub open spec fn bare_id_match(s: Seq<char>) -> Option<int> {
    if is_valid_id(s) {
        Some(0)
    } else {
        None
    }
}

/// Where the id starts in `s`, trying the watch, embed, shorts, share and
/// bare shapes in turn.
pub open spec fn raw_id_match(s: Seq<char>) -> Option<int> {
    first_some(
        watch_url_match(s),
        first_some(
            embed_url_match(s),
            first_some(shorts_url_match(s), first_some(share_url_match(s), bare_id_match(s))),
        ),
    )
}

/// The id that `from_raw` extracts from `s`, if any.
pub open spec fn raw_id(s: Seq<char>) -> Option<Seq<char>> {
    match raw_id_match(s) {
        Some(k) => Some(s.subrange(k, k + id_len())),
        None => None,
    }
}

/// The text of the watch url of an id.
pub open spec fn watch_url_text(id: Seq<char>) -> Seq<char> {
    "https://youtube.com/watch?v="@ + id
}

/// The text of the embed url of an id.
pub open spec fn embed_url_text(id: Seq<char>) -> Seq<char> {
    "https://youtube.com/embed/"@ + id
}

/// The text of the shorts url of an id.
pub open spec fn shorts_url_text(id: Seq<char>) -> Seq<char> {
    "https://youtube.com/shorts/"@ + id
}

/// The text of the share url of an id.
pub open spec fn share_url_text(id: Seq<char>) -> Seq<char> {
    "https://youtu.be/"@ + id
}

// ---------------------------------------------------------------------------
// Facts about the grammar
// ---------------------------------------------------------------------------

proof fn lemma_path_match_id(s: Seq<char>, j: int, shape: PathShape)
    ensures
        path_match(s, j, shape) matches Some(k) ==> id_at(s, k),
{
}

proof fn lemma_domain_match_id(s: Seq<char>, i: int, shape: PathShape)
    ensures
        domain_match(s, i, shape) matches Some(k) ==> id_at(s, k),
{
    lemma_path_match_id(s, i + 10, shape);
    lemma_path_match_id(s, i + 11, shape);
}

proof fn lemma_www_match_id(s: Seq<char>, i: int, shape: PathShape)
    ensures
        www_match(s, i, shape) matches Some(k) ==> id_at(s, k),
{
    lemma_domain_match_id(s, i, shape);
    lemma_domain_match_id(s, i + 4, shape);
}

/// Whatever shape matched, eleven id characters stand at the position it gives.
pub proof fn lemma_raw_id_match_is_id(s: Seq<char>)
    ensures
        raw_id_match(s) matches Some(k) ==> id_at(s, k),
        raw_id(s) matches Some(id) ==> is_valid_id(id),
{
    lemma_www_match_id(s, 0, PathShape::Watch);
    lemma_www_match_id(s, 7, PathShape::Watch);
    lemma_www_match_id(s, 8, PathShape::Watch);
    lemma_www_match_id(s, 0, PathShape::Embed);
    lemma_www_match_id(s, 7, PathShape::Embed);
    lemma_www_match_id(s, 8, PathShape::Embed);
    lemma_www_match_id(s, 0, PathShape::Shorts);
    lemma_www_match_id(s, 7, PathShape::Shorts);
    lemma_www_match_id(s, 8, PathShape::Shorts);
    if let Some(k) = raw_id_match(s) {
        let id = s.subrange(k, k + id_len());
        assert forall|m: int| 0 <= m < id.len() implies #[trigger] is_id_char(id[m]) by {
            assert(id[m] == s[k + m]);
        }
    }
}

/// The urls built from an id, and the id itself, all give that id back:
/// `from_raw` on `watch_url`, `embed_url`, `share_url`, the shorts url
/// `https://youtube.com/shorts/<id>` or `as_str` of an id yields the same id.
pub proof fn lemma_url_roundtrip(id: Seq<char>)
    requires
        is_valid_id(id),
    ensures
        raw_id(watch_url_text(id)) == Some(id),
        raw_id(embed_url_text(id)) == Some(id),
        raw_id(shorts_url_text(id)) == Some(id),
        raw_id(share_url_text(id)) == Some(id),
        raw_id(id) == Some(id),
{
    reveal_strlit("https://youtube.com/shorts/");
    reveal_strlit("/shorts/");
    reveal_strlit("https://youtube.com/watch?v=");
    reveal_strlit("https://youtube.com/embed/");
    reveal_strlit("https://youtu.be/");
    reveal_strlit("https://");
    reveal_strlit("http://");
    reveal_strlit("www.");
    reveal_strlit("youtube");
    reveal_strlit("/watch?v=");
    reveal_strlit("/embed/");
    reveal_strlit("youtu.be/");
    let w = watch_url_text(id);
    let e = embed_url_text(id);
    let sh = share_url_text(id);
    // the watch url
    assert(spec_lit_at(w, 0, "https://"@)) by {
        assert(w.subrange(0, 8) =~= "https://"@);
    }
    assert(!spec_lit_at(w, 8, "www."@)) by {
        assert(w.subrange(8, 12)[0] != "www."@[0]);
    }
    assert(spec_lit_at(w, 8, "youtube"@)) by {
        assert(w.subrange(8, 15) =~= "youtube"@);
    }
    assert(spec_lit_at(w, 19, "/watch?v="@)) by {
        assert(w.subrange(19, 28) =~= "/watch?v="@);
    }
    assert(id_at(w, 28)) by {
        assert forall|k: int| 28 <= k < 39 implies #[trigger] is_id_char(w[k]) by {
            assert(w[k] == id[k - 28]);
        }
    }
    assert(w[16] == 'c' && w[17] == 'o' && w[18] == 'm' && w[15] == '.');
    assert(path_match(w, 19, PathShape::Watch) == Some(28int));
    assert(domain_match(w, 8, PathShape::Watch) == Some(28int));
    assert(raw_id_match(w) == Some(28int));
    assert(w.subrange(28, 39) =~= id);
    // the embed url
    assert(spec_lit_at(e, 0, "https://"@)) by {
        assert(e.subrange(0, 8) =~= "https://"@);
    }
    assert(!spec_lit_at(e, 8, "www."@)) by {
        assert(e.subrange(8, 12)[0] != "www."@[0]);
    }
    assert(spec_lit_at(e, 8, "youtube"@)) by {
        assert(e.subrange(8, 15) =~= "youtube"@);
    }
    assert(!spec_lit_at(e, 19, "/watch?v="@)) by {
        assert(e.subrange(19, 28)[1] != "/watch?v="@[1]);
    }
    assert(!spec_lit_at(e, 18, "/watch?v="@)) by {
        assert(e.subrange(18, 27)[0] != "/watch?v="@[0]);
    }
    assert(!spec_lit_at(e, 0, "http://"@)) by {
        assert(e.subrange(0, 7)[4] != "http://"@[4]);
    }
    assert(!spec_lit_at(e, 0, "www."@)) by {
        assert(e.subrange(0, 4)[0] != "www."@[0]);
    }
    assert(!spec_lit_at(e, 0, "youtube"@)) by {
        assert(e.subrange(0, 7)[0] != "youtube"@[0]);
    }
    assert(spec_lit_at(e, 19, "/embed/"@)) by {
        assert(e.subrange(19, 26) =~= "/embed/"@);
    }
    assert(id_at(e, 26)) by {
        assert forall|k: int| 26 <= k < 37 implies #[trigger] is_id_char(e[k]) by {
            assert(e[k] == id[k - 26]);
        }
    }
    assert(e[16] == 'c' && e[17] == 'o' && e[18] == 'm' && e[15] == '.');
    assert(watch_url_match(e) is None);
    assert(embed_url_match(e) == Some(26int));
    assert(e.subrange(26, 37) =~= id);
    // the shorts url
    let so = shorts_url_text(id);
    assert(spec_lit_at(so, 0, "https://"@)) by {
        assert(so.subrange(0, 8) =~= "https://"@);
    }
    assert(!spec_lit_at(so, 8, "www."@)) by {
        assert(so.subrange(8, 12)[0] != "www."@[0]);
    }
    assert(spec_lit_at(so, 8, "youtube"@)) by {
        assert(so.subrange(8, 15) =~= "youtube"@);
    }
    assert(!spec_lit_at(so, 19, "/watch?v="@)) by {
        assert(so.subrange(19, 28)[1] != "/watch?v="@[1]);
    }
    assert(!spec_lit_at(so, 18, "/watch?v="@)) by {
        assert(so.subrange(18, 27)[0] != "/watch?v="@[0]);
    }
    assert(!spec_lit_at(so, 19, "/embed/"@)) by {
        assert(so.subrange(19, 26)[1] != "/embed/"@[1]);
    }
    assert(!spec_lit_at(so, 18, "/embed/"@)) by {
        assert(so.subrange(18, 25)[0] != "/embed/"@[0]);
    }
    assert(!spec_lit_at(so, 0, "http://"@)) by {
        assert(so.subrange(0, 7)[4] != "http://"@[4]);
    }
    assert(!spec_lit_at(so, 0, "www."@)) by {
        assert(so.subrange(0, 4)[0] != "www."@[0]);
    }
    assert(!spec_lit_at(so, 0, "youtube"@)) by {
        assert(so.subrange(0, 7)[0] != "youtube"@[0]);
    }
    assert(spec_lit_at(so, 19, "/shorts/"@)) by {
        assert(so.subrange(19, 27) =~= "/shorts/"@);
    }
    assert(id_at(so, 27)) by {
        assert forall|k: int| 27 <= k < 38 implies #[trigger] is_id_char(so[k]) by {
            assert(so[k] == id[k - 27]);
        }
    }
    assert(so[16] == 'c' && so[17] == 'o' && so[18] == 'm' && so[15] == '.');
    assert(watch_url_match(so) is None);
    assert(embed_url_match(so) is None);
    assert(shorts_url_match(so) == Some(27int));
    assert(so.subrange(27, 38) =~= id);
    // the share url
    assert(spec_lit_at(sh, 0, "https://"@)) by {
        assert(sh.subrange(0, 8) =~= "https://"@);
    }
    assert(!spec_lit_at(sh, 8, "www."@)) by {
        assert(sh.subrange(8, 12)[0] != "www."@[0]);
    }
    assert(!spec_lit_at(sh, 8, "youtube"@)) by {
        assert(sh.subrange(8, 15)[5] != "youtube"@[5]);
    }
    assert(!spec_lit_at(sh, 0, "http://"@)) by {
        assert(sh.subrange(0, 7)[4] != "http://"@[4]);
    }
    assert(!spec_lit_at(sh, 0, "www."@)) by {
        assert(sh.subrange(0, 4)[0] != "www."@[0]);
    }
    assert(!spec_lit_at(sh, 0, "youtube"@)) by {
        assert(sh.subrange(0, 7)[0] != "youtube"@[0]);
    }
    assert(spec_lit_at(sh, 8, "youtu.be/"@)) by {
        assert(sh.subrange(8, 17) =~= "youtu.be/"@);
    }
    assert(id_at(sh, 17)) by {
        assert forall|k: int| 17 <= k < 28 implies #[trigger] is_id_char(sh[k]) by {
            assert(sh[k] == id[k - 17]);
        }
    }
    assert(watch_url_match(sh) is None);
    assert(embed_url_match(sh) is None);
    assert(shorts_url_match(sh) is None);
    assert(share_url_match(sh) == Some(17int));
    assert(sh.subrange(17, 28) =~= id);
    // the bare id: no id character is ':', '.' or '/'
    assert(!spec_lit_at(id, 0, "https://"@)) by {
        assert(is_id_char(id[5]));
        assert(id.subrange(0, 8)[5] != "https://"@[5]);
    }
    assert(!spec_lit_at(id, 0, "http://"@)) by {
        assert(is_id_char(id[4]));
        assert(id.subrange(0, 7)[4] != "http://"@[4]);
    }
    assert(!spec_lit_at(id, 0, "www."@)) by {
        assert(is_id_char(id[3]));
        assert(id.subrange(0, 4)[3] != "www."@[3]);
    }
    assert(!spec_lit_at(id, 0, "youtu.be/"@)) by {
        assert(is_id_char(id[5]));
        assert(id.subrange(0, 9)[5] != "youtu.be/"@[5]);
    }
    assert(watch_url_match(id) is None);
    assert(embed_url_match(id) is None);
    assert(shorts_url_match(id) is None);
    assert(share_url_match(id) is None);
    assert(id.subrange(0, 11) =~= id);
}

// ---------------------------------------------------------------------------
// Matchers
// ---------------------------------------------------------------------------

fn no_newline_after(s: &str, n: usize, i: usize) -> (b: bool)
    requires
        n == s@.len(),
    ensures
        b == no_newline_from(s@, i as int),
{
    let mut k = i;
    while k < n
        invariant
            n == s@.len(),
            i <= k || n <= k,
            forall|m: int| i <= m < k ==> #[trigger] s@[m] != '\n',
        decreases n - k,
    {
        if s.get_char(k) == '\n' {
            return false;
        }
        k = k + 1;
    }
    true
}

fn id_chars_at(s: &str, n: usize, i: usize) -> (b: bool)
    requires
        n == s@.len(),
    ensures
        b == id_at(s@, i as int),
{
    if i > n || n - i < 11 {
        return false;
    }
    let mut k = i;
    while k < i + 11
        invariant
            n == s@.len(),
            i + 11 <= n,
            i <= k <= i + 11,
            forall|m: int| i <= m < k ==> #[trigger] is_id_char(s@[m]),
        decreases i + 11 - k,
    {
        if !is_id_char_exec(s.get_char(k)) {
            return false;
        }
        k = k + 1;
    }
    true
}

fn is_id_char_exec(c: char) -> (b: bool)
    ensures
        b == is_id_char(c),
{
    ('a' <= c && c <= 'z') || ('A' <= c && c <= 'Z') || ('0' <= c && c <= '9') || c == '_'
        || c == '-'
}

fn watch_tail_exec(s: &str, n: usize, k: usize) -> (b: bool)
    requires
        n == s@.len(),
    ensures
        b == watch_tail(s@, k as int),
{
    if k == n {
        true
    } else if k < n && s.get_char(k) == '&' {
        no_newline_after(s, n, k + 1)
    } else {
        false
    }
}

fn query_tail_exec(s: &str, n: usize, k: usize) -> (b: bool)
    requires
        n == s@.len(),
    ensures
        b == query_tail(s@, k as int),
{
    if k == n {
        true
    } else if k < n && s.get_char(k) == '?' {
        no_newline_after(s, n, k + 1)
    } else {
        false
    }
}

fn embed_tail_exec(s: &str, n: usize, k: usize) -> (b: bool)
    requires
        n == s@.len(),
    ensures
        b == embed_tail(s@, k as int),
{
    if k < n && s.get_char(k) == '\\' && query_tail_exec(s, n, k + 1) {
        true
    } else {
        query_tail_exec(s, n, k)
    }
}

/// The exec form of an optional id position: `Some(k)` stands for `Some(k as int)`.
pub open spec fn opt_pos(r: Option<usize>) -> Option<int> {
    match r {
        Some(k) => Some(k as int),
        None => None,
    }
}

fn path_match_exec(s: &str, n: usize, j: usize, shape: PathShape) -> (r: Option<usize>)
    requires
        n == s@.len(),
    ensures
        opt_pos(r) == path_match(s@, j as int, shape),
{
    if j > n {
        return None;
    }
    proof {
        reveal_strlit("/watch?v=");
        reveal_strlit("/embed/");
        reveal_strlit("/shorts/");
    }
    match shape {
        PathShape::Watch => if lit_at(s, n, j, "/watch?v=") && id_chars_at(s, n, j + 9)
            && watch_tail_exec(s, n, j + 20) {
            Some(j + 9)
        } else {
            None
        },
        PathShape::Embed => if lit_at(s, n, j, "/embed/") && id_chars_at(s, n, j + 7)
            && embed_tail_exec(s, n, j + 18) {
            Some(j + 7)
        } else {
            None
        },
        PathShape::Shorts => if lit_at(s, n, j, "/shorts/") && id_chars_at(s, n, j + 8)
            && query_tail_exec(s, n, j + 19) {
            Some(j + 8)
        } else {
            None
        },
    }
}

fn domain_match_exec(s: &str, n: usize, i: usize, shape: PathShape) -> (r: Option<usize>)
    requires
        n == s@.len(),
    ensures
        opt_pos(r) == domain_match(s@, i as int, shape),
{
    if i > n || n - i < 10 {
        return None;
    }
    if lit_at(s, n, i, "youtube") && s.get_char(i + 7) != '\n' && is_word_char(s.get_char(i + 8))
        && is_word_char(s.get_char(i + 9)) {
        if i + 10 < n && is_word_char(s.get_char(i + 10)) {
            let three = path_match_exec(s, n, i + 11, shape);
            if three.is_some() {
                return three;
            }
        }
        path_match_exec(s, n, i + 10, shape)
    } else {
        None
    }
}

fn www_match_exec(s: &str, n: usize, i: usize, shape: PathShape) -> (r: Option<usize>)
    requires
        n == s@.len(),
    ensures
        opt_pos(r) == www_match(s@, i as int, shape),
{
    proof {
        reveal_strlit("www.");
    }
    if i <= n && lit_at(s, n, i, "www.") {
        let with_www = domain_match_exec(s, n, i + 4, shape);
        if with_www.is_some() {
            return with_www;
        }
    }
    domain_match_exec(s, n, i, shape)
}

fn youtube_url_match_exec(s: &str, n: usize, shape: PathShape) -> (r: Option<usize>)
    requires
        n == s@.len(),
    ensures
        opt_pos(r) == youtube_url_match(s@, shape),
{
    if lit_at(s, n, 0, "https://") {
        let https = www_match_exec(s, n, 8, shape);
        if https.is_some() {
            return https;
        }
    }
    if lit_at(s, n, 0, "http://") {
        let http = www_match_exec(s, n, 7, shape);
        if http.is_some() {
            return http;
        }
    }
    www_match_exec(s, n, 0, shape)
}

fn share_rest_exec(s: &str, n: usize, i: usize) -> (r: Option<usize>)
    requires
        n == s@.len(),
        i <= 8,
    ensures
        opt_pos(r) == share_rest(s@, i as int),
{
    if lit_at(s, n, i, "youtu.be/") && id_chars_at(s, n, i + 9) && i + 20 == n {
        Some(i + 9)
    } else {
        None
    }
}

fn share_url_match_exec(s: &str, n: usize) -> (r: Option<usize>)
    requires
        n == s@.len(),
    ensures
        opt_pos(r) == share_url_match(s@),
{
    if lit_at(s, n, 0, "https://") {
        let https = share_rest_exec(s, n, 8);
        if https.is_some() {
            return https;
        }
    }
    if lit_at(s, n, 0, "http://") {
        let http = share_rest_exec(s, n, 7);
        if http.is_some() {
            return http;
        }
    }
    share_rest_exec(s, n, 0)
}

/// Whether `s` matches `^[a-zA-Z0-9_-]{11}$`.
pub fn is_valid_id_str(s: &str) -> (b: bool)
    ensures
        b == is_valid_id(s@),
{
    let n = s.unicode_len();
    n == 11 && id_chars_at(s, n, 0)
}

/// Where the id starts in `s`, trying the watch, embed, shorts, share and bare
/// shapes in turn.
pub fn raw_id_match_exec(s: &str) -> (r: Option<usize>)
    ensures
        opt_pos(r) == raw_id_match(s@),
{
    let n = s.unicode_len();
    let watch = youtube_url_match_exec(s, n, PathShape::Watch);
    if watch.is_some() {
        return watch;
    }
    let embed = youtube_url_match_exec(s, n, PathShape::Embed);
    if embed.is_some() {
        return embed;
    }
    let shorts = youtube_url_match_exec(s, n, PathShape::Shorts);
    if shorts.is_some() {
        return shorts;
    }
    let share = share_url_match_exec(s, n);
    if share.is_some() {
        return share;
    }
    if n == 11 && id_chars_at(s, n, 0) {
        Some(0)
    } else {
        None
    }
}

// ---------------------------------------------------------------------------
// The identifier type
// ---------------------------------------------------------------------------

/// A YouTube video id, borrowed from the text it was found in or owned.
///
/// ## Guarantees
/// - The id always matches `^[a-zA-Z0-9_-]{11}$`.
/// - The id can therefore always be used as a url segment and as a url parameter.
///
/// ## Ownership
/// `from_raw` and `from_str` create the borrowed form, with the lifetime of their
/// input, so no allocation is needed. `IdBuf::from_string`, `into_owned` and
/// `as_owned` give the owned form (`IdBuf`, an alias for `Id<'static>`).
#[derive(Debug, Hash)]
pub struct Id<'a>(Cow<'a, str>);

/// An owned video id.
pub type IdBuf = Id<'static>;

impl<'a> Id<'a> {
    #[verifier::type_invariant]
    spec fn id_is_valid(self) -> bool {
        is_valid_id(self.0@)
    }

    /// Whether the id owns its text.
    pub closed spec fn owned(self) -> bool {
        self.0 is Owned
    }

    /// Extracts the id from any of the accepted shapes: a watch, embed, shorts
    /// or share url, or the bare id. The shapes are tried in that order.
    pub fn from_raw(raw: &'a str) -> (r: Result<Self, Error>)
        ensures
            match r {
                Ok(id) => raw_id(raw@) == Some(id@) && !id.owned(),
                Err(e) => raw_id(raw@) is None && e is BadIdFormat,
            },
    {
        match raw_id_match_exec(raw) {
            Some(k) => {
                proof {
                    lemma_raw_id_match_is_id(raw@);
                }
                let id = raw.substring_char(k, k + 11);
                Ok(Id(Cow::Borrowed(id)))
            },
            None => Err(Error::BadIdFormat),
        }
    }

    /// Accepts only the bare id.
    pub fn from_str(id: &'a str) -> (r: Result<Self, Error>)
        ensures
            match r {
                Ok(x) => is_valid_id(id@) && x@ == id@ && !x.owned(),
                Err(e) => !is_valid_id(id@) && e is BadIdFormat,
            },
    {
        if is_valid_id_str(id) {
            Ok(Id(Cow::Borrowed(id)))
        } else {
            Err(Error::BadIdFormat)
        }
    }

    /// Whether the id borrows its text.
    pub fn is_borrowed(&self) -> (b: bool)
        ensures
            b == !self.owned(),
    {
        match &self.0 {
            Cow::Borrowed(_) => true,
            Cow::Owned(_) => false,
        }
    }

    /// Whether the id owns its text.
    pub fn is_owned(&self) -> (b: bool)
        ensures
            b == self.owned(),
    {
        match &self.0 {
            Cow::Borrowed(_) => false,
            Cow::Owned(_) => true,
        }
    }

    /// Makes the id own its text, in place.
    pub fn make_owned(&mut self) -> (r: &mut Self)
        ensures
            r@ == old(self)@,
            r.owned(),
            *final(self) == *final(r),
    {
        proof {
            use_type_invariant(&*self);
        }
        let owned: Option<String> = match &self.0 {
            Cow::Borrowed(id) => Some((*id).to_owned()),
            Cow::Owned(_) => None,
        };
        if let Some(text) = owned {
            self.0 = Cow::Owned(text);
        }
        self
    }

    /// The owned form of the id, with the same text.
    pub fn into_owned(self) -> (r: IdBuf)
        ensures
            r@ == self@,
            r.owned(),
    {
        proof {
            use_type_invariant(&self);
        }
        match self.0 {
            Cow::Owned(id) => Id(Cow::Owned(id)),
            Cow::Borrowed(id) => Id(Cow::Owned(id.to_owned())),
        }
    }

    /// An owned copy of the id.
    pub fn as_owned(&self) -> (r: IdBuf)
        ensures
            r@ == self@,
            r.owned(),
    {
        proof {
            use_type_invariant(self);
        }
        Id(Cow::Owned(self.as_str().to_owned()))
    }

    /// A borrowed id with the same text, bound to the lifetime of `self`.
    pub fn as_borrowed(&'a self) -> (r: Self)
        ensures
            r@ == self@,
            !r.owned(),
    {
        proof {
            use_type_invariant(self);
        }
        Id(Cow::Borrowed(self.as_str()))
    }

    /// The id's text, which always matches `^[a-zA-Z0-9_-]{11}$`.
    pub fn as_str(&self) -> (s: &str)
        ensures
            s@ == self@,
            is_valid_id(s@),
    {
        proof {
            use_type_invariant(self);
        }
        match &self.0 {
            Cow::Borrowed(id) => id,
            Cow::Owned(id) => id.as_str(),
        }
    }

    /// The text of the url `https://youtube.com/watch?v=<id>`.
    pub fn watch_url(&self) -> (url: String)
        ensures
            url@ == watch_url_text(self@),
    {
        let mut url = String::from_str("https://youtube.com/watch?v=");
        url.append(self.as_str());
        url
    }

    /// The text of the url `https://youtube.com/embed/<id>`.
    pub fn embed_url(&self) -> (url: String)
        ensures
            url@ == embed_url_text(self@),
    {
        let mut url = String::from_str("https://youtube.com/embed/");
        url.append(self.as_str());
        url
    }

    /// The text of the url `https://youtu.be/<id>`.
    pub fn share_url(&self) -> (url: String)
        ensures
            url@ == share_url_text(self@),
    {
        let mut url = String::from_str("https://youtu.be/");
        url.append(self.as_str());
        url
    }
}

impl<'a> View for Id<'a> {
    type V = Seq<char>;

    closed spec fn view(&self) -> Seq<char> {
        self.0@
    }
}

impl IdBuf {
    /// Takes ownership of `id` if it is a bare id; gives it back unchanged otherwise.
    pub fn from_string(id: String) -> (r: Result<Self, String>)
        ensures
            match r {
                Ok(x) => is_valid_id(id@) && x@ == id@ && x.owned(),
                Err(back) => !is_valid_id(id@) && back == id,
            },
    {
        if is_valid_id_str(id.as_str()) {
            Ok(Id(Cow::Owned(id)))
        } else {
            Err(id)
        }
    }
}

impl<'a> Clone for Id<'a> {
    fn clone(&self) -> (r: Self)
        ensures
            r@ == self@,
            r.owned() == self.owned(),
    {
        proof {
            use_type_invariant(self);
        }
        match &self.0 {
            Cow::Borrowed(id) => Id(Cow::Borrowed(*id)),
            Cow::Owned(id) => Id(Cow::Owned(id.clone())),
        }
    }
}

} // verus!
