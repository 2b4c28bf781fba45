//! Channels: the identifier in a channel url's path, the pages that may list
//! a channel's videos, and how such a page tells that it failed.

use vstd::prelude::*;

use crate::error::Error;
use crate::urls::{url_path, url_path_of};
use crate::text::{collect_chars, is_word_char, lit_at_chars, spec_lit_at, word_char};
use vstd::string::{StrSliceExecFns, StringExecFns};

verus! {

/// A character of the class `[%\d\w_\-]` (`\d` and `_` being part of `\w`).
pub open spec fn is_channel_id_char(c: char) -> bool {
    c == '%' || c == '-' || word_char(c)
}

/// The path prefixes that come before a channel's identifier, in the order in
/// which they are tried.
pub open spec fn channel_prefix(k: int) -> Seq<char> {
    if k == 0 {
        "/c/"@
    } else if k == 1 {
        "/channel/"@
    } else if k == 2 {
        "/u/"@
    } else if k == 3 {
        "/user/"@
    } else {
        "/@"@
    }
}

/// The number of channel path prefixes.
pub open spec fn channel_prefix_count() -> int {
    5
}

/// The end of the run of identifier characters from position `i`.
pub open spec fn id_run_end(cs: Seq<char>, i: int) -> int
    decreases cs.len() - i,
{
    if 0 <= i < cs.len() && is_channel_id_char(cs[i]) {
        id_run_end(cs, i + 1)
    } else {
        i
    }
}

/// The identifier captured by the pattern `<prefix>([%\d\w_\-]+)(\/.*)?`
/// when a match starts at `p`.
pub open spec fn channel_match_at(cs: Seq<char>, p: int, prefix: Seq<char>) -> Option<(int, int)> {
    let a = p + prefix.len();
    if spec_lit_at(cs, p, prefix) && a < cs.len() && is_channel_id_char(cs[a]) {
        Some((a, id_run_end(cs, a)))
    } else {
        None
    }
}

/// The identifier captured by the leftmost match at or after `p`.
pub open spec fn channel_find(cs: Seq<char>, p: int, prefix: Seq<char>) -> Option<(int, int)>
    decreases cs.len() + 1 - p,
{
    if p < 0 || p > cs.len() {
        None
    } else {
        match channel_match_at(cs, p, prefix) {
            Some(span) => Some(span),
            None => channel_find(cs, p + 1, prefix),
        }
    }
}

/// The identifier of the first prefix, from the `k`-th on, whose pattern matches.
pub open spec fn channel_id_from(cs: Seq<char>, k: int) -> Option<(int, int)>
    decreases channel_prefix_count() - k,
{
    if k < 0 || k >= channel_prefix_count() {
        None
    } else {
        match channel_find(cs, 0, channel_prefix(k)) {
            Some(span) => Some(span),
            None => channel_id_from(cs, k + 1),
        }
    }
}

fn is_channel_id_char_exec(c: char) -> (b: bool)
    ensures
        b == is_channel_id_char(c),
{
    c == '%' || c == '-' || is_word_char(c)
}

fn id_run_end_exec(cs: &Vec<char>, i: usize) -> (r: usize)
    requires
        i <= cs@.len(),
    ensures
        r == id_run_end(cs@, i as int),
        i <= r <= cs@.len(),
{
    let mut k = i;
    while k < cs.len() && is_channel_id_char_exec(cs[k])
        invariant
            i <= k <= cs@.len(),
            id_run_end(cs@, i as int) == id_run_end(cs@, k as int),
        decreases cs@.len() - k,
    {
        k = k + 1;
    }
    k
}

fn channel_find_exec(cs: &Vec<char>, prefix: &str) -> (r: Option<(usize, usize)>)
    ensures
        match r {
            Some((a, b)) => channel_find(cs@, 0, prefix@) == Some((a as int, b as int)) && a <= b
                <= cs@.len(),
            None => channel_find(cs@, 0, prefix@) is None,
        },
{
    let n = cs.len();
    let m = prefix.unicode_len();
    let mut p: usize = 0;
    while p <= n
        invariant
            n == cs@.len(),
            m == prefix@.len(),
            channel_find(cs@, 0, prefix@) == channel_find(cs@, p as int, prefix@),
        decreases n + 1 - p,
    {
        if lit_at_chars(cs, p, prefix) && m < n - p && is_channel_id_char_exec(cs[p + m]) {
            let a = p + m;
            let b = id_run_end_exec(cs, a);
            return Some((a, b));
        }
        if p == n {
            proof {
                assert(channel_find(cs@, p + 1, prefix@) is None);
            }
            return None;
        }
        p = p + 1;
    }
    None
}

/// The channel identifier that a url's path holds: what the first of the
/// patterns `/c/(id)`, `/channel/(id)`, `/u/(id)`, `/user/(id)`, `/@(id)`
/// that matches the path captures, `id` being a run of `[%\d\w_\-]`.
pub fn channel_id_from_path(path: &str) -> (r: Option<&str>)
    ensures
        match r {
            Some(id) => channel_id_from(path@, 0) matches Some((a, b)) && id@ == path@.subrange(
                a,
                b,
            ),
            None => channel_id_from(path@, 0) is None,
        },
{
    proof {
        reveal_strlit("/c/");
        reveal_strlit("/channel/");
        reveal_strlit("/u/");
        reveal_strlit("/user/");
        reveal_strlit("/@");
        assert(channel_id_from(path@, 5) is None);
    }
    let cs = collect_chars(path);
    let prefixes = ["/c/", "/channel/", "/u/", "/user/", "/@"];
    let mut k: usize = 0;
    while k < 5
        invariant
            k <= 5,
            cs@ == path@,
            prefixes@.len() == 5,
            forall|j: int| 0 <= j < 5 ==> #[trigger] prefixes@[j]@ == channel_prefix(j),
            channel_id_from(path@, 0) == channel_id_from(path@, k as int),
        decreases 5 - k,
    {
        if let Some((a, b)) = channel_find_exec(&cs, prefixes[k]) {
            return Some(path.substring_char(a, b));
        }
        k = k + 1;
    }
    None
}

/// What the channel identifier of the address `url` is: what the channel
/// patterns capture in its path.
pub open spec fn channel_id_result(url: Seq<char>, r: Result<String, Error>) -> bool {
    match url_path_of(url) {
        None => r matches Err(e) && e is UrlParseError,
        Some(p) => match channel_id_from(p, 0) {
            Some((a, b)) => r matches Ok(id) && id@ == p.subrange(a, b),
            None => r matches Err(e) && e is BadIdFormat,
        },
    }
}

/// The channel identifier of the address `url`, taken from its path as
/// `channel_id_from_path` takes it.
pub fn channel_id_from_url(url: &str) -> (r: Result<String, Error>)
    ensures
        channel_id_result(url@, r),
{
    let path = match url_path(url) {
        Ok(p) => p,
        Err(e) => {
            return Err(Error::UrlParseError(e));
        },
    };
    match channel_id_from_path(path.as_str()) {
        Some(id) => Ok(id.to_string()),
        None => Err(Error::BadIdFormat),
    }
}

/// The address of the page that lists the videos of channel `id` under `prefix`.
pub open spec fn channel_videos_url(prefix: Seq<char>, id: Seq<char>) -> Seq<char> {
    "https://www.youtube.com"@ + prefix + id + "/videos"@
}

/// The addresses at which the videos of channel `id` may be listed, one per
/// channel path prefix, in the order in which they are tried.
pub fn channel_videos_urls(id: &str) -> (r: Vec<String>)
    ensures
        r@.len() == channel_prefix_count(),
        forall|k: int| 0 <= k < r@.len() ==> #[trigger] r@[k]@ == channel_videos_url(
            channel_prefix(k),
            id@,
        ),
{
    proof {
        reveal_strlit("/c/");
        reveal_strlit("/channel/");
        reveal_strlit("/u/");
        reveal_strlit("/user/");
        reveal_strlit("/@");
    }
    let prefixes = ["/c/", "/channel/", "/u/", "/user/", "/@"];
    let mut r: Vec<String> = Vec::new();
    let mut k: usize = 0;
    while k < 5
        invariant
            k <= 5,
            prefixes@.len() == 5,
            forall|j: int| 0 <= j < 5 ==> #[trigger] prefixes@[j]@ == channel_prefix(j),
            r@.len() == k,
            forall|j: int| 0 <= j < k ==> #[trigger] r@[j]@ == channel_videos_url(
                channel_prefix(j),
                id@,
            ),
        decreases 5 - k,
    {
        let mut url = String::from_str("https://www.youtube.com");
        url.append(prefixes[k]);
        url.append(id);
        url.append("/videos");
        r.push(url);
        k = k + 1;
    }
    r
}

/// The number of non-overlapping occurrences of `needle` in `cs` from
/// position `i` on, found from left to right as `str::matches` finds them.
pub open spec fn occurrences_from(cs: Seq<char>, needle: Seq<char>, i: int) -> nat
    decreases cs.len() - i,
{
    if i < 0 || needle.len() == 0 || i + needle.len() > cs.len() {
        0
    } else if spec_lit_at(cs, i, needle) {
        1 + occurrences_from(cs, needle, i + needle.len())
    } else {
        occurrences_from(cs, needle, i + 1)
    }
}

/// A page that YouTube answers a request for a missing channel with: it says
/// `Something went wrong` exactly four times.
pub open spec fn is_error_page_text(page: Seq<char>) -> bool {
    occurrences_from(page, "Something went wrong"@, 0) == 4
}

/// Whether `page` is the page that YouTube answers a missing channel with.
pub fn is_error_page(page: &str) -> (b: bool)
    ensures
        b == is_error_page_text(page@),
{
    proof {
        reveal_strlit("Something went wrong");
    }
    let needle = "Something went wrong";
    let cs = collect_chars(page);
    let n = cs.len();
    let m: usize = 20;
    assert(needle@.len() == m);
    let mut i: usize = 0;
    let mut count: u64 = 0;
    while m <= n - i
        invariant
            cs@ == page@,
            n == cs@.len(),
            needle@.len() == m,
            m == 20,
            i <= n,
            count <= i,
            count + occurrences_from(page@, needle@, i as int) == occurrences_from(
                page@,
                needle@,
                0,
            ),
        decreases n - i,
    {
        if lit_at_chars(&cs, i, needle) {
            count = count + 1;
            i = i + m;
        } else {
            i = i + 1;
        }
    }
    count == 4
}

/// What the search for the page that lists a channel's videos does next.
#[derive(Clone, Copy, Debug, PartialEq, Eq, Structural)]
pub enum ChannelPageStep {
    /// Ask for the address under the prefix with this position.
    Try(usize),
    /// The page just received is the channel's.
    Use,
    /// No prefix gives the channel's page: the id is not a channel's.
    NoChannel,
}

/// The step after the answer to the request under the prefix at position
/// `tried`: a page that is not an error page ends the search (an empty one
/// names no channel); a failed request or an error page moves on to the next
/// prefix, and after the last one there is no channel.
pub open spec fn channel_page_step_of(tried: usize, answer: Option<Seq<char>>) -> ChannelPageStep {
    match answer {
        Some(page) if !is_error_page_text(page) => if page.len() == 0 {
            ChannelPageStep::NoChannel
        } else {
            ChannelPageStep::Use
        },
        _ => if tried + 1 < channel_prefix_count() {
            ChannelPageStep::Try((tried + 1) as usize)
        } else {
            ChannelPageStep::NoChannel
        },
    }
}

/// The view of an optional page.
pub open spec fn opt_text(answer: Option<&str>) -> Option<Seq<char>> {
    match answer {
        Some(p) => Some(p@),
        None => None,
    }
}

/// Decides the next step of the search for a channel's page from the answer
/// to the request under the prefix at position `tried` (`None` when the
/// request failed). The search starts at position 0 and only moves forward.
pub fn channel_page_step(tried: usize, answer: Option<&str>) -> (r: ChannelPageStep)
    ensures
        r == channel_page_step_of(tried, opt_text(answer)),
        r matches ChannelPageStep::Try(n) ==> tried < n < channel_prefix_count(),
{
    let usable = match answer {
        Some(page) => if !is_error_page(page) {
            Some(page.unicode_len() == 0)
        } else {
            None
        },
        None => None,
    };
    match usable {
        Some(empty) => if empty {
            ChannelPageStep::NoChannel
        } else {
            ChannelPageStep::Use
        },
        None => if tried < 4 {
            ChannelPageStep::Try(tried + 1)
        } else {
            ChannelPageStep::NoChannel
        },
    }
}

} // verus!
