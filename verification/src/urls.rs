//! The addresses the library builds: where a video's information is asked
//! for, where the player's javascript lives, and a stream's address once it is
//! signed or asks for one segment. Urls are held as their text; the `url`
//! crate parses and serialises them.

use vstd::prelude::*;

use crate::error::Error;
use crate::formats::Assets;
use crate::id::Id;
use crate::js_object::{skip_ws, skip_ws_exec};
use crate::page::get_ytplayer_js;
use crate::numbers::{decimal_text, u64_text};
use crate::text::{collect_chars, lit_at_chars, spec_lit_at};
use vstd::string::{StrSliceExecFns, StringExecFns};

verus! {

/// Declares `url::ParseError`, the error of the `url` crate's parser.
#[verifier::external_type_specification]
#[verifier::external_body]
pub struct ExUrlParseError(url::ParseError);

/// The text of the url that `url::Url::parse_with_params` makes of `input`
/// and `params`, or `None` where it refuses `input`.
pub uninterp spec fn url_with_params(input: Seq<char>, params: Seq<(Seq<char>, Seq<char>)>) -> Option<Seq<char>>;

/// The text of the url that `url::Url::parse` makes of `input`, or `None`
/// where it refuses it.
pub uninterp spec fn parsed_url(input: Seq<char>) -> Option<Seq<char>>;

/// The text of the url `url` once the pair `name=value` is appended to its
/// query by `query_pairs_mut().append_pair`, or `None` where `url` does not parse.
pub uninterp spec fn url_with_pair(url: Seq<char>, name: Seq<char>, value: Seq<char>) -> Option<Seq<char>>;

/// The text of the url `url` once `set_query(Some(query))` replaced its query,
/// or `None` where `url` does not parse.
pub uninterp spec fn url_with_query(url: Seq<char>, query: Seq<char>) -> Option<Seq<char>>;

/// The query of the url `url` as `Url::query` gives it (`None` inside when it
/// has none), or `None` where `url` does not parse.
pub uninterp spec fn url_query_of(url: Seq<char>) -> Option<Option<Seq<char>>>;

/// The texts of a list of pairs of strings.
pub open spec fn pair_views(params: Seq<(String, String)>) -> Seq<(Seq<char>, Seq<char>)> {
    params.map_values(|p: (String, String)| (p.0@, p.1@))
}

/// Calls `url::Url::parse_with_params` and gives the text of the url.
///
/// Trusted: the result is named by `url_with_params` over the input and the
/// texts of the pairs; what that url is is not stated.
#[verifier::external_body]
fn parse_with_params(input: &str, params: &Vec<(String, String)>) -> (r: Result<String, url::ParseError>)
    ensures
        match r {
            Ok(u) => url_with_params(input@, pair_views(params@)) == Some(u@),
            Err(_) => url_with_params(input@, pair_views(params@)) is None,
        },
{
    url::Url::parse_with_params(input, params.iter()).map(|u| u.to_string())
}

/// Calls `url::Url::parse` and gives the text of the url.
///
/// Trusted: the result is named by `parsed_url`; what it is is not stated.
#[verifier::external_body]
fn parse_url(input: &str) -> (r: Result<String, url::ParseError>)
    ensures
        match r {
            Ok(u) => parsed_url(input@) == Some(u@),
            Err(_) => parsed_url(input@) is None,
        },
{
    url::Url::parse(input).map(|u| u.to_string())
}

/// Parses `url` and calls `query_pairs_mut().append_pair(name, value)` on it.
///
/// Trusted: the result is named by `url_with_pair`; what it is is not stated.
#[verifier::external_body]
fn append_pair(url: &str, name: &str, value: &str) -> (r: Result<String, url::ParseError>)
    ensures
        match r {
            Ok(u) => url_with_pair(url@, name@, value@) == Some(u@),
            Err(_) => url_with_pair(url@, name@, value@) is None,
        },
{
    url::Url::parse(url).map(|mut u| {
        u.query_pairs_mut().append_pair(name, value);
        u.to_string()
    })
}

/// Parses `url` and calls `set_query(Some(query))` on it.
///
/// Trusted: the result is named by `url_with_query`; what it is is not stated.
#[verifier::external_body]
fn set_query(url: &str, query: &str) -> (r: Result<String, url::ParseError>)
    ensures
        match r {
            Ok(u) => url_with_query(url@, query@) == Some(u@),
            Err(_) => url_with_query(url@, query@) is None,
        },
{
    url::Url::parse(url).map(|mut u| {
        u.set_query(Some(query));
        u.to_string()
    })
}

/// Parses `url` and gives its query, `Url::query`.
///
/// Trusted: the result is named by `url_query_of`; what it is is not stated.
#[verifier::external_body]
fn url_query(url: &str) -> (r: Result<Option<String>, url::ParseError>)
    ensures
        match r {
            Ok(Some(q)) => url_query_of(url@) == Some(Some(q@)),
            Ok(None) => url_query_of(url@) == Some(None::<Seq<char>>),
            Err(_) => url_query_of(url@) is None,
        },
{
    url::Url::parse(url).map(|u| u.query().map(|q| q.to_string()))
}

/// The query pairs of the url `url`, decoded as `Url::query_pairs` decodes
/// them and in the order in which they stand, or `None` where `url` does not parse.
pub uninterp spec fn url_query_pairs_of(url: Seq<char>) -> Option<Seq<(Seq<char>, Seq<char>)>>;

/// The path of the url `url` as `Url::path` gives it, or `None` where `url`
/// does not parse.
pub uninterp spec fn url_path_of(url: Seq<char>) -> Option<Seq<char>>;

/// Parses `url` and gives its query pairs, `Url::query_pairs`.
///
/// Trusted: the result is named by `url_query_pairs_of`; how the pairs are
/// split and decoded is not stated.
#[verifier::external_body]
pub(crate) fn url_query_pairs(url: &str) -> (r: Result<Vec<(String, String)>, url::ParseError>)
    ensures
        match r {
            Ok(v) => url_query_pairs_of(url@) == Some(pair_views(v@)),
            Err(_) => url_query_pairs_of(url@) is None,
        },
{
    url::Url::parse(url).map(|u| u.query_pairs().into_owned().collect())
}

/// Parses `url` and gives its path, `Url::path`.
///
/// Trusted: the result is named by `url_path_of`; what the path is is not stated.
#[verifier::external_body]
pub(crate) fn url_path(url: &str) -> (r: Result<String, url::ParseError>)
    ensures
        match r {
            Ok(p) => url_path_of(url@) == Some(p@),
            Err(_) => url_path_of(url@) is None,
        },
{
    url::Url::parse(url).map(|u| u.path().to_string())
}

/// The value of the last pair named `name`, or `None` where no pair is: the
/// value that a map collected from the pairs holds under `name`.
pub open spec fn last_value_of(ps: Seq<(Seq<char>, Seq<char>)>, name: Seq<char>) -> Option<Seq<char>>
    decreases ps.len(),
{
    if ps.len() == 0 {
        None
    } else if ps.last().0 == name {
        Some(ps.last().1)
    } else {
        last_value_of(ps.drop_last(), name)
    }
}

/// What the id of the playlist whose address is `url` is: the value of the
/// last `list` pair of its query.
pub open spec fn playlist_id_result(url: Seq<char>, r: Result<String, Error>) -> bool {
    match url_query_pairs_of(url) {
        None => r matches Err(e) && e is UrlParseError,
        Some(ps) => match last_value_of(ps, "list"@) {
            Some(v) => r matches Ok(id) && id@ == v,
            None => r matches Err(e) && e is BadIdFormat,
        },
    }
}

/// The id of the playlist whose address is `url`: the value of the `list`
/// pair of its query (of the last one, where there are several).
pub fn playlist_id_from_url(url: &str) -> (r: Result<String, Error>)
    ensures
        playlist_id_result(url@, r),
{
    proof {
        reveal_strlit("list");
    }
    let pairs = match url_query_pairs(url) {
        Ok(v) => v,
        Err(e) => {
            return Err(Error::UrlParseError(e));
        },
    };
    let ghost ps = pair_views(pairs@);
    proof {
        assert(ps.len() == pairs@.len());
        assert(ps.take(pairs@.len() as int) =~= ps);
    }
    let mut j = pairs.len();
    while j > 0
        invariant
            j <= pairs@.len(),
            ps == pair_views(pairs@),
            ps.len() == pairs@.len(),
            url_query_pairs_of(url@) == Some(ps),
            last_value_of(ps, "list"@) == last_value_of(ps.take(j as int), "list"@),
        decreases j,
    {
        proof {
            assert(ps.take(j as int).drop_last() =~= ps.take(j - 1));
            assert(ps.take(j as int).last() == ps[j - 1]);
            assert(ps[j - 1] == (pairs@[j - 1].0@, pairs@[j - 1].1@));
        }
        j = j - 1;
        if crate::id_order::str_eq(pairs[j].0.as_str(), "list") {
            let v = pairs[j].1.as_str().to_string();
            proof {
                assert(ps.take(j + 1).last().0 == "list"@);
                assert(last_value_of(ps.take(j + 1), "list"@) == Some(v@));
            }
            return Ok(v);
        }
    }
    proof {
        assert(ps.take(0) =~= Seq::<(Seq<char>, Seq<char>)>::empty());
    }
    Err(Error::BadIdFormat)
}

/// Where the information of a video is asked for.
pub open spec fn video_info_base() -> Seq<char> {
    "https://youtube.com/get_video_info?"@
}

/// The query pairs of the information request for the video `id`, whose watch
/// page is `watch_url`.
pub open spec fn video_info_params(id: Seq<char>, watch_url: Seq<char>) -> Seq<(Seq<char>, Seq<char>)> {
    seq![("video_id"@, id), ("ps"@, "default"@), ("eurl"@, watch_url), ("hl"@, "en_US"@)]
}

/// A url that the `url` crate gave, as a result; its refusal as an error.
pub open spec fn url_result(r: Result<String, Error>, named: Option<Seq<char>>) -> bool {
    match r {
        Ok(u) => named == Some(u@),
        Err(e) => named is None && e is UrlParseError,
    }
}

fn pair(a: &str, b: &str) -> (r: (String, String))
    ensures
        r.0@ == a@,
        r.1@ == b@,
{
    (a.to_string(), b.to_string())
}

/// The address that asks for the information of the video `video_id`, whose
/// watch page is `watch_url`.
pub fn video_info_url(video_id: &Id, watch_url: &str) -> (r: Result<String, Error>)
    ensures
        url_result(r, url_with_params(video_info_base(), video_info_params(video_id@, watch_url@))),
{
    let params = vec![
        pair("video_id", video_id.as_str()),
        pair("ps", "default"),
        pair("eurl", watch_url),
        pair("hl", "en_US"),
    ];
    proof {
        assert(pair_views(params@) =~= video_info_params(video_id@, watch_url@));
    }
    match parse_with_params("https://youtube.com/get_video_info?", &params) {
        Ok(u) => Ok(u),
        Err(e) => Err(Error::UrlParseError(e)),
    }
}

/// Whether the regular-expression class `\d` (`\p{Nd}`) contains `c`.
pub uninterp spec fn regex_digit_char(c: char) -> bool;

/// The class `\d`: on ASCII characters it is `[0-9]`.
pub open spec fn digit_char(c: char) -> bool {
    if c <= '\x7f' {
        '0' <= c && c <= '9'
    } else {
        regex_digit_char(c)
    }
}

/// Asks the `regex` crate whether `\d` matches the single character `c`.
///
/// Trusted: on ASCII characters the crate's documented class (`\p{Nd}`)
/// is `[0-9]`, which is stated; on other characters the result is named
/// `regex_digit_char(c)` and not stated further.
#[verifier::external_body]
fn is_digit_char(c: char) -> (b: bool)
    ensures
        b == (if c <= '\x7f' { '0' <= c && c <= '9' } else { regex_digit_char(c) }),
{
    let mut buf = [0u8; 4];
    match regex::Regex::new(r"\A\d\z") {
        Ok(re) => re.is_match(c.encode_utf8(&mut buf)),
        Err(_) => false,
    }
}

/// The end of the run of `\d` characters from position `i`.
pub open spec fn digit_run_end(cs: Seq<char>, i: int) -> int
    decreases cs.len() - i,
{
    if 0 <= i < cs.len() && digit_char(cs[i]) {
        digit_run_end(cs, i + 1)
    } else {
        i
    }
}

/// The digits captured by a match of `"sts"\s*:\s*(\d+)` that starts at `p`.
pub open spec fn sts_match_at(cs: Seq<char>, p: int) -> Option<(int, int)> {
    if spec_lit_at(cs, p, "\"sts\""@) {
        let c = skip_ws(cs, p + 5);
        let a = skip_ws(cs, c + 1);
        if 0 <= c < cs.len() && cs[c] == ':' && 0 <= a < cs.len() && digit_char(cs[a]) {
            Some((a, digit_run_end(cs, a)))
        } else {
            None
        }
    } else {
        None
    }
}

/// The digits captured by the leftmost match at or after `p`.
pub open spec fn sts_find(cs: Seq<char>, p: int) -> Option<(int, int)>
    decreases cs.len() + 1 - p,
{
    if p < 0 || p > cs.len() {
        None
    } else {
        match sts_match_at(cs, p) {
            Some(span) => Some(span),
            None => sts_find(cs, p + 1),
        }
    }
}

/// The `sts` value a text holds, or nothing.
pub open spec fn sts_of(cs: Seq<char>) -> Seq<char> {
    match sts_find(cs, 0) {
        Some((a, b)) => cs.subrange(a, b),
        None => Seq::empty(),
    }
}

fn digit_run_end_exec(cs: &Vec<char>, i: usize) -> (r: usize)
    requires
        i <= cs@.len(),
    ensures
        r == digit_run_end(cs@, i as int),
        i <= r <= cs@.len(),
{
    let mut k = i;
    while k < cs.len() && is_digit_char(cs[k])
        invariant
            i <= k <= cs@.len(),
            digit_run_end(cs@, i as int) == digit_run_end(cs@, k as int),
        decreases cs@.len() - k,
    {
        k = k + 1;
    }
    k
}

/// The `sts` value that a text holds: the digits after the first `"sts"`
/// followed by `:` (with white space around it), or an empty text.
pub fn sts(text: &str) -> (r: &str)
    ensures
        r@ == sts_of(text@),
{
    proof {
        reveal_strlit("\"sts\"");
    }
    let cs = collect_chars(text);
    let n = cs.len();
    let mut p: usize = 0;
    while p <= n
        invariant
            p <= n,
            n == cs@.len(),
            cs@ == text@,
            sts_find(text@, 0) == sts_find(text@, p as int),
        decreases n + 1 - p,
    {
        if n - p >= 5 && lit_at_chars(&cs, p, "\"sts\"") {
            let c = skip_ws_exec(&cs, p + 5);
            if c < n && cs[c] == ':' {
                let a = skip_ws_exec(&cs, c + 1);
                if a < n && is_digit_char(cs[a]) {
                    let b = digit_run_end_exec(&cs, a);
                    return text.substring_char(a, b);
                }
            }
        }
        if p == n {
            proof {
                assert(sts_find(text@, p + 1) is None);
                assert(sts_find(text@, 0) is None);
            }
            return text.substring_char(0, 0);
        }
        p = p + 1;
    }
    text.substring_char(0, 0)
}

/// The embed address of the video `id` on the API host.
pub open spec fn api_embed_url(id: Seq<char>) -> Seq<char> {
    "https://youtube.googleapis.com/v/"@ + id
}

/// The query pairs of the information request for an age-restricted video.
pub open spec fn age_restricted_params(id: Seq<char>, watch_url: Seq<char>) -> Seq<(Seq<char>, Seq<char>)> {
    seq![("video_id"@, id), ("eurl"@, api_embed_url(id)), ("sts"@, sts_of(watch_url))]
}

/// The address that asks for the information of the age-restricted video
/// `video_id`: its embed address and the `sts` value found in `watch_url`.
pub fn video_info_url_age_restricted(video_id: &Id, watch_url: &str) -> (r: Result<String, Error>)
    ensures
        url_result(r, url_with_params(video_info_base(), age_restricted_params(video_id@, watch_url@))),
{
    let s = sts(watch_url);
    let mut eurl = String::from_str("https://youtube.googleapis.com/v/");
    eurl.append(video_id.as_str());
    let params = vec![
        pair("video_id", video_id.as_str()),
        pair("eurl", eurl.as_str()),
        pair("sts", s),
    ];
    proof {
        assert(pair_views(params@) =~= age_restricted_params(video_id@, watch_url@));
    }
    match parse_with_params("https://youtube.com/get_video_info?", &params) {
        Ok(u) => Ok(u),
        Err(e) => Err(Error::UrlParseError(e)),
    }
}

/// The address of the player's javascript, whose path the player response's
/// assets give or, without them, the watch page.
pub fn js_url(html: &str, assets: &Option<Assets>) -> (r: Result<String, Error>)
    ensures
        match assets {
            Some(a) => url_result(r, parsed_url("https://youtube.com"@ + a.js@)),
            None => match crate::page::player_js_find(html@, 0) {
                Some((p, e)) => url_result(r, parsed_url("https://youtube.com"@ + html@.subrange(p, e))),
                None => r matches Err(e) && e is UnexpectedResponse,
            },
        },
{
    let mut address = String::from_str("https://youtube.com");
    match assets {
        Some(a) => address.append(a.js.as_str()),
        None => match get_ytplayer_js(html) {
            Ok(js) => address.append(js),
            Err(e) => {
                return Err(e);
            },
        },
    }
    match parse_url(address.as_str()) {
        Ok(u) => Ok(u),
        Err(e) => Err(Error::UrlParseError(e)),
    }
}

/// The address of a stream once its deciphered signature `sig` is appended.
pub fn signed_url(url: &str, sig: &str) -> (r: Result<String, Error>)
    ensures
        url_result(r, url_with_pair(url@, "sig"@, sig@)),
{
    match append_pair(url, "sig", sig) {
        Ok(u) => Ok(u),
        Err(e) => Err(Error::UrlParseError(e)),
    }
}

/// The query of a stream's address, or an empty text when it has none.
pub fn base_query(url: &str) -> (r: Result<String, Error>)
    ensures
        match r {
            Ok(q) => match url_query_of(url@) {
                Some(Some(x)) => q@ == x,
                Some(None) => q@ == Seq::<char>::empty(),
                None => false,
            },
            Err(e) => url_query_of(url@) is None && e is UrlParseError,
        },
{
    match url_query(url) {
        Ok(Some(q)) => Ok(q),
        Ok(None) => Ok(String::new()),
        Err(e) => Err(Error::UrlParseError(e)),
    }
}

/// The address of segment `sq` of a stream: its query set to `base_query`
/// and the pair `sq=<sq>` appended.
pub fn seq_url(url: &str, base_query: &str, sq: u64) -> (r: Result<String, Error>)
    ensures
        match url_with_query(url@, base_query@) {
            Some(u) => url_result(r, url_with_pair(u, "sq"@, decimal_text(sq as nat))),
            None => r matches Err(e) && e is UrlParseError,
        },
{
    let with_query = match set_query(url, base_query) {
        Ok(u) => u,
        Err(e) => {
            return Err(Error::UrlParseError(e));
        },
    };
    let n = u64_text(sq);
    match append_pair(with_query.as_str(), "sq", n.as_str()) {
        Ok(u) => Ok(u),
        Err(e) => Err(Error::UrlParseError(e)),
    }
}

} // verus!
