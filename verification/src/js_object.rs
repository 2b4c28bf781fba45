//! Finding a JavaScript object or array literal in a page, such as the
//! `ytInitialData` object of a playlist or channel page.
//!
//! Strings (`"..."`) and regular-expression literals (`/.../`) are skipped
//! over, with backslash escapes; a `/` opens a regular expression only after
//! one of `( , = : [ ! & | ? { } ;` (ignoring white space).

use vstd::prelude::*;
use vstd::utf8::*;

use crate::text::{
    collect_chars, is_white_space, is_white_space_exec, lit_at_chars, spec_lit_at, string_push,
};
use vstd::string::{StrSliceExecFns, StringSliceAdditionalSpecFns};

verus! {

broadcast use vstd::string::group_string_axioms;

/// The character that closes a context opened by `c`.
pub open spec fn closer(c: char) -> char {
    if c == '{' {
        '}'
    } else if c == '[' {
        ']'
    } else {
        c
    }
}

/// The characters that open a context: `{`, `[`, `"` and `/`.
pub open spec fn is_opener(c: char) -> bool {
    c == '{' || c == '[' || c == '"' || c == '/'
}

/// The characters after which a `/` starts a regular-expression literal.
pub open spec fn precedes_regex(c: char) -> bool {
    ||| c == '(' || c == ',' || c == '=' || c == ':' || c == '['
    ||| c == '!' || c == '&' || c == '|' || c == '?' || c == '{'
    ||| c == '}' || c == ';'
}

/// The last non-white-space character seen, given the one before `prev`.
pub open spec fn next_last(last: char, prev: Option<char>) -> char {
    match prev {
        Some(p) => if !is_white_space(p) {
            p
        } else {
            last
        },
        None => last,
    }
}

/// Scans from position `i` with the given stack of open contexts, the last
/// non-white-space character before the previous one (`last`) and the previous
/// character read (`prev`); gives the position where the scan stops.
pub open spec fn object_scan(
    cs: Seq<char>,
    i: int,
    stack: Seq<char>,
    last: char,
    prev: Option<char>,
) -> int
    decreases cs.len() + 1 - i,
{
    if i < 0 || i >= cs.len() || stack.len() == 0 {
        i
    } else {
        let last2 = next_last(last, prev);
        let c = cs[i];
        let ctx = stack.last();
        if c == closer(ctx) {
            object_scan(cs, i + 1, stack.drop_last(), last2, Some(c))
        } else if ctx == '"' || ctx == '/' {
            if c == '\\' {
                object_scan(cs, i + 2, stack, last2, Some(c))
            } else {
                object_scan(cs, i + 1, stack, last2, Some(c))
            }
        } else if is_opener(c) && !(c == '/' && !precedes_regex(last2)) {
            object_scan(cs, i + 1, stack.push(c), last2, Some(c))
        } else {
            object_scan(cs, i + 1, stack, last2, Some(c))
        }
    }
}

/// The end of the literal that starts at `start` (exclusive), never beyond the text.
pub open spec fn object_end(cs: Seq<char>, start: int) -> int {
    let e = object_scan(cs, start + 1, seq![cs[start]], '{', None);
    if e > cs.len() {
        cs.len() as int
    } else {
        e
    }
}

/// The object or array literal at position `start` of `cs`, if one starts there.
pub open spec fn object_at(cs: Seq<char>, start: int) -> Option<Seq<char>> {
    if 0 <= start < cs.len() && (cs[start] == '{' || cs[start] == '[') {
        Some(cs.subrange(start, object_end(cs, start)))
    } else {
        None
    }
}

fn closer_exec(c: char) -> (r: char)
    ensures
        r == closer(c),
{
    if c == '{' {
        '}'
    } else if c == '[' {
        ']'
    } else {
        c
    }
}

fn precedes_regex_exec(c: char) -> (b: bool)
    ensures
        b == precedes_regex(c),
{
    c == '(' || c == ',' || c == '=' || c == ':' || c == '[' || c == '!' || c == '&' || c == '|'
        || c == '?' || c == '{' || c == '}' || c == ';'
}

proof fn lemma_object_scan_ge(cs: Seq<char>, i: int, stack: Seq<char>, last: char, prev: Option<char>)
    requires
        0 <= i,
    ensures
        object_scan(cs, i, stack, last, prev) >= i,
    decreases cs.len() + 1 - i,
{
    if i < cs.len() && stack.len() > 0 {
        let last2 = next_last(last, prev);
        let c = cs[i];
        let ctx = stack.last();
        if c == closer(ctx) {
            lemma_object_scan_ge(cs, i + 1, stack.drop_last(), last2, Some(c));
        } else if ctx == '"' || ctx == '/' {
            if c == '\\' {
                lemma_object_scan_ge(cs, i + 2, stack, last2, Some(c));
            } else {
                lemma_object_scan_ge(cs, i + 1, stack, last2, Some(c));
            }
        } else if is_opener(c) && !(c == '/' && !precedes_regex(last2)) {
            lemma_object_scan_ge(cs, i + 1, stack.push(c), last2, Some(c));
        } else {
            lemma_object_scan_ge(cs, i + 1, stack, last2, Some(c));
        }
    }
}

/// The object or array literal that starts at position `start` of `cs`.
pub fn object_at_exec(cs: &Vec<char>, start: usize) -> (r: Option<String>)
    ensures
        match r {
            Some(obj) => object_at(cs@, start as int) == Some(obj@),
            None => object_at(cs@, start as int) is None,
        },
{
    let n = cs.len();
    if start >= n || !(cs[start] == '{' || cs[start] == '[') {
        return None;
    }
    let mut last_char = '{';
    let mut curr_char: Option<char> = None;
    let mut stack: Vec<char> = Vec::new();
    stack.push(cs[start]);
    let mut i = start + 1;
    proof {
        assert(stack@ =~= seq![cs@[start as int]]);
    }
    let ghost spec_end = object_scan(cs@, start + 1, seq![cs@[start as int]], '{', None);
    while i < n && stack.len() > 0
        invariant
            n == cs@.len(),
            start < n,
            start < i <= n,
            spec_end == object_scan(cs@, start + 1, seq![cs@[start as int]], '{', None),
            spec_end == object_scan(cs@, i as int, stack@, last_char, curr_char) || (i == n
                && spec_end > n),
        decreases n - i,
    {
        if let Some(curr) = curr_char {
            if !is_white_space_exec(curr) {
                last_char = curr;
            }
        }
        let c = cs[i];
        curr_char = Some(c);
        let context = stack[stack.len() - 1];
        if c == closer_exec(context) {
            stack.pop();
            i = i + 1;
            continue;
        }
        if context == '"' || context == '/' {
            if c == '\\' {
                if i + 1 < n {
                    i = i + 2;
                } else {
                    proof {
                        lemma_object_scan_ge(cs@, i + 2, stack@, last_char, curr_char);
                    }
                    i = n;
                }
                continue;
            }
        } else if (c == '{' || c == '[' || c == '"' || c == '/') && !(c == '/'
            && !precedes_regex_exec(last_char)) {
            stack.push(c);
        }
        i = i + 1;
    }
    let end = i;
    let mut obj = String::new();
    let mut k = start;
    while k < end
        invariant
            start <= k <= end <= n,
            n == cs@.len(),
            obj@ == cs@.subrange(start as int, k as int),
        decreases end - k,
    {
        string_push(&mut obj, cs[k]);
        proof {
            assert(obj@ =~= cs@.subrange(start as int, k + 1));
        }
        k = k + 1;
    }
    Some(obj)
}

/// The literal that starts at byte offset `start_point` of `html`.
pub fn find_object_from_startpoint(html: &str, start_point: usize) -> (r: Option<String>)
    requires
        is_char_boundary(html.spec_bytes(), start_point as int),
    ensures
        ({
            let tail = decode_utf8(
                html.spec_bytes().subrange(start_point as int, html.spec_bytes().len() as int),
            );
            match r {
                Some(obj) => object_at(tail, 0) == Some(obj@),
                None => object_at(tail, 0) is None,
            }
        }),
{
    proof {
        encode_utf8_valid_utf8(html@);
    }
    let (_, rest) = html.split_at(start_point);
    proof {
        encode_utf8_decode_utf8(rest@);
    }
    let cs = collect_chars(rest);
    object_at_exec(&cs, 0)
}

/// Skips white space from position `i` on.
pub open spec fn skip_ws(cs: Seq<char>, i: int) -> int
    decreases cs.len() - i,
{
    if 0 <= i < cs.len() && is_white_space(cs[i]) {
        skip_ws(cs, i + 1)
    } else {
        i
    }
}

/// `\s*=\s*` at position `k`; gives where it ends.
pub open spec fn assignment_end(cs: Seq<char>, k: int) -> Option<int> {
    let a = skip_ws(cs, k);
    if 0 <= a < cs.len() && cs[a] == '=' {
        Some(skip_ws(cs, a + 1))
    } else {
        None
    }
}

/// A single or double quote.
pub open spec fn is_quote(c: char) -> bool {
    c == '\'' || c == '"'
}

/// `window\[['"]ytInitialData['"]]\s*=\s*` (when `bracketed`) or
/// `ytInitialData\s*=\s*` at position `p`; gives where the match ends.
pub open spec fn initial_data_match_at(cs: Seq<char>, p: int, bracketed: bool) -> Option<int> {
    if bracketed {
        if spec_lit_at(cs, p, "window["@) && p + 22 < cs.len() && is_quote(cs[p + 7])
            && spec_lit_at(cs, p + 8, "ytInitialData"@) && is_quote(cs[p + 21]) && cs[p + 22]
            == ']' {
            assignment_end(cs, p + 23)
        } else {
            None
        }
    } else {
        if spec_lit_at(cs, p, "ytInitialData"@) {
            assignment_end(cs, p + 13)
        } else {
            None
        }
    }
}

/// The end of the leftmost match at or after position `p`.
pub open spec fn initial_data_find(cs: Seq<char>, p: int, bracketed: bool) -> Option<int>
    decreases cs.len() + 1 - p,
{
    if p < 0 || p > cs.len() {
        None
    } else {
        match initial_data_match_at(cs, p, bracketed) {
            Some(e) => Some(e),
            None => initial_data_find(cs, p + 1, bracketed),
        }
    }
}

/// The `ytInitialData` object of a page: the literal after the first pattern
/// that matches, the bracketed assignment being tried first.
pub open spec fn initial_data_of(cs: Seq<char>) -> Option<Seq<char>> {
    match initial_data_find(cs, 0, true) {
        Some(e) => object_at(cs, e),
        None => match initial_data_find(cs, 0, false) {
            Some(e) => object_at(cs, e),
            None => None,
        },
    }
}

pub(crate) fn skip_ws_exec(cs: &Vec<char>, i: usize) -> (r: usize)
    requires
        i <= cs@.len(),
    ensures
        r == skip_ws(cs@, i as int),
        i <= r <= cs@.len(),
{
    let mut k = i;
    while k < cs.len() && is_white_space_exec(cs[k])
        invariant
            i <= k <= cs@.len(),
            skip_ws(cs@, i as int) == skip_ws(cs@, k as int),
        decreases cs@.len() - k,
    {
        k = k + 1;
    }
    k
}

pub(crate) fn assignment_end_exec(cs: &Vec<char>, k: usize) -> (r: Option<usize>)
    requires
        k <= cs@.len(),
    ensures
        opt_end(r) == assignment_end(cs@, k as int),
        r matches Some(e) ==> e <= cs@.len(),
{
    let a = skip_ws_exec(cs, k);
    if a < cs.len() && cs[a] == '=' {
        Some(skip_ws_exec(cs, a + 1))
    } else {
        None
    }
}

/// The exec form of an optional position.
pub open spec fn opt_end(r: Option<usize>) -> Option<int> {
    match r {
        Some(e) => Some(e as int),
        None => None,
    }
}

fn initial_data_match_at_exec(cs: &Vec<char>, p: usize, bracketed: bool) -> (r: Option<usize>)
    requires
        p <= cs@.len(),
    ensures
        opt_end(r) == initial_data_match_at(cs@, p as int, bracketed),
        r matches Some(e) ==> e <= cs@.len(),
{
    proof {
        reveal_strlit("window[");
        reveal_strlit("ytInitialData");
    }
    let n = cs.len();
    if bracketed {
        if lit_at_chars(cs, p, "window[") && n - p > 22 && (cs[p + 7] == '\'' || cs[p + 7] == '"')
            && lit_at_chars(cs, p + 8, "ytInitialData") && (cs[p + 21] == '\'' || cs[p + 21]
            == '"') && cs[p + 22] == ']' {
            assignment_end_exec(cs, p + 23)
        } else {
            None
        }
    } else {
        if lit_at_chars(cs, p, "ytInitialData") {
            assignment_end_exec(cs, p + 13)
        } else {
            None
        }
    }
}

fn initial_data_find_exec(cs: &Vec<char>, bracketed: bool) -> (r: Option<usize>)
    ensures
        opt_end(r) == initial_data_find(cs@, 0, bracketed),
{
    let n = cs.len();
    let mut p: usize = 0;
    while p <= n
        invariant
            n == cs@.len(),
            initial_data_find(cs@, 0, bracketed) == initial_data_find(cs@, p as int, bracketed),
        decreases n + 1 - p,
    {
        let m = initial_data_match_at_exec(cs, p, bracketed);
        if m.is_some() {
            return m;
        }
        if p == n {
            proof {
                assert(initial_data_find(cs@, p + 1, bracketed) is None);
            }
            return None;
        }
        p = p + 1;
    }
    None
}

/// The `ytInitialData` object embedded in a page.
pub fn initial_data(watch_html: &str) -> (r: Option<String>)
    ensures
        match r {
            Some(obj) => initial_data_of(watch_html@) == Some(obj@),
            None => initial_data_of(watch_html@) is None,
        },
{
    let cs = collect_chars(watch_html);
    match initial_data_find_exec(&cs, true) {
        Some(e) => object_at_exec(&cs, e),
        None => match initial_data_find_exec(&cs, false) {
            Some(e) => object_at_exec(&cs, e),
            None => None,
        },
    }
}

} // verus!
