//! Finding a JSON object embedded in a page: from the first `{`, bytes are
//! scanned with a stack of open contexts (`{`, `[` or `"`) until the first
//! context is closed again.

use vstd::prelude::*;
use vstd::utf8::*;

use crate::error::Error;
use vstd::string::{StringExecFns, StringSliceAdditionalSpecFns};

verus! {

broadcast use vstd::string::group_string_axioms;

/// One step of the scan: the new skip flag and the new stack of open contexts
/// after reading byte `c`. After a backslash inside a string the next byte is skipped.
pub open spec fn json_step(c: u8, skip: bool, stack: Seq<u8>) -> (bool, Seq<u8>) {
    if skip {
        (false, stack)
    } else {
        let ctx = stack.last();
        if c == 0x7du8 && ctx == 0x7bu8 {
            (false, stack.drop_last())
        } else if c == 0x5du8 && ctx == 0x5bu8 {
            (false, stack.drop_last())
        } else if c == 0x22u8 && ctx == 0x22u8 {
            (false, stack.drop_last())
        } else if c == 0x5cu8 && ctx == 0x22u8 {
            (true, stack)
        } else if c == 0x7bu8 && ctx != 0x22u8 {
            (false, stack.push(0x7bu8))
        } else if c == 0x5bu8 && ctx != 0x22u8 {
            (false, stack.push(0x5bu8))
        } else if c == 0x22u8 && ctx != 0x22u8 {
            (false, stack.push(0x22u8))
        } else {
            (false, stack)
        }
    }
}

/// The first position `i` at or after `from` at which the scan, started in
/// state (`skip`, `stack`) at `from`, empties the stack.
pub open spec fn json_close(bytes: Seq<u8>, from: int, skip: bool, stack: Seq<u8>) -> Option<int>
    decreases bytes.len() - from,
{
    if from < 0 || from >= bytes.len() || stack.len() == 0 {
        None
    } else {
        let (skip2, stack2) = json_step(bytes[from], skip, stack);
        if stack2.len() == 0 {
            Some(from)
        } else {
            json_close(bytes, from + 1, skip2, stack2)
        }
    }
}

/// The first position at or after `from` that holds byte `b`.
pub open spec fn find_byte(bytes: Seq<u8>, b: u8, from: int) -> Option<int>
    decreases bytes.len() - from,
{
    if from < 0 || from >= bytes.len() {
        None
    } else if bytes[from] == b {
        Some(from)
    } else {
        find_byte(bytes, b, from + 1)
    }
}

/// Where the embedded object starts and ends (exclusive) in `bytes`.
pub open spec fn json_object_span(bytes: Seq<u8>) -> Option<(int, int)> {
    match find_byte(bytes, 0x7bu8, 0) {
        None => None,
        Some(p) => match json_close(bytes, p + 1, false, seq![0x7bu8]) {
            None => None,
            Some(i) => Some((p, i + 1)),
        },
    }
}

/// Reads one byte of the scan, updating the skip flag and the stack of open
/// contexts; tells whether this byte emptied the stack. A byte read while
/// the skip flag is set only clears the flag.
pub fn find_json_object(curr_char: u8, skip: &mut bool, stack: &mut Vec<u8>) -> (closed: bool)
    requires
        !*old(skip) ==> old(stack)@.len() > 0,
    ensures
        (*final(skip), final(stack)@) == json_step(curr_char, *old(skip), old(stack)@),
        closed == (!*old(skip) && final(stack)@.len() == 0),
{
    if *skip {
        *skip = false;
        return false;
    }
    let context = stack[stack.len() - 1];
    if curr_char == 0x7du8 && context == 0x7bu8 {
        stack.pop();
    } else if curr_char == 0x5du8 && context == 0x5bu8 {
        stack.pop();
    } else if curr_char == 0x22u8 && context == 0x22u8 {
        stack.pop();
    } else if curr_char == 0x5cu8 && context == 0x22u8 {
        *skip = true;
    } else if curr_char == 0x7bu8 && context != 0x22u8 {
        stack.push(0x7bu8);
    } else if curr_char == 0x5bu8 && context != 0x22u8 {
        stack.push(0x5bu8);
    } else if curr_char == 0x22u8 && context != 0x22u8 {
        stack.push(0x22u8);
    }
    proof {
        assert(old(stack)@.drop_last() =~= old(stack)@.subrange(0, old(stack)@.len() - 1));
    }
    stack.len() == 0
}

fn find_byte_exec(bytes: &[u8], b: u8) -> (r: Option<usize>)
    ensures
        match r {
            Some(p) => find_byte(bytes@, b, 0) == Some(p as int) && p < bytes@.len() && bytes@[p as int]
                == b,
            None => find_byte(bytes@, b, 0) is None,
        },
{
    let mut i: usize = 0;
    while i < bytes.len()
        invariant
            i <= bytes@.len(),
            find_byte(bytes@, b, 0) == find_byte(bytes@, b, i as int),
        decreases bytes@.len() - i,
    {
        if bytes[i] == b {
            return Some(i);
        }
        i = i + 1;
    }
    None
}

/// After an ASCII byte of a valid UTF-8 sequence, and before it, characters begin.
pub proof fn lemma_ascii_byte_boundaries(bytes: Seq<u8>, q: int)
    requires
        valid_utf8(bytes),
        0 <= q < bytes.len(),
        bytes[q] <= 0x7fu8,
    ensures
        is_char_boundary(bytes, q),
        is_char_boundary(bytes, q + 1),
{
    is_char_boundary_iff_is_leading_byte(bytes, q);
    if q + 1 == bytes.len() {
        is_char_boundary_start_end_of_seq(bytes);
    } else {
        valid_utf8_split(bytes, q);
        let suffix = bytes.subrange(q, bytes.len() as int);
        assert(suffix[0] == bytes[q]);
        assert(valid_first_scalar(suffix));
        assert(length_of_first_scalar(suffix) == 1);
        let rest = pop_first_scalar(suffix);
        assert(valid_utf8(rest));
        assert(rest.len() > 0);
        assert(valid_first_scalar(rest));
        assert(rest[0] == bytes[q + 1]);
        is_char_boundary_iff_not_is_continuation_byte(bytes, q + 1);
    }
}

/// The stack's bottom is always the opening `{`, so the byte that empties it is a `}`.
pub proof fn lemma_json_close_at_brace(bytes: Seq<u8>, from: int, skip: bool, stack: Seq<u8>)
    requires
        stack.len() > 0,
        stack[0] == 0x7bu8,
    ensures
        json_close(bytes, from, skip, stack) matches Some(i) ==> from <= i < bytes.len()
            && bytes[i] == 0x7du8,
    decreases bytes.len() - from,
{
    if 0 <= from < bytes.len() {
        let (skip2, stack2) = json_step(bytes[from], skip, stack);
        if stack2.len() > 0 {
            if stack2.len() < stack.len() {
                assert(stack2[0] == stack[0]);
            } else if stack2.len() > stack.len() {
                assert(stack2[0] == stack[0]);
            }
            lemma_json_close_at_brace(bytes, from + 1, skip2, stack2);
        }
    }
}

/// The message of the error for a page without any `{`.
pub open spec fn msg_no_object() -> Seq<char> {
    "cannot parse a json object from an empty string"@
}

/// The message of the error for an object that is never closed.
pub open spec fn msg_no_closing() -> Seq<char> {
    "could not find a closing delimiter"@
}

/// The embedded JSON object that starts at the first `{` of `html`: everything
/// up to and including the byte that closes it.
pub fn json_object(html: &str) -> (r: Result<&str, Error>)
    ensures
        match r {
            Ok(obj) => {
                &&& json_object_span(html.spec_bytes()) matches Some((p, e))
                &&& 0 <= p < e <= html.spec_bytes().len()
                &&& obj.spec_bytes() == html.spec_bytes().subrange(p, e)
                &&& obj.spec_bytes()[0] == 0x7bu8
                &&& obj.spec_bytes().last() == 0x7du8
            },
            Err(err) => json_object_span(html.spec_bytes()) is None && (err matches Error::Internal(
                m,
            ) && (if find_byte(html.spec_bytes(), 0x7bu8, 0) is None {
                m@ == msg_no_object()
            } else {
                m@ == msg_no_closing()
            })),
        },
{
    let bytes = html.as_bytes();
    let ghost hb = html.spec_bytes();
    proof {
        encode_utf8_valid_utf8(html@);
    }
    let start = match find_byte_exec(bytes, 0x7bu8) {
        Some(p) => p,
        None => {
            return Err(Error::Internal(String::from_str("cannot parse a json object from an empty string")));
        },
    };
    let mut stack: Vec<u8> = Vec::new();
    stack.push(0x7bu8);
    let mut skip = false;
    assert(start < bytes.len());
    let mut i = start + 1;
    proof {
        assert(stack@ =~= seq![0x7bu8]);
    }
    while i < bytes.len()
        invariant
            bytes@ == hb,
            hb == html.spec_bytes(),
            valid_utf8(hb),
            start < bytes@.len(),
            hb[start as int] == 0x7bu8,
            start < i <= bytes@.len(),
            stack@.len() > 0,
            find_byte(hb, 0x7bu8, 0) == Some(start as int),
            json_close(hb, start + 1, false, seq![0x7bu8]) == json_close(
                hb,
                i as int,
                skip,
                stack@,
            ),
        decreases bytes@.len() - i,
    {
        if find_json_object(bytes[i], &mut skip, &mut stack) {
            proof {
                lemma_ascii_byte_boundaries(hb, start as int);
                lemma_json_close_at_brace(hb, start + 1, false, seq![0x7bu8]);
                assert(json_close(hb, start + 1, false, seq![0x7bu8]) == Some(i as int));
            }
            let (_, rest) = html.split_at(start);
            proof {
                let rb = rest.spec_bytes();
                assert(rb =~= hb.subrange(start as int, hb.len() as int));
                encode_utf8_valid_utf8(rest@);
                assert(rb[i - start] == hb[i as int]);
                lemma_ascii_byte_boundaries(rb, i - start);
            }
            let (obj, _) = rest.split_at(i - start + 1);
            proof {
                assert(obj.spec_bytes() =~= hb.subrange(start as int, i + 1));
                assert(obj.spec_bytes()[0] == hb[start as int]);
                assert(obj.spec_bytes().last() == hb[i as int]);
            }
            return Ok(obj);
        }
        i = i + 1;
    }
    Err(Error::Internal(String::from_str("could not find a closing delimiter")))
}

/// `obj` is the object that `json_object` finds in `bytes` from position `e` on.
pub open spec fn object_after(bytes: Seq<u8>, e: int, obj: Seq<u8>) -> bool {
    let suffix = bytes.subrange(e, bytes.len() as int);
    match json_object_span(suffix) {
        Some((p, q)) => obj == suffix.subrange(p, q),
        None => false,
    }
}

/// The byte offset at which the first match of the regular expression
/// `pattern` in `haystack` ends, as `regex::Regex::new(pattern)` and `find`
/// give it: `None` where the pattern does not compile, `Some(None)` where
/// nothing matches.
pub uninterp spec fn regex_match_end(pattern: Seq<char>, haystack: Seq<char>) -> Option<Option<int>>;

/// Compiles `pattern` with `regex::Regex::new` and calls `find` on `haystack`,
/// giving the byte offset where the match ends.
///
/// Trusted: the result is named by `regex_match_end`; of it only what the
/// crate documents is stated, that a match ends within the haystack.
#[verifier::external_body]
fn regex_find_end(pattern: &str, haystack: &str) -> (r: Option<Option<usize>>)
    ensures
        match r {
            Some(Some(e)) => regex_match_end(pattern@, haystack@) == Some(Some(e as int)) && e
                <= haystack.spec_bytes().len(),
            Some(None) => regex_match_end(pattern@, haystack@) == Some(None::<int>),
            None => regex_match_end(pattern@, haystack@) is None,
        },
{
    match regex::Regex::new(pattern) {
        Ok(re) => Some(re.find(haystack).map(|m| m.end())),
        Err(_) => None,
    }
}

/// The JSON object that follows the first match of `pattern` in `html`: the
/// match must end on a character boundary, and the object is the one that
/// `json_object` finds in the rest of the text.
pub open spec fn object_for_pattern(html: &str, pattern: Seq<char>) -> Option<Seq<u8>> {
    match regex_match_end(pattern, html@) {
        Some(Some(e)) => if is_char_boundary(html.spec_bytes(), e) {
            let suffix = html.spec_bytes().subrange(e, html.spec_bytes().len() as int);
            match json_object_span(suffix) {
                Some((p, q)) => Some(suffix.subrange(p, q)),
                None => None,
            }
        } else {
            None
        },
        _ => None,
    }
}

/// The JSON object that follows the first match of the regular expression
/// `pattern` in `html`.
pub fn parse_for_object<'h>(html: &'h str, pattern: &str) -> (r: Result<&'h str, Error>)
    ensures
        match r {
            Ok(obj) => object_for_pattern(html, pattern@) == Some(obj.spec_bytes()),
            Err(err) => object_for_pattern(html, pattern@) is None && err is Internal,
        },
{
    let end = match regex_find_end(pattern, html) {
        Some(Some(end)) => end,
        _ => {
            return Err(Error::Internal(String::from_str("The regex does not match")));
        },
    };
    if !html.is_char_boundary(end) {
        return Err(Error::Internal(String::from_str("The regex does not match meaningful")));
    }
    proof {
        encode_utf8_valid_utf8(html@);
    }
    let (_, rest) = html.split_at(end);
    proof {
        assert(rest.spec_bytes() =~= html.spec_bytes().subrange(
            end as int,
            html.spec_bytes().len() as int,
        ));
    }
    json_object(rest)
}

/// The patterns after which the player's configuration may stand, in the
/// order in which they are tried.
pub open spec fn config_pattern(k: int) -> Seq<char> {
    if k == 0 {
        "ytplayer\\.config\\s*=\\s*"@
    } else if k == 1 {
        "ytInitialPlayerResponse\\s*=\\s*"@
    } else {
        "yt\\.setConfig\\(.*['\"]PLAYER_CONFIG['\"]:\\s*"@
    }
}

/// The objects that follow the configuration patterns from the `k`-th on, in
/// order, leaving out the patterns after which none is found.
pub open spec fn config_objects(html: &str, k: int) -> Seq<Seq<u8>>
    decreases 3 - k,
{
    if k < 0 || k >= 3 {
        Seq::empty()
    } else {
        match object_for_pattern(html, config_pattern(k)) {
            Some(o) => seq![o] + config_objects(html, k + 1),
            None => config_objects(html, k + 1),
        }
    }
}

/// The byte texts of a list of strings.
pub open spec fn str_bytes(v: Seq<&str>) -> Seq<Seq<u8>> {
    v.map_values(|x: &str| x.spec_bytes())
}

/// The candidates for the player's configuration in a watch page: the JSON
/// object after `ytplayer.config =`, after `ytInitialPlayerResponse =` and
/// after `yt.setConfig(...'PLAYER_CONFIG':`, in that order, each where it is
/// found. The first that deserialises is the configuration.
pub fn ytplayer_config_candidates<'h>(html: &'h str) -> (r: Vec<&'h str>)
    ensures
        str_bytes(r@) == config_objects(html, 0),
{
    let patterns = [
        "ytplayer\\.config\\s*=\\s*",
        "ytInitialPlayerResponse\\s*=\\s*",
        "yt\\.setConfig\\(.*['\"]PLAYER_CONFIG['\"]:\\s*",
    ];
    let mut found: Vec<&'h str> = Vec::new();
    let mut k: usize = 0;
    while k < 3
        invariant
            k <= 3,
            patterns@.len() == 3,
            forall|j: int| 0 <= j < 3 ==> #[trigger] patterns@[j]@ == config_pattern(j),
            str_bytes(found@) + config_objects(html, k as int) == config_objects(html, 0),
        decreases 3 - k,
    {
        let ghost before = found@;
        match parse_for_object(html, patterns[k]) {
            Ok(obj) => {
                found.push(obj);
                proof {
                    assert(str_bytes(found@) =~= str_bytes(before).push(obj.spec_bytes()));
                    assert(str_bytes(before) + config_objects(html, k as int) =~= str_bytes(found@)
                        + config_objects(html, k + 1));
                }
            },
            Err(_) => {},
        }
        k = k + 1;
    }
    proof {
        assert(str_bytes(found@) + config_objects(html, 3) =~= str_bytes(found@));
    }
    found
}

} // verus!
