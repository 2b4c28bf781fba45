//! Character classes and small text helpers shared by the scanners.

use vstd::prelude::*;

verus! {

/// Whether the regular-expression class `\w` (Unicode word character:
/// `\p{Alphabetic}`, `\p{M}`, `\d`, `\p{Pc}`, `\p{Join_Control}`) contains `c`.
pub uninterp spec fn regex_word_char(c: char) -> bool;

/// ASCII word characters: `[0-9A-Za-z_]`.
pub open spec fn is_ascii_word_char(c: char) -> bool {
    ||| ('a' <= c && c <= 'z')
    ||| ('A' <= c && c <= 'Z')
    ||| ('0' <= c && c <= '9')
    ||| c == '_'
}

/// The class `\w`: on ASCII characters it is `[0-9A-Za-z_]`, as the regex
/// documentation's definition of the class gives.
pub open spec fn word_char(c: char) -> bool {
    if c <= '\x7f' {
        is_ascii_word_char(c)
    } else {
        regex_word_char(c)
    }
}

/// Asks the `regex` crate whether `\w` matches the single character `c`.
///
/// Trusted: on ASCII characters the crate's documented class definition
/// reduces to `[0-9A-Za-z_]`, which is stated; on other characters the result
/// is named `regex_word_char(c)` and not stated further.
#[verifier::external_body]
pub(crate) fn is_word_char(c: char) -> (b: bool)
    ensures
        b == (if c <= '\x7f' { is_ascii_word_char(c) } else { regex_word_char(c) }),
{
    let mut buf = [0u8; 4];
    match regex::Regex::new(r"\A\w\z") {
        Ok(re) => re.is_match(c.encode_utf8(&mut buf)),
        Err(_) => false,
    }
}

/// Unicode `White_Space`, the class `\s` and what `char::is_whitespace` tests.
pub open spec fn is_white_space(c: char) -> bool {
    ||| ('\t' <= c && c <= '\r')
    ||| c == ' '
    ||| c == '\u{85}'
    ||| c == '\u{a0}'
    ||| c == '\u{1680}'
    ||| ('\u{2000}' <= c && c <= '\u{200a}')
    ||| c == '\u{2028}'
    ||| c == '\u{2029}'
    ||| c == '\u{202f}'
    ||| c == '\u{205f}'
    ||| c == '\u{3000}'
}

/// Whether `c` is Unicode white space.
pub fn is_white_space_exec(c: char) -> (b: bool)
    ensures
        b == is_white_space(c),
{
    ('\t' <= c && c <= '\r') || c == ' ' || c == '\u{85}' || c == '\u{a0}' || c == '\u{1680}'
        || ('\u{2000}' <= c && c <= '\u{200a}') || c == '\u{2028}' || c == '\u{2029}' || c
        == '\u{202f}' || c == '\u{205f}' || c == '\u{3000}'
}

/// `lit` stands in `s` at position `i`.
pub open spec fn spec_lit_at(s: Seq<char>, i: int, lit: Seq<char>) -> bool {
    &&& 0 <= i
    &&& i + lit.len() <= s.len()
    &&& s.subrange(i, i + lit.len()) == lit
}

/// Whether `lit` stands in `s` at position `i` (`n` is the length of `s` in characters).
pub fn lit_at(s: &str, n: usize, i: usize, lit: &str) -> (b: bool)
    requires
        n == s@.len(),
    ensures
        b == spec_lit_at(s@, i as int, lit@),
{
    let m = lit.unicode_len();
    if i > n || n - i < m {
        return false;
    }
    let mut k: usize = 0;
    while k < m
        invariant
            n == s@.len(),
            m == lit@.len(),
            i + m <= n,
            k <= m,
            forall|j: int| 0 <= j < k ==> #[trigger] lit@[j] == s@[i + j],
        decreases m - k,
    {
        if s.get_char(i + k) != lit.get_char(k) {
            assert(s@.subrange(i as int, i + m)[k as int] != lit@[k as int]);
            return false;
        }
        k = k + 1;
    }
    assert(s@.subrange(i as int, i + m) =~= lit@);
    true
}

/// Whether `lit` stands in `cs` at position `i`.
pub fn lit_at_chars(cs: &Vec<char>, i: usize, lit: &str) -> (b: bool)
    ensures
        b == spec_lit_at(cs@, i as int, lit@),
{
    let n = cs.len();
    let m = lit.unicode_len();
    if i > n || n - i < m {
        return false;
    }
    let mut k: usize = 0;
    while k < m
        invariant
            n == cs@.len(),
            m == lit@.len(),
            i + m <= n,
            k <= m,
            forall|j: int| 0 <= j < k ==> #[trigger] lit@[j] == cs@[i + j],
        decreases m - k,
    {
        if cs[i + k] != lit.get_char(k) {
            assert(cs@.subrange(i as int, i + m)[k as int] != lit@[k as int]);
            return false;
        }
        k = k + 1;
    }
    assert(cs@.subrange(i as int, i + m) =~= lit@);
    true
}

/// `c` with ASCII upper-case letters mapped to lower case.
pub open spec fn ascii_lower(c: char) -> char {
    if 'A' <= c && c <= 'Z' {
        ((c as u32) + 32) as char
    } else {
        c
    }
}

/// `a` and `b` are equal up to ASCII case.
pub open spec fn spec_ascii_eq_ignore_case(a: Seq<char>, b: Seq<char>) -> bool {
    &&& a.len() == b.len()
    &&& forall|i: int| 0 <= i < a.len() ==> #[trigger] ascii_lower(a[i]) == ascii_lower(b[i])
}

fn ascii_lower_exec(c: char) -> (r: char)
    ensures
        r == ascii_lower(c),
{
    if 'A' <= c && c <= 'Z' {
        let b: u8 = ((c as u32) + 32) as u8;
        b as char
    } else {
        c
    }
}

/// Whether `a` and `b` are equal up to ASCII case.
pub fn ascii_eq_ignore_case(a: &str, b: &str) -> (r: bool)
    ensures
        r == spec_ascii_eq_ignore_case(a@, b@),
{
    let ca = collect_chars(a);
    let cb = collect_chars(b);
    if ca.len() != cb.len() {
        return false;
    }
    let mut i: usize = 0;
    while i < ca.len()
        invariant
            ca@ == a@,
            cb@ == b@,
            ca@.len() == cb@.len(),
            i <= ca@.len(),
            forall|k: int| 0 <= k < i ==> #[trigger] ascii_lower(a@[k]) == ascii_lower(b@[k]),
        decreases ca@.len() - i,
    {
        if ascii_lower_exec(ca[i]) != ascii_lower_exec(cb[i]) {
            return false;
        }
        i = i + 1;
    }
    true
}

/// The texts of a list of strings.
pub open spec fn texts_of(v: Seq<String>) -> Seq<Seq<char>> {
    v.map_values(|x: String| x@)
}

/// The message that `format!` writes for a progressive format whose codecs
/// are not exactly two: their number and their `Debug` form.
pub uninterp spec fn codecs_error_text(codecs: Seq<Seq<char>>) -> Seq<char>;

/// The message that `format!` writes for an unknown word of an output-level
/// text: the word in its `Debug` form.
pub uninterp spec fn level_error_text(word: Seq<char>) -> Seq<char>;

/// Writes the message for a progressive format that does not list exactly
/// two codecs, with `format!`.
///
/// Trusted: the message is named by `codecs_error_text` over the codecs.
#[verifier::external_body]
pub(crate) fn format_codecs_error(codecs: &Vec<String>) -> (r: String)
    ensures
        r@ == codecs_error_text(texts_of(codecs@)),
{
    format!("expected codecs to contains 2 elements, got {}, `{:?}`", codecs.len(), codecs)
}

/// Writes the message for an unknown word in an output-level text, with `format!`.
///
/// Trusted: the message is named by `level_error_text` over the word.
#[verifier::external_body]
pub(crate) fn format_level_error(word: &str) -> (r: String)
    ensures
        r@ == level_error_text(word@),
{
    format!("could not parse {:?} to an OutputLevel", word)
}

/// The characters of `s` from position `i` on.
pub open spec fn suffix_from(s: Seq<char>, i: usize) -> Seq<char> {
    s.subrange(i as int, s.len() as int)
}

/// Dropping the first character of a suffix gives the next suffix.
pub proof fn lemma_suffix_step(s: Seq<char>, i: usize)
    requires
        i < s.len(),
        i + 1 <= usize::MAX,
    ensures
        suffix_from(s, i).drop_first() == suffix_from(s, (i + 1) as usize),
        suffix_from(s, i)[0] == s[i as int],
        suffix_from(s, i).len() > 0,
{
    assert(suffix_from(s, i).drop_first() =~= suffix_from(s, (i + 1) as usize));
}

/// The length and first character of a suffix.
pub proof fn lemma_suffix_first(s: Seq<char>, i: usize)
    requires
        i <= s.len(),
    ensures
        suffix_from(s, i).len() == s.len() - i,
        i < s.len() ==> suffix_from(s, i)[0] == s[i as int],
{
}

/// Calls `String::push`, which appends `c` to the end of `s`.
#[verifier::external_body]
pub(crate) fn string_push(s: &mut String, c: char)
    ensures
        final(s)@ == old(s)@.push(c),
{
    s.push(c);
}

/// The characters of `s`, in order.
pub fn collect_chars(s: &str) -> (v: Vec<char>)
    ensures
        v@ == s@,
{
    let mut v: Vec<char> = Vec::new();
    for c in it: s.chars()
        invariant
            v@ == it.seq().take(it.index() as int),
    {
        v.push(c);
    }
    v
}

} // verus!
