//! Decimal numbers in YouTube's texts: indices, segment counts, content
//! lengths and durations such as `1:02:03`.

use vstd::prelude::*;

use crate::error::Error;
use crate::text::{collect_chars, string_push};

verus! {

/// The value of a decimal digit.
pub open spec fn digit_value(c: char) -> int {
    (c as u32) - 48
}

/// A decimal digit, `0` to `9`.
pub open spec fn is_digit(c: char) -> bool {
    48 <= (c as u32) <= 57
}

/// The value of a sequence of decimal digits.
pub open spec fn decimal_value(ds: Seq<char>) -> int
    decreases ds.len(),
{
    if ds.len() == 0 {
        0
    } else {
        decimal_value(ds.drop_last()) * 10 + digit_value(ds.last())
    }
}

/// What `str::parse::<u64>` gives: an optional `+` followed by at least one
/// decimal digit, whose value fits in a `u64`.
pub open spec fn parsed_u64(cs: Seq<char>) -> Option<u64> {
    let ds = unsigned_digits(cs);
    if ds.len() > 0 && all_digits(ds) && decimal_value(ds) <= u64::MAX {
        Some(decimal_value(ds) as u64)
    } else {
        None
    }
}

/// The text without its optional leading `+`.
pub open spec fn unsigned_digits(cs: Seq<char>) -> Seq<char> {
    if cs.len() > 0 && cs[0] == '+' {
        cs.drop_first()
    } else {
        cs
    }
}

/// Every character is a decimal digit.
pub open spec fn all_digits(ds: Seq<char>) -> bool {
    forall|i: int| 0 <= i < ds.len() ==> #[trigger] is_digit(ds[i])
}

proof fn lemma_decimal_value_nonneg(ds: Seq<char>)
    requires
        forall|i: int| 0 <= i < ds.len() ==> #[trigger] is_digit(ds[i]),
    ensures
        decimal_value(ds) >= 0,
    decreases ds.len(),
{
    if ds.len() > 0 {
        assert forall|i: int| 0 <= i < ds.drop_last().len() implies #[trigger] is_digit(
            ds.drop_last()[i],
        ) by {
            assert(ds.drop_last()[i] == ds[i]);
        }
        lemma_decimal_value_nonneg(ds.drop_last());
        assert(is_digit(ds[ds.len() - 1]));
        assert(decimal_value(ds) == decimal_value(ds.drop_last()) * 10 + digit_value(ds.last()));
    }
}

proof fn lemma_decimal_value_grows(ds: Seq<char>, k: int)
    requires
        0 <= k <= ds.len(),
        forall|i: int| 0 <= i < ds.len() ==> #[trigger] is_digit(ds[i]),
    ensures
        decimal_value(ds.subrange(0, k)) <= decimal_value(ds),
    decreases ds.len() - k,
{
    if k < ds.len() {
        lemma_decimal_value_grows(ds, k + 1);
        let p = ds.subrange(0, k + 1);
        assert(p.drop_last() =~= ds.subrange(0, k));
        assert forall|i: int| 0 <= i < k implies #[trigger] is_digit(ds.subrange(0, k)[i]) by {
            assert(ds.subrange(0, k)[i] == ds[i]);
        }
        lemma_decimal_value_nonneg(ds.subrange(0, k));
        assert(is_digit(ds[k]));
        assert(p.last() == ds[k]);
        assert(decimal_value(p) == decimal_value(p.drop_last()) * 10 + digit_value(p.last()));
    } else {
        assert(ds.subrange(0, k) =~= ds);
    }
}

/// The number that `s` writes in decimal, as `str::parse::<u64>` reads it.
pub fn parse_u64(s: &str) -> (r: Option<u64>)
    ensures
        r == parsed_u64(s@),
{
    let cs = collect_chars(s);
    let n = cs.len();
    let start: usize = if n > 0 && cs[0] == '+' {
        1
    } else {
        0
    };
    let ghost ds = unsigned_digits(s@);
    proof {
        assert(ds =~= s@.subrange(start as int, n as int));
    }
    if start == n {
        return None;
    }
    let mut value: u64 = 0;
    let mut i = start;
    while i < n
        invariant
            cs@ == s@,
            n == s@.len(),
            start <= i <= n,
            start < n,
            ds == s@.subrange(start as int, n as int),
            ds == unsigned_digits(s@),
            forall|k: int| start <= k < i ==> #[trigger] is_digit(s@[k]),
            value == decimal_value(s@.subrange(start as int, i as int)),
        decreases n - i,
    {
        let c = cs[i];
        let u = c as u32;
        let ghost sub = s@.subrange(start as int, i + 1);
        proof {
            assert(sub.drop_last() =~= s@.subrange(start as int, i as int));
        }
        if u < 48 || u > 57 {
            proof {
                assert(u == (c as u32));
                assert(!is_digit(c));
                assert(ds[i - start] == c);
                assert(!is_digit(ds[i - start]));
                assert(!all_digits(ds));
            }
            return None;
        }
        let d = (u - 48) as u64;
        let next = match value.checked_mul(10) {
            Some(v10) => v10.checked_add(d),
            None => None,
        };
        match next {
            Some(v) => {
                value = v;
            },
            None => {
                proof {
                    assert(decimal_value(sub) == value * 10 + d);
                    if all_digits(ds) {
                        lemma_decimal_value_grows(ds, i + 1 - start);
                        assert(ds.subrange(0, i + 1 - start) =~= sub);
                    }
                }
                return None;
            },
        }
        i = i + 1;
    }
    proof {
        assert(s@.subrange(start as int, n as int) =~= ds);
        assert forall|k: int| 0 <= k < ds.len() implies #[trigger] is_digit(ds[k]) by {
            assert(ds[k] == s@[start + k]);
        }
    }
    Some(value)
}

/// The decimal digit of a number below ten.
pub open spec fn digit_of(d: nat) -> char {
    (d + 48) as char
}

/// The decimal text of a number, without leading zeros.
pub open spec fn decimal_text(n: nat) -> Seq<char>
    decreases n,
{
    if n < 10 {
        seq![digit_of(n)]
    } else {
        decimal_text(n / 10).push(digit_of(n % 10))
    }
}

/// The characters of `s` from the last to the first.
pub open spec fn backwards(s: Seq<char>) -> Seq<char> {
    Seq::new(s.len(), |i: int| s[s.len() - 1 - i])
}

/// The decimal text of `n`.
pub fn u64_text(n: u64) -> (r: String)
    ensures
        r@ == decimal_text(n as nat),
{
    let mut digits: Vec<char> = Vec::new();
    let mut m = n;
    loop
        invariant_except_break
            decimal_text(n as nat) == decimal_text(m as nat) + backwards(digits@),
        ensures
            decimal_text(n as nat) == backwards(digits@),
        decreases m,
    {
        let d = m % 10;
        let c = ((d as u8) + 48) as char;
        let ghost before = digits@;
        digits.push(c);
        proof {
            assert(c == digit_of(d as nat));
            assert(backwards(digits@) =~= seq![c] + backwards(before));
        }
        if m < 10 {
            proof {
                assert(decimal_text(m as nat) =~= seq![c]);
                assert(seq![c] + backwards(before) =~= backwards(digits@));
            }
            break;
        }
        proof {
            assert(decimal_text(m as nat) == decimal_text((m / 10) as nat).push(c));
            assert(decimal_text((m / 10) as nat).push(c) + backwards(before) =~= decimal_text((m / 10) as nat) + backwards(digits@));
        }
        m = m / 10;
    }
    let mut r = String::new();
    let mut i = digits.len();
    while i > 0
        invariant
            i <= digits@.len(),
            r@ == backwards(digits@).subrange(0, digits@.len() - i),
        decreases i,
    {
        i = i - 1;
        let ghost before = r@;
        string_push(&mut r, digits[i]);
        proof {
            assert(r@ =~= backwards(digits@).subrange(0, digits@.len() - i));
        }
    }
    proof {
        assert(r@ =~= backwards(digits@));
    }
    r
}

/// Reading back the decimal text of a number gives the number: what
/// `u64_text` writes, `parse_u64` reads as the same value.
pub proof fn lemma_decimal_text_roundtrip(n: u64)
    ensures
        parsed_u64(decimal_text(n as nat)) == Some(n),
{
    lemma_decimal_text_value(n as nat);
    let t = decimal_text(n as nat);
    assert(t.len() > 0);
    assert(is_digit(t[0]));
    assert(unsigned_digits(t) == t);
}

proof fn lemma_digit_of(d: nat)
    requires
        d < 10,
    ensures
        digit_value(digit_of(d)) == d,
        is_digit(digit_of(d)),
{
    assert(((d + 48) as char) as u32 == d + 48);
}

proof fn lemma_decimal_text_value(n: nat)
    ensures
        decimal_value(decimal_text(n)) == n,
        all_digits(decimal_text(n)),
        decimal_text(n).len() > 0,
    decreases n,
{
    if n >= 10 {
        lemma_decimal_text_value(n / 10);
        let s = decimal_text(n / 10);
        let t = s.push(digit_of(n % 10));
        assert(t.drop_last() =~= s);
        assert(n == (n / 10) * 10 + n % 10);
        lemma_digit_of(n % 10);
        assert(t == decimal_text(n));
        assert(t.last() == digit_of(n % 10));
        assert(decimal_value(t) == decimal_value(s) * 10 + digit_value(digit_of(n % 10)));
        assert forall|i: int| 0 <= i < t.len() implies #[trigger] is_digit(t[i]) by {
            if i < s.len() {
                assert(t[i] == s[i]);
            }
        }
    } else {
        lemma_digit_of(n);
        assert(decimal_text(n) =~= seq![digit_of(n)]);
        assert(seq![digit_of(n)].drop_last() =~= Seq::<char>::empty());
        assert(decimal_value(seq![digit_of(n)]) == decimal_value(Seq::<char>::empty()) * 10 + digit_value(digit_of(n)));
    }
}

/// The quotient of a division by 1000 that rounds toward zero, as Rust's `/`
/// on signed integers does.
pub open spec fn div_thousand_toward_zero(x: int) -> int {
    if x >= 0 {
        x / 1000
    } else {
        -((-x) / 1000)
    }
}

/// A time stamp in microseconds as milliseconds, rounded toward zero.
pub fn millis_from_micros(micros: i64) -> (millis: i64)
    ensures
        millis == div_thousand_toward_zero(micros as int),
{
    if micros >= 0 {
        micros / 1000
    } else {
        let m: i64 = -(micros + 1);
        let a: u64 = (m as u64) + 1;
        let q: u64 = a / 1000;
        assert(a == -(micros as int));
        assert(q <= 9223372036854776);
        -(q as i64)
    }
}

} // verus!
