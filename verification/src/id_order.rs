//! Ids compare as their texts do.

use core::cmp::Ordering;

use vstd::prelude::*;

use crate::id::Id;
use crate::text::{collect_chars, lemma_suffix_first, lemma_suffix_step, suffix_from};

verus! {

/// The lexicographic order of two texts.
pub open spec fn text_order(a: Seq<char>, b: Seq<char>) -> Ordering
    decreases a.len(),
{
    if a.len() == 0 {
        if b.len() == 0 {
            Ordering::Equal
        } else {
            Ordering::Less
        }
    } else if b.len() == 0 {
        Ordering::Greater
    } else if a[0] < b[0] {
        Ordering::Less
    } else if b[0] < a[0] {
        Ordering::Greater
    } else {
        text_order(a.drop_first(), b.drop_first())
    }
}

/// Whether two texts are equal.
pub fn str_eq(a: &str, b: &str) -> (r: bool)
    ensures
        r == (a@ == b@),
{
    let ca = collect_chars(a);
    let cb = collect_chars(b);
    if ca.len() != cb.len() {
        return false;
    }
    let mut i: usize = 0;
    while i < ca.len()
        invariant
            ca@ == a@,
            cb@ == b@,
            ca@.len() == cb@.len(),
            i <= ca@.len(),
            forall|k: int| 0 <= k < i ==> #[trigger] a@[k] == b@[k],
        decreases ca@.len() - i,
    {
        if ca[i] != cb[i] {
            return false;
        }
        i = i + 1;
    }
    assert(a@ =~= b@);
    true
}

/// The lexicographic order of two texts.
pub fn str_order(a: &str, b: &str) -> (o: Ordering)
    ensures
        o == text_order(a@, b@),
{
    let ca = collect_chars(a);
    let cb = collect_chars(b);
    let mut i: usize = 0;
    assert(suffix_from(a@, 0) =~= a@);
    assert(suffix_from(b@, 0) =~= b@);
    while i < ca.len() && i < cb.len() && ca[i] == cb[i]
        invariant
            ca@ == a@,
            cb@ == b@,
            i <= ca@.len(),
            i <= cb@.len(),
            text_order(a@, b@) == text_order(suffix_from(a@, i), suffix_from(b@, i)),
        decreases ca@.len() - i,
    {
        proof {
            lemma_suffix_step(a@, i);
            lemma_suffix_step(b@, i);
        }
        i = i + 1;
    }
    proof {
        lemma_suffix_first(a@, i);
        lemma_suffix_first(b@, i);
    }
    if i == ca.len() {
        if i == cb.len() {
            Ordering::Equal
        } else {
            Ordering::Less
        }
    } else if i == cb.len() {
        Ordering::Greater
    } else if ca[i] < cb[i] {
        Ordering::Less
    } else {
        Ordering::Greater
    }
}

impl<'a> PartialEq for Id<'a> {
    fn eq(&self, other: &Self) -> (r: bool) {
        str_eq(self.as_str(), other.as_str())
    }
}

impl<'a> vstd::std_specs::cmp::PartialEqSpecImpl for Id<'a> {
    open spec fn obeys_eq_spec() -> bool {
        true
    }

    open spec fn eq_spec(&self, other: &Id<'a>) -> bool {
        self@ == other@
    }
}

impl<'a> Eq for Id<'a> {
}

impl<'a> PartialOrd for Id<'a> {
    fn partial_cmp(&self, other: &Self) -> (r: Option<Ordering>) {
        Some(str_order(self.as_str(), other.as_str()))
    }
}

impl<'a> vstd::std_specs::cmp::PartialOrdSpecImpl for Id<'a> {
    open spec fn obeys_partial_cmp_spec() -> bool {
        true
    }

    open spec fn partial_cmp_spec(&self, other: &Id<'a>) -> Option<Ordering> {
        Some(text_order(self@, other@))
    }
}

/// Ids are ordered as their texts: the order of two ids is the reverse of
/// their order the other way round, and equal ids compare `Equal`.
pub proof fn lemma_text_order_antisymmetric(a: Seq<char>, b: Seq<char>)
    ensures
        text_order(b, a) == match text_order(a, b) {
            Ordering::Less => Ordering::Greater,
            Ordering::Equal => Ordering::Equal,
            Ordering::Greater => Ordering::Less,
        },
        (text_order(a, b) == Ordering::Equal) == (a == b),
    decreases a.len(),
{
    if a.len() > 0 && b.len() > 0 && a[0] == b[0] {
        lemma_text_order_antisymmetric(a.drop_first(), b.drop_first());
        if a.drop_first() == b.drop_first() {
            assert(a =~= seq![a[0]] + a.drop_first());
            assert(b =~= seq![b[0]] + b.drop_first());
        }
    } else if a.len() == 0 && b.len() == 0 {
        assert(a =~= b);
    }
}

} // verus!
