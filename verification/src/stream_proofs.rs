//! How the tags of a stream relate to the tags of its parts.

use crate::adif::{
    after_qualifier, close_index, in_class, is_tag_at, lemma_run_end_bounds, lemma_tag_bounds,
    name_end, run_end, tag_at, tags, tags_from, value_end, CharClass, Tag,
};
use vstd::prelude::*;

verus! {

/// A run that is known to consist of characters of the class, and to be
/// followed by none, ends where it is said to.
pub proof fn lemma_run_end_is(s: Seq<char>, k: CharClass, i: int, e: int)
    requires
        0 <= i <= e <= s.len(),
        forall|j: int| i <= j < e ==> in_class(k, #[trigger] s[j]),
        e == s.len() || !in_class(k, s[e]),
    ensures
        run_end(s, k, i) == e,
    decreases e - i,
{
    if i < e {
        lemma_run_end_is(s, k, i + 1, e);
    }
}

/// A run in the second part of a text does not depend on the first part.
pub proof fn lemma_run_end_shift(a: Seq<char>, b: Seq<char>, k: CharClass, i: int)
    requires
        0 <= i,
    ensures
        run_end(a + b, k, a.len() + i) == a.len() + run_end(b, k, i),
    decreases b.len() - i,
{
    if i < b.len() && in_class(k, b[i]) {
        assert((a + b)[a.len() + i] == b[i]);
        lemma_run_end_shift(a, b, k, i + 1);
    } else if i < b.len() {
        assert((a + b)[a.len() + i] == b[i]);
    }
}

/// A run that starts in the first part of a text does not reach into a
/// second part that begins with `<`.
pub proof fn lemma_run_end_stops(a: Seq<char>, b: Seq<char>, k: CharClass, i: int)
    requires
        0 <= i <= a.len(),
        b.len() == 0 || b[0] == '<',
    ensures
        run_end(a + b, k, i) == run_end(a, k, i),
    decreases a.len() - i,
{
    if i < a.len() {
        assert((a + b)[i] == a[i]);
        if in_class(k, a[i]) {
            lemma_run_end_stops(a, b, k, i + 1);
        }
    } else if b.len() > 0 {
        assert((a + b)[i] == b[0]);
    }
}

proof fn lemma_qualifier_shift(a: Seq<char>, b: Seq<char>, k: CharClass, i: int)
    requires
        0 <= i,
    ensures
        after_qualifier(a + b, k, a.len() + i) == a.len() + after_qualifier(b, k, i),
{
    if i < b.len() {
        assert((a + b)[a.len() + i] == b[i]);
    }
    lemma_run_end_shift(a, b, k, i + 1);
}

proof fn lemma_qualifier_stops(a: Seq<char>, b: Seq<char>, k: CharClass, i: int)
    requires
        0 <= i <= a.len(),
        b.len() == 0 || b[0] == '<',
    ensures
        after_qualifier(a + b, k, i) == after_qualifier(a, k, i),
        i <= after_qualifier(a, k, i) <= a.len(),
{
    if i < a.len() {
        assert((a + b)[i] == a[i]);
        lemma_run_end_stops(a, b, k, i + 1);
        lemma_run_end_bounds(a, k, i + 1);
    } else if b.len() > 0 {
        assert((a + b)[i] == b[0]);
    }
}

/// A tag in the second part of a text is the same tag, moved, in the whole.
pub proof fn lemma_tag_shift(a: Seq<char>, b: Seq<char>, p: int)
    requires
        0 <= p,
    ensures
        is_tag_at(a + b, a.len() + p) == is_tag_at(b, p),
        is_tag_at(b, p) ==> tag_at(a + b, a.len() + p) == tag_at(b, p),
        is_tag_at(b, p) ==> value_end(a + b, a.len() + p) == a.len() + value_end(b, p),
{
    let s = a + b;
    let q = a.len() + p;
    if p < b.len() {
        assert(s[q] == b[p]);
    }
    lemma_run_end_shift(a, b, CharClass::Name, p + 1);
    let n1 = name_end(b, p);
    if p + 1 <= b.len() {
        lemma_run_end_bounds(b, CharClass::Name, p + 1);
    }
    lemma_qualifier_shift(a, b, CharClass::Digits, n1);
    let n2 = after_qualifier(b, CharClass::Digits, n1);
    if n2 > n1 {
        lemma_qualifier_shift(a, b, CharClass::Letters, n2);
    }
    let c = close_index(b, p);
    assert(close_index(s, q) == a.len() + c);
    if 0 <= c < b.len() {
        assert(s[a.len() + c] == b[c]);
    }
    if is_tag_at(b, p) {
        lemma_tag_bounds(b, p);
        lemma_run_end_shift(a, b, CharClass::Text, c + 1);
        assert(s.subrange(q + 1, name_end(s, q)) =~= b.subrange(p + 1, n1));
        assert(s.subrange(close_index(s, q) + 1, value_end(s, q)) =~= b.subrange(
            c + 1,
            value_end(b, p),
        ));
    }
}

/// A tag in the first part of a text is not changed by a second part that
/// begins with `<`.
pub proof fn lemma_tag_stops(a: Seq<char>, b: Seq<char>, p: int)
    requires
        0 <= p < a.len(),
        b.len() == 0 || b[0] == '<',
    ensures
        is_tag_at(a + b, p) == is_tag_at(a, p),
        is_tag_at(a, p) ==> tag_at(a + b, p) == tag_at(a, p),
        is_tag_at(a, p) ==> value_end(a + b, p) == value_end(a, p),
{
    let s = a + b;
    assert(s[p] == a[p]);
    lemma_run_end_stops(a, b, CharClass::Name, p + 1);
    lemma_run_end_bounds(a, CharClass::Name, p + 1);
    let n1 = name_end(a, p);
    lemma_qualifier_stops(a, b, CharClass::Digits, n1);
    let n2 = after_qualifier(a, CharClass::Digits, n1);
    if n2 > n1 {
        lemma_qualifier_stops(a, b, CharClass::Letters, n2);
    }
    let c = close_index(a, p);
    assert(close_index(s, p) == c);
    if c < a.len() {
        assert(s[c] == a[c]);
    } else if b.len() > 0 {
        assert(s[c] == b[0]);
    }
    if is_tag_at(a, p) {
        lemma_tag_bounds(a, p);
        lemma_run_end_stops(a, b, CharClass::Text, c + 1);
        assert(s.subrange(p + 1, name_end(s, p)) =~= a.subrange(p + 1, n1));
        assert(s.subrange(c + 1, value_end(s, p)) =~= a.subrange(c + 1, value_end(a, p)));
    }
}

/// The tags of the second part of a text are found in the whole, from where
/// the second part begins.
pub proof fn lemma_tags_shift(a: Seq<char>, b: Seq<char>, p: int)
    requires
        0 <= p,
    ensures
        tags_from(a + b, a.len() + p) == tags_from(b, p),
    decreases b.len() - p,
{
    if p < b.len() {
        lemma_tag_shift(a, b, p);
        if is_tag_at(b, p) {
            lemma_tag_bounds(b, p);
            lemma_tags_shift(a, b, value_end(b, p));
        } else {
            lemma_tags_shift(a, b, p + 1);
        }
    }
}

/// Where the second part of a text is empty or begins with `<`, the tags of
/// the whole are the tags of the first part followed by those of the second.
pub proof fn lemma_tags_concat(a: Seq<char>, b: Seq<char>, p: int)
    requires
        0 <= p <= a.len(),
        b.len() == 0 || b[0] == '<',
    ensures
        tags_from(a + b, p) == tags_from(a, p) + tags_from(b, 0),
    decreases a.len() - p,
{
    if p < a.len() {
        lemma_tag_stops(a, b, p);
        if is_tag_at(a, p) {
            lemma_tag_bounds(a, p);
            lemma_tags_concat(a, b, value_end(a, p));
            assert(tags_from(a + b, p) =~= tags_from(a, p) + tags_from(b, 0));
        } else {
            lemma_tags_concat(a, b, p + 1);
        }
    } else {
        lemma_tags_shift(a, b, 0);
        assert(tags_from(a, p) =~= Seq::<Tag>::empty());
        assert(tags_from(a + b, p) =~= tags_from(a, p) + tags_from(b, 0));
    }
}

} // verus!
