//! The grammar of a tag stream.
//!
//! A tag is written `<NAME>`, `<NAME:length>` or `<NAME:length:type>`; the
//! text that follows it, up to the next `<`, is its value. `NAME` is made of
//! letters and `_`, `length` of decimal digits of any script, `type` of
//! letters, each at least one. A letter is an ASCII letter or one of the two
//! characters that fold to one. A `<` that begins no tag is skipped.

use crate::text::{is_decimal_digit, is_decimal_digit_char, is_letter, is_letter_char};
use vstd::prelude::*;

verus! {

/// The sets of characters that the parts of a tag are made of.
#[derive(Clone, Copy, Debug)]
pub enum CharClass {
    /// Letters and `_`: a tag's name.
    Name,
    /// Decimal digits: a tag's length qualifier.
    Digits,
    /// Letters: a tag's type qualifier.
    Letters,
    /// Everything but `<`: a tag's value.
    Text,
}

/// One tag of a stream: its name as written, and the text that follows it.
pub struct Tag {
    pub name: Seq<char>,
    pub value: Seq<char>,
}

/// Whether a character belongs to a class.
pub open spec fn in_class(k: CharClass, c: char) -> bool {
    match k {
        CharClass::Name => is_letter(c) || c == '_',
        CharClass::Digits => is_decimal_digit(c),
        CharClass::Letters => is_letter(c),
        CharClass::Text => c != '<',
    }
}

/// Where the longest run of characters of class `k` that starts at index `i`
/// ends.
pub open spec fn run_end(s: Seq<char>, k: CharClass, i: int) -> int
    decreases s.len() - i,
{
    if 0 <= i < s.len() && in_class(k, s[i]) {
        run_end(s, k, i + 1)
    } else {
        i
    }
}

/// The index after an optional qualifier at `i`: a `:` followed by at least
/// one character of class `k`. Where there is none, `i` itself.
pub open spec fn after_qualifier(s: Seq<char>, k: CharClass, i: int) -> int {
    if 0 <= i < s.len() && s[i] == ':' && run_end(s, k, i + 1) > i + 1 {
        run_end(s, k, i + 1)
    } else {
        i
    }
}

/// Where the name of a tag that starts at `p` ends.
pub open spec fn name_end(s: Seq<char>, p: int) -> int {
    run_end(s, CharClass::Name, p + 1)
}

/// Where the closing `>` of a tag that starts at `p` has to stand: behind
/// the name, the length if there is one, and the type if there is a length
/// and a type.
pub open spec fn close_index(s: Seq<char>, p: int) -> int {
    let after_name = name_end(s, p);
    let after_length = after_qualifier(s, CharClass::Digits, after_name);
    if after_length > after_name {
        after_qualifier(s, CharClass::Letters, after_length)
    } else {
        after_name
    }
}

/// Where the value of a tag that starts at `p` ends.
pub open spec fn value_end(s: Seq<char>, p: int) -> int {
    run_end(s, CharClass::Text, close_index(s, p) + 1)
}

/// Whether a tag starts at index `p`.
pub open spec fn is_tag_at(s: Seq<char>, p: int) -> bool {
    &&& 0 <= p < s.len()
    &&& s[p] == '<'
    &&& name_end(s, p) > p + 1
    &&& close_index(s, p) < s.len()
    &&& s[close_index(s, p)] == '>'
}

/// The tag that starts at index `p`.
pub open spec fn tag_at(s: Seq<char>, p: int) -> Tag
    recommends
        is_tag_at(s, p),
{
    Tag {
        name: s.subrange(p + 1, name_end(s, p)),
        value: s.subrange(close_index(s, p) + 1, value_end(s, p)),
    }
}

/// The tags of `s` that start at index `p` or later, in order. After a tag
/// the search goes on behind its value.
pub open spec fn tags_from(s: Seq<char>, p: int) -> Seq<Tag>
    decreases s.len() - p,
    via tags_from_decreases
{
    if p < 0 || p >= s.len() {
        Seq::empty()
    } else if is_tag_at(s, p) {
        seq![tag_at(s, p)] + tags_from(s, value_end(s, p))
    } else {
        tags_from(s, p + 1)
    }
}

#[via_fn]
proof fn tags_from_decreases(s: Seq<char>, p: int) {
    if 0 <= p < s.len() && is_tag_at(s, p) {
        lemma_tag_bounds(s, p);
    }
}

/// The tags of a stream, in order.
pub open spec fn tags(s: Seq<char>) -> Seq<Tag> {
    tags_from(s, 0)
}

/// A run ends at or after its start, and within the text.
pub proof fn lemma_run_end_bounds(s: Seq<char>, k: CharClass, i: int)
    requires
        0 <= i <= s.len(),
    ensures
        i <= run_end(s, k, i) <= s.len(),
        forall|j: int| i <= j < run_end(s, k, i) ==> in_class(k, #[trigger] s[j]),
        run_end(s, k, i) < s.len() ==> !in_class(k, s[run_end(s, k, i)]),
    decreases s.len() - i,
{
    if i < s.len() && in_class(k, s[i]) {
        lemma_run_end_bounds(s, k, i + 1);
    }
}

/// The parts of a tag follow each other from left to right.
pub proof fn lemma_tag_bounds(s: Seq<char>, p: int)
    requires
        is_tag_at(s, p),
    ensures
        p + 1 < name_end(s, p) <= close_index(s, p) < value_end(s, p) <= s.len(),
{
    lemma_run_end_bounds(s, CharClass::Name, p + 1);
    let n1 = name_end(s, p);
    if n1 < s.len() {
        lemma_run_end_bounds(s, CharClass::Digits, n1 + 1);
    }
    let n2 = after_qualifier(s, CharClass::Digits, n1);
    if n2 < s.len() {
        lemma_run_end_bounds(s, CharClass::Letters, n2 + 1);
    }
    lemma_run_end_bounds(s, CharClass::Text, close_index(s, p) + 1);
}

/// Where the parts of one tag lie in a text: its name in
/// `name_start..name_end`, its value in `value_start..value_end`.
#[derive(Clone, Copy, Debug)]
pub struct TagSpan {
    pub name_start: usize,
    pub name_end: usize,
    pub value_start: usize,
    pub value_end: usize,
}

/// Whether a character belongs to a class.
pub fn in_class_char(k: CharClass, c: char) -> (b: bool)
    ensures
        b == in_class(k, c),
{
    match k {
        CharClass::Name => is_letter_char(c) || c == '_',
        CharClass::Digits => is_decimal_digit_char(c),
        CharClass::Letters => is_letter_char(c),
        CharClass::Text => c != '<',
    }
}

/// Finds where the run of class `k` that starts at `from` ends.
pub fn scan_run(chars: &Vec<char>, k: CharClass, from: usize) -> (end: usize)
    ensures
        end == run_end(chars@, k, from as int),
        from <= end,
        from <= chars.len() ==> end <= chars.len(),
{
    let mut i: usize = from;
    while i < chars.len() && in_class_char(k, chars[i])
        invariant
            from <= i,
            from <= chars.len() ==> i <= chars.len(),
            run_end(chars@, k, from as int) == run_end(chars@, k, i as int),
        decreases chars.len() - i,
    {
        i += 1;
    }
    i
}

/// Steps over an optional qualifier at `at`.
fn skip_qualifier(chars: &Vec<char>, k: CharClass, at: usize) -> (end: usize)
    requires
        at <= chars.len(),
    ensures
        end == after_qualifier(chars@, k, at as int),
        at <= end <= chars.len(),
{
    if at < chars.len() && chars[at] == ':' {
        let end = scan_run(chars, k, at + 1);
        if end > at + 1 {
            return end;
        }
    }
    at
}

/// Reads the tag that starts at index `at`, if one does.
pub fn read_tag(chars: &Vec<char>, at: usize) -> (tag: Option<TagSpan>)
    ensures
        tag is Some <==> is_tag_at(chars@, at as int),
        tag matches Some(span) ==> {
            &&& span.name_start == at + 1
            &&& span.name_end == name_end(chars@, at as int)
            &&& span.value_start == close_index(chars@, at as int) + 1
            &&& span.value_end == value_end(chars@, at as int)
            &&& span.name_start < span.name_end < span.value_start <= span.value_end
                <= chars.len()
        },
{
    if at >= chars.len() || chars[at] != '<' {
        return None;
    }
    let name_end = scan_run(chars, CharClass::Name, at + 1);
    if name_end == at + 1 {
        return None;
    }
    let after_length = skip_qualifier(chars, CharClass::Digits, name_end);
    let close = if after_length > name_end {
        skip_qualifier(chars, CharClass::Letters, after_length)
    } else {
        name_end
    };
    if close >= chars.len() || chars[close] != '>' {
        return None;
    }
    let value_end = scan_run(chars, CharClass::Text, close + 1);
    Some(TagSpan { name_start: at + 1, name_end, value_start: close + 1, value_end })
}

} // verus!
