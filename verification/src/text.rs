//! Small verified helpers on text.
//!
//! Strings are modelled by their sequence of characters. The helpers here
//! turn a string into a vector of characters once and then work on indices.

use vstd::prelude::*;

verus! {

/// `pattern` occurs in `text` starting at position `at`.
pub open spec fn spec_occurs_at(text: Seq<char>, pattern: Seq<char>, at: int) -> bool {
    &&& 0 <= at
    &&& at + pattern.len() <= text.len()
    &&& text.subrange(at, at + pattern.len()) == pattern
}

/// `pattern` occurs somewhere in `text`.
pub open spec fn spec_contains(text: Seq<char>, pattern: Seq<char>) -> bool {
    exists|at: int| spec_occurs_at(text, pattern, at)
}

/// `text` begins with `prefix`.
pub open spec fn spec_starts_with(text: Seq<char>, prefix: Seq<char>) -> bool {
    spec_occurs_at(text, prefix, 0)
}

/// `text` is not empty and its last character is `c`.
pub open spec fn spec_ends_with_char(text: Seq<char>, c: char) -> bool {
    text.len() > 0 && text.last() == c
}

/// An ASCII capital letter.
pub open spec fn spec_is_ascii_upper(c: char) -> bool {
    'A' <= c && c <= 'Z'
}

/// The lower-case form of an ASCII capital letter; any other character is
/// left as it is.
pub open spec fn spec_lower_char(c: char) -> char {
    if spec_is_ascii_upper(c) {
        ((c as u8) + 32) as char
    } else {
        c
    }
}

/// A text with each ASCII capital letter replaced by its lower-case form.
pub open spec fn spec_ascii_lower(text: Seq<char>) -> Seq<char> {
    Seq::new(text.len(), |i: int| spec_lower_char(text[i]))
}

/// No ASCII capital letter occurs in `text`.
pub open spec fn spec_no_ascii_upper(text: Seq<char>) -> bool {
    forall|i: int| 0 <= i < text.len() ==> !spec_is_ascii_upper(#[trigger] text[i])
}

/// Two texts are equal when the case of ASCII letters is ignored.
pub open spec fn spec_eq_ignore_ascii_case(a: Seq<char>, b: Seq<char>) -> bool {
    spec_ascii_lower(a) == spec_ascii_lower(b)
}

/// Lower-casing leaves a text without ASCII capital letters unchanged.
pub proof fn lemma_lower_of_lower_case(text: Seq<char>)
    requires
        spec_no_ascii_upper(text),
    ensures
        spec_ascii_lower(text) == text,
{
    assert(spec_ascii_lower(text) =~= text);
}

/// The lower-case form of one character.
pub fn lower_char(c: char) -> (lower: char)
    ensures
        lower == spec_lower_char(c),
{
    if 'A' <= c && c <= 'Z' {
        ((c as u8) + 32) as char
    } else {
        c
    }
}

/// The characters of a string with ASCII capital letters in lower case.
pub fn ascii_lower_chars(s: &str) -> (lower: Vec<char>)
    ensures
        lower@ == spec_ascii_lower(s@),
{
    let chars = chars_of(s);
    let mut lower: Vec<char> = Vec::new();
    let mut k: usize = 0;
    while k < chars.len()
        invariant
            k <= chars.len(),
            chars@ == s@,
            lower@.len() == k,
            forall|j: int| 0 <= j < k ==> lower@[j] == spec_lower_char(chars@[j]),
        decreases chars.len() - k,
    {
        lower.push(lower_char(chars[k]));
        k += 1;
    }
    assert(lower@ =~= spec_ascii_lower(s@));
    lower
}

/// The characters of a string, in order.
pub fn chars_of(s: &str) -> (chars: Vec<char>)
    ensures
        chars@ == s@,
{
    let mut chars: Vec<char> = Vec::new();
    for c in it: s.chars()
        invariant
            it.seq() == s@,
            chars@ == it.seq().take(it.index() as int),
    {
        chars.push(c);
    }
    chars
}

/// Tests whether `pattern` occurs in `text` at position `at`.
pub fn occurs_at(text: &Vec<char>, pattern: &Vec<char>, at: usize) -> (found: bool)
    ensures
        found == spec_occurs_at(text@, pattern@, at as int),
{
    if pattern.len() > text.len() || at > text.len() - pattern.len() {
        return false;
    }
    let mut k: usize = 0;
    while k < pattern.len()
        invariant
            k <= pattern.len(),
            at + pattern.len() <= text.len(),
            forall|j: int| 0 <= j < k ==> text@[at + j] == pattern@[j],
        decreases pattern.len() - k,
    {
        if text[at + k] != pattern[k] {
            proof {
                let window = text@.subrange(at as int, at + pattern.len());
                assert(window[k as int] == text@[at + k]);
            }
            return false;
        }
        k += 1;
    }
    assert(text@.subrange(at as int, at + pattern.len()) =~= pattern@);
    true
}

/// Tests whether `pattern` occurs anywhere in `text`.
pub fn contains(text: &Vec<char>, pattern: &Vec<char>) -> (found: bool)
    ensures
        found == spec_contains(text@, pattern@),
{
    if pattern.len() > text.len() {
        return false;
    }
    let last: usize = text.len() - pattern.len();
    let mut at: usize = 0;
    loop
        invariant
            at <= last,
            last == text.len() - pattern.len(),
            pattern.len() <= text.len(),
            forall|j: int| 0 <= j < at ==> !spec_occurs_at(text@, pattern@, j),
        decreases last - at,
    {
        if occurs_at(text, pattern, at) {
            return true;
        }
        if at == last {
            return false;
        }
        at += 1;
    }
}

/// Tests whether the last character of `text` is `c`.
pub fn ends_with_char(text: &Vec<char>, c: char) -> (found: bool)
    ensures
        found == spec_ends_with_char(text@, c),
{
    text.len() > 0 && text[text.len() - 1] == c
}

/// Whether two strings hold the same characters.
pub fn same_text(a: &str, b: &str) -> (same: bool)
    ensures
        same == (a@ == b@),
{
    let left = chars_of(a);
    let right = chars_of(b);
    if left.len() != right.len() {
        return false;
    }
    let mut k: usize = 0;
    while k < left.len()
        invariant
            k <= left.len(),
            left.len() == right.len(),
            left@ == a@,
            right@ == b@,
            forall|j: int| 0 <= j < k ==> left@[j] == right@[j],
        decreases left.len() - k,
    {
        if left[k] != right[k] {
            return false;
        }
        k += 1;
    }
    assert(left@ =~= right@);
    true
}

} // verus!
