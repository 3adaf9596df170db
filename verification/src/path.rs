//! The segments of a request path.
//!
//! A path is cut at its slashes. The listeners read one or two segments
//! from the front of a path and hand the rest on as it is.

use crate::text::chars_of;
use vstd::prelude::*;

verus! {

/// The position of the first `/` at or behind `from`, or the length of the
/// text where there is none.
pub open spec fn spec_segment_end(text: Seq<char>, from: int) -> int
    decreases text.len() - from,
{
    if from < 0 || from >= text.len() || text[from] == '/' {
        from
    } else {
        spec_segment_end(text, from + 1)
    }
}

/// The segment that begins at `from`, and the position at which the text
/// behind that segment begins. `None` where the segment is empty.
pub open spec fn spec_segment_at(text: Seq<char>, from: int) -> Option<(Seq<char>, int)> {
    let end = spec_segment_end(text, from);
    if from < 0 || from > text.len() || end == from {
        None
    } else if end < text.len() {
        Some((text.subrange(from, end), end + 1))
    } else {
        Some((text.subrange(from, end), end))
    }
}

/// The text from `from` to the end.
pub open spec fn spec_tail_from(text: Seq<char>, from: int) -> Seq<char> {
    if 0 <= from <= text.len() {
        text.subrange(from, text.len() as int)
    } else {
        Seq::empty()
    }
}

/// Reads the segment that begins at position `from` of a path: its text,
/// and the position behind it and behind the `/` that follows it. `None`
/// where the segment is empty or `from` lies behind the end.
pub fn segment_at(path: &str, from: usize) -> (segment: Option<(String, usize)>)
    ensures
        match segment {
            Some((text, next)) => spec_segment_at(path@, from as int) == Some((text@, next as int))
                && from < next <= path@.len(),
            None => spec_segment_at(path@, from as int) is None,
        },
{
    let chars = chars_of(path);
    if from > chars.len() {
        return None;
    }
    let mut end: usize = from;
    while end < chars.len() && chars[end] != '/'
        invariant
            from <= end <= chars@.len(),
            chars@ == path@,
            spec_segment_end(path@, from as int) == spec_segment_end(path@, end as int),
        decreases chars@.len() - end,
    {
        end += 1;
    }
    if end == from {
        return None;
    }
    let text = String::from_str(path.substring_char(from, end));
    if end < chars.len() {
        Some((text, end + 1))
    } else {
        Some((text, end))
    }
}

/// The text of a path from position `from` to its end.
pub fn tail_from(path: &str, from: usize) -> (tail: String)
    ensures
        tail@ == spec_tail_from(path@, from as int),
{
    let length = path.unicode_len();
    if from <= length {
        String::from_str(path.substring_char(from, length))
    } else {
        String::new()
    }
}

/// Whether a path begins with `/`.
pub fn is_rooted(path: &str) -> (rooted: bool)
    ensures
        rooted == (path@.len() > 0 && path@[0] == '/'),
{
    path.unicode_len() > 0 && path.get_char(0) == '/'
}

} // verus!
