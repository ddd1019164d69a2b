//! Literal search: where a pattern occurs in a text, and the scans that find
//! the occurrence next to an offset.

use crate::rope::{rope_text, text_fits};
use ropey::Rope;
use vstd::prelude::*;

verus! {

/// The pattern occurs in the text at offset `at`.
pub open spec fn matches_at(text: Seq<char>, pattern: Seq<char>, at: int) -> bool {
    0 <= at && at + pattern.len() <= text.len() && text.subrange(at, at + pattern.len())
        == pattern
}

/// The first offset at or after `from` at which the pattern occurs.
pub open spec fn first_match(text: Seq<char>, pattern: Seq<char>, from: int) -> Option<int>
    decreases text.len() + 1 - from,
{
    if from < 0 || from + pattern.len() > text.len() {
        None
    } else if matches_at(text, pattern, from) {
        Some(from)
    } else {
        first_match(text, pattern, from + 1)
    }
}

/// The last offset at or before `from` at which the pattern occurs.
pub open spec fn last_match(text: Seq<char>, pattern: Seq<char>, from: int) -> Option<int>
    decreases from + 1,
{
    if from < 0 {
        None
    } else if matches_at(text, pattern, from) {
        Some(from)
    } else {
        last_match(text, pattern, from - 1)
    }
}

/// `first_match` is the least offset from `from` on at which the pattern
/// occurs, and `None` only where there is no such offset.
pub proof fn lemma_first_match(text: Seq<char>, pattern: Seq<char>, from: int)
    requires
        0 <= from,
    ensures
        match first_match(text, pattern, from) {
            Some(at) => from <= at && matches_at(text, pattern, at) && forall|i: int|
                from <= i < at ==> !matches_at(text, pattern, i),
            None => forall|i: int| from <= i ==> !matches_at(text, pattern, i),
        },
    decreases text.len() + 1 - from,
{
    if from + pattern.len() <= text.len() && !matches_at(text, pattern, from) {
        lemma_first_match(text, pattern, from + 1);
    }
}

/// `last_match` is the greatest offset up to `from` at which the pattern
/// occurs, and `None` only where there is no such offset.
pub proof fn lemma_last_match(text: Seq<char>, pattern: Seq<char>, from: int)
    ensures
        match last_match(text, pattern, from) {
            Some(at) => at <= from && matches_at(text, pattern, at) && forall|i: int|
                at < i <= from ==> !matches_at(text, pattern, i),
            None => forall|i: int| i <= from ==> !matches_at(text, pattern, i),
        },
    decreases from + 1,
{
    if from >= 0 && !matches_at(text, pattern, from) {
        lemma_last_match(text, pattern, from - 1);
    }
}

/// Whether the pattern occurs in the rope's text at offset `at`.
pub fn occurs_at(content: &Rope, pattern: &Vec<char>, at: usize) -> (found: bool)
    requires
        at + pattern.len() <= rope_text(*content).len(),
    ensures
        found == matches_at(rope_text(*content), pattern@, at as int),
{
    let ghost text = rope_text(*content);
    text_fits(content);
    let mut i: usize = 0;
    while i < pattern.len()
        invariant
            text == rope_text(*content),
            i <= pattern.len(),
            at + pattern.len() <= text.len() <= usize::MAX,
            text.subrange(at as int, at + i) == pattern@.take(i as int),
        decreases pattern.len() - i,
    {
        if content.char(at + i) != pattern[i] {
            proof {
                assert(text.subrange(at as int, at + pattern.len())[i as int] == text[at + i]);
            }
            return false;
        }
        proof {
            assert(text.subrange(at as int, at + i + 1) =~= text.subrange(at as int, at + i).push(
                text[at + i],
            ));
            assert(pattern@.take(i + 1) =~= pattern@.take(i as int).push(pattern@[i as int]));
        }
        i = i + 1;
    }
    proof {
        assert(pattern@.take(pattern.len() as int) =~= pattern@);
    }
    true
}

/// The first offset at or after `from` at which the pattern occurs in the
/// rope's text.
pub fn find_forward(content: &Rope, pattern: &Vec<char>, from: usize) -> (found: Option<usize>)
    ensures
        match found {
            Some(at) => first_match(rope_text(*content), pattern@, from as int) == Some(at as int),
            None => first_match(rope_text(*content), pattern@, from as int) is None,
        },
{
    let ghost text = rope_text(*content);
    let len = content.len_chars();
    if pattern.len() > len {
        return None;
    }
    let last = len - pattern.len();
    let mut at: usize = from;
    while at <= last
        invariant
            text == rope_text(*content),
            len == text.len(),
            last == len - pattern.len(),
            from <= at,
            first_match(text, pattern@, from as int) == first_match(text, pattern@, at as int),
        decreases last + 1 - at,
    {
        if occurs_at(content, pattern, at) {
            return Some(at);
        }
        if at == last {
            assert(first_match(text, pattern@, at + 1) is None);
            return None;
        }
        at = at + 1;
    }
    None
}

/// The last offset at or before `from` at which the pattern occurs in the
/// rope's text.
pub fn find_backward(content: &Rope, pattern: &Vec<char>, from: usize) -> (found: Option<usize>)
    ensures
        match found {
            Some(at) => last_match(rope_text(*content), pattern@, from as int) == Some(at as int),
            None => last_match(rope_text(*content), pattern@, from as int) is None,
        },
{
    let ghost text = rope_text(*content);
    let len = content.len_chars();
    if pattern.len() > len {
        proof {
            lemma_last_match(text, pattern@, from as int);
        }
        return None;
    }
    let last = len - pattern.len();
    let mut at: usize = from;
    if at > last {
        proof {
            lemma_last_match_skip(text, pattern@, from as int, last as int);
        }
        at = last;
    }
    loop
        invariant
            text == rope_text(*content),
            len == text.len(),
            last == len - pattern.len(),
            at <= last,
            last_match(text, pattern@, from as int) == last_match(text, pattern@, at as int),
        decreases at,
    {
        if occurs_at(content, pattern, at) {
            return Some(at);
        }
        if at == 0 {
            proof {
                lemma_last_match(text, pattern@, -1);
            }
            return None;
        }
        at = at - 1;
    }
}

/// No occurrence begins so late that the pattern would run past the end of
/// the text: a search from `from` may start at `last`.
pub proof fn lemma_last_match_skip(text: Seq<char>, pattern: Seq<char>, from: int, last: int)
    requires
        last == text.len() - pattern.len(),
        0 <= last <= from,
    ensures
        last_match(text, pattern, from) == last_match(text, pattern, last),
    decreases from - last,
{
    if from > last {
        lemma_last_match_skip(text, pattern, from - 1, last);
    }
}

} // verus!
