//! The boundary to the `ropey` crate, which stores the text.
//!
//! The module declares the type `Rope`, gives a name to the characters a rope
//! holds, and states for each method the editor calls what `ropey` documents
//! of it. None of these statements is proved. `ropey` is built without its
//! features `cr_lines` and `unicode_lines`, so the only line break it knows is
//! the line feed U+000A; the contracts on lines hold for that build only.

use crate::text::{cut, line_count, line_start, row_at, splice};
use ropey::Rope;
use vstd::prelude::*;

verus! {

#[verifier::external_type_specification]
#[verifier::external_body]
pub struct ExRope(ropey::Rope);

/// The characters a rope holds, in order.
pub uninterp spec fn rope_text(rope: Rope) -> Seq<char>;

/// `Rope::new` makes a rope that holds no text.
pub assume_specification[ Rope::new ]() -> (rope: Rope)
    ensures
        rope_text(rope) == Seq::<char>::empty(),
;

/// `Rope::from_str` makes a rope that holds the characters of `text`.
pub assume_specification[ Rope::from_str ](text: &str) -> (rope: Rope)
    ensures
        rope_text(rope) == text@,
;

/// `Rope::clone` makes a rope with the same text.
pub assume_specification[ <Rope as Clone>::clone ](rope: &Rope) -> (copy: Rope)
    ensures
        rope_text(copy) == rope_text(*rope),
;

/// `Rope::len_chars` is the number of characters.
pub assume_specification[ Rope::len_chars ](rope: &Rope) -> (n: usize)
    ensures
        n == rope_text(*rope).len(),
;

/// `Rope::len_lines` is the number of line breaks plus one.
pub assume_specification[ Rope::len_lines ](rope: &Rope) -> (n: usize)
    ensures
        n == line_count(rope_text(*rope)),
;

/// `Rope::line_to_char` is the offset of the first character of the line. It
/// accepts the index one past the last line, for which it gives the length of
/// the text, and panics on any larger index.
pub assume_specification[ Rope::line_to_char ](rope: &Rope, line_idx: usize) -> (pos: usize)
    requires
        line_idx <= line_count(rope_text(*rope)),
    ensures
        pos == line_start(rope_text(*rope), line_idx as int),
;

/// `Rope::char_to_line` is the number of line breaks before the offset. It
/// accepts the offset one past the last character and panics on any larger
/// one.
pub assume_specification[ Rope::char_to_line ](rope: &Rope, char_idx: usize) -> (line: usize)
    requires
        char_idx <= rope_text(*rope).len(),
    ensures
        line == row_at(rope_text(*rope), char_idx as int),
;

/// `Rope::char` is the character at the offset; it panics when there is none.
pub assume_specification[ Rope::char ](rope: &Rope, char_idx: usize) -> (ch: char)
    requires
        char_idx < rope_text(*rope).len(),
    ensures
        ch == rope_text(*rope)[char_idx as int],
;

/// `Rope::insert_char` puts `ch` before the character at `char_idx`; it
/// panics when `char_idx` is past the end.
pub assume_specification[ Rope::insert_char ](rope: &mut Rope, char_idx: usize, ch: char)
    requires
        char_idx <= rope_text(*old(rope)).len(),
    ensures
        rope_text(*final(rope)) == rope_text(*old(rope)).insert(char_idx as int, ch),
;

/// `Rope::insert` puts the characters of `text` before the character at
/// `char_idx`; it panics when `char_idx` is past the end.
pub assume_specification[ Rope::insert ](rope: &mut Rope, char_idx: usize, text: &str)
    requires
        char_idx <= rope_text(*old(rope)).len(),
    ensures
        rope_text(*final(rope)) == splice(rope_text(*old(rope)), char_idx as int, text@),
;

/// `Rope::remove`, called with the range `start..end`, takes the characters
/// at the offsets in `[start, end)` out; it panics when `start > end` or when
/// `end` is past the end.
#[verifier::external_body]
pub(crate) fn rope_remove(rope: &mut Rope, start: usize, end: usize)
    requires
        start <= end <= rope_text(*old(rope)).len(),
    ensures
        rope_text(*final(rope)) == cut(rope_text(*old(rope)), start as int, end as int),
{
    rope.remove(start..end)
}

/// `Rope::slice`, called with the range `start..end` and written out with
/// `to_string`, gives the characters at the offsets in `[start, end)`; it
/// panics when `start > end` or when `end` is past the end.
#[verifier::external_body]
pub(crate) fn rope_slice(rope: &Rope, start: usize, end: usize) -> (slice: String)
    requires
        start <= end <= rope_text(*rope).len(),
    ensures
        slice@ == rope_text(*rope).subrange(start as int, end as int),
{
    rope.slice(start..end).to_string()
}

/// Makes known that the text of the rope fits the machine: it has as many
/// characters as `Rope::len_chars` returns, and that is a `usize`.
pub(crate) fn text_fits(rope: &Rope)
    ensures
        rope_text(*rope).len() <= usize::MAX,
{
    let _: usize = rope.len_chars();
}

} // verus!
