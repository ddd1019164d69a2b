//! The buffer as a mathematical value, and every operation on it as a
//! function from value to value.
//!
//! The contracts of `Buffer` say that each method takes the buffer's view to
//! what the function of the same name gives here. The laws of the buffer are
//! proved of these functions.

use crate::cursor::Cursor;
use crate::search::{first_match, last_match, lemma_first_match, lemma_last_match};
use crate::text::{
    col_at, cut, in_text, lemma_line_end_unique, lemma_newlines_bound, lemma_next_line,
    lemma_offset, lemma_position, lemma_prefix_kept, lemma_row_at_monotonic, lemma_step,
    line_count, line_end, line_len, line_start, line_text, offset, row_at, splice,
};
use crate::words::{after_spaces, after_words, kinds_of, lemma_after_spaces, lemma_after_words};
use vstd::math::min;
use vstd::prelude::*;

verus! {

/// The number of states that can be undone. When one more is recorded, the
/// oldest is forgotten.
pub const HISTORY_LIMIT: usize = 1000;

/// What undo and redo restore: a text and the cursor in it.
#[verifier::ext_equal]
pub struct Snapshot {
    pub text: Seq<char>,
    pub cursor: Cursor,
}

impl Snapshot {
    /// The cursor lies in the text, and the text fits the machine.
    pub open spec fn wf(self) -> bool {
        self.cursor.in_text(self.text) && self.text.len() <= usize::MAX
    }
}

/// A buffer as a value.
#[verifier::ext_equal]
pub struct BufferView {
    pub text: Seq<char>,
    pub cursor: Cursor,
    pub file_path: Option<Seq<char>>,
    pub modified: bool,
    /// The states to go back to, the latest last.
    pub undo: Seq<Snapshot>,
    /// The states that undo has left, the latest last.
    pub redo: Seq<Snapshot>,
    pub line_numbers: bool,
    pub syntax_highlighting: bool,
}

impl BufferView {
    /// The cursor lies in the text, the text fits the machine, the two
    /// histories together hold no more than `HISTORY_LIMIT` states, and in
    /// each of these states the cursor lies in the text.
    pub open spec fn wf(self) -> bool {
        &&& self.cursor.in_text(self.text)
        &&& self.text.len() <= usize::MAX
        &&& self.undo.len() + self.redo.len() <= HISTORY_LIMIT
        &&& forall|i: int| 0 <= i < self.undo.len() ==> (#[trigger] self.undo[i]).wf()
        &&& forall|i: int| 0 <= i < self.redo.len() ==> (#[trigger] self.redo[i]).wf()
    }

    /// A buffer as it is when it is opened: it holds `text`, the cursor is at
    /// the start, nothing is recorded and nothing is modified.
    pub open spec fn fresh(text: Seq<char>, file_path: Option<Seq<char>>) -> BufferView {
        BufferView {
            text,
            cursor: Cursor::start(),
            file_path,
            modified: false,
            undo: Seq::empty(),
            redo: Seq::empty(),
            line_numbers: true,
            syntax_highlighting: true,
        }
    }

    pub open spec fn snapshot(self) -> Snapshot {
        Snapshot { text: self.text, cursor: self.cursor }
    }

    /// The offset of the cursor.
    pub open spec fn offset(self) -> int {
        self.cursor.offset(self.text)
    }

    /// The cursor in its place, at column `col`.
    pub open spec fn cursor_at_col(self, col: int) -> Cursor {
        Cursor { col: col as usize, ..self.cursor }
    }

    pub open spec fn with_cursor(self, cursor: Cursor) -> BufferView {
        BufferView { cursor, ..self }
    }

    /// Records the present state to go back to: nothing is left to redo, and
    /// the oldest state is forgotten where the history is full.
    pub open spec fn save_state(self) -> BufferView {
        let pushed = self.undo.push(self.snapshot());
        BufferView {
            undo: if pushed.len() > HISTORY_LIMIT {
                pushed.remove(0)
            } else {
                pushed
            },
            redo: Seq::empty(),
            ..self
        }
    }

    /// An edit: the state before it is recorded, text and cursor are
    /// replaced, and the buffer counts as modified.
    pub open spec fn edited(self, text: Seq<char>, cursor: Cursor) -> BufferView {
        BufferView { text, cursor, modified: true, ..self.save_state() }
    }

    pub open spec fn undo(self) -> BufferView {
        if self.undo.len() > 0 {
            BufferView {
                text: self.undo.last().text,
                cursor: self.undo.last().cursor,
                undo: self.undo.drop_last(),
                redo: self.redo.push(self.snapshot()),
                ..self
            }
        } else {
            self
        }
    }

    pub open spec fn redo(self) -> BufferView {
        if self.redo.len() > 0 {
            BufferView {
                text: self.redo.last().text,
                cursor: self.redo.last().cursor,
                undo: self.undo.push(self.snapshot()),
                redo: self.redo.drop_last(),
                ..self
            }
        } else {
            self
        }
    }

    /// Puts `c` in at the cursor; the cursor comes to stand behind it.
    pub open spec fn insert_char(self, c: char) -> BufferView {
        self.edited(
            self.text.insert(self.offset(), c),
            if c == '\n' {
                Cursor { row: (self.cursor.row + 1) as usize, col: 0, ..self.cursor }
            } else {
                self.cursor_at_col(self.cursor.col + 1)
            },
        )
    }

    pub open spec fn insert_newline(self) -> BufferView {
        self.insert_char('\n')
    }

    /// Takes out the character before the cursor. At the start of a line
    /// that is the line feed before it: the line joins the one above.
    pub open spec fn backspace(self) -> BufferView {
        if self.cursor.col > 0 {
            self.edited(
                cut(self.text, self.offset() - 1, self.offset()),
                self.cursor_at_col(self.cursor.col - 1),
            )
        } else if self.cursor.row > 0 {
            self.edited(
                cut(self.text, self.offset() - 1, self.offset()),
                Cursor {
                    row: (self.cursor.row - 1) as usize,
                    col: line_len(self.text, self.cursor.row - 1) as usize,
                    ..self.cursor
                },
            )
        } else {
            self
        }
    }

    /// Takes out the character at the cursor, if there is one.
    pub open spec fn delete_char(self) -> BufferView {
        if self.offset() < self.text.len() {
            self.edited(cut(self.text, self.offset(), self.offset() + 1), self.cursor)
        } else {
            self
        }
    }

    /// Takes out the cursor's line with its line feed.
    pub open spec fn delete_line(self) -> BufferView {
        let start = line_start(self.text, self.cursor.row as int);
        let next = line_start(self.text, self.cursor.row + 1);
        if start < next {
            self.edited(cut(self.text, start, next), self.cursor_at_col(0))
        } else {
            self
        }
    }

    /// The offset at which the word at the cursor ends.
    pub open spec fn word_stop(self) -> int {
        after_words(kinds_of(self.text), self.offset())
    }

    /// The offset at which the white space behind the word at the cursor
    /// ends.
    pub open spec fn word_space_stop(self) -> int {
        after_spaces(kinds_of(self.text), self.word_stop())
    }

    /// Takes out the word at the cursor and the white space behind it.
    pub open spec fn delete_word(self) -> BufferView {
        if self.offset() < self.word_space_stop() {
            self.edited(cut(self.text, self.offset(), self.word_space_stop()), self.cursor)
        } else {
            self
        }
    }

    /// Takes out what stands in the cursor's line before the cursor.
    pub open spec fn delete_to_line_start(self) -> BufferView {
        if self.cursor.col > 0 {
            self.edited(
                cut(self.text, line_start(self.text, self.cursor.row as int), self.offset()),
                self.cursor_at_col(0),
            )
        } else {
            self
        }
    }

    /// Takes out what stands in the cursor's line from the cursor on; the
    /// line feed stays.
    pub open spec fn delete_to_line_end(self) -> BufferView {
        if self.offset() < line_end(self.text, self.cursor.row as int) {
            self.edited(
                cut(self.text, self.offset(), line_end(self.text, self.cursor.row as int)),
                self.cursor,
            )
        } else {
            self
        }
    }

    /// Puts `part` in at the cursor, which stays before it.
    pub open spec fn paste_before(self, part: Seq<char>) -> BufferView {
        if part.len() > 0 {
            self.edited(splice(self.text, self.offset(), part), self.cursor)
        } else {
            self
        }
    }

    /// The column one step to the right of the cursor, or the end of the
    /// line where the cursor stands there.
    pub open spec fn next_col(self) -> int {
        min(self.cursor.col + 1, line_len(self.text, self.cursor.row as int))
    }

    /// Moves the cursor one step to the right and puts `part` in there.
    pub open spec fn paste_after(self, part: Seq<char>) -> BufferView {
        if part.len() > 0 {
            self.edited(
                splice(
                    self.text,
                    line_start(self.text, self.cursor.row as int) + self.next_col(),
                    part,
                ),
                self.cursor_at_col(self.next_col()),
            )
        } else {
            self
        }
    }

    /// The cursor at the offset `at`.
    pub open spec fn cursor_at_offset(self, at: int) -> Cursor {
        Cursor::at(row_at(self.text, at), col_at(self.text, at))
    }

    /// Moves the cursor to the first occurrence of the pattern that begins
    /// behind the cursor; without one the cursor stays.
    pub open spec fn find_next(self, pattern: Seq<char>) -> BufferView {
        match first_match(self.text, pattern, self.offset() + 1) {
            Some(at) => self.with_cursor(self.cursor_at_offset(at)),
            None => self,
        }
    }

    /// Moves the cursor to the last occurrence of the pattern that ends at or
    /// before the cursor; without one the cursor stays.
    pub open spec fn find_previous(self, pattern: Seq<char>) -> BufferView {
        if self.offset() > 0 {
            match last_match(self.text, pattern, self.offset() - pattern.len()) {
                Some(at) => self.with_cursor(self.cursor_at_offset(at)),
                None => self,
            }
        } else {
            self
        }
    }

    /// The cursor's line with its line feed.
    pub open spec fn current_line(self) -> Seq<char> {
        if self.cursor.row < line_count(self.text) {
            line_text(self.text, self.cursor.row as int)
        } else {
            Seq::empty()
        }
    }

    /// Line `line` with its line feed, if the text has that line.
    pub open spec fn line(self, line: int) -> Option<Seq<char>> {
        if line < line_count(self.text) {
            Some(line_text(self.text, line))
        } else {
            None
        }
    }

    /// What stands in the cursor's line from the cursor on, without the line
    /// feed.
    pub open spec fn text_to_line_end(self) -> Seq<char> {
        if self.offset() < line_end(self.text, self.cursor.row as int) {
            self.text.subrange(self.offset(), line_end(self.text, self.cursor.row as int))
        } else {
            Seq::empty()
        }
    }

    /// The word at the cursor, from the cursor on.
    pub open spec fn word(self) -> Seq<char> {
        if self.offset() < self.word_stop() {
            self.text.subrange(self.offset(), self.word_stop())
        } else {
            Seq::empty()
        }
    }

    /// The anchor comes before the cursor, or is where the cursor is.
    pub open spec fn anchor_first(self, anchor: (usize, usize)) -> bool {
        anchor.0 < self.cursor.row || (anchor.0 == self.cursor.row && anchor.1 <= self.cursor.col)
    }

    /// The earlier of anchor and cursor.
    pub open spec fn selection_start(self, anchor: (usize, usize)) -> Cursor {
        if self.anchor_first(anchor) {
            Cursor { row: anchor.0, col: anchor.1, ..self.cursor }
        } else {
            self.cursor
        }
    }

    /// The later of anchor and cursor.
    pub open spec fn selection_end(self, anchor: (usize, usize)) -> Cursor {
        if self.anchor_first(anchor) {
            self.cursor
        } else {
            Cursor { row: anchor.0, col: anchor.1, ..self.cursor }
        }
    }

    /// The selection between `anchor` and the cursor, both included, as the
    /// offsets `[from, to)`; `None` where the later of the two stands at the
    /// end of the text, where there is no character to include, and where
    /// the anchor does not lie in the text.
    pub open spec fn selection(self, anchor: (usize, usize)) -> Option<(int, int)> {
        let from = self.selection_start(anchor).offset(self.text);
        let to = self.selection_end(anchor).offset(self.text) + 1;
        if in_text(self.text, anchor.0 as int, anchor.1 as int) && from < to && to
            <= self.text.len() {
            Some((from, to))
        } else {
            None
        }
    }

    /// The text of the selection.
    pub open spec fn selected(self, anchor: (usize, usize)) -> Option<Seq<char>> {
        match self.selection(anchor) {
            Some((from, to)) => Some(self.text.subrange(from, to)),
            None => None,
        }
    }

    /// Takes the selection out; the cursor comes to stand where it began.
    pub open spec fn delete_selection(self, anchor: (usize, usize)) -> BufferView {
        match self.selection(anchor) {
            Some((from, to)) => self.edited(
                cut(self.text, from, to),
                self.selection_start(anchor),
            ),
            None => self,
        }
    }

    /// The buffer once its text has been written to the file it is bound to.
    pub open spec fn saved(self) -> BufferView {
        BufferView { modified: self.modified && self.file_path is None, ..self }
    }

    /// The buffer once its text has been written to the file at `path`.
    pub open spec fn saved_as(self, path: Seq<char>) -> BufferView {
        BufferView { file_path: Some(path), modified: false, ..self }
    }

    /// Replaces the text; the cursor is brought back into it.
    pub open spec fn replaced(self, text: Seq<char>) -> BufferView {
        BufferView { text, cursor: self.cursor.clamped(text), modified: true, ..self }
    }
}

impl BufferView {
    pub proof fn lemma_save_state(self)
        requires
            self.wf(),
        ensures
            self.save_state().wf(),
    {
        let pushed = self.undo.push(self.snapshot());
        assert forall|i: int| 0 <= i < pushed.len() implies (#[trigger] pushed[i]).wf() by {
            if i < self.undo.len() {
                assert(pushed[i] == self.undo[i]);
            }
        }
        if pushed.len() > HISTORY_LIMIT {
            assert forall|i: int| 0 <= i < pushed.remove(0).len() implies (#[trigger] pushed.remove(
                0,
            )[i]).wf() by {
                assert(pushed.remove(0)[i] == pushed[i + 1]);
            }
        }
    }

    pub proof fn lemma_edited(self, text: Seq<char>, cursor: Cursor)
        requires
            self.wf(),
            cursor.in_text(text),
            text.len() <= usize::MAX,
        ensures
            self.edited(text, cursor).wf(),
    {
        self.lemma_save_state();
    }

    pub proof fn lemma_undo(self)
        requires
            self.wf(),
        ensures
            self.undo().wf(),
    {
        if self.undo.len() > 0 {
            let redo = self.redo.push(self.snapshot());
            assert forall|i: int| 0 <= i < redo.len() implies (#[trigger] redo[i]).wf() by {
                if i < self.redo.len() {
                    assert(redo[i] == self.redo[i]);
                }
            }
            assert forall|i: int| 0 <= i < self.undo.drop_last().len() implies (
            #[trigger] self.undo.drop_last()[i]).wf() by {
                assert(self.undo.drop_last()[i] == self.undo[i]);
            }
            assert(self.undo.last().wf());
        }
    }

    pub proof fn lemma_redo(self)
        requires
            self.wf(),
        ensures
            self.redo().wf(),
    {
        if self.redo.len() > 0 {
            let undo = self.undo.push(self.snapshot());
            assert forall|i: int| 0 <= i < undo.len() implies (#[trigger] undo[i]).wf() by {
                if i < self.undo.len() {
                    assert(undo[i] == self.undo[i]);
                }
            }
            assert forall|i: int| 0 <= i < self.redo.drop_last().len() implies (
            #[trigger] self.redo.drop_last()[i]).wf() by {
                assert(self.redo.drop_last()[i] == self.redo[i]);
            }
            assert(self.redo.last().wf());
        }
    }

    /// Where the cursor stands: at an offset of the text, in its line.
    pub proof fn lemma_cursor(self)
        requires
            self.wf(),
        ensures
            0 <= line_start(self.text, self.cursor.row as int) <= self.offset() <= line_end(
                self.text,
                self.cursor.row as int,
            ) <= self.text.len(),
            line_start(self.text, self.cursor.row as int) <= line_start(
                self.text,
                self.cursor.row + 1,
            ) <= self.text.len(),
            self.cursor.row + 1 < line_count(self.text) ==> line_start(
                self.text,
                self.cursor.row + 1,
            ) == line_end(self.text, self.cursor.row as int) + 1,
            self.cursor.row + 1 >= line_count(self.text) ==> line_start(
                self.text,
                self.cursor.row + 1,
            ) == line_end(self.text, self.cursor.row as int),
            row_at(self.text, self.offset()) == self.cursor.row,
            col_at(self.text, self.offset()) == self.cursor.col,
    {
        lemma_position(self.text, self.cursor.row as int, self.cursor.col as int);
        lemma_next_line(self.text, self.cursor.row as int);
    }

    pub proof fn lemma_insert_char(self, c: char)
        requires
            self.wf(),
            self.text.len() < usize::MAX,
        ensures
            self.insert_char(c).wf(),
            self.insert_char(c).offset() == self.offset() + 1,
            self.cursor.row + 1 <= usize::MAX,
            self.cursor.col + 1 <= usize::MAX,
    {
        let s = self.text;
        let p = self.offset();
        let edited = s.insert(p, c);
        self.lemma_cursor();
        assert(edited.take(p) =~= s.take(p));
        lemma_step(edited, p);
        lemma_offset(edited, p + 1);
        lemma_newlines_bound(edited);
        lemma_next_line(edited, row_at(edited, p + 1));
        lemma_next_line(s, self.cursor.row as int);
        lemma_newlines_bound(s);
        self.lemma_edited(edited, self.insert_char(c).cursor);
    }

    /// An insertion keeps the buffer well-formed where the text still fits
    /// the machine.
    pub proof fn lemma_insert_char_fits(self, c: char)
        requires
            self.wf(),
            self.insert_char(c).text.len() <= usize::MAX,
        ensures
            self.insert_char(c).wf(),
    {
        self.lemma_cursor();
        self.lemma_insert_char(c);
    }

    pub proof fn lemma_backspace(self)
        requires
            self.wf(),
        ensures
            self.backspace().wf(),
            self.cursor.col > 0 || self.cursor.row > 0 ==> 0 < self.offset() <= self.text.len()
                && self.backspace().offset() == self.offset() - 1,
            self.cursor.row > 0 ==> 0 <= line_len(self.text, self.cursor.row - 1) <= usize::MAX,
    {
        let s = self.text;
        let p = self.offset();
        self.lemma_cursor();
        let edited = cut(s, p - 1, p);
        if self.cursor.row > 0 {
            lemma_next_line(s, self.cursor.row - 1);
        }
        if self.cursor.col > 0 || self.cursor.row > 0 {
            let cursor = self.backspace().cursor;
            assert(edited.take(p - 1) =~= s.take(p - 1));
            lemma_prefix_kept(s, edited, cursor.row as int, cursor.col as int);
            self.lemma_edited(edited, cursor);
        }
    }

    pub proof fn lemma_delete_char(self)
        requires
            self.wf(),
        ensures
            self.delete_char().wf(),
            0 <= self.offset() <= self.text.len(),
    {
        let s = self.text;
        let p = self.offset();
        self.lemma_cursor();
        if p < s.len() {
            let edited = cut(s, p, p + 1);
            assert(edited.take(p) =~= s.take(p));
            lemma_prefix_kept(s, edited, self.cursor.row as int, self.cursor.col as int);
            self.lemma_edited(edited, self.cursor);
        }
    }

    pub proof fn lemma_delete_line(self)
        requires
            self.wf(),
        ensures
            self.delete_line().wf(),
    {
        let s = self.text;
        let start = line_start(s, self.cursor.row as int);
        let next = line_start(s, self.cursor.row + 1);
        self.lemma_cursor();
        if start < next {
            let edited = cut(s, start, next);
            assert(edited.take(start) =~= s.take(start));
            lemma_prefix_kept(s, edited, self.cursor.row as int, 0);
            self.lemma_edited(edited, self.cursor_at_col(0));
        }
    }

    /// A word and the white space behind it end within the text.
    pub proof fn lemma_word_stops(self)
        requires
            self.wf(),
        ensures
            0 <= self.offset() <= self.word_stop() <= self.word_space_stop() <= self.text.len(),
    {
        self.lemma_cursor();
        lemma_after_words(kinds_of(self.text), self.offset());
        lemma_after_spaces(kinds_of(self.text), self.word_stop());
    }

    pub proof fn lemma_delete_word(self)
        requires
            self.wf(),
        ensures
            self.delete_word().wf(),
    {
        let s = self.text;
        let p = self.offset();
        self.lemma_word_stops();
        if p < self.word_space_stop() {
            let edited = cut(s, p, self.word_space_stop());
            assert(edited.take(p) =~= s.take(p));
            lemma_prefix_kept(s, edited, self.cursor.row as int, self.cursor.col as int);
            self.lemma_edited(edited, self.cursor);
        }
    }

    pub proof fn lemma_delete_to_line_start(self)
        requires
            self.wf(),
        ensures
            self.delete_to_line_start().wf(),
    {
        let s = self.text;
        let start = line_start(s, self.cursor.row as int);
        self.lemma_cursor();
        if self.cursor.col > 0 {
            let edited = cut(s, start, self.offset());
            assert(edited.take(start) =~= s.take(start));
            lemma_prefix_kept(s, edited, self.cursor.row as int, 0);
            self.lemma_edited(edited, self.cursor_at_col(0));
        }
    }

    pub proof fn lemma_delete_to_line_end(self)
        requires
            self.wf(),
        ensures
            self.delete_to_line_end().wf(),
    {
        let s = self.text;
        let p = self.offset();
        let end = line_end(s, self.cursor.row as int);
        self.lemma_cursor();
        if p < end {
            let edited = cut(s, p, end);
            assert(edited.take(p) =~= s.take(p));
            lemma_prefix_kept(s, edited, self.cursor.row as int, self.cursor.col as int);
            self.lemma_edited(edited, self.cursor);
        }
    }

    pub proof fn lemma_paste_before(self, part: Seq<char>)
        requires
            self.wf(),
            self.text.len() + part.len() <= usize::MAX,
        ensures
            self.paste_before(part).wf(),
    {
        let s = self.text;
        let p = self.offset();
        self.lemma_cursor();
        if part.len() > 0 {
            let edited = splice(s, p, part);
            assert(edited.take(p) =~= s.take(p));
            lemma_prefix_kept(s, edited, self.cursor.row as int, self.cursor.col as int);
            self.lemma_edited(edited, self.cursor);
        }
    }

    pub proof fn lemma_paste_after(self, part: Seq<char>)
        requires
            self.wf(),
            self.text.len() + part.len() <= usize::MAX,
        ensures
            self.paste_after(part).wf(),
            0 <= self.next_col() <= usize::MAX,
            0 <= line_start(self.text, self.cursor.row as int) + self.next_col()
                <= self.text.len(),
    {
        let s = self.text;
        let col = self.next_col();
        let p = line_start(s, self.cursor.row as int) + col;
        self.lemma_cursor();
        if part.len() > 0 {
            let edited = splice(s, p, part);
            assert(edited.take(p) =~= s.take(p));
            lemma_prefix_kept(s, edited, self.cursor.row as int, col);
            self.lemma_edited(edited, self.cursor_at_col(col));
        }
    }

    /// Pasting keeps the buffer well-formed where the text still fits the
    /// machine.
    pub proof fn lemma_paste_fits(self, part: Seq<char>)
        requires
            self.wf(),
        ensures
            self.paste_before(part).text.len() <= usize::MAX ==> self.paste_before(part).wf(),
            self.paste_after(part).text.len() <= usize::MAX ==> self.paste_after(part).wf(),
    {
        self.lemma_cursor();
        if part.len() > 0 {
            if self.paste_before(part).text.len() <= usize::MAX {
                self.lemma_paste_before(part);
            }
            if self.paste_after(part).text.len() <= usize::MAX {
                self.lemma_paste_after(part);
            }
        }
    }

    /// A buffer with a text that fits the machine, and the cursor at its
    /// start, is well-formed.
    pub proof fn lemma_fresh(text: Seq<char>, file_path: Option<Seq<char>>)
        requires
            text.len() <= usize::MAX,
        ensures
            BufferView::fresh(text, file_path).wf(),
    {
        lemma_next_line(text, 0);
    }

    /// The cursor at an offset of the text lies in the text, at that offset.
    pub proof fn lemma_cursor_at_offset(self, at: int)
        requires
            self.text.len() <= usize::MAX,
            0 <= at <= self.text.len(),
        ensures
            self.cursor_at_offset(at).in_text(self.text),
            self.cursor_at_offset(at).offset(self.text) == at,
            self.cursor_at_offset(at).row == row_at(self.text, at),
            self.cursor_at_offset(at).col == col_at(self.text, at),
    {
        lemma_offset(self.text, at);
        lemma_next_line(self.text, row_at(self.text, at));
        lemma_newlines_bound(self.text);
        lemma_row_at_monotonic(self.text, at, self.text.len() as int);
    }

    pub proof fn lemma_find_next(self, pattern: Seq<char>)
        requires
            self.wf(),
        ensures
            self.find_next(pattern).wf(),
    {
        self.lemma_cursor();
        lemma_first_match(self.text, pattern, self.offset() + 1);
        if let Some(at) = first_match(self.text, pattern, self.offset() + 1) {
            self.lemma_cursor_at_offset(at);
        }
    }

    pub proof fn lemma_find_previous(self, pattern: Seq<char>)
        requires
            self.wf(),
        ensures
            self.find_previous(pattern).wf(),
    {
        self.lemma_cursor();
        lemma_last_match(self.text, pattern, self.offset() - pattern.len());
        if self.offset() > 0 {
            if let Some(at) = last_match(self.text, pattern, self.offset() - pattern.len()) {
                self.lemma_cursor_at_offset(at);
            }
        }
    }

    pub proof fn lemma_delete_selection(self, anchor: (usize, usize))
        requires
            self.wf(),
        ensures
            self.delete_selection(anchor).wf(),
            in_text(self.text, anchor.0 as int, anchor.1 as int) ==> {
                &&& 0 <= self.selection_start(anchor).offset(self.text) <= self.text.len()
                &&& 0 <= self.selection_end(anchor).offset(self.text) <= self.text.len()
            },
    {
        let s = self.text;
        let start = self.selection_start(anchor);
        let end = self.selection_end(anchor);
        if in_text(self.text, anchor.0 as int, anchor.1 as int) {
            lemma_position(s, start.row as int, start.col as int);
            lemma_position(s, end.row as int, end.col as int);
        }
        if let Some((from, to)) = self.selection(anchor) {
            let edited = cut(s, from, to);
            assert(edited.take(from) =~= s.take(from));
            lemma_prefix_kept(s, edited, start.row as int, start.col as int);
            self.lemma_edited(edited, start);
        }
    }

    pub proof fn lemma_replaced(self, text: Seq<char>)
        requires
            self.wf(),
            text.len() <= usize::MAX,
        ensures
            self.replaced(text).wf(),
    {
        let row = min(self.cursor.row as int, line_count(text) - 1);
        lemma_next_line(text, row);
    }

    /// In a well-formed buffer the cursor lies in a line of the text, at most
    /// at that line's end.
    pub proof fn lemma_cursor_in_bounds(self)
        requires
            self.wf(),
        ensures
            self.cursor.row < vstd::math::max(1, line_count(self.text) as int),
            self.cursor.col <= line_len(self.text, self.cursor.row as int),
    {
    }

    /// Undo, then redo, gives text and cursor back as they were, and both
    /// histories with them. Only where there is nothing to undo, but
    /// something to redo, does the redo lead on to another state.
    pub proof fn lemma_undo_redo(self)
        requires
            self.undo.len() > 0 || self.redo.len() == 0 || self.redo.last() == self.snapshot(),
        ensures
            self.undo().redo().text == self.text,
            self.undo().redo().cursor == self.cursor,
            self.undo.len() > 0 || self.redo.len() == 0 ==> self.undo().redo() == self,
    {
        if self.undo.len() > 0 {
            assert(self.undo.drop_last().push(self.undo.last()) =~= self.undo);
            assert(self.redo.push(self.snapshot()).drop_last() =~= self.redo);
        }
    }

    /// Redo, then undo, gives text and cursor back as they were, and both
    /// histories with them. Only where there is nothing to redo, but
    /// something to undo, does the undo lead back to another state.
    pub proof fn lemma_redo_undo(self)
        requires
            self.redo.len() > 0 || self.undo.len() == 0 || self.undo.last() == self.snapshot(),
        ensures
            self.redo().undo().text == self.text,
            self.redo().undo().cursor == self.cursor,
            self.redo.len() > 0 || self.undo.len() == 0 ==> self.redo().undo() == self,
    {
        if self.redo.len() > 0 {
            assert(self.redo.drop_last().push(self.redo.last()) =~= self.redo);
            assert(self.undo.push(self.snapshot()).drop_last() =~= self.undo);
        }
    }

    /// To insert a character and then to take out the character before the
    /// cursor gives back the text and the cursor as they were, whatever the
    /// character and wherever the cursor stood.
    pub proof fn lemma_insert_then_backspace(self, c: char)
        requires
            self.wf(),
            self.text.len() < usize::MAX,
        ensures
            self.insert_char(c).backspace().text == self.text,
            self.insert_char(c).backspace().cursor == self.cursor,
    {
        let s = self.text;
        let p = self.offset();
        let inserted = self.insert_char(c);
        self.lemma_cursor();
        self.lemma_insert_char(c);
        inserted.lemma_backspace();
        assert(cut(s.insert(p, c), p, p + 1) =~= s);
        if c == '\n' {
            assert(inserted.text.take(p) =~= s.take(p));
            lemma_prefix_kept(s, inserted.text, self.cursor.row as int, self.cursor.col as int);
            lemma_next_line(inserted.text, self.cursor.row as int);
            lemma_line_end_unique(
                inserted.text,
                line_start(inserted.text, self.cursor.row as int),
                p,
            );
        }
    }
}

} // verus!
