//! The text buffer: a rope, the cursor in it, and the history for undo and
//! redo.
//!
//! Every method that changes the buffer says in its contract that the
//! buffer's view becomes what the function of the same name on `BufferView`
//! gives, and that a well-formed buffer stays well-formed: the cursor never
//! leaves the text.

use crate::cursor::{line_length, Cursor};
use crate::model::{BufferView, Snapshot, HISTORY_LIMIT};
use crate::rope::{rope_remove, rope_slice, rope_text, text_fits};
use crate::search::{find_backward, find_forward, lemma_first_match, lemma_last_match};
use crate::strings::chars_of;
use crate::substitute::{replace_every, replace_one, substituted};
use crate::text::{lemma_next_line, line_count, line_len};
use crate::words::{classify, kinds_of, lemma_after_spaces_resume, lemma_after_words_resume};
use ropey::Rope;
use vstd::prelude::*;

verus! {

/// A state to go back to.
#[derive(Clone)]
pub struct BufferState {
    pub content: Rope,
    pub cursor: Cursor,
}

impl View for BufferState {
    type V = Snapshot;

    open spec fn view(&self) -> Snapshot {
        Snapshot { text: rope_text(self.content), cursor: self.cursor }
    }
}

/// The views of the states of a history, in order.
pub open spec fn snapshots(states: Seq<BufferState>) -> Seq<Snapshot> {
    states.map_values(|state: BufferState| state@)
}

/// The view of an optional string.
pub open spec fn text_of(s: Option<String>) -> Option<Seq<char>> {
    match s {
        Some(s) => Some(s@),
        None => None,
    }
}

pub struct Buffer {
    pub content: Rope,
    pub cursor: Cursor,
    pub file_path: Option<String>,
    pub modified: bool,
    pub undo_stack: Vec<BufferState>,
    pub redo_stack: Vec<BufferState>,
    pub line_numbers: bool,
    pub syntax_highlighting: bool,
}

impl View for Buffer {
    type V = BufferView;

    open spec fn view(&self) -> BufferView {
        BufferView {
            text: rope_text(self.content),
            cursor: self.cursor,
            file_path: text_of(self.file_path),
            modified: self.modified,
            undo: snapshots(self.undo_stack@),
            redo: snapshots(self.redo_stack@),
            line_numbers: self.line_numbers,
            syntax_highlighting: self.syntax_highlighting,
        }
    }
}

/// Whether the cursor lies in the rope's text.
fn in_rope(content: &Rope, cursor: &Cursor) -> (ok: bool)
    ensures
        ok == cursor.in_text(rope_text(*content)),
{
    cursor.row < content.len_lines() && cursor.col <= line_length(content, cursor.row)
}

/// Whether in each state the cursor lies in the text.
fn all_in_rope(states: &Vec<BufferState>) -> (ok: bool)
    ensures
        ok == forall|i: int| 0 <= i < states.len() ==> (#[trigger] snapshots(states@)[i]).wf(),
{
    let mut i: usize = 0;
    while i < states.len()
        invariant
            i <= states.len(),
            forall|k: int| 0 <= k < i ==> (#[trigger] snapshots(states@)[k]).wf(),
        decreases states.len() - i,
    {
        text_fits(&states[i].content);
        if !in_rope(&states[i].content, &states[i].cursor) {
            proof {
                assert(!snapshots(states@)[i as int].wf());
            }
            return false;
        }
        i = i + 1;
    }
    true
}

impl Buffer {
    /// The cursor lies in the text and the history is within its limit.
    pub open spec fn wf(&self) -> bool {
        self@.wf()
    }

    /// Whether the buffer is well-formed. A buffer made and changed by the
    /// methods of this type always is; one whose fields were assigned to
    /// need not be.
    pub fn is_well_formed(&self) -> (ok: bool)
        ensures
            ok == self.wf(),
    {
        text_fits(&self.content);
        if !in_rope(&self.content, &self.cursor) {
            return false;
        }
        if self.undo_stack.len() > HISTORY_LIMIT || self.redo_stack.len() > HISTORY_LIMIT
            - self.undo_stack.len() {
            return false;
        }
        all_in_rope(&self.undo_stack) && all_in_rope(&self.redo_stack)
    }

    /// An empty buffer that is bound to no file.
    pub fn new() -> (buffer: Buffer)
        ensures
            buffer@ == BufferView::fresh(Seq::empty(), None),
            buffer.wf(),
    {
        let buffer = Buffer {
            content: Rope::new(),
            cursor: Cursor::new(),
            file_path: None,
            modified: false,
            undo_stack: Vec::new(),
            redo_stack: Vec::new(),
            line_numbers: true,
            syntax_highlighting: true,
        };
        proof {
            assert(buffer@.undo =~= Seq::empty());
            assert(buffer@.redo =~= Seq::empty());
            lemma_next_line(Seq::empty(), 0);
        }
        buffer
    }

    /// A buffer bound to the file at `path`, holding what the file holds:
    /// `contents`, or nothing where the file does not exist yet.
    pub fn from_file(path: &str, contents: Option<&str>) -> (buffer: Buffer)
        ensures
            buffer@ == BufferView::fresh(
                match contents {
                    Some(text) => text@,
                    None => Seq::empty(),
                },
                Some(path@),
            ),
            buffer.wf(),
    {
        let content = match contents {
            Some(text) => Rope::from_str(text),
            None => Rope::new(),
        };
        text_fits(&content);
        let buffer = Buffer {
            content,
            cursor: Cursor::new(),
            file_path: Some(String::from_str(path)),
            modified: false,
            undo_stack: Vec::new(),
            redo_stack: Vec::new(),
            line_numbers: true,
            syntax_highlighting: true,
        };
        proof {
            assert(buffer@.undo =~= Seq::empty());
            assert(buffer@.redo =~= Seq::empty());
            lemma_next_line(buffer@.text, 0);
        }
        buffer
    }

    /// The whole text, as it is written to the file.
    pub fn text(&self) -> (text: String)
        ensures
            text@ == self@.text,
    {
        let len = self.content.len_chars();
        let text = rope_slice(&self.content, 0, len);
        proof {
            assert(self@.text.subrange(0, len as int) =~= self@.text);
        }
        text
    }

    /// Records that the text has been written to the file the buffer is
    /// bound to. A buffer that is bound to none stays as it is.
    pub fn save(&mut self)
        ensures
            final(self)@ == old(self)@.saved(),
    {
        if self.file_path.is_some() {
            self.modified = false;
        }
    }

    /// Records that the text has been written to the file at `path`, and
    /// binds the buffer to it.
    pub fn save_as(&mut self, path: &str)
        ensures
            final(self)@ == old(self)@.saved_as(path@),
    {
        self.file_path = Some(String::from_str(path));
        self.modified = false;
    }

    pub fn save_state(&mut self)
        ensures
            final(self)@ == old(self)@.save_state(),
            old(self).wf() ==> final(self).wf(),
    {
        let state = BufferState { content: self.content.clone(), cursor: self.cursor };
        self.undo_stack.push(state);
        self.redo_stack.clear();
        proof {
            assert(snapshots(self.undo_stack@) =~= old(self)@.undo.push(old(self)@.snapshot()));
        }
        if self.undo_stack.len() > HISTORY_LIMIT {
            let ghost pushed = self.undo_stack@;
            self.undo_stack.remove(0);
            proof {
                assert(snapshots(self.undo_stack@) =~= snapshots(pushed).remove(0));
            }
        }
        proof {
            assert(snapshots(self.redo_stack@) =~= Seq::empty());
            if old(self).wf() {
                old(self)@.lemma_save_state();
            }
        }
    }

    /// Goes back to the state recorded last, and keeps the present one for
    /// `redo`. Whether the buffer counts as modified is not changed.
    pub fn undo(&mut self)
        ensures
            final(self)@ == old(self)@.undo(),
            old(self).wf() ==> final(self).wf(),
    {
        if let Some(state) = self.undo_stack.pop() {
            let current = BufferState { content: self.content.clone(), cursor: self.cursor };
            self.redo_stack.push(current);
            self.content = state.content;
            self.cursor = state.cursor;
            proof {
                assert(snapshots(self.undo_stack@) =~= old(self)@.undo.drop_last());
                assert(snapshots(self.redo_stack@) =~= old(self)@.redo.push(
                    old(self)@.snapshot(),
                ));
                assert(state@ == old(self)@.undo.last());
            }
        }
        proof {
            if old(self).wf() {
                old(self)@.lemma_undo();
            }
        }
    }

    /// Goes forward to the state that `undo` left last.
    pub fn redo(&mut self)
        ensures
            final(self)@ == old(self)@.redo(),
            old(self).wf() ==> final(self).wf(),
    {
        if let Some(state) = self.redo_stack.pop() {
            let current = BufferState { content: self.content.clone(), cursor: self.cursor };
            self.undo_stack.push(current);
            self.content = state.content;
            self.cursor = state.cursor;
            proof {
                assert(snapshots(self.redo_stack@) =~= old(self)@.redo.drop_last());
                assert(snapshots(self.undo_stack@) =~= old(self)@.undo.push(
                    old(self)@.snapshot(),
                ));
                assert(state@ == old(self)@.redo.last());
            }
        }
        proof {
            if old(self).wf() {
                old(self)@.lemma_redo();
            }
        }
    }

    /// Puts `c` in at the cursor, which comes to stand behind it: one column
    /// to the right, or at the start of the next line where `c` is a line
    /// feed.
    pub fn insert_char(&mut self, c: char)
        requires
            old(self).wf(),
        ensures
            final(self)@ == old(self)@.insert_char(c),
            final(self).wf(),
    {
        let pos = self.cursor_to_char_index();
        self.save_state();
        self.content.insert_char(pos, c);
        text_fits(&self.content);
        proof {
            old(self)@.lemma_insert_char(c);
        }
        if c == '\n' {
            self.cursor.row = self.cursor.row + 1;
            self.cursor.col = 0;
        } else {
            self.cursor.col = self.cursor.col + 1;
        }
        self.modified = true;
    }

    pub fn insert_newline(&mut self)
        requires
            old(self).wf(),
        ensures
            final(self)@ == old(self)@.insert_newline(),
            final(self).wf(),
    {
        self.insert_char('\n');
    }

    /// Takes out the character before the cursor. At the start of a line
    /// that is the line feed before it, and the line joins the one above; at
    /// the start of the text nothing happens and nothing is recorded.
    pub fn backspace(&mut self)
        requires
            old(self).wf(),
        ensures
            final(self)@ == old(self)@.backspace(),
            final(self).wf(),
    {
        proof {
            old(self)@.lemma_backspace();
        }
        if self.cursor.col > 0 {
            let pos = self.cursor_to_char_index();
            self.save_state();
            self.cursor.col = self.cursor.col - 1;
            rope_remove(&mut self.content, pos - 1, pos);
            self.modified = true;
        } else if self.cursor.row > 0 {
            let pos = self.cursor_to_char_index();
            let above = line_length(&self.content, self.cursor.row - 1);
            self.save_state();
            self.cursor.row = self.cursor.row - 1;
            self.cursor.col = above;
            rope_remove(&mut self.content, pos - 1, pos);
            self.modified = true;
        }
    }

    /// Takes out the character at the cursor. At the end of the text nothing
    /// happens and nothing is recorded.
    pub fn delete_char(&mut self)
        requires
            old(self).wf(),
        ensures
            final(self)@ == old(self)@.delete_char(),
            final(self).wf(),
    {
        proof {
            old(self)@.lemma_delete_char();
        }
        let pos = self.cursor_to_char_index();
        if pos < self.content.len_chars() {
            self.save_state();
            rope_remove(&mut self.content, pos, pos + 1);
            self.modified = true;
        }
    }

    /// Takes out the cursor's line with its line feed; the cursor comes to
    /// stand at the start of the line that follows. The last line has no
    /// line feed: what it holds is taken out, and the line stays, empty.
    pub fn delete_line(&mut self)
        requires
            old(self).wf(),
        ensures
            final(self)@ == old(self)@.delete_line(),
            final(self).wf(),
    {
        proof {
            old(self)@.lemma_delete_line();
            old(self)@.lemma_cursor();
        }
        let start = self.content.line_to_char(self.cursor.row);
        let next = if self.cursor.row < self.content.len_lines() - 1 {
            self.content.line_to_char(self.cursor.row + 1)
        } else {
            self.content.len_chars()
        };
        if start < next {
            self.save_state();
            rope_remove(&mut self.content, start, next);
            self.cursor.col = 0;
            self.modified = true;
        }
    }

    /// The cursor's line with its line feed; nothing where the cursor lies
    /// below the text.
    pub fn get_current_line(&self) -> (line: String)
        ensures
            line@ == self@.current_line(),
    {
        match self.get_line(self.cursor.row) {
            Some(line) => line,
            None => String::new(),
        }
    }

    /// Moves the cursor one step to the right and puts `text` in there.
    /// Nothing happens, and nothing is recorded, where `text` is empty.
    pub fn paste_after(&mut self, text: &str)
        requires
            old(self).wf(),
        ensures
            final(self)@ == old(self)@.paste_after(text@),
            final(self).wf(),
    {
        if !text.is_empty() {
            let start = self.content.line_to_char(self.cursor.row);
            let len = line_length(&self.content, self.cursor.row);
            self.save_state();
            if self.cursor.col < len {
                self.cursor.col = self.cursor.col + 1;
            }
            self.content.insert(start + self.cursor.col, text);
            text_fits(&self.content);
            proof {
                old(self)@.lemma_paste_after(text@);
            }
            self.modified = true;
        }
    }

    /// Puts `text` in at the cursor, which stays before it. Nothing happens,
    /// and nothing is recorded, where `text` is empty.
    pub fn paste_before(&mut self, text: &str)
        requires
            old(self).wf(),
        ensures
            final(self)@ == old(self)@.paste_before(text@),
            final(self).wf(),
    {
        if !text.is_empty() {
            let pos = self.cursor_to_char_index();
            self.save_state();
            self.content.insert(pos, text);
            text_fits(&self.content);
            proof {
                old(self)@.lemma_paste_before(text@);
            }
            self.modified = true;
        }
    }

    /// The number of characters of line `line`, its line feed not counted; 0
    /// for a line that the text does not have.
    pub fn get_line_length(&self, line: usize) -> (len: usize)
        ensures
            len == line_len(self@.text, line as int),
    {
        line_length(&self.content, line)
    }

    /// Line `line_num` with its line feed, if the text has that line.
    pub fn get_line(&self, line_num: usize) -> (line: Option<String>)
        ensures
            text_of(line) == self@.line(line_num as int),
    {
        if line_num < self.content.len_lines() {
            proof {
                lemma_next_line(self@.text, line_num as int);
            }
            let start = self.content.line_to_char(line_num);
            let next = self.content.line_to_char(line_num + 1);
            Some(rope_slice(&self.content, start, next))
        } else {
            None
        }
    }

    pub fn line_count(&self) -> (lines: usize)
        ensures
            lines == line_count(self@.text),
    {
        self.content.len_lines()
    }

    /// The offset of the cursor.
    pub fn cursor_to_char_index(&self) -> (pos: usize)
        requires
            self.wf(),
        ensures
            pos == self@.offset(),
            pos <= self@.text.len(),
    {
        proof {
            self@.lemma_cursor();
        }
        let start = self.content.line_to_char(self.cursor.row);
        start + self.cursor.col
    }

    /// The offset at which the cursor's line ends, its line feed not
    /// counted.
    fn line_end_index(&self) -> (end: usize)
        requires
            self.wf(),
        ensures
            end == crate::text::line_end(self@.text, self@.cursor.row as int),
    {
        proof {
            self@.lemma_cursor();
        }
        let lines = self.content.len_lines();
        let next = self.content.line_to_char(self.cursor.row + 1);
        if self.cursor.row + 1 < lines {
            next - 1
        } else {
            next
        }
    }

    /// Takes out what stands in the cursor's line from the cursor on; the
    /// line feed stays. At the end of a line nothing happens and nothing is
    /// recorded.
    pub fn delete_to_line_end(&mut self)
        requires
            old(self).wf(),
        ensures
            final(self)@ == old(self)@.delete_to_line_end(),
            final(self).wf(),
    {
        proof {
            old(self)@.lemma_delete_to_line_end();
            old(self)@.lemma_cursor();
        }
        let pos = self.cursor_to_char_index();
        let end = self.line_end_index();
        if pos < end {
            self.save_state();
            rope_remove(&mut self.content, pos, end);
            self.modified = true;
        }
    }

    /// What stands in the cursor's line from the cursor on, without the line
    /// feed.
    pub fn get_text_to_line_end(&self) -> (text: String)
        requires
            self.wf(),
        ensures
            text@ == self@.text_to_line_end(),
    {
        proof {
            self@.lemma_cursor();
        }
        let pos = self.cursor_to_char_index();
        let end = self.line_end_index();
        if pos < end {
            rope_slice(&self.content, pos, end)
        } else {
            String::new()
        }
    }

    /// Moves the cursor to the first occurrence of `pattern` that begins
    /// behind the cursor. Where there is none up to the end of the text, the
    /// cursor stays: the search does not start over at the top.
    pub fn find_next(&mut self, pattern: &str)
        requires
            old(self).wf(),
        ensures
            final(self)@ == old(self)@.find_next(pattern@),
            final(self).wf(),
    {
        proof {
            old(self)@.lemma_find_next(pattern@);
            old(self)@.lemma_cursor();
            lemma_first_match(self@.text, pattern@, self@.offset() + 1);
        }
        let pos = self.cursor_to_char_index();
        if pos < self.content.len_chars() {
            let chars = chars_of(pattern);
            if let Some(at) = find_forward(&self.content, &chars, pos + 1) {
                self.move_to_offset(at);
            }
        }
    }

    /// Moves the cursor to the last occurrence of `pattern` that ends at or
    /// before the cursor. Where there is none, the cursor stays: the search
    /// does not start over at the bottom.
    pub fn find_previous(&mut self, pattern: &str)
        requires
            old(self).wf(),
        ensures
            final(self)@ == old(self)@.find_previous(pattern@),
            final(self).wf(),
    {
        proof {
            old(self)@.lemma_find_previous(pattern@);
            lemma_last_match(self@.text, pattern@, self@.offset() - pattern@.len());
        }
        let pos = self.cursor_to_char_index();
        let chars = chars_of(pattern);
        if pos > 0 && chars.len() <= pos {
            if let Some(at) = find_backward(&self.content, &chars, pos - chars.len()) {
                self.move_to_offset(at);
            }
        }
    }

    /// Moves the cursor to the offset `at`.
    fn move_to_offset(&mut self, at: usize)
        requires
            old(self)@.text.len() <= usize::MAX,
            at <= old(self)@.text.len(),
        ensures
            final(self)@ == old(self)@.with_cursor(old(self)@.cursor_at_offset(at as int)),
    {
        proof {
            self@.lemma_cursor_at_offset(at as int);
        }
        let row = self.content.char_to_line(at);
        let start = self.content.line_to_char(row);
        self.cursor.row = row;
        self.cursor.col = at - start;
        self.cursor.desired_col = self.cursor.col;
    }

    /// The offset at which the word at `from` ends.
    fn skip_words(&self, from: usize) -> (to: usize)
        requires
            from <= self@.text.len(),
        ensures
            to == crate::words::after_words(kinds_of(self@.text), from as int),
            from <= to <= self@.text.len(),
    {
        let ghost kinds = kinds_of(self@.text);
        let len = self.content.len_chars();
        let mut at: usize = from;
        while at < len && classify(self.content.char(at)).word
            invariant
                kinds == kinds_of(self@.text),
                len == self@.text.len(),
                from <= at <= len,
                forall|i: int| from <= i < at ==> (#[trigger] kinds[i]).word,
            decreases len - at,
        {
            at = at + 1;
        }
        proof {
            lemma_after_words_resume(kinds, from as int, at as int);
        }
        at
    }

    /// The offset at which the white space at `from` ends.
    fn skip_spaces(&self, from: usize) -> (to: usize)
        requires
            from <= self@.text.len(),
        ensures
            to == crate::words::after_spaces(kinds_of(self@.text), from as int),
            from <= to <= self@.text.len(),
    {
        let ghost kinds = kinds_of(self@.text);
        let len = self.content.len_chars();
        let mut at: usize = from;
        while at < len && classify(self.content.char(at)).space
            invariant
                kinds == kinds_of(self@.text),
                len == self@.text.len(),
                from <= at <= len,
                forall|i: int| from <= i < at ==> (#[trigger] kinds[i]).space,
            decreases len - at,
        {
            at = at + 1;
        }
        proof {
            lemma_after_spaces_resume(kinds, from as int, at as int);
        }
        at
    }

    /// Takes out the word at the cursor and the white space behind it, line
    /// feeds included. Where the cursor stands on neither, nothing happens
    /// and nothing is recorded.
    pub fn delete_word(&mut self)
        requires
            old(self).wf(),
        ensures
            final(self)@ == old(self)@.delete_word(),
            final(self).wf(),
    {
        proof {
            old(self)@.lemma_delete_word();
        }
        let pos = self.cursor_to_char_index();
        let word_end = self.skip_words(pos);
        let end = self.skip_spaces(word_end);
        if pos < end {
            self.save_state();
            rope_remove(&mut self.content, pos, end);
            self.modified = true;
        }
    }

    /// Takes out what stands in the cursor's line before the cursor, which
    /// comes to stand at the start of the line. At the start of a line
    /// nothing happens and nothing is recorded.
    pub fn delete_to_line_start(&mut self)
        requires
            old(self).wf(),
        ensures
            final(self)@ == old(self)@.delete_to_line_start(),
            final(self).wf(),
    {
        proof {
            old(self)@.lemma_delete_to_line_start();
            old(self)@.lemma_cursor();
        }
        if self.cursor.col > 0 {
            let start = self.content.line_to_char(self.cursor.row);
            let pos = start + self.cursor.col;
            self.save_state();
            rope_remove(&mut self.content, start, pos);
            self.cursor.col = 0;
            self.modified = true;
        }
    }

    /// The word at the cursor, from the cursor on.
    pub fn yank_word(&self) -> (word: String)
        requires
            self.wf(),
        ensures
            word@ == self@.word(),
    {
        let pos = self.cursor_to_char_index();
        let end = self.skip_words(pos);
        if pos < end {
            rope_slice(&self.content, pos, end)
        } else {
            String::new()
        }
    }

    /// The offsets `[from, to)` of the selection between `anchor` and the
    /// cursor, both included, and the earlier of the two.
    fn selection(&self, anchor: (usize, usize)) -> (found: Option<(usize, usize, Cursor)>)
        requires
            self.wf(),
        ensures
            match found {
                Some((from, to, start)) => self@.selection(anchor) == Some(
                    (from as int, to as int),
                ) && start == self@.selection_start(anchor) && from < to <= self@.text.len(),
                None => self@.selection(anchor) is None,
            },
    {
        proof {
            self@.lemma_delete_selection(anchor);
        }
        if anchor.0 >= self.content.len_lines() || anchor.1 > line_length(
            &self.content,
            anchor.0,
        ) {
            return None;
        }
        let anchor_first = anchor.0 < self.cursor.row || (anchor.0 == self.cursor.row && anchor.1
            <= self.cursor.col);
        let (start_row, start_col, end_row, end_col) = if anchor_first {
            (anchor.0, anchor.1, self.cursor.row, self.cursor.col)
        } else {
            (self.cursor.row, self.cursor.col, anchor.0, anchor.1)
        };
        let len = self.content.len_chars();
        let from = self.content.line_to_char(start_row) + start_col;
        let last = self.content.line_to_char(end_row) + end_col;
        if from <= last && last < len {
            Some(
                (
                    from,
                    last + 1,
                    Cursor { row: start_row, col: start_col, desired_col: self.cursor.desired_col },
                ),
            )
        } else {
            None
        }
    }

    /// The text between `anchor` and the cursor, both included; `None` where
    /// the later of the two stands at the end of the text, and where the
    /// anchor does not lie in the text.
    pub fn selected(&self, anchor: (usize, usize)) -> (text: Option<String>)
        requires
            self.wf(),
        ensures
            text_of(text) == self@.selected(anchor),
    {
        match self.selection(anchor) {
            Some((from, to, _)) => Some(rope_slice(&self.content, from, to)),
            None => None,
        }
    }

    /// Takes out the text between `anchor` and the cursor, both included;
    /// the cursor comes to stand where it began.
    pub fn delete_selection(&mut self, anchor: (usize, usize))
        requires
            old(self).wf(),
        ensures
            final(self)@ == old(self)@.delete_selection(anchor),
            final(self).wf(),
    {
        proof {
            old(self)@.lemma_delete_selection(anchor);
        }
        if let Some((from, to, start)) = self.selection(anchor) {
            self.save_state();
            rope_remove(&mut self.content, from, to);
            self.cursor = start;
            self.modified = true;
        }
    }

    /// Replaces `pattern` by `replacement` in the whole text, every
    /// occurrence where `global` is set and the first where it is not, and
    /// brings the cursor back into the text. The buffer counts as modified
    /// whether or not the pattern was found, and no state is recorded.
    pub fn substitute(&mut self, pattern: &str, replacement: &str, global: bool)
        requires
            old(self).wf(),
        ensures
            final(self)@ == old(self)@.replaced(
                substituted(old(self)@.text, pattern@, replacement@, global),
            ),
            final(self).wf(),
    {
        let chars = chars_of(pattern);
        if global {
            replace_every(&mut self.content, &chars, replacement);
        } else {
            replace_one(&mut self.content, &chars, replacement);
        }
        text_fits(&self.content);
        self.cursor.clamp_to_buffer(&self.content);
        self.modified = true;
        proof {
            old(self)@.lemma_replaced(self@.text);
        }
    }
}

} // verus!
