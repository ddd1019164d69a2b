//! The editor as a mathematical value, and what every key makes of it.
//!
//! `EditorView::step` is the state machine: from a state and a key to the
//! next state and the work on files that the caller has to do. The contracts
//! of `Editor` say that its methods compute these functions.

use crate::commands::{run, CommandResultView, EffectView, OutcomeView};
use crate::cursor::Cursor;
use crate::keys::{KeyCode, KeyEvent};
use crate::model::BufferView;
use crate::modes::EditorMode;
use crate::strings::is_prefix;
use crate::substitute::substituted;
use crate::text::{line_count, line_len};
use vstd::prelude::*;

verus! {

/// The number of lines that page up and page down move by.
pub const PAGE_STEP: usize = 10;

#[verifier::ext_equal]
pub struct EditorView {
    /// The open buffers, in the order in which they were opened.
    pub buffers: Seq<BufferView>,
    /// The index of the buffer that keys act on.
    pub current: int,
    pub mode: EditorMode,
    pub running: bool,
    /// What was yanked or deleted last.
    pub clipboard: Option<Seq<char>>,
    /// What was searched for last.
    pub search_pattern: Option<Seq<char>>,
    /// The command line as typed so far, with the character that opened it.
    pub command_line: Seq<char>,
    pub message: Option<Seq<char>>,
    /// The operator that waits for its target: `d` or `y`.
    pub pending: Option<char>,
    /// Where the selection was begun, as line and column.
    pub visual_start: Option<(usize, usize)>,
}

/// The index of the first `/` of `s` at or after `from`, or the length.
pub open spec fn next_slash(s: Seq<char>, from: int) -> int
    decreases s.len() - from,
{
    if 0 <= from < s.len() && s[from] != '/' {
        next_slash(s, from + 1)
    } else {
        from
    }
}

/// The field of a substitute command that begins at `from` and ends before
/// the next `/`.
pub open spec fn field(s: Seq<char>, from: int) -> Seq<char> {
    s.subrange(from, next_slash(s, from))
}

impl EditorView {
    /// There is a current buffer, and every buffer is well-formed: in each
    /// the cursor lies in the text.
    pub open spec fn wf(self) -> bool {
        &&& 0 <= self.current < self.buffers.len()
        &&& forall|i: int| 0 <= i < self.buffers.len() ==> (#[trigger] self.buffers[i]).wf()
    }

    /// In a well-formed editor the cursor of every buffer lies in a line of
    /// that buffer's text, at most at that line's end.
    pub proof fn lemma_cursors_in_bounds(self, i: int)
        requires
            self.wf(),
            0 <= i < self.buffers.len(),
        ensures
            self.buffers[i].cursor.row < vstd::math::max(
                1,
                line_count(self.buffers[i].text) as int,
            ),
            self.buffers[i].cursor.col <= line_len(
                self.buffers[i].text,
                self.buffers[i].cursor.row as int,
            ),
    {
        self.buffers[i].lemma_cursor_in_bounds();
    }

    /// An editor with one empty buffer, in normal mode.
    pub open spec fn fresh() -> EditorView {
        EditorView {
            buffers: seq![BufferView::fresh(Seq::empty(), None)],
            current: 0,
            mode: EditorMode::Normal,
            running: true,
            clipboard: None,
            search_pattern: None,
            command_line: Seq::empty(),
            message: None,
            pending: None,
            visual_start: None,
        }
    }

    /// The current buffer.
    pub open spec fn buffer(self) -> BufferView {
        self.buffers[self.current]
    }

    pub open spec fn with_buffer(self, buffer: BufferView) -> EditorView {
        EditorView { buffers: self.buffers.update(self.current, buffer), ..self }
    }

    /// The cursor of the current buffer moved to `cursor`.
    pub open spec fn moved(self, cursor: Cursor) -> EditorView {
        self.with_buffer(self.buffer().with_cursor(cursor))
    }

    pub open spec fn in_mode(self, mode: EditorMode) -> EditorView {
        EditorView { mode, ..self }
    }

    pub open spec fn yanked(self, text: Seq<char>) -> EditorView {
        EditorView { clipboard: Some(text), ..self }
    }

    pub open spec fn said(self, message: Seq<char>) -> EditorView {
        EditorView { message: Some(message), ..self }
    }

    pub open spec fn stopped(self) -> EditorView {
        EditorView { running: false, ..self }
    }

    /// Back in normal mode from visual mode: the selection is given up.
    pub open spec fn left_visual(self) -> EditorView {
        EditorView { mode: EditorMode::Normal, visual_start: None, ..self }
    }

    /// Back in normal mode from command mode: the command line is empty.
    pub open spec fn left_command(self) -> EditorView {
        EditorView { mode: EditorMode::Normal, command_line: Seq::empty(), ..self }
    }

    /// What a motion key, which means the same in every mode that knows it,
    /// makes of the cursor; `None` for any other key.
    pub open spec fn motion(self, code: KeyCode) -> Option<Cursor> {
        let cursor = self.buffer().cursor;
        let text = self.buffer().text;
        match code {
            KeyCode::Up => Some(cursor.up(text)),
            KeyCode::Down => Some(cursor.down(text)),
            KeyCode::Left => Some(cursor.left()),
            KeyCode::Right => Some(cursor.right(text)),
            KeyCode::Char('w') => Some(cursor.word_forward(text)),
            KeyCode::Char('b') => Some(cursor.word_backward(text)),
            KeyCode::Char('e') => Some(cursor.word_end(text)),
            KeyCode::Char('0') => Some(cursor.line_start()),
            KeyCode::Char('$') => Some(cursor.line_end(text)),
            _ => None,
        }
    }

    /// A key in normal mode: the target of the operator that waits for one,
    /// or a command of its own.
    pub open spec fn normal(self, key: KeyEvent) -> EditorView {
        match self.pending {
            Some(pending) => EditorView { pending: None, ..self }.operator(pending, key),
            None => self.normal_idle(key),
        }
    }

    /// A key in normal mode, with no operator waiting.
    pub open spec fn normal_idle(self, key: KeyEvent) -> EditorView {
        let buffer = self.buffer();
        let cursor = buffer.cursor;
        let text = buffer.text;
        match key.code {
            KeyCode::Char('i') => self.in_mode(EditorMode::Insert),
            KeyCode::Char('I') => self.moved(cursor.line_start()).in_mode(EditorMode::Insert),
            KeyCode::Char('a') => self.moved(cursor.right(text)).in_mode(EditorMode::Insert),
            KeyCode::Char('A') => self.moved(cursor.line_end(text)).in_mode(EditorMode::Insert),
            KeyCode::Char('o') => self.with_buffer(
                buffer.with_cursor(cursor.line_end(text)).insert_newline(),
            ).in_mode(EditorMode::Insert),
            KeyCode::Char('O') => {
                let opened = buffer.with_cursor(cursor.line_start()).insert_newline();
                self.with_buffer(opened.with_cursor(opened.cursor.up(opened.text))).in_mode(
                    EditorMode::Insert,
                )
            },
            KeyCode::Char('v') => EditorView {
                mode: EditorMode::Visual,
                visual_start: Some((cursor.row, cursor.col)),
                ..self
            },
            KeyCode::Char(':') => EditorView {
                mode: EditorMode::Command,
                command_line: seq![':'],
                ..self
            },
            KeyCode::Char('/') => EditorView {
                mode: EditorMode::Command,
                command_line: seq!['/'],
                ..self
            },
            KeyCode::Char('?') => EditorView {
                mode: EditorMode::Command,
                command_line: seq!['?'],
                ..self
            },
            KeyCode::Char('^') => self.moved(cursor.first_non_whitespace(text)),
            KeyCode::Char('G') => self.moved(Cursor::end(text)),
            KeyCode::Char('g') => self.moved(Cursor::start()),
            KeyCode::Char('x') => self.with_buffer(buffer.delete_char()),
            KeyCode::Delete => self.with_buffer(buffer.delete_char()),
            KeyCode::Char('X') => self.with_buffer(buffer.backspace()),
            KeyCode::Char('D') => self.with_buffer(buffer.delete_to_line_end()),
            KeyCode::Char('d') => EditorView { pending: Some('d'), ..self },
            KeyCode::Char('y') => EditorView { pending: Some('y'), ..self },
            KeyCode::Char('Y') => self.yanked(buffer.text_to_line_end()),
            KeyCode::Char('p') => match self.clipboard {
                Some(text) => self.with_buffer(buffer.paste_after(text)),
                None => self,
            },
            KeyCode::Char('P') => match self.clipboard {
                Some(text) => self.with_buffer(buffer.paste_before(text)),
                None => self,
            },
            KeyCode::Char('u') => self.with_buffer(buffer.undo()),
            KeyCode::Char('r') => if key.control {
                self.with_buffer(buffer.redo())
            } else {
                self
            },
            KeyCode::Char('n') => match self.search_pattern {
                Some(pattern) => self.with_buffer(buffer.find_next(pattern)),
                None => self,
            },
            KeyCode::Char('N') => match self.search_pattern {
                Some(pattern) => self.with_buffer(buffer.find_previous(pattern)),
                None => self,
            },
            code => match self.motion(code) {
                Some(cursor) => self.moved(cursor),
                None => self,
            },
        }
    }

    /// The key that follows the operator `pending`. A key that names no
    /// target for it is dropped without effect.
    pub open spec fn operator(self, pending: char, key: KeyEvent) -> EditorView {
        let buffer = self.buffer();
        match (pending, key.code) {
            ('d', KeyCode::Char('d')) => self.with_buffer(buffer.delete_line()),
            ('d', KeyCode::Char('w')) => self.with_buffer(buffer.delete_word()),
            ('d', KeyCode::Char('$')) => self.with_buffer(buffer.delete_to_line_end()),
            ('d', KeyCode::Char('0')) => self.with_buffer(buffer.delete_to_line_start()),
            ('y', KeyCode::Char('y')) => self.yanked(buffer.current_line()),
            ('y', KeyCode::Char('w')) => self.yanked(buffer.word()),
            ('y', KeyCode::Char('$')) => self.yanked(buffer.text_to_line_end()),
            _ => self,
        }
    }

    /// A key in insert mode.
    pub open spec fn insert(self, key: KeyEvent) -> EditorView {
        let buffer = self.buffer();
        let cursor = buffer.cursor;
        let text = buffer.text;
        match key.code {
            KeyCode::Esc => self.in_mode(EditorMode::Normal),
            KeyCode::Char(c) => self.with_buffer(buffer.insert_char(c)),
            KeyCode::Enter => self.with_buffer(buffer.insert_newline()),
            KeyCode::Backspace => self.with_buffer(buffer.backspace()),
            KeyCode::Delete => self.with_buffer(buffer.delete_char()),
            KeyCode::Tab => self.with_buffer(buffer.insert_char('\t')),
            KeyCode::Up => self.moved(cursor.up(text)),
            KeyCode::Down => self.moved(cursor.down(text)),
            KeyCode::Left => self.moved(cursor.left()),
            KeyCode::Right => self.moved(cursor.right(text)),
            KeyCode::Home => self.moved(cursor.line_start()),
            KeyCode::End => self.moved(cursor.line_end(text)),
            KeyCode::PageUp => self.moved(cursor.up_by(text, PAGE_STEP as nat)),
            KeyCode::PageDown => self.moved(cursor.down_by(text, PAGE_STEP as nat)),
            KeyCode::Other => self,
        }
    }

    /// The text of the selection, if one was begun and holds a character.
    pub open spec fn selected(self) -> Option<Seq<char>> {
        match self.visual_start {
            Some(anchor) => self.buffer().selected(anchor),
            None => None,
        }
    }

    /// The selection taken out of the current buffer.
    pub open spec fn without_selection(self) -> EditorView {
        match self.visual_start {
            Some(anchor) => self.with_buffer(self.buffer().delete_selection(anchor)),
            None => self,
        }
    }

    /// The selection copied to the clipboard, where there is one.
    pub open spec fn yank_selection(self) -> EditorView {
        match self.selected() {
            Some(text) => self.yanked(text),
            None => self,
        }
    }

    /// The selection moved to the clipboard, where there is one.
    pub open spec fn cut_selection(self) -> EditorView {
        match self.selected() {
            Some(text) => self.yanked(text).without_selection(),
            None => self,
        }
    }

    /// A key in visual mode.
    pub open spec fn visual(self, key: KeyEvent) -> EditorView {
        match key.code {
            KeyCode::Esc => self.left_visual(),
            KeyCode::Char('y') => self.yank_selection().left_visual(),
            KeyCode::Char('x') => self.cut_selection().left_visual(),
            KeyCode::Delete => self.cut_selection().left_visual(),
            code => match self.motion(code) {
                Some(cursor) => self.moved(cursor),
                None => self,
            },
        }
    }

    /// A search from the command line: the pattern is kept for `n` and `N`.
    pub open spec fn search_forward(self, pattern: Seq<char>) -> EditorView {
        EditorView { search_pattern: Some(pattern), ..self }.with_buffer(
            self.buffer().find_next(pattern),
        )
    }

    pub open spec fn search_backward(self, pattern: Seq<char>) -> EditorView {
        EditorView { search_pattern: Some(pattern), ..self }.with_buffer(
            self.buffer().find_previous(pattern),
        )
    }

    /// The command `s/pattern/replacement/flags`, whose last field may be
    /// left out: the substitution is made in the whole text of the current
    /// buffer, for every occurrence where the flags hold a `g` and for the
    /// first where they do not. Without a second `/` nothing is changed.
    pub open spec fn substitute(self, command: Seq<char>) -> EditorView {
        let pattern_end = next_slash(command, 2);
        let replacement_end = next_slash(command, pattern_end + 1);
        if pattern_end >= command.len() {
            self.said("Invalid substitute format"@)
        } else {
            self.with_buffer(
                self.buffer().replaced(
                    substituted(
                        self.buffer().text,
                        field(command, 2),
                        field(command, pattern_end + 1),
                        replacement_end < command.len() && field(
                            command,
                            replacement_end + 1,
                        ).contains('g'),
                    ),
                ),
            ).said("Substitution complete"@)
        }
    }

    /// The result of a command taken in.
    pub open spec fn reported(self, result: CommandResultView) -> EditorView {
        match result {
            CommandResultView::Nothing => self,
            CommandResultView::Quit => self.stopped(),
            CommandResultView::Message(text) => self.said(text),
            CommandResultView::Error(text) => self.said(text),
        }
    }

    pub open spec fn next_buffer(self) -> EditorView {
        if self.current + 1 < self.buffers.len() {
            EditorView { current: self.current + 1, ..self }
        } else {
            self
        }
    }

    pub open spec fn prev_buffer(self) -> EditorView {
        if self.current > 0 {
            EditorView { current: self.current - 1, ..self }
        } else {
            self
        }
    }

    /// The current buffer closed, unless it is the only one. The buffer
    /// behind it becomes current, or the last one where none is behind it.
    pub open spec fn delete_buffer(self) -> EditorView {
        if self.buffers.len() > 1 {
            EditorView {
                buffers: self.buffers.remove(self.current),
                current: if self.current >= self.buffers.len() - 1 {
                    self.buffers.len() - 2
                } else {
                    self.current
                },
                ..self
            }
        } else {
            self
        }
    }

    /// What the outcome of a named command makes of the editor.
    pub open spec fn applied(self, outcome: OutcomeView) -> (EditorView, EffectView) {
        match outcome {
            OutcomeView::Done(result) => (self.reported(result), EffectView::Nothing),
            OutcomeView::Request(effect) => (self, effect),
            OutcomeView::NextBuffer => (self.next_buffer(), EffectView::Nothing),
            OutcomeView::PrevBuffer => (self.prev_buffer(), EffectView::Nothing),
            OutcomeView::DeleteBuffer => (self.delete_buffer(), EffectView::Nothing),
        }
    }

    /// A command, as typed behind the colon. `q!`, `w ` and `e ` with what
    /// follows as the file's name, and `s/` are told by how the line begins;
    /// any other line is a named command with its argument.
    pub open spec fn colon(self, command: Seq<char>) -> (EditorView, EffectView) {
        if command == "q!"@ {
            (self.stopped(), EffectView::Nothing)
        } else if is_prefix("w "@, command) {
            (
                self,
                EffectView::Save {
                    path: command.skip(2),
                    text: self.buffer().text,
                    rebind: true,
                    quit: false,
                },
            )
        } else if is_prefix("e "@, command) {
            (self, EffectView::Open { path: command.skip(2) })
        } else if is_prefix("s/"@, command) {
            (self.substitute(command), EffectView::Nothing)
        } else {
            self.with_buffer(run(command, self.buffer()).0).applied(
                run(command, self.buffer()).1,
            )
        }
    }

    /// The command line carried out: a command behind `:`, a search behind
    /// `/` or `?`.
    pub open spec fn execute(self) -> (EditorView, EffectView) {
        let line = self.command_line;
        if is_prefix(seq![':'], line) {
            self.colon(line.skip(1))
        } else if is_prefix(seq!['/'], line) {
            (self.search_forward(line.skip(1)), EffectView::Nothing)
        } else if is_prefix(seq!['?'], line) {
            (self.search_backward(line.skip(1)), EffectView::Nothing)
        } else {
            (self, EffectView::Nothing)
        }
    }

    /// A key in command mode.
    pub open spec fn command(self, key: KeyEvent) -> (EditorView, EffectView) {
        match key.code {
            KeyCode::Esc => (self.left_command(), EffectView::Nothing),
            KeyCode::Enter => (self.execute().0.left_command(), self.execute().1),
            KeyCode::Backspace => (
                if self.command_line.len() > 1 {
                    EditorView { command_line: self.command_line.drop_last(), ..self }
                } else {
                    self.left_command()
                },
                EffectView::Nothing,
            ),
            KeyCode::Char(c) => (
                EditorView { command_line: self.command_line.push(c), ..self },
                EffectView::Nothing,
            ),
            _ => (self, EffectView::Nothing),
        }
    }

    /// A key, in whatever mode the editor is in.
    pub open spec fn step(self, key: KeyEvent) -> (EditorView, EffectView) {
        match self.mode {
            EditorMode::Normal => (self.normal(key), EffectView::Nothing),
            EditorMode::Insert => (self.insert(key), EffectView::Nothing),
            EditorMode::Visual => (self.visual(key), EffectView::Nothing),
            EditorMode::Command => self.command(key),
        }
    }

    /// A buffer for the file at `path` opened and made current.
    pub open spec fn opened(self, path: Seq<char>, contents: Option<Seq<char>>) -> EditorView {
        EditorView {
            buffers: self.buffers.push(
                BufferView::fresh(
                    match contents {
                        Some(text) => text,
                        None => Seq::empty(),
                    },
                    Some(path),
                ),
            ),
            current: self.buffers.len() as int,
            ..self
        }
    }

    /// The end of a `Save`: where the file was written, the buffer counts as
    /// saved, and the editor ends or says so; where it was not, the error is
    /// shown and nothing else changes.
    pub open spec fn save_finished(
        self,
        path: Seq<char>,
        rebind: bool,
        quit: bool,
        error: Option<Seq<char>>,
    ) -> EditorView {
        match error {
            Some(text) => self.said(text),
            None => {
                let saved = self.with_buffer(
                    if rebind {
                        self.buffer().saved_as(path)
                    } else {
                        self.buffer().saved()
                    },
                );
                if quit {
                    saved.stopped()
                } else if rebind {
                    saved.said("File saved as "@ + path)
                } else {
                    saved.said("File saved"@)
                }
            },
        }
    }

    /// The end of an `Open`: the file at `path` has been read.
    pub open spec fn open_finished(self, path: Seq<char>, contents: Option<Seq<char>>)
        -> EditorView {
        self.opened(path, contents).said("Opened "@ + path)
    }
}

impl EditorView {
    /// Every text fits the machine: it has no more characters than a
    /// `usize` can count.
    pub open spec fn fits(self) -> bool {
        forall|i: int|
            0 <= i < self.buffers.len() ==> (#[trigger] self.buffers[i]).text.len() <= usize::MAX
    }

    /// The editor is well-formed at its start.
    pub proof fn lemma_fresh()
        ensures
            EditorView::fresh().wf(),
    {
        BufferView::lemma_fresh(Seq::empty(), None);
    }

    /// A key in normal mode, with no operator waiting, keeps the editor
    /// well-formed.
    pub proof fn lemma_normal_idle(self, key: KeyEvent)
        requires
            self.wf(),
            self.normal_idle(key).fits(),
        ensures
            self.normal_idle(key).wf(),
    {
        let buffer = self.buffer();
        let cursor = buffer.cursor;
        let text = buffer.text;
        let next = self.normal_idle(key);
        assert(next.buffers.len() == self.buffers.len());
        assert(next.buffers[self.current].text.len() <= usize::MAX);
        cursor.lemma_motions(text);
        match key.code {
            KeyCode::Char('o') => {
                buffer.with_cursor(cursor.line_end(text)).lemma_insert_char_fits('\n');
            },
            KeyCode::Char('O') => {
                let opened = buffer.with_cursor(cursor.line_start()).insert_newline();
                buffer.with_cursor(cursor.line_start()).lemma_insert_char_fits('\n');
                opened.cursor.lemma_motions(opened.text);
            },
            KeyCode::Char('x') => buffer.lemma_delete_char(),
            KeyCode::Delete => buffer.lemma_delete_char(),
            KeyCode::Char('X') => buffer.lemma_backspace(),
            KeyCode::Char('D') => buffer.lemma_delete_to_line_end(),
            KeyCode::Char('p') => {
                if let Some(part) = self.clipboard {
                    buffer.lemma_paste_fits(part);
                }
            },
            KeyCode::Char('P') => {
                if let Some(part) = self.clipboard {
                    buffer.lemma_paste_fits(part);
                }
            },
            KeyCode::Char('u') => buffer.lemma_undo(),
            KeyCode::Char('r') => buffer.lemma_redo(),
            KeyCode::Char('n') => {
                if let Some(pattern) = self.search_pattern {
                    buffer.lemma_find_next(pattern);
                }
            },
            KeyCode::Char('N') => {
                if let Some(pattern) = self.search_pattern {
                    buffer.lemma_find_previous(pattern);
                }
            },
            _ => {},
        }
    }

    /// The target of an operator keeps the editor well-formed.
    pub proof fn lemma_operator(self, pending: char, key: KeyEvent)
        requires
            self.wf(),
        ensures
            self.operator(pending, key).wf(),
    {
        let buffer = self.buffer();
        buffer.lemma_delete_line();
        buffer.lemma_delete_word();
        buffer.lemma_delete_to_line_end();
        buffer.lemma_delete_to_line_start();
    }

    /// A key in insert mode keeps the editor well-formed.
    pub proof fn lemma_insert(self, key: KeyEvent)
        requires
            self.wf(),
            self.insert(key).fits(),
        ensures
            self.insert(key).wf(),
    {
        let buffer = self.buffer();
        let next = self.insert(key);
        assert(next.buffers.len() == self.buffers.len());
        assert(next.buffers[self.current].text.len() <= usize::MAX);
        buffer.cursor.lemma_motions(buffer.text);
        buffer.cursor.lemma_steps(buffer.text, PAGE_STEP as nat);
        match key.code {
            KeyCode::Char(c) => buffer.lemma_insert_char_fits(c),
            KeyCode::Enter => buffer.lemma_insert_char_fits('\n'),
            KeyCode::Tab => buffer.lemma_insert_char_fits('\t'),
            KeyCode::Backspace => buffer.lemma_backspace(),
            KeyCode::Delete => buffer.lemma_delete_char(),
            _ => {},
        }
    }

    /// A key in visual mode keeps the editor well-formed.
    pub proof fn lemma_visual(self, key: KeyEvent)
        requires
            self.wf(),
        ensures
            self.visual(key).wf(),
    {
        let buffer = self.buffer();
        buffer.cursor.lemma_motions(buffer.text);
        if let Some(anchor) = self.visual_start {
            buffer.lemma_delete_selection(anchor);
        }
    }

    /// A command keeps the editor well-formed.
    pub proof fn lemma_colon(self, command: Seq<char>)
        requires
            self.wf(),
            self.colon(command).0.fits(),
        ensures
            self.colon(command).0.wf(),
    {
        let buffer = self.buffer();
        let next = self.colon(command).0;
        if command == "q!"@ {
        } else if is_prefix("w "@, command) {
        } else if is_prefix("e "@, command) {
        } else if is_prefix("s/"@, command) {
            if next_slash(command, 2) < command.len() {
                assert(next.buffers[self.current].text.len() <= usize::MAX);
                buffer.lemma_replaced(next.buffers[self.current].text);
            }
        } else {
            let ran = self.with_buffer(run(command, buffer).0);
            assert(ran.wf());
            match run(command, buffer).1 {
                OutcomeView::DeleteBuffer => {
                    if self.buffers.len() > 1 {
                        let left = ran.buffers.remove(self.current);
                        assert forall|i: int| 0 <= i < left.len() implies (#[trigger] left[i]).wf() by {
                            if i < self.current {
                                assert(left[i] == ran.buffers[i]);
                            } else {
                                assert(left[i] == ran.buffers[i + 1]);
                            }
                        }
                    }
                },
                _ => {},
            }
        }
    }

    /// A key in command mode keeps the editor well-formed.
    pub proof fn lemma_command(self, key: KeyEvent)
        requires
            self.wf(),
            self.command(key).0.fits(),
        ensures
            self.command(key).0.wf(),
    {
        let buffer = self.buffer();
        let line = self.command_line;
        match key.code {
            KeyCode::Enter => {
                let done = self.execute().0;
                assert(done.buffers == self.command(key).0.buffers);
                if is_prefix(seq![':'], line) {
                    self.lemma_colon(line.skip(1));
                } else if is_prefix(seq!['/'], line) {
                    buffer.lemma_find_next(line.skip(1));
                } else if is_prefix(seq!['?'], line) {
                    buffer.lemma_find_previous(line.skip(1));
                }
            },
            _ => {},
        }
    }

    /// Whatever the key and whatever the mode, the editor stays well-formed:
    /// in every buffer the cursor stays in the text, as long as the text
    /// fits the machine.
    pub proof fn lemma_step(self, key: KeyEvent)
        requires
            self.wf(),
            self.step(key).0.fits(),
        ensures
            self.step(key).0.wf(),
    {
        match self.mode {
            EditorMode::Normal => match self.pending {
                Some(pending) => EditorView { pending: None, ..self }.lemma_operator(pending, key),
                None => self.lemma_normal_idle(key),
            },
            EditorMode::Insert => self.lemma_insert(key),
            EditorMode::Visual => self.lemma_visual(key),
            EditorMode::Command => self.lemma_command(key),
        }
    }

    /// The editor after the keys of `keys`, one after the other.
    pub open spec fn after(self, keys: Seq<KeyEvent>) -> EditorView
        decreases keys.len(),
    {
        if keys.len() == 0 {
            self
        } else {
            self.after(keys.drop_last()).step(keys.last()).0
        }
    }

    /// However many keys are pressed, the editor stays well-formed: in every
    /// state that keys lead to, the cursor of every buffer lies in that
    /// buffer's text, as long as the texts fit the machine on the way.
    pub proof fn lemma_after(self, keys: Seq<KeyEvent>)
        requires
            self.wf(),
            forall|n: int| 0 <= n <= keys.len() ==> (#[trigger] self.after(keys.take(n))).fits(),
        ensures
            self.after(keys).wf(),
        decreases keys.len(),
    {
        if keys.len() > 0 {
            let before = keys.drop_last();
            assert forall|n: int| 0 <= n <= before.len() implies (#[trigger] self.after(
                before.take(n),
            )).fits() by {
                assert(before.take(n) =~= keys.take(n));
            }
            self.lemma_after(before);
            assert(keys.take(keys.len() as int) =~= keys);
            self.after(before).lemma_step(keys.last());
        }
    }

    /// Taking in the work on files keeps the editor well-formed.
    pub proof fn lemma_files(
        self,
        path: Seq<char>,
        contents: Option<Seq<char>>,
        rebind: bool,
        quit: bool,
        error: Option<Seq<char>>,
    )
        requires
            self.wf(),
        ensures
            self.save_finished(path, rebind, quit, error).wf(),
            self.opened(path, contents).fits() ==> self.opened(path, contents).wf()
                && self.open_finished(path, contents).wf(),
    {
        let opened = self.opened(path, contents);
        if opened.fits() {
            assert(opened.buffers[self.buffers.len() as int].text.len() <= usize::MAX);
            BufferView::lemma_fresh(
                match contents {
                    Some(text) => text,
                    None => Seq::empty(),
                },
                Some(path),
            );
            assert forall|i: int| 0 <= i < opened.buffers.len() implies (
            #[trigger] opened.buffers[i]).wf() by {
                if i < self.buffers.len() {
                    assert(opened.buffers[i] == self.buffers[i]);
                }
            }
        }
    }
}

} // verus!
