//! The editor: the open buffers, the mode, and the routing of keys.
//!
//! The editor does no input and no output. Its caller hands it one key at a
//! time with `process_key_event`, does the work on files that comes back as
//! an `Effect`, and reports how that went.

use crate::buffer::{text_of, Buffer};
use crate::commands::{CommandHandler, CommandResult, Effect, Outcome};
use crate::keys::{KeyCode, KeyEvent};
use crate::model::BufferView;
use crate::modes::EditorMode;
use crate::session::{next_slash, EditorView, PAGE_STEP};
use crate::strings::{begins_with, chars_are, chars_of, join, string_of};
use crate::text::lemma_next_line;
use vstd::prelude::*;

verus! {

/// The views of buffers, one for one.
pub open spec fn views(buffers: Seq<Buffer>) -> Seq<BufferView> {
    buffers.map_values(|buffer: Buffer| buffer@)
}

/// The buffer at `index`, to be changed.
fn buffer_at(buffers: &mut Vec<Buffer>, index: usize) -> (buffer: &mut Buffer)
    requires
        index < old(buffers).len(),
    ensures
        *buffer == old(buffers)@[index as int],
        buffer@ == views(old(buffers)@)[index as int],
        final(buffers)@ == old(buffers)@.update(index as int, *final(buffer)),
        views(final(buffers)@) == views(old(buffers)@).update(index as int, final(buffer)@),
{
    let ghost before = buffers@;
    let buffer = &mut buffers[index];
    proof {
        let after = before.update(index as int, *final(buffer));
        assert(views(after) =~= views(before).update(index as int, final(buffer)@));
    }
    buffer
}

/// The index of the first `/` at or after `from`, or the length.
fn find_slash(chars: &Vec<char>, from: usize) -> (at: usize)
    requires
        from <= chars.len(),
    ensures
        at == next_slash(chars@, from as int),
        from <= at <= chars.len(),
{
    let mut at: usize = from;
    while at < chars.len() && chars[at] != '/'
        invariant
            from <= at <= chars.len(),
            next_slash(chars@, from as int) == next_slash(chars@, at as int),
        decreases chars.len() - at,
    {
        at = at + 1;
    }
    at
}

/// Whether `c` is among the characters of `chars` in `[from, to)`.
fn holds(chars: &Vec<char>, from: usize, to: usize, c: char) -> (found: bool)
    requires
        from <= to <= chars.len(),
    ensures
        found == chars@.subrange(from as int, to as int).contains(c),
{
    let ghost part = chars@.subrange(from as int, to as int);
    let mut at: usize = from;
    while at < to
        invariant
            from <= at <= to <= chars.len(),
            part == chars@.subrange(from as int, to as int),
            forall|i: int| 0 <= i < at - from ==> part[i] != c,
        decreases to - at,
    {
        if chars[at] == c {
            proof {
                assert(part[at - from] == c);
            }
            return true;
        }
        at = at + 1;
    }
    false
}

pub struct Editor {
    buffers: Vec<Buffer>,
    current_buffer: usize,
    mode: EditorMode,
    command_handler: CommandHandler,
    running: bool,
    clipboard: Option<String>,
    search_pattern: Option<String>,
    command_line: String,
    message: Option<String>,
    pending_command: Option<char>,
    visual_start: Option<(usize, usize)>,
}

impl View for Editor {
    type V = EditorView;

    closed spec fn view(&self) -> EditorView {
        EditorView {
            buffers: views(self.buffers@),
            current: self.current_buffer as int,
            mode: self.mode,
            running: self.running,
            clipboard: text_of(self.clipboard),
            search_pattern: text_of(self.search_pattern),
            command_line: self.command_line@,
            message: text_of(self.message),
            pending: self.pending_command,
            visual_start: self.visual_start,
        }
    }
}

impl Editor {
    /// There is a current buffer, and in every buffer the cursor lies in the
    /// text.
    pub open spec fn wf(&self) -> bool {
        self@.wf()
    }

    /// Whether the editor is well-formed. An editor made by `new` and changed
    /// by the methods of this type always is.
    pub fn is_well_formed(&self) -> (ok: bool)
        ensures
            ok == self.wf(),
    {
        if self.current_buffer >= self.buffers.len() {
            return false;
        }
        let mut i: usize = 0;
        while i < self.buffers.len()
            invariant
                i <= self.buffers.len(),
                forall|k: int| 0 <= k < i ==> (#[trigger] views(self.buffers@)[k]).wf(),
            decreases self.buffers.len() - i,
        {
            if !self.buffers[i].is_well_formed() {
                proof {
                    assert(!views(self.buffers@)[i as int].wf());
                }
                return false;
            }
            i = i + 1;
        }
        true
    }

    /// An editor with one empty buffer, in normal mode.
    pub fn new() -> (editor: Editor)
        ensures
            editor@ == EditorView::fresh(),
            editor.wf(),
    {
        let mut buffers = Vec::new();
        buffers.push(Buffer::new());
        let editor = Editor {
            buffers,
            current_buffer: 0,
            mode: EditorMode::Normal,
            command_handler: CommandHandler::new(),
            running: true,
            clipboard: None,
            search_pattern: None,
            command_line: String::new(),
            message: None,
            pending_command: None,
            visual_start: None,
        };
        proof {
            assert(editor@.buffers =~= seq![BufferView::fresh(Seq::empty(), None)]);
        }
        editor
    }

    /// Opens a buffer for the file at `path`, which holds `contents` or does
    /// not exist yet, and makes it the current one.
    pub fn open_file(&mut self, path: &str, contents: Option<&str>)
        requires
            old(self).wf(),
        ensures
            final(self)@ == old(self)@.opened(path@, text_of_str(contents)),
            final(self).wf(),
    {
        let buffer = Buffer::from_file(path, contents);
        self.buffers.push(buffer);
        self.current_buffer = self.buffers.len() - 1;
        proof {
            assert(views(self.buffers@) =~= views(old(self).buffers@).push(buffer@));
        }
    }

    /// Takes in one key: routes it by the mode, and by the operator that
    /// waits for its target. What comes back is the work on files that the
    /// key has led to, if any.
    pub fn process_key_event(&mut self, key_event: KeyEvent) -> (effect: Effect)
        requires
            old(self).wf(),
        ensures
            (final(self)@, effect@) == old(self)@.step(key_event),
            final(self).wf(),
    {
        match self.mode {
            EditorMode::Normal => {
                self.handle_normal_mode(key_event);
                Effect::Nothing
            },
            EditorMode::Insert => {
                self.handle_insert_mode(key_event);
                Effect::Nothing
            },
            EditorMode::Visual => {
                self.handle_visual_mode(key_event);
                Effect::Nothing
            },
            EditorMode::Command => self.handle_command_mode(key_event),
        }
    }

    /// Moves the cursor of the current buffer where `code` is a motion key,
    /// and tells whether it is one.
    fn handle_motion(&mut self, code: KeyCode) -> (moved: bool)
        requires
            old(self).wf(),
        ensures
            match old(self)@.motion(code) {
                Some(cursor) => moved && final(self)@ == old(self)@.moved(cursor),
                None => !moved && final(self)@ == old(self)@,
            },
            final(self).wf(),
    {
        let buffer = buffer_at(&mut self.buffers, self.current_buffer);
        proof {
            lemma_next_line(buffer@.text, buffer.cursor.row as int);
        }
        match code {
            KeyCode::Up => buffer.cursor.move_up(&buffer.content),
            KeyCode::Down => buffer.cursor.move_down(&buffer.content),
            KeyCode::Left => buffer.cursor.move_left(),
            KeyCode::Right => buffer.cursor.move_right(&buffer.content),
            KeyCode::Char('w') => buffer.cursor.move_word_forward(&buffer.content),
            KeyCode::Char('b') => buffer.cursor.move_word_backward(&buffer.content),
            KeyCode::Char('e') => buffer.cursor.move_word_end(&buffer.content),
            KeyCode::Char('0') => buffer.cursor.move_line_start(),
            KeyCode::Char('$') => buffer.cursor.move_line_end(&buffer.content),
            _ => {
                return false;
            },
        }
        true
    }

    /// A key in normal mode.
    #[verifier::rlimit(60)]
    fn handle_normal_mode(&mut self, key_event: KeyEvent)
        requires
            old(self).wf(),
        ensures
            final(self)@ == old(self)@.normal(key_event),
            final(self).wf(),
    {
        if let Some(pending) = self.pending_command {
            self.pending_command = None;
            self.handle_pending_command(pending, key_event);
            return;
        }
        let buffer = buffer_at(&mut self.buffers, self.current_buffer);
        proof {
            lemma_next_line(buffer@.text, buffer.cursor.row as int);
            lemma_next_line(buffer@.text, 0);
        }
        match key_event.code {
            KeyCode::Char('i') => self.mode = EditorMode::Insert,
            KeyCode::Char('I') => {
                buffer.cursor.move_line_start();
                self.mode = EditorMode::Insert;
            },
            KeyCode::Char('a') => {
                buffer.cursor.move_right(&buffer.content);
                self.mode = EditorMode::Insert;
            },
            KeyCode::Char('A') => {
                buffer.cursor.move_line_end(&buffer.content);
                self.mode = EditorMode::Insert;
            },
            KeyCode::Char('o') => {
                buffer.cursor.move_line_end(&buffer.content);
                buffer.insert_newline();
                self.mode = EditorMode::Insert;
            },
            KeyCode::Char('O') => {
                buffer.cursor.move_line_start();
                buffer.insert_newline();
                buffer.cursor.move_up(&buffer.content);
                self.mode = EditorMode::Insert;
            },
            KeyCode::Char('v') => {
                self.mode = EditorMode::Visual;
                self.visual_start = Some((buffer.cursor.row, buffer.cursor.col));
            },
            KeyCode::Char(':') => {
                self.mode = EditorMode::Command;
                self.command_line = String::new();
                self.command_line.push(':');
            },
            KeyCode::Char('/') => {
                self.mode = EditorMode::Command;
                self.command_line = String::new();
                self.command_line.push('/');
            },
            KeyCode::Char('?') => {
                self.mode = EditorMode::Command;
                self.command_line = String::new();
                self.command_line.push('?');
            },
            KeyCode::Char('^') => buffer.cursor.move_line_first_non_whitespace(&buffer.content),
            KeyCode::Char('G') => buffer.cursor.move_to_end(&buffer.content),
            KeyCode::Char('g') => buffer.cursor.move_to_start(),
            KeyCode::Char('x') => buffer.delete_char(),
            KeyCode::Delete => buffer.delete_char(),
            KeyCode::Char('X') => buffer.backspace(),
            KeyCode::Char('D') => buffer.delete_to_line_end(),
            KeyCode::Char('d') => self.pending_command = Some('d'),
            KeyCode::Char('y') => self.pending_command = Some('y'),
            KeyCode::Char('Y') => self.clipboard = Some(buffer.get_text_to_line_end()),
            KeyCode::Char('p') => {
                if let Some(text) = &self.clipboard {
                    buffer.paste_after(text.as_str());
                }
            },
            KeyCode::Char('P') => {
                if let Some(text) = &self.clipboard {
                    buffer.paste_before(text.as_str());
                }
            },
            KeyCode::Char('u') => buffer.undo(),
            KeyCode::Char('r') => {
                if key_event.control {
                    buffer.redo();
                }
            },
            KeyCode::Char('n') => {
                if let Some(pattern) = &self.search_pattern {
                    buffer.find_next(pattern.as_str());
                }
            },
            KeyCode::Char('N') => {
                if let Some(pattern) = &self.search_pattern {
                    buffer.find_previous(pattern.as_str());
                }
            },
            code => {
                self.handle_motion(code);
            },
        }
    }

    /// A key in insert mode: text is put in at the cursor, and the keys that
    /// move the cursor do so without leaving the mode.
    fn handle_insert_mode(&mut self, key_event: KeyEvent)
        requires
            old(self).wf(),
        ensures
            final(self)@ == old(self)@.insert(key_event),
            final(self).wf(),
    {
        let buffer = buffer_at(&mut self.buffers, self.current_buffer);
        proof {
            lemma_next_line(buffer@.text, buffer.cursor.row as int);
        }
        match key_event.code {
            KeyCode::Esc => self.mode = EditorMode::Normal,
            KeyCode::Char(c) => buffer.insert_char(c),
            KeyCode::Enter => buffer.insert_newline(),
            KeyCode::Backspace => buffer.backspace(),
            KeyCode::Delete => buffer.delete_char(),
            KeyCode::Tab => buffer.insert_char('\t'),
            KeyCode::Up => buffer.cursor.move_up(&buffer.content),
            KeyCode::Down => buffer.cursor.move_down(&buffer.content),
            KeyCode::Left => buffer.cursor.move_left(),
            KeyCode::Right => buffer.cursor.move_right(&buffer.content),
            KeyCode::Home => buffer.cursor.move_line_start(),
            KeyCode::End => buffer.cursor.move_line_end(&buffer.content),
            KeyCode::PageUp => buffer.cursor.move_up_by(&buffer.content, PAGE_STEP),
            KeyCode::PageDown => buffer.cursor.move_down_by(&buffer.content, PAGE_STEP),
            KeyCode::Other => {},
        }
    }

    /// A key in visual mode: the cursor moves, or the selection is yanked or
    /// deleted and the mode is left.
    fn handle_visual_mode(&mut self, key_event: KeyEvent)
        requires
            old(self).wf(),
        ensures
            final(self)@ == old(self)@.visual(key_event),
            final(self).wf(),
    {
        match key_event.code {
            KeyCode::Esc => {
                self.mode = EditorMode::Normal;
                self.visual_start = None;
            },
            KeyCode::Char('y') => {
                if let Some(text) = self.get_visual_selection() {
                    self.clipboard = Some(text);
                }
                self.mode = EditorMode::Normal;
                self.visual_start = None;
            },
            KeyCode::Char('x') | KeyCode::Delete => {
                if let Some(text) = self.get_visual_selection() {
                    self.clipboard = Some(text);
                    self.delete_visual_selection();
                }
                self.mode = EditorMode::Normal;
                self.visual_start = None;
            },
            code => {
                self.handle_motion(code);
            },
        }
    }

    /// The text between the start of the selection and the cursor, both
    /// included.
    fn get_visual_selection(&self) -> (text: Option<String>)
        requires
            self.wf(),
        ensures
            text_of(text) == self@.selected(),
    {
        match self.visual_start {
            Some(anchor) => self.buffers[self.current_buffer].selected(anchor),
            None => None,
        }
    }

    /// Takes the selection out of the current buffer.
    fn delete_visual_selection(&mut self)
        requires
            old(self).wf(),
        ensures
            final(self)@ == old(self)@.without_selection(),
            final(self).wf(),
    {
        if let Some(anchor) = self.visual_start {
            buffer_at(&mut self.buffers, self.current_buffer).delete_selection(anchor);
        }
    }

    /// A key in command mode: the line is typed, carried out or given up.
    fn handle_command_mode(&mut self, key_event: KeyEvent) -> (effect: Effect)
        requires
            old(self).wf(),
        ensures
            (final(self)@, effect@) == old(self)@.command(key_event),
            final(self).wf(),
    {
        match key_event.code {
            KeyCode::Esc => {
                self.mode = EditorMode::Normal;
                self.command_line = String::new();
                Effect::Nothing
            },
            KeyCode::Enter => {
                let effect = self.execute_command();
                self.mode = EditorMode::Normal;
                self.command_line = String::new();
                effect
            },
            KeyCode::Backspace => {
                if self.command_line.as_str().unicode_len() > 1 {
                    self.command_line.pop();
                } else {
                    self.mode = EditorMode::Normal;
                    self.command_line = String::new();
                }
                Effect::Nothing
            },
            KeyCode::Char(c) => {
                self.command_line.push(c);
                Effect::Nothing
            },
            _ => Effect::Nothing,
        }
    }

    /// Carries out the command line.
    fn execute_command(&mut self) -> (effect: Effect)
        requires
            old(self).wf(),
        ensures
            (final(self)@, effect@) == old(self)@.execute(),
            final(self).wf(),
    {
        let chars = chars_of(self.command_line.as_str());
        if chars.len() == 0 {
            return Effect::Nothing;
        }
        let rest = string_of(&chars, 1, chars.len());
        proof {
            assert(chars@.subrange(1, chars.len() as int) =~= chars@.skip(1));
            assert(chars@.take(1) =~= seq![chars@[0]]);
            assert(seq![':'][0] == ':' && seq!['/'][0] == '/' && seq!['?'][0] == '?');
        }
        if chars[0] == ':' {
            self.execute_colon_command(rest.as_str())
        } else if chars[0] == '/' {
            self.search_forward(rest.as_str());
            Effect::Nothing
        } else if chars[0] == '?' {
            self.search_backward(rest.as_str());
            Effect::Nothing
        } else {
            Effect::Nothing
        }
    }

    /// Carries out a command, as typed behind the colon.
    fn execute_colon_command(&mut self, command: &str) -> (effect: Effect)
        requires
            old(self).wf(),
        ensures
            (final(self)@, effect@) == old(self)@.colon(command@),
            final(self).wf(),
    {
        let chars = chars_of(command);
        proof {
            reveal_strlit("w ");
            reveal_strlit("e ");
            reveal_strlit("s/");
        }
        if chars_are(&chars, "q!") {
            self.running = false;
            Effect::Nothing
        } else if begins_with(&chars, "w ") {
            proof {
                assert(chars@.subrange(2, chars.len() as int) =~= chars@.skip(2));
            }
            Effect::Save {
                path: string_of(&chars, 2, chars.len()),
                text: self.buffers[self.current_buffer].text(),
                rebind: true,
                quit: false,
            }
        } else if begins_with(&chars, "e ") {
            proof {
                assert(chars@.subrange(2, chars.len() as int) =~= chars@.skip(2));
            }
            Effect::Open { path: string_of(&chars, 2, chars.len()) }
        } else if begins_with(&chars, "s/") {
            self.execute_substitute(command);
            Effect::Nothing
        } else {
            let buffer = buffer_at(&mut self.buffers, self.current_buffer);
            let outcome = self.command_handler.execute(command, buffer);
            self.apply(outcome)
        }
    }

    /// Takes in the outcome of a named command.
    fn apply(&mut self, outcome: Outcome) -> (effect: Effect)
        requires
            old(self).wf(),
        ensures
            (final(self)@, effect@) == old(self)@.applied(outcome@),
            final(self).wf(),
    {
        match outcome {
            Outcome::Done(result) => {
                self.report(result);
                Effect::Nothing
            },
            Outcome::Request(effect) => effect,
            Outcome::NextBuffer => {
                assert(self.current_buffer < self.buffers.len());
                if self.current_buffer + 1 < self.buffers.len() {
                    self.current_buffer = self.current_buffer + 1;
                }
                Effect::Nothing
            },
            Outcome::PrevBuffer => {
                if self.current_buffer > 0 {
                    self.current_buffer = self.current_buffer - 1;
                }
                Effect::Nothing
            },
            Outcome::DeleteBuffer => {
                if self.buffers.len() > 1 {
                    self.buffers.remove(self.current_buffer);
                    if self.current_buffer >= self.buffers.len() {
                        self.current_buffer = self.buffers.len() - 1;
                    }
                    proof {
                        assert(views(self.buffers@) =~= views(old(self).buffers@).remove(
                            old(self).current_buffer as int,
                        ));
                    }
                }
                Effect::Nothing
            },
        }
    }

    /// Takes in the result of a command: the editor ends, or shows the
    /// message.
    fn report(&mut self, result: CommandResult)
        ensures
            final(self)@ == old(self)@.reported(result@),
    {
        match result {
            CommandResult::Nothing => {},
            CommandResult::Quit => self.running = false,
            CommandResult::Message(text) => self.message = Some(text),
            CommandResult::Error(text) => self.message = Some(text),
        }
    }

    /// Carries out the command `s/pattern/replacement/flags` on the whole
    /// text of the current buffer.
    fn execute_substitute(&mut self, command: &str)
        requires
            old(self).wf(),
        ensures
            final(self)@ == old(self)@.substitute(command@),
            final(self).wf(),
    {
        let chars = chars_of(command);
        let len = chars.len();
        let pattern_end = if len >= 2 {
            find_slash(&chars, 2)
        } else {
            len
        };
        if pattern_end >= len {
            self.message = Some(String::from_str("Invalid substitute format"));
            return;
        }
        let replacement_end = find_slash(&chars, pattern_end + 1);
        let pattern = string_of(&chars, 2, pattern_end);
        let replacement = string_of(&chars, pattern_end + 1, replacement_end);
        let global = if replacement_end < len {
            let flags_end = find_slash(&chars, replacement_end + 1);
            holds(&chars, replacement_end + 1, flags_end, 'g')
        } else {
            false
        };
        buffer_at(&mut self.buffers, self.current_buffer).substitute(
            pattern.as_str(),
            replacement.as_str(),
            global,
        );
        self.message = Some(String::from_str("Substitution complete"));
    }

    /// Searches forward for `pattern`, and keeps it for `n` and `N`.
    fn search_forward(&mut self, pattern: &str)
        requires
            old(self).wf(),
        ensures
            final(self)@ == old(self)@.search_forward(pattern@),
            final(self).wf(),
    {
        self.search_pattern = Some(String::from_str(pattern));
        buffer_at(&mut self.buffers, self.current_buffer).find_next(pattern);
    }

    /// Searches backward for `pattern`, and keeps it for `n` and `N`.
    fn search_backward(&mut self, pattern: &str)
        requires
            old(self).wf(),
        ensures
            final(self)@ == old(self)@.search_backward(pattern@),
            final(self).wf(),
    {
        self.search_pattern = Some(String::from_str(pattern));
        buffer_at(&mut self.buffers, self.current_buffer).find_previous(pattern);
    }

    /// The key that follows the operator `pending`.
    fn handle_pending_command(&mut self, pending: char, key_event: KeyEvent)
        requires
            old(self).wf(),
        ensures
            final(self)@ == old(self)@.operator(pending, key_event),
            final(self).wf(),
    {
        let buffer = buffer_at(&mut self.buffers, self.current_buffer);
        match (pending, key_event.code) {
            ('d', KeyCode::Char('d')) => buffer.delete_line(),
            ('d', KeyCode::Char('w')) => buffer.delete_word(),
            ('d', KeyCode::Char('$')) => buffer.delete_to_line_end(),
            ('d', KeyCode::Char('0')) => buffer.delete_to_line_start(),
            ('y', KeyCode::Char('y')) => self.clipboard = Some(buffer.get_current_line()),
            ('y', KeyCode::Char('w')) => self.clipboard = Some(buffer.yank_word()),
            ('y', KeyCode::Char('$')) => self.clipboard = Some(buffer.get_text_to_line_end()),
            _ => {},
        }
    }

    /// Takes in how the work of an `Effect::Save` went: `error` tells what
    /// went wrong, if anything did.
    pub fn finish_save(&mut self, path: &str, rebind: bool, quit: bool, error: Option<&str>)
        requires
            old(self).wf(),
        ensures
            final(self)@ == old(self)@.save_finished(path@, rebind, quit, text_of_str(error)),
            final(self).wf(),
    {
        match error {
            Some(text) => self.message = Some(String::from_str(text)),
            None => {
                let buffer = buffer_at(&mut self.buffers, self.current_buffer);
                if rebind {
                    buffer.save_as(path);
                } else {
                    buffer.save();
                }
                if quit {
                    self.running = false;
                } else if rebind {
                    self.message = Some(join("File saved as ", path));
                } else {
                    self.message = Some(String::from_str("File saved"));
                }
            },
        }
    }

    /// Takes in the file that an `Effect::Open` asked for: a buffer is
    /// opened for it and made current.
    pub fn finish_open(&mut self, path: &str, contents: Option<&str>)
        requires
            old(self).wf(),
        ensures
            final(self)@ == old(self)@.open_finished(path@, text_of_str(contents)),
            final(self).wf(),
    {
        self.open_file(path, contents);
        self.message = Some(join("Opened ", path));
    }

    /// Takes in that work on a file went wrong: the error is shown, and the
    /// editor goes on.
    pub fn fail(&mut self, error: &str)
        ensures
            final(self)@ == old(self)@.said(error@),
            old(self).wf() ==> final(self).wf(),
    {
        self.message = Some(String::from_str(error));
    }

    pub fn get_current_buffer(&self) -> (buffer: &Buffer)
        requires
            self.wf(),
        ensures
            buffer@ == self@.buffer(),
            buffer.wf(),
    {
        &self.buffers[self.current_buffer]
    }

    pub fn mode(&self) -> (mode: EditorMode)
        ensures
            mode == self@.mode,
    {
        self.mode
    }

    /// Whether the editor goes on: `false` once a command has ended it.
    pub fn is_running(&self) -> (running: bool)
        ensures
            running == self@.running,
    {
        self.running
    }

    /// The command line as typed so far.
    pub fn command_line(&self) -> (line: &str)
        ensures
            line@ == self@.command_line,
    {
        self.command_line.as_str()
    }

    pub fn message(&self) -> (message: &Option<String>)
        ensures
            text_of(*message) == self@.message,
    {
        &self.message
    }

    /// What was yanked or deleted last.
    pub fn clipboard(&self) -> (clipboard: &Option<String>)
        ensures
            text_of(*clipboard) == self@.clipboard,
    {
        &self.clipboard
    }
}

/// The view of an optional string slice.
pub open spec fn text_of_str(s: Option<&str>) -> Option<Seq<char>> {
    match s {
        Some(s) => Some(s@),
        None => None,
    }
}

} // verus!
