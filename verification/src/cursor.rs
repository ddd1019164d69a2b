//! The cursor: a position in line and column, and the column that vertical
//! moves try to come back to.
//!
//! Each motion has a spec function that says where it leads (`right`, `up`,
//! `word_forward`, ...) and a method that performs it (`move_right`,
//! `move_up`, `move_word_forward`, ...). No motion leaves the text.

use crate::rope::rope_text;
use crate::text::{
    in_text, lemma_line_start_past_end, lemma_newlines_bound, lemma_next_line, line_count,
    line_len, line_start, line_text, offset,
};
use crate::words::{
    after_spaces, backward_target, classify, end_target, forward_target, kinds_of,
    lemma_word_targets, skip_spaces, word_backward, word_end, word_forward, CharKind,
};
use ropey::Rope;
use vstd::math::min;
use vstd::prelude::*;

verus! {

#[derive(Clone, Copy, Debug, PartialEq, Eq, Structural)]
pub struct Cursor {
    pub row: usize,
    pub col: usize,
    /// The column that `up` and `down` aim for. Horizontal moves set it;
    /// vertical moves read it and leave it as it is, also when the line they
    /// reach is too short for it.
    pub desired_col: usize,
}

impl Cursor {
    /// The cursor names a position of the text `s`.
    pub open spec fn in_text(self, s: Seq<char>) -> bool {
        in_text(s, self.row as int, self.col as int)
    }

    /// The offset in `s` of the position the cursor names.
    pub open spec fn offset(self, s: Seq<char>) -> int {
        offset(s, self.row as int, self.col as int)
    }

    /// The cursor at `(row, col)`, aiming for the column it is in.
    pub open spec fn at(row: int, col: int) -> Cursor {
        Cursor { row: row as usize, col: col as usize, desired_col: col as usize }
    }

    /// The cursor in line `row`, in the column it aims for or at the end of
    /// the line where that is nearer.
    pub open spec fn in_row(self, s: Seq<char>, row: int) -> Cursor {
        Cursor {
            row: row as usize,
            col: min(self.desired_col as int, line_len(s, row)) as usize,
            desired_col: self.desired_col,
        }
    }

    pub open spec fn left(self) -> Cursor {
        if self.col > 0 {
            Cursor::at(self.row as int, self.col - 1)
        } else {
            self
        }
    }

    pub open spec fn right(self, s: Seq<char>) -> Cursor {
        if self.col < line_len(s, self.row as int) {
            Cursor::at(self.row as int, self.col + 1)
        } else {
            self
        }
    }

    pub open spec fn up(self, s: Seq<char>) -> Cursor {
        if self.row > 0 {
            self.in_row(s, self.row - 1)
        } else {
            self
        }
    }

    pub open spec fn down(self, s: Seq<char>) -> Cursor {
        if self.row + 1 < line_count(s) {
            self.in_row(s, self.row + 1)
        } else {
            self
        }
    }

    /// `up`, `steps` times.
    pub open spec fn up_by(self, s: Seq<char>, steps: nat) -> Cursor
        decreases steps,
    {
        if steps == 0 {
            self
        } else {
            self.up_by(s, (steps - 1) as nat).up(s)
        }
    }

    /// `down`, `steps` times.
    pub open spec fn down_by(self, s: Seq<char>, steps: nat) -> Cursor
        decreases steps,
    {
        if steps == 0 {
            self
        } else {
            self.down_by(s, (steps - 1) as nat).down(s)
        }
    }

    /// The kinds of the characters of the cursor's line, its line feed
    /// included.
    pub open spec fn line_kinds(self, s: Seq<char>) -> Seq<CharKind> {
        kinds_of(line_text(s, self.row as int))
    }

    /// The cursor in its line at column `col`, or at the end of the line
    /// where `col` lies behind it.
    pub open spec fn in_col(self, s: Seq<char>, col: int) -> Cursor {
        Cursor::at(self.row as int, min(col, line_len(s, self.row as int)))
    }

    pub open spec fn word_forward(self, s: Seq<char>) -> Cursor {
        if self.col < self.line_kinds(s).len() {
            self.in_col(s, forward_target(self.line_kinds(s), self.col as int))
        } else {
            self
        }
    }

    pub open spec fn word_backward(self, s: Seq<char>) -> Cursor {
        if self.col > 0 {
            Cursor::at(self.row as int, backward_target(self.line_kinds(s), self.col as int))
        } else {
            self
        }
    }

    pub open spec fn word_end(self, s: Seq<char>) -> Cursor {
        if self.col < self.line_kinds(s).len() {
            self.in_col(s, end_target(self.line_kinds(s), self.col as int))
        } else {
            self
        }
    }

    pub open spec fn first_non_whitespace(self, s: Seq<char>) -> Cursor {
        self.in_col(s, after_spaces(self.line_kinds(s), 0))
    }

    pub open spec fn line_start(self) -> Cursor {
        Cursor::at(self.row as int, 0)
    }

    pub open spec fn line_end(self, s: Seq<char>) -> Cursor {
        Cursor::at(self.row as int, line_len(s, self.row as int))
    }

    pub open spec fn start() -> Cursor {
        Cursor::at(0, 0)
    }

    pub open spec fn end(s: Seq<char>) -> Cursor {
        Cursor::at(line_count(s) - 1, line_len(s, line_count(s) - 1))
    }

    pub open spec fn line(self, s: Seq<char>, line: int) -> Cursor {
        self.in_row(s, min(line, line_count(s) - 1))
    }

    pub open spec fn clamped(self, s: Seq<char>) -> Cursor {
        let row = min(self.row as int, line_count(s) - 1);
        Cursor::at(row, min(self.col as int, line_len(s, row)))
    }

    /// No motion leads out of the text.
    pub proof fn lemma_motions(self, s: Seq<char>)
        requires
            self.in_text(s),
            s.len() <= usize::MAX,
        ensures
            self.left().in_text(s),
            self.right(s).in_text(s),
            self.up(s).in_text(s),
            self.down(s).in_text(s),
            self.word_forward(s).in_text(s),
            self.word_backward(s).in_text(s),
            self.word_end(s).in_text(s),
            self.first_non_whitespace(s).in_text(s),
            self.line_start().in_text(s),
            self.line_end(s).in_text(s),
            Cursor::start().in_text(s),
            Cursor::end(s).in_text(s),
            self.clamped(s).in_text(s),
            forall|line: int| 0 <= line ==> (#[trigger] self.line(s, line)).in_text(s),
    {
        let row = self.row as int;
        lemma_next_line(s, row);
        lemma_next_line(s, 0);
        lemma_next_line(s, line_count(s) - 1);
        lemma_newlines_bound(s);
        lemma_word_targets(self.line_kinds(s), self.col as int);
        if row > 0 {
            lemma_next_line(s, row - 1);
        }
        if row + 1 < line_count(s) {
            lemma_next_line(s, row + 1);
        }
        assert forall|line: int| 0 <= line implies (#[trigger] self.line(s, line)).in_text(s) by {
            lemma_next_line(s, min(line, line_count(s) - 1));
        }
    }

    /// No number of steps up or down leads out of the text.
    pub proof fn lemma_steps(self, s: Seq<char>, steps: nat)
        requires
            self.in_text(s),
            s.len() <= usize::MAX,
        ensures
            self.up_by(s, steps).in_text(s),
            self.down_by(s, steps).in_text(s),
        decreases steps,
    {
        if steps > 0 {
            self.lemma_steps(s, (steps - 1) as nat);
            self.up_by(s, (steps - 1) as nat).lemma_motions(s);
            self.down_by(s, (steps - 1) as nat).lemma_motions(s);
        }
    }

    pub fn new() -> (cursor: Cursor)
        ensures
            cursor == Cursor::start(),
    {
        Cursor { row: 0, col: 0, desired_col: 0 }
    }

    pub fn move_left(&mut self)
        ensures
            *final(self) == old(self).left(),
    {
        if self.col > 0 {
            self.col = self.col - 1;
            self.desired_col = self.col;
        }
    }

    pub fn move_right(&mut self, content: &Rope)
        ensures
            *final(self) == old(self).right(rope_text(*content)),
            old(self).in_text(rope_text(*content)) ==> final(self).in_text(rope_text(*content)),
    {
        let len = line_length(content, self.row);
        if self.col < len {
            self.col = self.col + 1;
            self.desired_col = self.col;
        }
    }

    /// Moves to the line above, if there is one, and there to the column
    /// aimed for or to the end of the line.
    pub fn move_up(&mut self, content: &Rope)
        ensures
            *final(self) == old(self).up(rope_text(*content)),
            old(self).in_text(rope_text(*content)) ==> final(self).in_text(rope_text(*content)),
    {
        if self.row > 0 {
            self.row = self.row - 1;
            let len = line_length(content, self.row);
            self.col = if self.desired_col < len {
                self.desired_col
            } else {
                len
            };
        }
    }

    /// Moves to the line below, if there is one, and there to the column
    /// aimed for or to the end of the line.
    pub fn move_down(&mut self, content: &Rope)
        ensures
            *final(self) == old(self).down(rope_text(*content)),
            old(self).in_text(rope_text(*content)) ==> final(self).in_text(rope_text(*content)),
    {
        let lines = content.len_lines();
        if self.row < lines - 1 {
            self.row = self.row + 1;
            let len = line_length(content, self.row);
            self.col = if self.desired_col < len {
                self.desired_col
            } else {
                len
            };
        }
    }

    /// Moves up by `steps` lines, or as far as there are lines.
    pub fn move_up_by(&mut self, content: &Rope, steps: usize)
        ensures
            *final(self) == old(self).up_by(rope_text(*content), steps as nat),
            old(self).in_text(rope_text(*content)) ==> final(self).in_text(rope_text(*content)),
    {
        let mut done: usize = 0;
        while done < steps
            invariant
                done <= steps,
                *self == old(self).up_by(rope_text(*content), done as nat),
                old(self).in_text(rope_text(*content)) ==> self.in_text(rope_text(*content)),
            decreases steps - done,
        {
            self.move_up(content);
            done = done + 1;
        }
    }

    /// Moves down by `steps` lines, or as far as there are lines.
    pub fn move_down_by(&mut self, content: &Rope, steps: usize)
        ensures
            *final(self) == old(self).down_by(rope_text(*content), steps as nat),
            old(self).in_text(rope_text(*content)) ==> final(self).in_text(rope_text(*content)),
    {
        let mut done: usize = 0;
        while done < steps
            invariant
                done <= steps,
                *self == old(self).down_by(rope_text(*content), done as nat),
                old(self).in_text(rope_text(*content)) ==> self.in_text(rope_text(*content)),
            decreases steps - done,
        {
            self.move_down(content);
            done = done + 1;
        }
    }

    pub fn move_word_forward(&mut self, content: &Rope)
        requires
            old(self).row < line_count(rope_text(*content)),
        ensures
            *final(self) == old(self).word_forward(rope_text(*content)),
            old(self).in_text(rope_text(*content)) ==> final(self).in_text(rope_text(*content)),
    {
        let kinds = line_kinds(content, self.row);
        if self.col < kinds.len() {
            let target = word_forward(&kinds, self.col);
            self.set_col(content, target);
        }
    }

    pub fn move_word_backward(&mut self, content: &Rope)
        requires
            old(self).row < line_count(rope_text(*content)),
            old(self).col <= line_text(rope_text(*content), old(self).row as int).len(),
        ensures
            *final(self) == old(self).word_backward(rope_text(*content)),
            old(self).in_text(rope_text(*content)) ==> final(self).in_text(rope_text(*content)),
    {
        if self.col > 0 {
            let kinds = line_kinds(content, self.row);
            self.col = word_backward(&kinds, self.col);
            self.desired_col = self.col;
        }
    }

    pub fn move_word_end(&mut self, content: &Rope)
        requires
            old(self).row < line_count(rope_text(*content)),
        ensures
            *final(self) == old(self).word_end(rope_text(*content)),
            old(self).in_text(rope_text(*content)) ==> final(self).in_text(rope_text(*content)),
    {
        let kinds = line_kinds(content, self.row);
        if self.col < kinds.len() {
            let target = word_end(&kinds, self.col);
            self.set_col(content, target);
        }
    }

    pub fn move_line_first_non_whitespace(&mut self, content: &Rope)
        requires
            old(self).row < line_count(rope_text(*content)),
        ensures
            *final(self) == old(self).first_non_whitespace(rope_text(*content)),
            final(self).in_text(rope_text(*content)),
    {
        let kinds = line_kinds(content, self.row);
        let target = skip_spaces(&kinds, 0);
        self.set_col(content, target);
    }

    pub fn move_line_start(&mut self)
        ensures
            *final(self) == old(self).line_start(),
    {
        self.col = 0;
        self.desired_col = 0;
    }

    pub fn move_line_end(&mut self, content: &Rope)
        ensures
            *final(self) == old(self).line_end(rope_text(*content)),
            old(self).in_text(rope_text(*content)) ==> final(self).in_text(rope_text(*content)),
    {
        self.col = line_length(content, self.row);
        self.desired_col = self.col;
    }

    pub fn move_to_start(&mut self)
        ensures
            *final(self) == Cursor::start(),
    {
        self.row = 0;
        self.col = 0;
        self.desired_col = 0;
    }

    pub fn move_to_end(&mut self, content: &Rope)
        ensures
            *final(self) == Cursor::end(rope_text(*content)),
            final(self).in_text(rope_text(*content)),
    {
        self.row = content.len_lines() - 1;
        self.col = line_length(content, self.row);
        self.desired_col = self.col;
    }

    /// Moves to line `line`, or to the last line where the text has fewer,
    /// and there to the column aimed for or to the end of the line.
    pub fn move_to_line(&mut self, content: &Rope, line: usize)
        ensures
            *final(self) == old(self).line(rope_text(*content), line as int),
            final(self).in_text(rope_text(*content)),
    {
        let last = content.len_lines() - 1;
        self.row = if line < last {
            line
        } else {
            last
        };
        let len = line_length(content, self.row);
        self.col = if self.desired_col < len {
            self.desired_col
        } else {
            len
        };
    }

    /// Brings a cursor that may lie outside the text back into it.
    pub fn clamp_to_buffer(&mut self, content: &Rope)
        ensures
            *final(self) == old(self).clamped(rope_text(*content)),
            final(self).in_text(rope_text(*content)),
    {
        let last = content.len_lines() - 1;
        if self.row > last {
            self.row = last;
        }
        let len = line_length(content, self.row);
        if self.col > len {
            self.col = len;
        }
        self.desired_col = self.col;
    }

    /// Sets the column to `col`, or to the end of the line where `col` lies
    /// behind it.
    fn set_col(&mut self, content: &Rope, col: usize)
        ensures
            *final(self) == old(self).in_col(rope_text(*content), col as int),
            old(self).row < line_count(rope_text(*content)) ==> final(self).in_text(
                rope_text(*content),
            ),
    {
        let len = line_length(content, self.row);
        self.col = if col < len {
            col
        } else {
            len
        };
        self.desired_col = self.col;
    }
}

/// The number of characters of line `line`, its line feed not counted; 0
/// for a line that the text does not have.
pub fn line_length(content: &Rope, line: usize) -> (len: usize)
    ensures
        len == line_len(rope_text(*content), line as int),
        line < line_count(rope_text(*content)) ==> line_start(rope_text(*content), line as int)
            + len <= rope_text(*content).len(),
{
    let lines = content.len_lines();
    if line < lines {
        proof {
            lemma_next_line(rope_text(*content), line as int);
        }
        let start = content.line_to_char(line);
        let next = content.line_to_char(line + 1);
        if line + 1 < lines {
            next - start - 1
        } else {
            next - start
        }
    } else {
        proof {
            lemma_line_start_past_end(rope_text(*content), line as int);
        }
        0
    }
}

/// The kinds of the characters of line `row`, its line feed included.
pub fn line_kinds(content: &Rope, row: usize) -> (kinds: Vec<CharKind>)
    requires
        row < line_count(rope_text(*content)),
    ensures
        kinds@ == kinds_of(line_text(rope_text(*content), row as int)),
{
    let ghost s = rope_text(*content);
    proof {
        lemma_next_line(s, row as int);
    }
    let start = content.line_to_char(row);
    let next = if row < content.len_lines() - 1 {
        content.line_to_char(row + 1)
    } else {
        content.len_chars()
    };
    let mut kinds: Vec<CharKind> = Vec::new();
    let mut at: usize = start;
    while at < next
        invariant
            s == rope_text(*content),
            start <= at <= next <= s.len(),
            kinds@ == kinds_of(s.subrange(start as int, at as int)),
        decreases next - at,
    {
        let kind = classify(content.char(at));
        kinds.push(kind);
        proof {
            assert(s.subrange(start as int, at + 1) =~= s.subrange(start as int, at as int).push(
                s[at as int],
            ));
            assert(kinds@ =~= kinds_of(s.subrange(start as int, at + 1)));
        }
        at = at + 1;
    }
    kinds
}

} // verus!
