//! The mathematical model of a text: a sequence of characters in which the
//! line feed U+000A, and nothing else, ends a line.
//!
//! A position in a text can be named in two ways: by its offset, the number
//! of characters before it, or by the line it lies in and its column in that
//! line. The lemmas of this module relate the two.

use vstd::prelude::*;

verus! {

/// The number of line feeds in `s`.
pub open spec fn newlines(s: Seq<char>) -> nat
    decreases s.len(),
{
    if s.len() == 0 {
        0
    } else {
        newlines(s.drop_last()) + if s.last() == '\n' { 1nat } else { 0nat }
    }
}

/// The number of characters of `s` that follow its last line feed (all of
/// them, if it has none).
pub open spec fn tail_len(s: Seq<char>) -> nat
    decreases s.len(),
{
    if s.len() == 0 || s.last() == '\n' {
        0
    } else {
        tail_len(s.drop_last()) + 1
    }
}

/// The number of lines of `s`. A text that ends in a line feed has an empty
/// last line; the empty text has one line.
pub open spec fn line_count(s: Seq<char>) -> nat {
    newlines(s) + 1
}

/// The index of the first line feed at or after `from`, or `s.len()` where
/// there is none.
pub open spec fn line_end_from(s: Seq<char>, from: int) -> int
    decreases s.len() - from,
{
    if from >= s.len() {
        s.len() as int
    } else if from >= 0 && s[from] == '\n' {
        from
    } else {
        line_end_from(s, from + 1)
    }
}

/// The offset of the first character of line `line`: 0 for the first line,
/// the offset just behind the line feed that ends the line before for any
/// other, and `s.len()` for a line that the text does not have.
pub open spec fn line_start(s: Seq<char>, line: int) -> int
    decreases line,
{
    if line <= 0 {
        0
    } else {
        let end = line_end_from(s, line_start(s, line - 1));
        if end < s.len() {
            end + 1
        } else {
            s.len() as int
        }
    }
}

/// The offset at which line `line` ends: that of its line feed, or `s.len()`
/// for the last line.
pub open spec fn line_end(s: Seq<char>, line: int) -> int {
    line_end_from(s, line_start(s, line))
}

/// The number of characters of line `line`, its line feed not counted.
pub open spec fn line_len(s: Seq<char>, line: int) -> int {
    line_end(s, line) - line_start(s, line)
}

/// Line `line` with the line feed that ends it, if it has one.
pub open spec fn line_text(s: Seq<char>, line: int) -> Seq<char> {
    s.subrange(line_start(s, line), line_start(s, line + 1))
}

/// `(row, col)` names a position of `s`: the line exists and the column is
/// at most the line's length.
pub open spec fn in_text(s: Seq<char>, row: int, col: int) -> bool {
    0 <= row < line_count(s) && 0 <= col <= line_len(s, row)
}

/// The offset of the position `(row, col)`.
pub open spec fn offset(s: Seq<char>, row: int, col: int) -> int {
    line_start(s, row) + col
}

/// The line in which the position at offset `pos` lies.
pub open spec fn row_at(s: Seq<char>, pos: int) -> int {
    newlines(s.take(pos)) as int
}

/// The column of the position at offset `pos`.
pub open spec fn col_at(s: Seq<char>, pos: int) -> int {
    tail_len(s.take(pos)) as int
}

/// `s` without the characters at the offsets in `[from, to)`.
pub open spec fn cut(s: Seq<char>, from: int, to: int) -> Seq<char> {
    s.take(from) + s.skip(to)
}

/// `s` with the characters of `part` put in at offset `at`.
pub open spec fn splice(s: Seq<char>, at: int, part: Seq<char>) -> Seq<char> {
    s.take(at) + part + s.skip(at)
}

/// No character of `s` in `[from, to)` is a line feed.
pub open spec fn no_newline_in(s: Seq<char>, from: int, to: int) -> bool {
    forall|i: int| from <= i < to ==> #[trigger] s[i] != '\n'
}

pub proof fn lemma_newlines_concat(a: Seq<char>, b: Seq<char>)
    ensures
        newlines(a + b) == newlines(a) + newlines(b),
    decreases b.len(),
{
    if b.len() == 0 {
        assert(a + b =~= a);
    } else {
        assert((a + b).drop_last() =~= a + b.drop_last());
        assert((a + b).last() == b.last());
        lemma_newlines_concat(a, b.drop_last());
    }
}

pub proof fn lemma_tail_len_concat(a: Seq<char>, b: Seq<char>)
    ensures
        tail_len(a + b) == if newlines(b) == 0 {
            tail_len(a) + b.len()
        } else {
            tail_len(b)
        },
    decreases b.len(),
{
    if b.len() == 0 {
        assert(a + b =~= a);
    } else {
        assert((a + b).drop_last() =~= a + b.drop_last());
        assert((a + b).last() == b.last());
        lemma_tail_len_concat(a, b.drop_last());
    }
}

/// A text without line feeds counts none, and all of it is tail.
pub proof fn lemma_no_newline(s: Seq<char>)
    requires
        no_newline_in(s, 0, s.len() as int),
    ensures
        newlines(s) == 0,
        tail_len(s) == s.len(),
    decreases s.len(),
{
    if s.len() > 0 {
        assert(s.last() == s[s.len() - 1]);
        assert forall|i: int| 0 <= i < s.drop_last().len() implies #[trigger] s.drop_last()[i]
            != '\n' by {
            assert(s.drop_last()[i] == s[i]);
        }
        lemma_no_newline(s.drop_last());
    }
}

/// A text has no more line feeds than characters.
pub proof fn lemma_newlines_bound(s: Seq<char>)
    ensures
        newlines(s) <= s.len(),
    decreases s.len(),
{
    if s.len() > 0 {
        lemma_newlines_bound(s.drop_last());
    }
}

/// The line feeds of a text are those before `pos` and those from `pos` on.
pub proof fn lemma_newlines_split(s: Seq<char>, pos: int)
    requires
        0 <= pos <= s.len(),
    ensures
        newlines(s) == newlines(s.take(pos)) + newlines(s.skip(pos)),
{
    assert(s =~= s.take(pos) + s.skip(pos));
    lemma_newlines_concat(s.take(pos), s.skip(pos));
}

/// Between two offsets the count of line feeds grows by those in between.
pub proof fn lemma_newlines_between(s: Seq<char>, a: int, b: int)
    requires
        0 <= a <= b <= s.len(),
    ensures
        newlines(s.take(b)) == newlines(s.take(a)) + newlines(s.subrange(a, b)),
        newlines(s.subrange(a, b)) == 0 ==> tail_len(s.take(b)) == tail_len(s.take(a)) + (b - a),
        newlines(s.subrange(a, b)) != 0 ==> tail_len(s.take(b)) == tail_len(s.subrange(a, b)),
{
    assert(s.take(b) =~= s.take(a) + s.subrange(a, b));
    lemma_newlines_concat(s.take(a), s.subrange(a, b));
    lemma_tail_len_concat(s.take(a), s.subrange(a, b));
}

/// Over a stretch without line feeds the line stays and the column grows.
pub proof fn lemma_same_line(s: Seq<char>, a: int, b: int)
    requires
        0 <= a <= b <= s.len(),
        no_newline_in(s, a, b),
    ensures
        row_at(s, b) == row_at(s, a),
        col_at(s, b) == col_at(s, a) + (b - a),
{
    let mid = s.subrange(a, b);
    assert forall|i: int| 0 <= i < mid.len() implies #[trigger] mid[i] != '\n' by {
        assert(mid[i] == s[a + i]);
    }
    lemma_no_newline(mid);
    lemma_newlines_between(s, a, b);
}

/// A line feed at `pos` ends the line: the next offset is column 0 of the
/// line after.
pub proof fn lemma_step(s: Seq<char>, pos: int)
    requires
        0 <= pos < s.len(),
    ensures
        s[pos] == '\n' ==> row_at(s, pos + 1) == row_at(s, pos) + 1 && col_at(s, pos + 1) == 0,
        s[pos] != '\n' ==> row_at(s, pos + 1) == row_at(s, pos) && col_at(s, pos + 1) == col_at(
            s,
            pos,
        ) + 1,
{
    assert(s.take(pos + 1).drop_last() =~= s.take(pos));
    assert(s.take(pos + 1).last() == s[pos]);
}

pub proof fn lemma_row_at_monotonic(s: Seq<char>, a: int, b: int)
    requires
        0 <= a <= b <= s.len(),
    ensures
        row_at(s, a) <= row_at(s, b),
        row_at(s, b) <= newlines(s),
{
    lemma_newlines_between(s, a, b);
    lemma_newlines_split(s, b);
}

/// The tail of a text holds no line feed and begins the text or follows one.
pub proof fn lemma_tail(s: Seq<char>)
    ensures
        tail_len(s) <= s.len(),
        no_newline_in(s, s.len() - tail_len(s), s.len() as int),
        s.len() - tail_len(s) == 0 || s[s.len() - tail_len(s) - 1] == '\n',
    decreases s.len(),
{
    if s.len() == 0 || s.last() == '\n' {
    } else {
        let t = s.drop_last();
        lemma_tail(t);
        assert forall|i: int| s.len() - tail_len(s) <= i < s.len() implies #[trigger] s[i]
            != '\n' by {
            if i < s.len() - 1 {
                assert(t[i] == s[i]);
            }
        }
        if s.len() - tail_len(s) != 0 {
            assert(t[t.len() - tail_len(t) - 1] == s[s.len() - tail_len(s) - 1]);
        }
    }
}

pub proof fn lemma_line_end_from(s: Seq<char>, from: int)
    requires
        0 <= from <= s.len(),
    ensures
        from <= line_end_from(s, from) <= s.len(),
        no_newline_in(s, from, line_end_from(s, from)),
        line_end_from(s, from) < s.len() ==> s[line_end_from(s, from)] == '\n',
    decreases s.len() - from,
{
    if from < s.len() && s[from] != '\n' {
        lemma_line_end_from(s, from + 1);
    }
}

/// The end of a line is the first line feed at or after its start.
pub proof fn lemma_line_end_unique(s: Seq<char>, from: int, end: int)
    requires
        0 <= from <= end <= s.len(),
        no_newline_in(s, from, end),
        end == s.len() || s[end] == '\n',
    ensures
        line_end_from(s, from) == end,
    decreases end - from,
{
    if from < end {
        assert(s[from] != '\n');
        lemma_line_end_unique(s, from + 1, end);
    }
}

/// Where a line of the text starts: at an offset that begins the text or
/// follows a line feed, with as many line feeds before it as the line's
/// number says.
pub proof fn lemma_line_start(s: Seq<char>, line: int)
    requires
        0 <= line < line_count(s),
    ensures
        0 <= line_start(s, line) <= s.len(),
        row_at(s, line_start(s, line)) == line,
        col_at(s, line_start(s, line)) == 0,
        line_start(s, line) == 0 || s[line_start(s, line) - 1] == '\n',
    decreases line,
{
    if line == 0 {
        assert(s.take(0) =~= Seq::<char>::empty());
    } else {
        lemma_line_start(s, line - 1);
        let start = line_start(s, line - 1);
        let end = line_end_from(s, start);
        lemma_line_end_from(s, start);
        lemma_same_line(s, start, end);
        if end == s.len() {
            assert(s.take(end) =~= s);
            assert(false);
        }
        lemma_step(s, end);
    }
}

/// A line that the text does not have starts, and ends, at the text's end.
pub proof fn lemma_line_start_past_end(s: Seq<char>, line: int)
    requires
        line >= line_count(s),
    ensures
        line_start(s, line) == s.len(),
        line_len(s, line) == 0,
    decreases line,
{
    if line == line_count(s) {
        lemma_line_start(s, line - 1);
        let start = line_start(s, line - 1);
        let end = line_end_from(s, start);
        lemma_line_end_from(s, start);
        lemma_same_line(s, start, end);
        if end < s.len() {
            lemma_step(s, end);
            lemma_row_at_monotonic(s, end + 1, s.len() as int);
            assert(false);
        }
    } else {
        lemma_line_start_past_end(s, line - 1);
    }
}

/// Only one offset starts a given line.
pub proof fn lemma_line_start_unique(s: Seq<char>, line: int, start: int)
    requires
        0 <= start <= s.len(),
        row_at(s, start) == line,
        start == 0 || s[start - 1] == '\n',
    ensures
        line < line_count(s),
        line_start(s, line) == start,
{
    lemma_row_at_monotonic(s, start, s.len() as int);
    lemma_line_start(s, line);
    let other = line_start(s, line);
    if start < other {
        lemma_row_at_monotonic(s, start, other - 1);
        lemma_step(s, other - 1);
    } else if other < start {
        lemma_row_at_monotonic(s, other, start - 1);
        lemma_step(s, start - 1);
    }
}

/// How one line follows another: behind the line feed that ends the first,
/// or, for the last line, nothing follows.
pub proof fn lemma_next_line(s: Seq<char>, line: int)
    requires
        0 <= line < line_count(s),
    ensures
        0 <= line_start(s, line) <= line_end(s, line) <= s.len(),
        no_newline_in(s, line_start(s, line), line_end(s, line)),
        line + 1 < line_count(s) ==> line_end(s, line) < s.len() && s[line_end(s, line)] == '\n'
            && line_start(s, line + 1) == line_end(s, line) + 1,
        line + 1 == line_count(s) ==> line_end(s, line) == s.len() && line_start(s, line + 1)
            == s.len(),
{
    lemma_line_start(s, line);
    lemma_line_end_from(s, line_start(s, line));
    if line + 1 < line_count(s) {
        lemma_line_start(s, line + 1);
        lemma_same_line(s, line_start(s, line), line_end(s, line));
        if line_end(s, line) == s.len() {
            assert(s.take(s.len() as int) =~= s);
        }
    } else {
        lemma_line_start_past_end(s, line + 1);
        if line_end(s, line) < s.len() {
            lemma_same_line(s, line_start(s, line), line_end(s, line));
            lemma_step(s, line_end(s, line));
            lemma_row_at_monotonic(s, line_end(s, line) + 1, s.len() as int);
        }
    }
}

/// From line and column to the offset.
pub proof fn lemma_position(s: Seq<char>, row: int, col: int)
    requires
        in_text(s, row, col),
    ensures
        0 <= line_start(s, row) <= offset(s, row, col) <= line_end(s, row) <= s.len(),
        row_at(s, offset(s, row, col)) == row,
        col_at(s, offset(s, row, col)) == col,
        no_newline_in(s, line_start(s, row), offset(s, row, col)),
{
    lemma_next_line(s, row);
    lemma_line_start(s, row);
    lemma_same_line(s, line_start(s, row), offset(s, row, col));
}

/// From the offset to line and column.
pub proof fn lemma_offset(s: Seq<char>, pos: int)
    requires
        0 <= pos <= s.len(),
    ensures
        in_text(s, row_at(s, pos), col_at(s, pos)),
        offset(s, row_at(s, pos), col_at(s, pos)) == pos,
{
    let prefix = s.take(pos);
    let start = pos - col_at(s, pos);
    lemma_tail(prefix);
    assert(no_newline_in(s, start, pos)) by {
        assert forall|i: int| start <= i < pos implies #[trigger] s[i] != '\n' by {
            assert(prefix[i] == s[i]);
        }
    }
    if start != 0 {
        assert(prefix[start - 1] == s[start - 1]);
    }
    lemma_same_line(s, start, pos);
    lemma_line_start_unique(s, row_at(s, pos), start);
    lemma_line_end_from(s, start);
    let end = line_end_from(s, start);
    if end < pos {
        assert(s[end] != '\n');
    }
}

/// A position stays what it is where an edit leaves the text before it
/// alone.
pub proof fn lemma_prefix_kept(s: Seq<char>, edited: Seq<char>, row: int, col: int)
    requires
        in_text(s, row, col),
        offset(s, row, col) <= edited.len(),
        edited.take(offset(s, row, col)) == s.take(offset(s, row, col)),
    ensures
        in_text(edited, row, col),
        offset(edited, row, col) == offset(s, row, col),
{
    lemma_position(s, row, col);
    lemma_offset(edited, offset(s, row, col));
}

} // verus!
