use vimrust::buffer::Buffer;
use vimrust::cursor::Cursor;
use vimrust::model::HISTORY_LIMIT;

fn buffer_with(text: &str) -> Buffer {
    Buffer::from_file("test.txt", Some(text))
}

fn buffer_at(text: &str, row: usize, col: usize) -> Buffer {
    let mut buffer = buffer_with(text);
    buffer.cursor = Cursor { row, col, desired_col: col };
    assert!(buffer.is_well_formed());
    buffer
}

fn position(buffer: &Buffer) -> (usize, usize) {
    (buffer.cursor.row, buffer.cursor.col)
}

#[test]
fn a_new_buffer_is_empty_and_unmodified() {
    let buffer = Buffer::new();
    assert_eq!(buffer.text(), "");
    assert_eq!(buffer.line_count(), 1);
    assert_eq!(buffer.cursor, Cursor::new());
    assert_eq!(buffer.file_path, None);
    assert!(!buffer.modified);
    assert!(buffer.undo_stack.is_empty());
    assert!(buffer.redo_stack.is_empty());
    assert!(buffer.line_numbers);
    assert!(buffer.syntax_highlighting);
    assert!(buffer.is_well_formed());
}

#[test]
fn a_buffer_from_a_file_holds_its_contents() {
    let buffer = buffer_with("one\ntwo");
    assert_eq!(buffer.text(), "one\ntwo");
    assert_eq!(buffer.file_path.as_deref(), Some("test.txt"));
    assert!(!buffer.modified);
    assert_eq!(buffer.line_count(), 2);
    assert!(buffer.is_well_formed());
}

#[test]
fn a_buffer_for_a_file_that_does_not_exist_is_empty_and_bound() {
    let buffer = Buffer::from_file("new.txt", None);
    assert_eq!(buffer.text(), "");
    assert_eq!(buffer.file_path.as_deref(), Some("new.txt"));
    assert!(!buffer.modified);
}

#[test]
fn only_the_line_feed_ends_a_line_of_a_buffer() {
    let buffer = buffer_with("a\rb\u{2028}c\u{85}d");
    assert_eq!(buffer.line_count(), 1);
    assert_eq!(buffer.get_line_length(0), 7);
}

#[test]
fn insert_char_puts_the_character_at_the_cursor() {
    let mut buffer = buffer_at("ac\nd", 0, 1);
    buffer.insert_char('b');
    assert_eq!(buffer.text(), "abc\nd");
    assert_eq!(buffer.cursor, Cursor { row: 0, col: 2, desired_col: 1 });
    assert!(buffer.modified);
    assert_eq!(buffer.undo_stack.len(), 1);
    assert!(buffer.is_well_formed());
}

#[test]
fn insert_char_on_a_later_line() {
    let mut buffer = buffer_at("ab\ncd", 1, 2);
    buffer.insert_char('e');
    assert_eq!(buffer.text(), "ab\ncde");
    assert_eq!(position(&buffer), (1, 3));
}

#[test]
fn insert_char_with_a_line_feed_starts_a_line() {
    let mut buffer = buffer_at("abcd", 0, 2);
    buffer.insert_char('\n');
    assert_eq!(buffer.text(), "ab\ncd");
    assert_eq!(position(&buffer), (1, 0));
    assert!(buffer.is_well_formed());
}

#[test]
fn insert_newline_splits_the_line() {
    let mut buffer = buffer_at("abcd\nef", 0, 1);
    buffer.insert_newline();
    assert_eq!(buffer.text(), "a\nbcd\nef");
    assert_eq!(buffer.cursor, Cursor { row: 1, col: 0, desired_col: 1 });
    assert_eq!(buffer.line_count(), 3);
    assert!(buffer.modified);
}

#[test]
fn backspace_takes_the_character_before_the_cursor() {
    let mut buffer = buffer_at("abc", 0, 2);
    buffer.backspace();
    assert_eq!(buffer.text(), "ac");
    assert_eq!(position(&buffer), (0, 1));
    assert!(buffer.modified);
    assert_eq!(buffer.undo_stack.len(), 1);
}

#[test]
fn backspace_at_the_start_of_a_line_joins_it_to_the_line_above() {
    let mut buffer = buffer_at("ab\ncd", 1, 0);
    buffer.backspace();
    assert_eq!(buffer.text(), "abcd");
    assert_eq!(position(&buffer), (0, 2));
    assert!(buffer.is_well_formed());
}

#[test]
fn backspace_at_the_start_of_the_text_does_nothing() {
    let mut buffer = buffer_with("abc");
    buffer.backspace();
    assert_eq!(buffer.text(), "abc");
    assert_eq!(position(&buffer), (0, 0));
    assert!(!buffer.modified);
    assert!(buffer.undo_stack.is_empty());
}

#[test]
fn insert_then_backspace_gives_text_and_cursor_back() {
    let mut buffer = buffer_at("one\ntwo", 1, 1);
    let cursor = buffer.cursor;
    buffer.insert_char('x');
    buffer.backspace();
    assert_eq!(buffer.text(), "one\ntwo");
    assert_eq!(buffer.cursor, cursor);
}

#[test]
fn insert_then_backspace_at_the_start_of_the_text() {
    let mut buffer = buffer_with("xyz");
    buffer.insert_char('a');
    assert_eq!(buffer.text(), "axyz");
    assert_eq!(position(&buffer), (0, 1));
    buffer.backspace();
    assert_eq!(buffer.text(), "xyz");
    assert_eq!(buffer.cursor, Cursor::new());
}

#[test]
fn insert_then_backspace_with_a_line_feed() {
    let mut buffer = buffer_at("one\ntwo", 0, 2);
    let cursor = buffer.cursor;
    buffer.insert_char('\n');
    buffer.backspace();
    assert_eq!(buffer.text(), "one\ntwo");
    assert_eq!(buffer.cursor, cursor);
}

#[test]
fn delete_char_takes_the_character_at_the_cursor() {
    let mut buffer = buffer_at("abc", 0, 1);
    buffer.delete_char();
    assert_eq!(buffer.text(), "ac");
    assert_eq!(position(&buffer), (0, 1));
    assert!(buffer.modified);
}

#[test]
fn delete_char_at_the_end_of_a_line_joins_the_next_line() {
    let mut buffer = buffer_at("ab\ncd", 0, 2);
    buffer.delete_char();
    assert_eq!(buffer.text(), "abcd");
    assert_eq!(position(&buffer), (0, 2));
}

#[test]
fn delete_char_at_the_end_of_the_text_does_nothing() {
    let mut buffer = buffer_at("abc", 0, 3);
    buffer.delete_char();
    assert_eq!(buffer.text(), "abc");
    assert!(!buffer.modified);
    assert!(buffer.undo_stack.is_empty());
}

#[test]
fn delete_line_takes_the_line_and_its_line_feed() {
    let mut buffer = buffer_at("one\ntwo\nthree", 0, 2);
    buffer.delete_line();
    assert_eq!(buffer.text(), "two\nthree");
    assert_eq!(position(&buffer), (0, 0));
    assert!(buffer.modified);
}

#[test]
fn delete_line_on_the_last_line_leaves_an_empty_line() {
    let mut buffer = buffer_at("a\nb", 1, 1);
    buffer.delete_line();
    assert_eq!(buffer.text(), "a\n");
    assert_eq!(position(&buffer), (1, 0));
    assert_eq!(buffer.line_count(), 2);
    assert!(buffer.is_well_formed());
}

#[test]
fn delete_line_on_an_empty_buffer_does_nothing() {
    let mut buffer = Buffer::new();
    buffer.delete_line();
    assert_eq!(buffer.text(), "");
    assert!(!buffer.modified);
    assert!(buffer.undo_stack.is_empty());
}

#[test]
fn delete_word_takes_the_word_and_the_space_behind_it() {
    let mut buffer = buffer_with("foo  bar");
    buffer.delete_word();
    assert_eq!(buffer.text(), "bar");
    assert_eq!(position(&buffer), (0, 0));
    assert!(buffer.modified);
}

#[test]
fn delete_word_goes_over_line_feeds() {
    let mut buffer = buffer_at("ab cd\n  ef", 0, 3);
    buffer.delete_word();
    assert_eq!(buffer.text(), "ab ef");
    assert_eq!(position(&buffer), (0, 3));
}

#[test]
fn delete_word_on_punctuation_does_nothing() {
    let mut buffer = buffer_with("-foo");
    buffer.delete_word();
    assert_eq!(buffer.text(), "-foo");
    assert!(!buffer.modified);
    assert!(buffer.undo_stack.is_empty());
}

#[test]
fn delete_to_line_start_takes_what_is_before_the_cursor() {
    let mut buffer = buffer_at("ab\ncdef", 1, 3);
    buffer.delete_to_line_start();
    assert_eq!(buffer.text(), "ab\nf");
    assert_eq!(position(&buffer), (1, 0));
    assert!(buffer.modified);
}

#[test]
fn delete_to_line_start_at_the_start_does_nothing() {
    let mut buffer = buffer_at("ab\ncd", 1, 0);
    buffer.delete_to_line_start();
    assert_eq!(buffer.text(), "ab\ncd");
    assert!(!buffer.modified);
    assert!(buffer.undo_stack.is_empty());
}

#[test]
fn delete_to_line_end_keeps_the_line_feed() {
    let mut buffer = buffer_at("abcd\nef", 0, 1);
    buffer.delete_to_line_end();
    assert_eq!(buffer.text(), "a\nef");
    assert_eq!(position(&buffer), (0, 1));
    assert!(buffer.modified);
}

#[test]
fn delete_to_line_end_on_the_last_line() {
    let mut buffer = buffer_at("ab\ncdef", 1, 2);
    buffer.delete_to_line_end();
    assert_eq!(buffer.text(), "ab\ncd");
}

#[test]
fn delete_to_line_end_at_the_end_does_nothing() {
    let mut buffer = buffer_at("ab\ncd", 0, 2);
    buffer.delete_to_line_end();
    assert_eq!(buffer.text(), "ab\ncd");
    assert!(!buffer.modified);
    assert!(buffer.undo_stack.is_empty());
}

#[test]
fn paste_before_puts_the_text_in_at_the_cursor() {
    let mut buffer = buffer_at("abc", 0, 1);
    buffer.paste_before("XY");
    assert_eq!(buffer.text(), "aXYbc");
    assert_eq!(position(&buffer), (0, 1));
    assert!(buffer.modified);
    assert_eq!(buffer.undo_stack.len(), 1);
}

#[test]
fn paste_after_puts_the_text_in_one_step_to_the_right() {
    let mut buffer = buffer_at("abc", 0, 1);
    buffer.paste_after("XY");
    assert_eq!(buffer.text(), "abXYc");
    assert_eq!(buffer.cursor, Cursor { row: 0, col: 2, desired_col: 1 });
    assert!(buffer.modified);
}

#[test]
fn paste_after_at_the_end_of_a_line_stays_in_the_line() {
    let mut buffer = buffer_at("ab\ncd", 0, 2);
    buffer.paste_after("X");
    assert_eq!(buffer.text(), "abX\ncd");
    assert_eq!(position(&buffer), (0, 2));
    assert!(buffer.is_well_formed());
}

#[test]
fn paste_after_into_an_empty_buffer() {
    let mut buffer = Buffer::new();
    buffer.paste_after("one\ntwo");
    assert_eq!(buffer.text(), "one\ntwo");
    assert_eq!(position(&buffer), (0, 0));
    assert!(buffer.is_well_formed());
}

#[test]
fn pasting_nothing_does_nothing() {
    let mut buffer = buffer_at("abc", 0, 1);
    buffer.paste_after("");
    buffer.paste_before("");
    assert_eq!(buffer.text(), "abc");
    assert_eq!(position(&buffer), (0, 1));
    assert!(!buffer.modified);
    assert!(buffer.undo_stack.is_empty());
}

#[test]
fn undo_and_redo_go_back_and_forth() {
    let mut buffer = Buffer::new();
    buffer.insert_char('a');
    buffer.insert_char('b');
    buffer.undo();
    assert_eq!(buffer.text(), "a");
    assert_eq!(position(&buffer), (0, 1));
    assert_eq!(buffer.redo_stack.len(), 1);
    buffer.redo();
    assert_eq!(buffer.text(), "ab");
    assert_eq!(position(&buffer), (0, 2));
    assert!(buffer.redo_stack.is_empty());
    assert_eq!(buffer.undo_stack.len(), 2);
}

#[test]
fn redo_then_undo_gives_the_state_back() {
    let mut buffer = buffer_with("x");
    buffer.insert_char('a');
    buffer.insert_char('b');
    buffer.undo();
    let text = buffer.text();
    let cursor = buffer.cursor;
    buffer.redo();
    buffer.undo();
    assert_eq!(buffer.text(), text);
    assert_eq!(buffer.cursor, cursor);
    assert_eq!(buffer.undo_stack.len(), 1);
    assert_eq!(buffer.redo_stack.len(), 1);
}

#[test]
fn undo_and_redo_with_nothing_recorded_do_nothing() {
    let mut buffer = buffer_at("abc", 0, 2);
    buffer.undo();
    buffer.redo();
    assert_eq!(buffer.text(), "abc");
    assert_eq!(position(&buffer), (0, 2));
    assert!(buffer.undo_stack.is_empty());
    assert!(buffer.redo_stack.is_empty());
}

#[test]
fn undo_then_redo_gives_the_state_back() {
    let mut buffer = buffer_with("x");
    buffer.insert_char('a');
    buffer.insert_newline();
    buffer.insert_char('b');
    buffer.undo();
    let text = buffer.text();
    let cursor = buffer.cursor;
    buffer.undo();
    buffer.redo();
    assert_eq!(buffer.text(), text);
    assert_eq!(buffer.cursor, cursor);
    assert_eq!(buffer.undo_stack.len(), 2);
    assert_eq!(buffer.redo_stack.len(), 1);
}

#[test]
fn with_nothing_to_undo_a_redo_leads_on() {
    let mut buffer = Buffer::new();
    buffer.insert_char('a');
    buffer.undo();
    assert_eq!(buffer.text(), "");
    buffer.undo();
    buffer.redo();
    assert_eq!(buffer.text(), "a");
    assert_eq!(buffer.cursor, Cursor { row: 0, col: 1, desired_col: 0 });
}

#[test]
fn undo_leaves_the_buffer_modified() {
    let mut buffer = Buffer::new();
    buffer.insert_char('a');
    buffer.undo();
    assert_eq!(buffer.text(), "");
    assert!(buffer.modified);
}

#[test]
fn an_edit_leaves_nothing_to_redo() {
    let mut buffer = Buffer::new();
    buffer.insert_char('a');
    buffer.undo();
    buffer.insert_char('b');
    assert!(buffer.redo_stack.is_empty());
    buffer.redo();
    assert_eq!(buffer.text(), "b");
}

#[test]
fn the_history_forgets_its_oldest_state_when_full() {
    let mut buffer = Buffer::new();
    for _ in 0..HISTORY_LIMIT + 1 {
        buffer.insert_char('a');
    }
    assert_eq!(buffer.undo_stack.len(), 1000);
    assert!(buffer.is_well_formed());
    for _ in 0..HISTORY_LIMIT + 1 {
        buffer.undo();
    }
    assert_eq!(buffer.text(), "a");
    assert_eq!(position(&buffer), (0, 1));
    assert_eq!(buffer.redo_stack.len(), 1000);
    assert!(buffer.is_well_formed());
}

#[test]
fn save_state_records_text_and_cursor() {
    let mut buffer = buffer_at("abc", 0, 2);
    buffer.insert_char('x');
    buffer.undo();
    buffer.save_state();
    assert_eq!(buffer.undo_stack.len(), 1);
    assert!(buffer.redo_stack.is_empty());
    assert_eq!(buffer.undo_stack[0].content.to_string(), "abc");
    assert_eq!(buffer.undo_stack[0].cursor, Cursor { row: 0, col: 2, desired_col: 2 });
}

#[test]
fn save_clears_modified_for_a_bound_buffer() {
    let mut buffer = buffer_with("a");
    buffer.insert_char('b');
    buffer.save();
    assert!(!buffer.modified);
    assert_eq!(buffer.file_path.as_deref(), Some("test.txt"));
}

#[test]
fn save_leaves_an_unbound_buffer_as_it_is() {
    let mut buffer = Buffer::new();
    buffer.insert_char('b');
    buffer.save();
    assert!(buffer.modified);
    assert_eq!(buffer.file_path, None);
}

#[test]
fn save_as_binds_the_buffer() {
    let mut buffer = Buffer::new();
    buffer.insert_char('b');
    buffer.save_as("other.txt");
    assert!(!buffer.modified);
    assert_eq!(buffer.file_path.as_deref(), Some("other.txt"));
}

#[test]
fn lines_come_with_their_line_feed() {
    let buffer = buffer_at("one\ntwo", 1, 0);
    assert_eq!(buffer.get_line(0), Some("one\n".to_string()));
    assert_eq!(buffer.get_line(1), Some("two".to_string()));
    assert_eq!(buffer.get_line(2), None);
    assert_eq!(buffer.get_current_line(), "two");
    assert_eq!(buffer.get_line_length(0), 3);
    assert_eq!(buffer.get_line_length(5), 0);
}

#[test]
fn the_current_line_of_a_cursor_below_the_text_is_empty() {
    let mut buffer = buffer_with("one");
    buffer.cursor = Cursor { row: 4, col: 0, desired_col: 0 };
    assert!(!buffer.is_well_formed());
    assert_eq!(buffer.get_current_line(), "");
}

#[test]
fn the_cursor_offset_counts_the_characters_before_it() {
    assert_eq!(buffer_at("ab\ncd", 0, 0).cursor_to_char_index(), 0);
    assert_eq!(buffer_at("ab\ncd", 0, 2).cursor_to_char_index(), 2);
    assert_eq!(buffer_at("ab\ncd", 1, 1).cursor_to_char_index(), 4);
}

#[test]
fn text_to_line_end_leaves_the_line_feed_out() {
    assert_eq!(buffer_at("abcd\nef", 0, 1).get_text_to_line_end(), "bcd");
    assert_eq!(buffer_at("abcd\nef", 0, 4).get_text_to_line_end(), "");
    assert_eq!(buffer_at("abcd\nef", 1, 0).get_text_to_line_end(), "ef");
}

#[test]
fn yank_word_takes_the_word_from_the_cursor_on() {
    assert_eq!(buffer_at("hello world", 0, 0).yank_word(), "hello");
    assert_eq!(buffer_at("hello world", 0, 2).yank_word(), "llo");
    assert_eq!(buffer_at("hello world", 0, 5).yank_word(), "");
    assert_eq!(buffer_at("hello world", 0, 11).yank_word(), "");
}

#[test]
fn find_next_goes_to_the_next_occurrence_and_does_not_start_over() {
    let mut buffer = buffer_with("foo bar foo");
    buffer.find_next("foo");
    assert_eq!(buffer.cursor, Cursor { row: 0, col: 8, desired_col: 8 });
    buffer.find_next("foo");
    assert_eq!(position(&buffer), (0, 8));
    assert!(!buffer.modified);
}

#[test]
fn find_next_finds_later_lines() {
    let mut buffer = buffer_with("ab\ncd\nef");
    buffer.find_next("ef");
    assert_eq!(buffer.cursor, Cursor { row: 2, col: 0, desired_col: 0 });
    let mut buffer = buffer_with("ab\ncd");
    buffer.find_next("b\nc");
    assert_eq!(position(&buffer), (0, 1));
}

#[test]
fn find_next_without_an_occurrence_leaves_the_cursor() {
    let mut buffer = buffer_at("abc", 0, 1);
    buffer.find_next("zz");
    assert_eq!(buffer.cursor, Cursor { row: 0, col: 1, desired_col: 1 });
    let mut buffer = Buffer::new();
    buffer.find_next("a");
    assert_eq!(position(&buffer), (0, 0));
    let mut buffer = buffer_at("abc", 0, 3);
    buffer.find_next("c");
    assert_eq!(position(&buffer), (0, 3));
}

#[test]
fn find_previous_goes_to_the_last_occurrence_before_the_cursor() {
    let mut buffer = buffer_at("foo bar foo", 0, 8);
    buffer.find_previous("foo");
    assert_eq!(buffer.cursor, Cursor { row: 0, col: 0, desired_col: 0 });
    buffer.find_previous("foo");
    assert_eq!(position(&buffer), (0, 0));
}

#[test]
fn find_previous_takes_an_occurrence_that_ends_at_the_cursor() {
    let mut buffer = buffer_at("ab\nab cd", 1, 2);
    buffer.find_previous("ab");
    assert_eq!(position(&buffer), (1, 0));
    buffer.find_previous("ab");
    assert_eq!(position(&buffer), (0, 0));
}

#[test]
fn find_previous_leaves_out_an_occurrence_that_runs_past_the_cursor() {
    let mut buffer = buffer_at("abab", 0, 3);
    buffer.find_previous("ab");
    assert_eq!(position(&buffer), (0, 0));
}

#[test]
fn the_selection_takes_both_ends() {
    let buffer = buffer_at("hello\nworld", 0, 2);
    assert_eq!(buffer.selected((0, 0)), Some("hel".to_string()));
    assert_eq!(buffer.selected((0, 4)), Some("llo".to_string()));
    assert_eq!(buffer.selected((0, 2)), Some("l".to_string()));
    assert_eq!(buffer.selected((1, 1)), Some("llo\nwo".to_string()));
}

#[test]
fn there_is_no_selection_at_the_end_of_the_text() {
    let buffer = buffer_at("hi", 0, 2);
    assert_eq!(buffer.selected((0, 0)), None);
    assert_eq!(Buffer::new().selected((0, 0)), None);
}

#[test]
fn there_is_no_selection_for_an_anchor_outside_the_text() {
    let buffer = buffer_at("hi", 0, 0);
    assert_eq!(buffer.selected((3, 0)), None);
    assert_eq!(buffer.selected((0, 9)), None);
}

#[test]
fn delete_selection_puts_the_cursor_at_its_start() {
    let mut buffer = buffer_at("hello\nworld", 1, 1);
    buffer.delete_selection((0, 3));
    assert_eq!(buffer.text(), "helrld");
    assert_eq!(position(&buffer), (0, 3));
    assert!(buffer.modified);
    assert_eq!(buffer.undo_stack.len(), 1);
    let mut buffer = buffer_at("hello", 0, 1);
    buffer.delete_selection((0, 3));
    assert_eq!(buffer.text(), "ho");
    assert_eq!(position(&buffer), (0, 1));
}

#[test]
fn substitute_replaces_and_brings_the_cursor_back() {
    let mut buffer = buffer_at("foo foo", 0, 7);
    buffer.substitute("foo", "x", true);
    assert_eq!(buffer.text(), "x x");
    assert_eq!(buffer.cursor, Cursor { row: 0, col: 3, desired_col: 3 });
    assert!(buffer.modified);
    assert!(buffer.undo_stack.is_empty());
    assert!(buffer.is_well_formed());
}

#[test]
fn substitute_leaves_out_overlapping_occurrences() {
    let mut buffer = buffer_with("aaaa");
    buffer.substitute("aa", "b", true);
    assert_eq!(buffer.text(), "bb");
    let mut buffer = buffer_with("aaa");
    buffer.substitute("aa", "b", true);
    assert_eq!(buffer.text(), "ba");
}

#[test]
fn substitute_with_a_longer_replacement() {
    let mut buffer = buffer_with("a-a\na");
    buffer.substitute("a", "aa", true);
    assert_eq!(buffer.text(), "aa-aa\naa");
    let mut buffer = buffer_with("a-a\na");
    buffer.substitute("a", "aa", false);
    assert_eq!(buffer.text(), "aa-a\na");
}

#[test]
fn substitute_with_the_empty_pattern() {
    let mut buffer = buffer_with("ab");
    buffer.substitute("", "-", true);
    assert_eq!(buffer.text(), "-a-b-");
    let mut buffer = buffer_with("ab");
    buffer.substitute("", "-", false);
    assert_eq!(buffer.text(), "-ab");
    let mut buffer = Buffer::new();
    buffer.substitute("", "x", true);
    assert_eq!(buffer.text(), "x");
}

#[test]
fn substitute_without_an_occurrence_keeps_the_text() {
    let mut buffer = buffer_with("abc");
    buffer.substitute("zz", "y", true);
    assert_eq!(buffer.text(), "abc");
    assert!(buffer.modified);
    buffer.substitute("abcd", "y", false);
    assert_eq!(buffer.text(), "abc");
}

#[test]
fn a_cursor_outside_the_text_is_not_well_formed() {
    let mut buffer = buffer_with("ab\nc");
    buffer.cursor = Cursor { row: 0, col: 3, desired_col: 0 };
    assert!(!buffer.is_well_formed());
    buffer.cursor = Cursor { row: 2, col: 0, desired_col: 0 };
    assert!(!buffer.is_well_formed());
    buffer.cursor = Cursor { row: 1, col: 1, desired_col: 0 };
    assert!(buffer.is_well_formed());
}

#[test]
fn the_cursor_stays_in_the_text_through_a_run_of_edits() {
    let mut buffer = buffer_with("one two\nthree\n\nfour");
    buffer.cursor.move_to_end(&buffer.content);
    buffer.insert_newline();
    assert!(buffer.is_well_formed());
    buffer.paste_after("x\ny");
    assert!(buffer.is_well_formed());
    buffer.cursor.move_up(&buffer.content);
    buffer.delete_line();
    assert!(buffer.is_well_formed());
    buffer.backspace();
    assert!(buffer.is_well_formed());
    buffer.delete_word();
    assert!(buffer.is_well_formed());
    buffer.undo();
    buffer.undo();
    assert!(buffer.is_well_formed());
    buffer.redo();
    assert!(buffer.is_well_formed());
    buffer.find_previous("t");
    buffer.delete_to_line_end();
    buffer.delete_to_line_start();
    buffer.delete_char();
    assert!(buffer.is_well_formed());
}
