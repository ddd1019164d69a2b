use ropey::Rope;
use vimrust::cursor::{line_kinds, line_length, Cursor};
use vimrust::words::{
    char_kind, classify, skip_spaces, skip_token, skip_words, word_backward, word_end,
    word_forward, CharKind,
};

fn at(row: usize, col: usize) -> Cursor {
    Cursor { row, col, desired_col: col }
}

#[test]
fn a_new_cursor_is_at_the_start() {
    assert_eq!(Cursor::new(), Cursor { row: 0, col: 0, desired_col: 0 });
}

#[test]
fn left_and_right_stop_at_the_ends_of_the_line() {
    let text = Rope::from_str("ab\ncd");
    let mut cursor = Cursor::new();
    cursor.move_left();
    assert_eq!(cursor, at(0, 0));
    cursor.move_right(&text);
    cursor.move_right(&text);
    assert_eq!(cursor, at(0, 2));
    cursor.move_right(&text);
    assert_eq!(cursor, at(0, 2));
    cursor.move_left();
    assert_eq!(cursor, at(0, 1));
}

#[test]
fn up_and_down_come_back_to_the_column_aimed_for() {
    let text = Rope::from_str("hello\nhi\nworld");
    let mut cursor = Cursor::new();
    cursor.move_line_end(&text);
    assert_eq!(cursor, at(0, 5));
    cursor.move_down(&text);
    assert_eq!(cursor, Cursor { row: 1, col: 2, desired_col: 5 });
    cursor.move_down(&text);
    assert_eq!(cursor, Cursor { row: 2, col: 5, desired_col: 5 });
    cursor.move_down(&text);
    assert_eq!(cursor, Cursor { row: 2, col: 5, desired_col: 5 });
    cursor.move_up(&text);
    assert_eq!(cursor, Cursor { row: 1, col: 2, desired_col: 5 });
    cursor.move_up(&text);
    assert_eq!(cursor, Cursor { row: 0, col: 5, desired_col: 5 });
    cursor.move_up(&text);
    assert_eq!(cursor, Cursor { row: 0, col: 5, desired_col: 5 });
}

#[test]
fn up_stays_within_a_shorter_line() {
    let text = Rope::from_str("a\nlonger");
    let mut cursor = Cursor { row: 1, col: 6, desired_col: 6 };
    cursor.move_up(&text);
    assert_eq!(cursor, Cursor { row: 0, col: 1, desired_col: 6 });
}

#[test]
fn moving_by_steps_stops_at_the_first_and_last_line() {
    let text = Rope::from_str("0\n1\n2\n3\n4\n5\n6\n7\n8\n9\n10\n11\n12");
    let mut cursor = Cursor::new();
    cursor.move_down_by(&text, 10);
    assert_eq!(cursor.row, 10);
    cursor.move_down_by(&text, 10);
    assert_eq!(cursor.row, 12);
    cursor.move_up_by(&text, 10);
    assert_eq!(cursor.row, 2);
    cursor.move_up_by(&text, 10);
    assert_eq!(cursor.row, 0);
}

#[test]
fn word_forward_stops_at_the_end_of_the_line() {
    let text = Rope::from_str("foo bar\nbaz");
    let mut cursor = at(0, 4);
    cursor.move_word_forward(&text);
    assert_eq!(cursor, at(0, 7));
    cursor.move_word_forward(&text);
    assert_eq!(cursor, at(0, 7));
}

#[test]
fn word_forward_stops_before_punctuation() {
    let text = Rope::from_str("foo, bar");
    let mut cursor = Cursor::new();
    cursor.move_word_forward(&text);
    assert_eq!(cursor, at(0, 3));
    cursor.move_word_forward(&text);
    assert_eq!(cursor, at(0, 3));
}

#[test]
fn word_forward_on_the_last_line_does_nothing_at_its_end() {
    let text = Rope::from_str("foo");
    let mut cursor = Cursor { row: 0, col: 3, desired_col: 1 };
    cursor.move_word_forward(&text);
    assert_eq!(cursor, Cursor { row: 0, col: 3, desired_col: 1 });
}

#[test]
fn word_backward_goes_to_the_start_of_the_word() {
    let text = Rope::from_str("foo bar\nbaz");
    let mut cursor = at(0, 6);
    cursor.move_word_backward(&text);
    assert_eq!(cursor, at(0, 4));
    cursor.move_word_backward(&text);
    assert_eq!(cursor, at(0, 0));
    cursor.move_word_backward(&text);
    assert_eq!(cursor, at(0, 0));
}

#[test]
fn word_end_goes_to_the_last_character_of_the_next_word() {
    let text = Rope::from_str("foo bar\nbaz");
    let mut cursor = Cursor::new();
    cursor.move_word_end(&text);
    assert_eq!(cursor, at(0, 6));
    let mut cursor = at(0, 5);
    cursor.move_word_end(&text);
    assert_eq!(cursor, at(0, 7));
}

#[test]
fn first_non_whitespace_skips_the_indentation() {
    let text = Rope::from_str("  \tx y\n   \nz");
    let mut cursor = at(0, 5);
    cursor.move_line_first_non_whitespace(&text);
    assert_eq!(cursor, at(0, 3));
    let mut cursor = at(1, 0);
    cursor.move_line_first_non_whitespace(&text);
    assert_eq!(cursor, at(1, 3));
    let mut cursor = at(2, 1);
    cursor.move_line_first_non_whitespace(&text);
    assert_eq!(cursor, at(2, 0));
}

#[test]
fn line_start_and_line_end() {
    let text = Rope::from_str("abc\nde");
    let mut cursor = at(0, 1);
    cursor.move_line_end(&text);
    assert_eq!(cursor, at(0, 3));
    cursor.move_line_start();
    assert_eq!(cursor, at(0, 0));
}

#[test]
fn document_start_and_end() {
    let text = Rope::from_str("abc\nde");
    let mut cursor = Cursor::new();
    cursor.move_to_end(&text);
    assert_eq!(cursor, at(1, 2));
    cursor.move_to_start();
    assert_eq!(cursor, at(0, 0));
    let text = Rope::from_str("abc\n");
    cursor.move_to_end(&text);
    assert_eq!(cursor, at(1, 0));
    let text = Rope::new();
    cursor.move_to_end(&text);
    assert_eq!(cursor, at(0, 0));
}

#[test]
fn move_to_line_stops_at_the_last_line() {
    let text = Rope::from_str("abc\nde\nf");
    let mut cursor = Cursor { row: 0, col: 3, desired_col: 3 };
    cursor.move_to_line(&text, 1);
    assert_eq!(cursor, Cursor { row: 1, col: 2, desired_col: 3 });
    cursor.move_to_line(&text, 99);
    assert_eq!(cursor, Cursor { row: 2, col: 1, desired_col: 3 });
    cursor.move_to_line(&text, 0);
    assert_eq!(cursor, Cursor { row: 0, col: 3, desired_col: 3 });
}

#[test]
fn clamp_brings_the_cursor_into_the_text() {
    let text = Rope::from_str("abc\nde");
    let mut cursor = Cursor { row: 7, col: 9, desired_col: 9 };
    cursor.clamp_to_buffer(&text);
    assert_eq!(cursor, at(1, 2));
    let mut cursor = Cursor { row: 0, col: 1, desired_col: 3 };
    cursor.clamp_to_buffer(&text);
    assert_eq!(cursor, at(0, 1));
}

#[test]
fn line_length_leaves_the_line_feed_out() {
    let text = Rope::from_str("abc\n\nde");
    assert_eq!(line_length(&text, 0), 3);
    assert_eq!(line_length(&text, 1), 0);
    assert_eq!(line_length(&text, 2), 2);
    assert_eq!(line_length(&text, 3), 0);
}

#[test]
fn line_length_counts_characters_not_bytes() {
    let text = Rope::from_str("h\u{e9}llo\n\u{4e16}\u{754c}");
    assert_eq!(line_length(&text, 0), 5);
    assert_eq!(line_length(&text, 1), 2);
}

#[test]
fn only_the_line_feed_ends_a_line() {
    let text = Rope::from_str("a\rb\u{b}c\u{c}d\u{85}e\u{2028}f\u{2029}g\r\nh");
    assert_eq!(text.len_lines(), 2);
    assert_eq!(line_length(&text, 0), 14);
    assert_eq!(line_length(&text, 1), 1);
}

#[test]
fn kinds_of_a_line_include_its_line_feed() {
    let text = Rope::from_str("a b!\nc");
    let kinds = line_kinds(&text, 0);
    let word = CharKind { word: true, space: false };
    let space = CharKind { word: false, space: true };
    let other = CharKind { word: false, space: false };
    assert_eq!(kinds, vec![word, space, word, other, space]);
    assert_eq!(line_kinds(&text, 1), vec![word]);
}

#[test]
fn classify_tells_words_from_space() {
    assert_eq!(classify('a'), CharKind { word: true, space: false });
    assert_eq!(classify('7'), CharKind { word: true, space: false });
    assert_eq!(classify('\u{e9}'), CharKind { word: true, space: false });
    assert_eq!(classify(' '), CharKind { word: false, space: true });
    assert_eq!(classify('\n'), CharKind { word: false, space: true });
    assert_eq!(classify('-'), CharKind { word: false, space: false });
    assert_eq!(char_kind(true, false), CharKind { word: true, space: false });
    assert_eq!(char_kind(false, true), CharKind { word: false, space: true });
}

fn kinds(pattern: &str) -> Vec<CharKind> {
    pattern
        .chars()
        .map(|c| match c {
            'w' => CharKind { word: true, space: false },
            ' ' => CharKind { word: false, space: true },
            _ => CharKind { word: false, space: false },
        })
        .collect()
}

#[test]
fn scans_over_kinds() {
    let line = kinds("ww  .w ");
    assert_eq!(skip_words(&line, 0), 2);
    assert_eq!(skip_words(&line, 2), 2);
    assert_eq!(skip_spaces(&line, 2), 4);
    assert_eq!(skip_spaces(&line, 6), 7);
    assert_eq!(skip_token(&line, 0), 2);
    assert_eq!(skip_token(&line, 4), 6);
    assert_eq!(skip_token(&line, 7), 7);
}

#[test]
fn word_targets_over_kinds() {
    let line = kinds("ww  ww .");
    assert_eq!(word_forward(&line, 0), 4);
    assert_eq!(word_forward(&line, 4), 7);
    assert_eq!(word_forward(&line, 7), 7);
    assert_eq!(word_forward(&line, 8), 8);
    assert_eq!(word_end(&line, 0), 5);
    assert_eq!(word_end(&line, 4), 6);
    assert_eq!(word_end(&line, 9), 9);
    assert_eq!(word_backward(&line, 5), 4);
    assert_eq!(word_backward(&line, 4), 0);
    assert_eq!(word_backward(&line, 0), 0);
    assert_eq!(word_backward(&line, 8), 7);
    let start = kinds(".w");
    assert_eq!(word_end(&start, 0), 0);
}
