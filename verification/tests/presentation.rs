use vimrust::keys::{KeyCode, KeyEvent};
use vimrust::modes::{CursorStyle, EditorMode};
use vimrust::search::{find_backward, find_forward, occurs_at};
use vimrust::strings::{begins_with, chars_are, chars_of, join, range_is, string_of};
use vimrust::substitute::{replace_every, replace_one};
use vimrust::syntax::{HighlightedLine, HighlightedSegment, TextStyle};
use vimrust::viewport::Viewport;

#[test]
fn modes_have_names() {
    assert_eq!(EditorMode::Normal.to_string(), "NORMAL");
    assert_eq!(EditorMode::Insert.to_string(), "INSERT");
    assert_eq!(EditorMode::Visual.to_string(), "VISUAL");
    assert_eq!(EditorMode::Command.to_string(), "COMMAND");
}

#[test]
fn modes_have_cursor_styles() {
    assert_eq!(EditorMode::Normal.get_cursor_style(), CursorStyle::Block);
    assert_eq!(EditorMode::Insert.get_cursor_style(), CursorStyle::Line);
    assert_eq!(EditorMode::Visual.get_cursor_style(), CursorStyle::Block);
    assert_eq!(EditorMode::Command.get_cursor_style(), CursorStyle::Line);
}

#[test]
fn keys_with_and_without_control() {
    assert_eq!(
        KeyEvent::new(KeyCode::Char('r')),
        KeyEvent { code: KeyCode::Char('r'), control: false }
    );
    assert_eq!(
        KeyEvent::with_control(KeyCode::Char('r')),
        KeyEvent { code: KeyCode::Char('r'), control: true }
    );
}

#[test]
fn the_plain_style_is_white_on_black() {
    let style = TextStyle::default();
    assert_eq!(style.foreground, (255, 255, 255));
    assert_eq!(style.background, (0, 0, 0));
    assert!(!style.bold);
    assert!(!style.italic);
    assert!(!style.underline);
}

#[test]
fn a_highlighted_line_holds_its_segments() {
    let line = HighlightedLine {
        segments: vec![HighlightedSegment { text: "fn".to_string(), style: TextStyle::default() }],
    };
    let copy = line.clone();
    assert_eq!(copy.segments.len(), 1);
    assert_eq!(copy.segments[0].text, "fn");
    assert_eq!(copy.segments[0].style.foreground, (255, 255, 255));
}

#[test]
fn the_viewport_follows_the_cursor() {
    let mut viewport = Viewport::new(10);
    assert_eq!(viewport, Viewport { start: 0, height: 10 });
    viewport.update(9);
    assert_eq!(viewport.start, 0);
    viewport.update(10);
    assert_eq!(viewport.start, 1);
    viewport.update(25);
    assert_eq!(viewport.start, 16);
    viewport.update(20);
    assert_eq!(viewport.start, 16);
    viewport.update(3);
    assert_eq!(viewport.start, 3);
    assert_eq!(viewport.height, 10);
}

#[test]
fn a_viewport_without_lines_starts_at_the_cursor() {
    let mut viewport = Viewport::new(0);
    viewport.update(7);
    assert_eq!(viewport, Viewport { start: 7, height: 0 });
}

#[test]
fn strings_and_characters() {
    let chars = chars_of("h\u{e9}llo w");
    assert_eq!(chars, vec!['h', '\u{e9}', 'l', 'l', 'o', ' ', 'w']);
    assert_eq!(string_of(&chars, 1, 5), "\u{e9}llo");
    assert_eq!(string_of(&chars, 3, 3), "");
    assert!(range_is(&chars, 0, 2, "h\u{e9}"));
    assert!(!range_is(&chars, 0, 2, "he"));
    assert!(!range_is(&chars, 0, 2, "h"));
    assert!(chars_are(&chars, "h\u{e9}llo w"));
    assert!(!chars_are(&chars, "h\u{e9}llo"));
    assert!(begins_with(&chars, "h\u{e9}l"));
    assert!(begins_with(&chars, ""));
    assert!(!begins_with(&chars, "llo"));
    assert!(!begins_with(&chars, "h\u{e9}llo w!"));
    assert_eq!(join("Opened ", "a.txt"), "Opened a.txt");
}

#[test]
fn searching_a_rope() {
    let rope = ropey::Rope::from_str("abcabc");
    let pattern = vec!['b', 'c'];
    assert!(occurs_at(&rope, &pattern, 1));
    assert!(!occurs_at(&rope, &pattern, 2));
    assert_eq!(find_forward(&rope, &pattern, 0), Some(1));
    assert_eq!(find_forward(&rope, &pattern, 2), Some(4));
    assert_eq!(find_forward(&rope, &pattern, 5), None);
    assert_eq!(find_forward(&rope, &pattern, 99), None);
    assert_eq!(find_backward(&rope, &pattern, 99), Some(4));
    assert_eq!(find_backward(&rope, &pattern, 3), Some(1));
    assert_eq!(find_backward(&rope, &pattern, 0), None);
    assert_eq!(find_forward(&rope, &vec![], 6), Some(6));
    assert_eq!(find_forward(&rope, &vec![], 7), None);
    assert_eq!(find_backward(&rope, &vec!['a', 'b', 'c', 'a', 'b', 'c', 'a'], 0), None);
}

#[test]
fn replacing_in_a_rope() {
    let mut rope = ropey::Rope::from_str("one, two, three");
    replace_every(&mut rope, &vec![',', ' '], "\n");
    assert_eq!(rope.to_string(), "one\ntwo\nthree");
    replace_one(&mut rope, &vec!['t'], "T");
    assert_eq!(rope.to_string(), "one\nTwo\nthree");
    replace_one(&mut rope, &vec!['z'], "T");
    assert_eq!(rope.to_string(), "one\nTwo\nthree");
    replace_every(&mut rope, &vec!['e'], "");
    assert_eq!(rope.to_string(), "on\nTwo\nthr");
}
