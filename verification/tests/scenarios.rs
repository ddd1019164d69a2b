use vimrust::editor::Editor;
use vimrust::keys::{KeyCode, KeyEvent};
use vimrust::modes::EditorMode;

fn editor_with(text: &str) -> Editor {
    let mut editor = Editor::new();
    editor.open_file("scenario.txt", Some(text));
    editor
}

fn press(editor: &mut Editor, code: KeyCode) {
    editor.process_key_event(KeyEvent::new(code));
}

fn type_keys(editor: &mut Editor, keys: &str) {
    for c in keys.chars() {
        press(editor, KeyCode::Char(c));
    }
}

fn text(editor: &Editor) -> String {
    editor.get_current_buffer().text()
}

fn position(editor: &Editor) -> (usize, usize) {
    let cursor = editor.get_current_buffer().cursor;
    (cursor.row, cursor.col)
}

#[test]
fn typing_hello_and_undoing_five_times_gives_the_empty_buffer_back() {
    let mut editor = Editor::new();
    press(&mut editor, KeyCode::Char('i'));
    type_keys(&mut editor, "hello");
    assert_eq!(text(&editor), "hello");
    assert_eq!(position(&editor), (0, 5));
    press(&mut editor, KeyCode::Esc);
    assert_eq!(editor.mode(), EditorMode::Normal);
    type_keys(&mut editor, "uuuuu");
    assert_eq!(text(&editor), "");
    assert_eq!(position(&editor), (0, 0));
    assert!(editor.is_well_formed());
}

#[test]
fn dd_on_the_middle_line_of_three() {
    let mut editor = editor_with("a\nb\nc");
    press(&mut editor, KeyCode::Down);
    assert_eq!(position(&editor), (1, 0));
    type_keys(&mut editor, "dd");
    assert_eq!(text(&editor), "a\nc");
    assert_eq!(position(&editor), (1, 0));
    assert!(editor.is_well_formed());
}

#[test]
fn substitute_with_the_global_flag_replaces_every_occurrence() {
    let mut editor = editor_with("foo foo");
    type_keys(&mut editor, ":s/foo/bar/g");
    press(&mut editor, KeyCode::Enter);
    assert_eq!(text(&editor), "bar bar");
    assert_eq!(editor.mode(), EditorMode::Normal);
    assert_eq!(editor.message().as_deref(), Some("Substitution complete"));
}

#[test]
fn substitute_without_a_flag_replaces_the_first_occurrence() {
    let mut editor = editor_with("foo foo");
    type_keys(&mut editor, ":s/foo/bar");
    press(&mut editor, KeyCode::Enter);
    assert_eq!(text(&editor), "bar foo");
}

#[test]
fn yanking_a_selection_takes_both_ends() {
    let mut editor = editor_with("hello");
    press(&mut editor, KeyCode::Char('v'));
    assert_eq!(editor.mode(), EditorMode::Visual);
    press(&mut editor, KeyCode::Right);
    press(&mut editor, KeyCode::Right);
    assert_eq!(position(&editor), (0, 2));
    press(&mut editor, KeyCode::Char('y'));
    assert_eq!(editor.clipboard().as_deref(), Some("hel"));
    assert_eq!(editor.mode(), EditorMode::Normal);
    assert_eq!(text(&editor), "hello");
}

#[test]
fn w_moves_to_the_start_of_the_next_word() {
    let mut editor = editor_with("foo bar\nbaz");
    press(&mut editor, KeyCode::Char('w'));
    assert_eq!(position(&editor), (0, 4));
}
