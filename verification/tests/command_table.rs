use vimrust::buffer::Buffer;
use vimrust::commands::{CommandHandler, CommandResult, Effect, Outcome};

fn run(command: &str, buffer: &mut Buffer) -> Outcome {
    CommandHandler::new().execute(command, buffer)
}

fn bound(text: &str) -> Buffer {
    Buffer::from_file("bound.txt", Some(text))
}

#[test]
fn an_empty_line_is_no_command() {
    let mut buffer = Buffer::new();
    assert!(matches!(run("", &mut buffer), Outcome::Done(CommandResult::Nothing)));
    assert!(matches!(run("   ", &mut buffer), Outcome::Done(CommandResult::Nothing)));
}

#[test]
fn an_unknown_name_is_an_error() {
    let mut buffer = bound("abc");
    let outcome = run("frobnicate now", &mut buffer);
    assert!(matches!(
        outcome,
        Outcome::Done(CommandResult::Error(ref text)) if text == "Unknown command: frobnicate"
    ));
    assert_eq!(buffer.text(), "abc");
    assert!(!buffer.modified);
}

#[test]
fn names_tell_upper_case_from_lower_case() {
    let mut buffer = Buffer::new();
    assert!(matches!(
        run("W", &mut buffer),
        Outcome::Done(CommandResult::Error(ref text)) if text == "Unknown command: W"
    ));
}

#[test]
fn write_asks_for_the_file_the_buffer_is_bound_to() {
    let mut buffer = bound("abc");
    for command in ["w", "write", "  w  "] {
        let outcome = run(command, &mut buffer);
        assert!(matches!(
            outcome,
            Outcome::Request(Effect::Save { ref path, ref text, rebind: false, quit: false })
                if path == "bound.txt" && text == "abc"
        ));
    }
}

#[test]
fn write_with_a_name_asks_for_that_file() {
    let mut buffer = bound("abc");
    let outcome = run("write other.txt", &mut buffer);
    assert!(matches!(
        outcome,
        Outcome::Request(Effect::Save { ref path, ref text, rebind: true, quit: false })
            if path == "other.txt" && text == "abc"
    ));
    assert_eq!(buffer.file_path.as_deref(), Some("bound.txt"));
}

#[test]
fn write_without_a_file_has_nothing_to_write() {
    let mut buffer = Buffer::new();
    assert!(matches!(
        run("w", &mut buffer),
        Outcome::Done(CommandResult::Message(ref text)) if text == "File saved"
    ));
    assert!(matches!(run("wq", &mut buffer), Outcome::Done(CommandResult::Quit)));
}

#[test]
fn write_and_quit() {
    let mut buffer = bound("abc");
    for command in ["wq", "x"] {
        assert!(matches!(
            run(command, &mut buffer),
            Outcome::Request(Effect::Save { ref path, rebind: false, quit: true, .. })
                if path == "bound.txt"
        ));
    }
    assert!(matches!(
        run("x out.txt", &mut buffer),
        Outcome::Request(Effect::Save { ref path, rebind: true, quit: true, .. })
            if path == "out.txt"
    ));
}

#[test]
fn quit_is_refused_while_changes_are_unwritten() {
    let mut buffer = bound("abc");
    assert!(matches!(run("q", &mut buffer), Outcome::Done(CommandResult::Quit)));
    assert!(matches!(run("quit", &mut buffer), Outcome::Done(CommandResult::Quit)));
    buffer.insert_char('x');
    for command in ["q", "quit"] {
        assert!(matches!(
            run(command, &mut buffer),
            Outcome::Done(CommandResult::Error(ref text))
                if text == "No write since last change (use :q! to force quit)"
        ));
    }
    assert!(buffer.modified);
}

#[test]
fn edit_asks_for_the_file() {
    let mut buffer = Buffer::new();
    for command in ["e notes.txt", "edit notes.txt"] {
        assert!(matches!(
            run(command, &mut buffer),
            Outcome::Request(Effect::Open { ref path }) if path == "notes.txt"
        ));
    }
    assert!(matches!(
        run("edit", &mut buffer),
        Outcome::Done(CommandResult::Error(ref text)) if text == "No file specified"
    ));
}

#[test]
fn substitute_as_a_word_lacks_its_fields() {
    let mut buffer = bound("abc");
    assert!(matches!(
        run("s", &mut buffer),
        Outcome::Done(CommandResult::Error(ref text)) if text == "Substitute requires pattern"
    ));
    assert!(matches!(
        run("substitute a b", &mut buffer),
        Outcome::Done(CommandResult::Error(ref text)) if text == "Invalid substitute format"
    ));
    assert_eq!(buffer.text(), "abc");
}

#[test]
fn buffer_commands_are_left_to_the_caller() {
    let mut buffer = Buffer::new();
    assert!(matches!(run("bn", &mut buffer), Outcome::NextBuffer));
    assert!(matches!(run("bp", &mut buffer), Outcome::PrevBuffer));
    assert!(matches!(run("bd", &mut buffer), Outcome::DeleteBuffer));
}

#[test]
fn set_switches_line_numbers() {
    let mut buffer = Buffer::new();
    for command in ["set nonumber", "set nonu"] {
        buffer.line_numbers = true;
        assert!(matches!(
            run(command, &mut buffer),
            Outcome::Done(CommandResult::Message(ref text)) if text == "Line numbers disabled"
        ));
        assert!(!buffer.line_numbers);
    }
    for command in ["set number", "set   nu"] {
        buffer.line_numbers = false;
        assert!(matches!(
            run(command, &mut buffer),
            Outcome::Done(CommandResult::Message(ref text)) if text == "Line numbers enabled"
        ));
        assert!(buffer.line_numbers);
    }
    assert!(buffer.syntax_highlighting);
}

#[test]
fn set_switches_syntax_highlighting() {
    let mut buffer = Buffer::new();
    assert!(matches!(
        run("set nosyntax", &mut buffer),
        Outcome::Done(CommandResult::Message(ref text)) if text == "Syntax highlighting disabled"
    ));
    assert!(!buffer.syntax_highlighting);
    assert!(matches!(
        run("set syntax", &mut buffer),
        Outcome::Done(CommandResult::Message(ref text)) if text == "Syntax highlighting enabled"
    ));
    assert!(buffer.syntax_highlighting);
    assert!(buffer.line_numbers);
}

#[test]
fn set_with_an_unknown_option_changes_nothing() {
    let mut buffer = Buffer::new();
    assert!(matches!(
        run("set colour", &mut buffer),
        Outcome::Done(CommandResult::Error(ref text)) if text == "Unknown setting: colour"
    ));
    assert!(buffer.line_numbers);
    assert!(buffer.syntax_highlighting);
    assert!(!buffer.modified);
}

#[test]
fn set_alone_lists_the_settings() {
    let mut buffer = Buffer::new();
    assert!(matches!(
        run("set", &mut buffer),
        Outcome::Done(CommandResult::Message(ref text))
            if text == "Available settings: number, syntax"
    ));
}

#[test]
fn completions_come_in_the_order_of_the_table() {
    let handler = CommandHandler::new();
    assert_eq!(handler.get_completions("w"), vec!["w", "write", "wq"]);
    assert_eq!(handler.get_completions("s"), vec!["s", "substitute", "set"]);
    assert_eq!(handler.get_completions("b"), vec!["bn", "bp", "bd"]);
    assert_eq!(handler.get_completions("qu"), vec!["quit"]);
    assert_eq!(handler.get_completions("quit"), vec!["quit"]);
    assert_eq!(handler.get_completions("quits"), Vec::<String>::new());
    assert_eq!(handler.get_completions("z"), Vec::<String>::new());
    assert_eq!(
        handler.get_completions(""),
        vec![
            "w", "write", "q", "quit", "wq", "x", "e", "edit", "s", "substitute", "bn", "bp",
            "bd", "set"
        ]
    );
}
