//! The named commands of the command line: the table that tells what a name
//! stands for, and what each command does to a buffer.
//!
//! A command that needs the file system or the list of buffers does not act
//! here. It says what is to be done, and the caller does it.

use crate::buffer::{text_of, Buffer};
use crate::model::BufferView;
use crate::strings::{begins_with, chars_are, chars_of, is_prefix, join, range_is, string_of};
use crate::words::{
    after_spaces, after_token, classify_all, kinds_of, skip_spaces, skip_token, };
use vstd::prelude::*;

verus! {

/// What a command has come to.
#[derive(Debug)]
pub enum CommandResult {
    /// Nothing to report.
    Nothing,
    /// The editor is to end.
    Quit,
    /// A message for the user.
    Message(String),
    /// A message that tells the user what went wrong.
    Error(String),
}

pub enum CommandResultView {
    Nothing,
    Quit,
    Message(Seq<char>),
    Error(Seq<char>),
}

impl View for CommandResult {
    type V = CommandResultView;

    open spec fn view(&self) -> CommandResultView {
        match self {
            CommandResult::Nothing => CommandResultView::Nothing,
            CommandResult::Quit => CommandResultView::Quit,
            CommandResult::Message(text) => CommandResultView::Message(text@),
            CommandResult::Error(text) => CommandResultView::Error(text@),
        }
    }
}

/// Work on files, which the library leaves to its caller.
#[derive(Debug)]
pub enum Effect {
    /// Nothing to do.
    Nothing,
    /// Write `text` to the file at `path`, and report with
    /// `Editor::finish_save`.
    Save {
        path: String,
        text: String,
        /// The buffer is to be bound to `path` once the file is written.
        rebind: bool,
        /// The editor is to end once the file is written.
        quit: bool,
    },
    /// Read the file at `path`, and report with `Editor::finish_open`.
    Open { path: String },
}

pub enum EffectView {
    Nothing,
    Save { path: Seq<char>, text: Seq<char>, rebind: bool, quit: bool },
    Open { path: Seq<char> },
}

impl View for Effect {
    type V = EffectView;

    open spec fn view(&self) -> EffectView {
        match self {
            Effect::Nothing => EffectView::Nothing,
            Effect::Save { path, text, rebind, quit } => EffectView::Save {
                path: path@,
                text: text@,
                rebind: *rebind,
                quit: *quit,
            },
            Effect::Open { path } => EffectView::Open { path: path@ },
        }
    }
}

/// How a command has ended: with a result, or with work for the caller.
#[derive(Debug)]
pub enum Outcome {
    Done(CommandResult),
    /// Work on a file.
    Request(Effect),
    /// Go to the next buffer.
    NextBuffer,
    /// Go to the buffer before.
    PrevBuffer,
    /// Close the buffer.
    DeleteBuffer,
}

pub enum OutcomeView {
    Done(CommandResultView),
    Request(EffectView),
    NextBuffer,
    PrevBuffer,
    DeleteBuffer,
}

impl View for Outcome {
    type V = OutcomeView;

    open spec fn view(&self) -> OutcomeView {
        match self {
            Outcome::Done(result) => OutcomeView::Done(result@),
            Outcome::Request(effect) => OutcomeView::Request(effect@),
            Outcome::NextBuffer => OutcomeView::NextBuffer,
            Outcome::PrevBuffer => OutcomeView::PrevBuffer,
            Outcome::DeleteBuffer => OutcomeView::DeleteBuffer,
        }
    }
}

/// The commands that have a name.
#[derive(Debug, Clone, Copy, PartialEq, Eq, Structural)]
pub enum CommandKind {
    Write,
    Quit,
    WriteQuit,
    Edit,
    Substitute,
    NextBuffer,
    PrevBuffer,
    DeleteBuffer,
    Settings,
}

/// The names that stand for a command, in the order of the table.
pub open spec fn command_names() -> Seq<Seq<char>> {
    seq![
        "w"@,
        "write"@,
        "q"@,
        "quit"@,
        "wq"@,
        "x"@,
        "e"@,
        "edit"@,
        "s"@,
        "substitute"@,
        "bn"@,
        "bp"@,
        "bd"@,
        "set"@,
    ]
}

/// The command that `name` stands for. Upper and lower case are told apart.
pub open spec fn registered(name: Seq<char>) -> Option<CommandKind> {
    if name == "w"@ || name == "write"@ {
        Some(CommandKind::Write)
    } else if name == "q"@ || name == "quit"@ {
        Some(CommandKind::Quit)
    } else if name == "wq"@ || name == "x"@ {
        Some(CommandKind::WriteQuit)
    } else if name == "e"@ || name == "edit"@ {
        Some(CommandKind::Edit)
    } else if name == "s"@ || name == "substitute"@ {
        Some(CommandKind::Substitute)
    } else if name == "bn"@ {
        Some(CommandKind::NextBuffer)
    } else if name == "bp"@ {
        Some(CommandKind::PrevBuffer)
    } else if name == "bd"@ {
        Some(CommandKind::DeleteBuffer)
    } else if name == "set"@ {
        Some(CommandKind::Settings)
    } else {
        None
    }
}

/// Those of `names` that begin with `partial`, in their order.
pub open spec fn completions(names: Seq<Seq<char>>, partial: Seq<char>) -> Seq<Seq<char>>
    decreases names.len(),
{
    if names.len() == 0 {
        Seq::empty()
    } else if is_prefix(partial, names.last()) {
        completions(names.drop_last(), partial).push(names.last())
    } else {
        completions(names.drop_last(), partial)
    }
}

/// The views of strings, one for one.
pub open spec fn texts(strings: Seq<String>) -> Seq<Seq<char>> {
    strings.map_values(|s: String| s@)
}

/// Where the first word of a command line begins.
pub open spec fn name_start(command: Seq<char>) -> int {
    after_spaces(kinds_of(command), 0)
}

/// Where the first word of a command line ends.
pub open spec fn name_end(command: Seq<char>) -> int {
    after_token(kinds_of(command), name_start(command))
}

/// Where the second word of a command line begins.
pub open spec fn arg_start(command: Seq<char>) -> int {
    after_spaces(kinds_of(command), name_end(command))
}

/// Where the second word of a command line ends.
pub open spec fn arg_end(command: Seq<char>) -> int {
    after_token(kinds_of(command), arg_start(command))
}

/// The first word of a command line: the name of the command.
pub open spec fn command_name(command: Seq<char>) -> Seq<char> {
    command.subrange(name_start(command), name_end(command))
}

/// The second word of a command line, if it has one: the argument.
pub open spec fn command_arg(command: Seq<char>) -> Option<Seq<char>> {
    if arg_start(command) < arg_end(command) {
        Some(command.subrange(arg_start(command), arg_end(command)))
    } else {
        None
    }
}

/// What `w`, or with `quit` set `wq`, comes to: the text is to be written to
/// the file named, or to the file the buffer is bound to. A buffer that is
/// bound to none, with no file named, has nothing to write.
pub open spec fn write_outcome(buffer: BufferView, arg: Option<Seq<char>>, quit: bool)
    -> OutcomeView {
    match arg {
        Some(path) => OutcomeView::Request(
            EffectView::Save { path, text: buffer.text, rebind: true, quit },
        ),
        None => match buffer.file_path {
            Some(path) => OutcomeView::Request(
                EffectView::Save { path, text: buffer.text, rebind: false, quit },
            ),
            None => OutcomeView::Done(
                if quit {
                    CommandResultView::Quit
                } else {
                    CommandResultView::Message("File saved"@)
                },
            ),
        },
    }
}

/// What `q` comes to: the end, unless the buffer holds changes that have
/// not been written.
pub open spec fn quit_outcome(buffer: BufferView) -> OutcomeView {
    OutcomeView::Done(
        if buffer.modified {
            CommandResultView::Error("No write since last change (use :q! to force quit)"@)
        } else {
            CommandResultView::Quit
        },
    )
}

/// What `e` comes to: the file named is to be read.
pub open spec fn edit_outcome(arg: Option<Seq<char>>) -> OutcomeView {
    match arg {
        Some(path) => OutcomeView::Request(EffectView::Open { path }),
        None => OutcomeView::Done(CommandResultView::Error("No file specified"@)),
    }
}

/// What `s` comes to where it is written as a word of its own: pattern and
/// replacement are missing.
pub open spec fn substitute_outcome(arg: Option<Seq<char>>) -> OutcomeView {
    OutcomeView::Done(
        CommandResultView::Error(
            match arg {
                Some(_) => "Invalid substitute format"@,
                None => "Substitute requires pattern"@,
            },
        ),
    )
}

/// The buffer after `set`.
pub open spec fn set_buffer(buffer: BufferView, arg: Option<Seq<char>>) -> BufferView {
    match arg {
        Some(option) => if option == "number"@ || option == "nu"@ {
            BufferView { line_numbers: true, ..buffer }
        } else if option == "nonumber"@ || option == "nonu"@ {
            BufferView { line_numbers: false, ..buffer }
        } else if option == "syntax"@ {
            BufferView { syntax_highlighting: true, ..buffer }
        } else if option == "nosyntax"@ {
            BufferView { syntax_highlighting: false, ..buffer }
        } else {
            buffer
        },
        None => buffer,
    }
}

/// What `set` reports.
pub open spec fn set_result(arg: Option<Seq<char>>) -> CommandResultView {
    match arg {
        Some(option) => if option == "number"@ || option == "nu"@ {
            CommandResultView::Message("Line numbers enabled"@)
        } else if option == "nonumber"@ || option == "nonu"@ {
            CommandResultView::Message("Line numbers disabled"@)
        } else if option == "syntax"@ {
            CommandResultView::Message("Syntax highlighting enabled"@)
        } else if option == "nosyntax"@ {
            CommandResultView::Message("Syntax highlighting disabled"@)
        } else {
            CommandResultView::Error("Unknown setting: "@ + option)
        },
        None => CommandResultView::Message("Available settings: number, syntax"@),
    }
}

/// What a command line comes to, and what it makes of the buffer. Only
/// `set` changes the buffer.
pub open spec fn run(command: Seq<char>, buffer: BufferView) -> (BufferView, OutcomeView) {
    if name_start(command) >= name_end(command) {
        (buffer, OutcomeView::Done(CommandResultView::Nothing))
    } else {
        match registered(command_name(command)) {
            Some(CommandKind::Write) => (
                buffer,
                write_outcome(buffer, command_arg(command), false),
            ),
            Some(CommandKind::Quit) => (buffer, quit_outcome(buffer)),
            Some(CommandKind::WriteQuit) => (
                buffer,
                write_outcome(buffer, command_arg(command), true),
            ),
            Some(CommandKind::Edit) => (buffer, edit_outcome(command_arg(command))),
            Some(CommandKind::Substitute) => (buffer, substitute_outcome(command_arg(command))),
            Some(CommandKind::NextBuffer) => (buffer, OutcomeView::NextBuffer),
            Some(CommandKind::PrevBuffer) => (buffer, OutcomeView::PrevBuffer),
            Some(CommandKind::DeleteBuffer) => (buffer, OutcomeView::DeleteBuffer),
            Some(CommandKind::Settings) => (
                set_buffer(buffer, command_arg(command)),
                OutcomeView::Done(set_result(command_arg(command))),
            ),
            None => (
                buffer,
                OutcomeView::Done(
                    CommandResultView::Error("Unknown command: "@ + command_name(command)),
                ),
            ),
        }
    }
}

/// The table of the named commands.
pub struct CommandHandler {}

impl CommandHandler {
    pub fn new() -> (handler: CommandHandler) {
        CommandHandler {  }
    }

    /// The command that the characters of `chars` in `[from, to)` name.
    fn lookup(&self, chars: &Vec<char>, from: usize, to: usize) -> (kind: Option<CommandKind>)
        requires
            from <= to <= chars.len(),
        ensures
            kind == registered(chars@.subrange(from as int, to as int)),
    {
        if range_is(chars, from, to, "w") || range_is(chars, from, to, "write") {
            Some(CommandKind::Write)
        } else if range_is(chars, from, to, "q") || range_is(chars, from, to, "quit") {
            Some(CommandKind::Quit)
        } else if range_is(chars, from, to, "wq") || range_is(chars, from, to, "x") {
            Some(CommandKind::WriteQuit)
        } else if range_is(chars, from, to, "e") || range_is(chars, from, to, "edit") {
            Some(CommandKind::Edit)
        } else if range_is(chars, from, to, "s") || range_is(chars, from, to, "substitute") {
            Some(CommandKind::Substitute)
        } else if range_is(chars, from, to, "bn") {
            Some(CommandKind::NextBuffer)
        } else if range_is(chars, from, to, "bp") {
            Some(CommandKind::PrevBuffer)
        } else if range_is(chars, from, to, "bd") {
            Some(CommandKind::DeleteBuffer)
        } else if range_is(chars, from, to, "set") {
            Some(CommandKind::Settings)
        } else {
            None
        }
    }

    /// Runs the command line `command` on `buffer`. The first word names the
    /// command, the second is its argument; what follows is not read.
    pub fn execute(&self, command: &str, buffer: &mut Buffer) -> (outcome: Outcome)
        ensures
            (final(buffer)@, outcome@) == run(command@, old(buffer)@),
            old(buffer).wf() ==> final(buffer).wf(),
    {
        let chars = chars_of(command);
        let kinds = classify_all(&chars);
        let name_from = skip_spaces(&kinds, 0);
        let name_to = skip_token(&kinds, name_from);
        if name_from >= name_to {
            return Outcome::Done(CommandResult::Nothing);
        }
        let arg_from = skip_spaces(&kinds, name_to);
        let arg_to = skip_token(&kinds, arg_from);
        let arg = if arg_from < arg_to {
            Some(string_of(&chars, arg_from, arg_to))
        } else {
            None
        };
        match self.lookup(&chars, name_from, name_to) {
            Some(CommandKind::Write) => WriteCommand.execute(arg, buffer),
            Some(CommandKind::Quit) => QuitCommand.execute(arg, buffer),
            Some(CommandKind::WriteQuit) => WriteQuitCommand.execute(arg, buffer),
            Some(CommandKind::Edit) => EditCommand.execute(arg, buffer),
            Some(CommandKind::Substitute) => SubstituteCommand.execute(arg, buffer),
            Some(CommandKind::NextBuffer) => NextBufferCommand.execute(arg, buffer),
            Some(CommandKind::PrevBuffer) => PrevBufferCommand.execute(arg, buffer),
            Some(CommandKind::DeleteBuffer) => DeleteBufferCommand.execute(arg, buffer),
            Some(CommandKind::Settings) => SetCommand.execute(arg, buffer),
            None => {
                let name = string_of(&chars, name_from, name_to);
                Outcome::Done(CommandResult::Error(join("Unknown command: ", name.as_str())))
            },
        }
    }

    /// The names of commands that begin with `partial`, in the order of the
    /// table.
    pub fn get_completions(&self, partial: &str) -> (names: Vec<String>)
        ensures
            texts(names@) == completions(command_names(), partial@),
    {
        let table: [&str; 14] = [
            "w",
            "write",
            "q",
            "quit",
            "wq",
            "x",
            "e",
            "edit",
            "s",
            "substitute",
            "bn",
            "bp",
            "bd",
            "set",
        ];
        let ghost all = command_names();
        let mut names: Vec<String> = Vec::new();
        let mut i: usize = 0;
        while i < 14
            invariant
                i <= 14,
                all == command_names(),
                table@.len() == 14,
                forall|k: int| 0 <= k < 14 ==> (#[trigger] table@[k])@ == all[k],
                texts(names@) == completions(all.take(i as int), partial@),
            decreases 14 - i,
        {
            let name = table[i];
            let chars = chars_of(name);
            proof {
                assert(all.take(i + 1).drop_last() =~= all.take(i as int));
                assert(all.take(i + 1).last() == all[i as int]);
            }
            if begins_with(&chars, partial) {
                names.push(String::from_str(name));
                proof {
                    assert(texts(names@) =~= completions(all.take(i as int), partial@).push(name@));
                }
            }
            i = i + 1;
        }
        proof {
            assert(all.take(14) =~= all);
        }
        names
    }
}

/// A command of the command line.
pub trait Command {
    /// Runs the command on `buffer`. `arg` is the word that follows the
    /// command's name, if one does.
    fn execute(&self, arg: Option<String>, buffer: &mut Buffer) -> Outcome;
}

/// What `write_outcome` says, for the buffer as it is.
fn write(arg: Option<String>, buffer: &Buffer, quit: bool) -> (outcome: Outcome)
    ensures
        outcome@ == write_outcome(buffer@, text_of(arg), quit),
{
    match arg {
        Some(path) => Outcome::Request(
            Effect::Save { path, text: buffer.text(), rebind: true, quit },
        ),
        None => match &buffer.file_path {
            Some(path) => Outcome::Request(
                Effect::Save { path: path.clone(), text: buffer.text(), rebind: false, quit },
            ),
            None => Outcome::Done(
                if quit {
                    CommandResult::Quit
                } else {
                    CommandResult::Message(String::from_str("File saved"))
                },
            ),
        },
    }
}

/// `w`, `write`: the text is to be written.
struct WriteCommand;

impl Command for WriteCommand {
    fn execute(&self, arg: Option<String>, buffer: &mut Buffer) -> (outcome: Outcome)
        ensures
            outcome@ == write_outcome(old(buffer)@, text_of(arg), false),
            final(buffer)@ == old(buffer)@,
    {
        write(arg, buffer, false)
    }
}

/// `q`, `quit`: the editor is to end, unless the buffer holds changes that
/// have not been written.
struct QuitCommand;

impl Command for QuitCommand {
    fn execute(&self, arg: Option<String>, buffer: &mut Buffer) -> (outcome: Outcome)
        ensures
            outcome@ == quit_outcome(old(buffer)@),
            final(buffer)@ == old(buffer)@,
    {
        Outcome::Done(
            if buffer.modified {
                CommandResult::Error(
                    String::from_str("No write since last change (use :q! to force quit)"),
                )
            } else {
                CommandResult::Quit
            },
        )
    }
}

/// `wq`, `x`: the text is to be written, and then the editor is to end.
struct WriteQuitCommand;

impl Command for WriteQuitCommand {
    fn execute(&self, arg: Option<String>, buffer: &mut Buffer) -> (outcome: Outcome)
        ensures
            outcome@ == write_outcome(old(buffer)@, text_of(arg), true),
            final(buffer)@ == old(buffer)@,
    {
        write(arg, buffer, true)
    }
}

/// `e`, `edit`: the file named is to be read.
struct EditCommand;

impl Command for EditCommand {
    fn execute(&self, arg: Option<String>, buffer: &mut Buffer) -> (outcome: Outcome)
        ensures
            outcome@ == edit_outcome(text_of(arg)),
            final(buffer)@ == old(buffer)@,
    {
        match arg {
            Some(path) => Outcome::Request(Effect::Open { path }),
            None => Outcome::Done(CommandResult::Error(String::from_str("No file specified"))),
        }
    }
}

/// `s`, `substitute`, written as a word of its own: pattern and replacement
/// are missing.
struct SubstituteCommand;

impl Command for SubstituteCommand {
    fn execute(&self, arg: Option<String>, buffer: &mut Buffer) -> (outcome: Outcome)
        ensures
            outcome@ == substitute_outcome(text_of(arg)),
            final(buffer)@ == old(buffer)@,
    {
        Outcome::Done(
            CommandResult::Error(
                String::from_str(
                    match arg {
                        Some(_) => "Invalid substitute format",
                        None => "Substitute requires pattern",
                    },
                ),
            ),
        )
    }
}

/// `bn`: go to the next buffer.
struct NextBufferCommand;

impl Command for NextBufferCommand {
    fn execute(&self, arg: Option<String>, buffer: &mut Buffer) -> (outcome: Outcome)
        ensures
            outcome@ == OutcomeView::NextBuffer,
            final(buffer)@ == old(buffer)@,
    {
        Outcome::NextBuffer
    }
}

/// `bp`: go to the buffer before.
struct PrevBufferCommand;

impl Command for PrevBufferCommand {
    fn execute(&self, arg: Option<String>, buffer: &mut Buffer) -> (outcome: Outcome)
        ensures
            outcome@ == OutcomeView::PrevBuffer,
            final(buffer)@ == old(buffer)@,
    {
        Outcome::PrevBuffer
    }
}

/// `bd`: close the buffer.
struct DeleteBufferCommand;

impl Command for DeleteBufferCommand {
    fn execute(&self, arg: Option<String>, buffer: &mut Buffer) -> (outcome: Outcome)
        ensures
            outcome@ == OutcomeView::DeleteBuffer,
            final(buffer)@ == old(buffer)@,
    {
        Outcome::DeleteBuffer
    }
}

/// `set`: switches line numbers or syntax highlighting on or off. An option
/// that is not known is reported, and nothing is changed.
struct SetCommand;

impl Command for SetCommand {
    fn execute(&self, arg: Option<String>, buffer: &mut Buffer) -> (outcome: Outcome)
        ensures
            outcome@ == OutcomeView::Done(set_result(text_of(arg))),
            final(buffer)@ == set_buffer(old(buffer)@, text_of(arg)),
    {
        let option = match arg {
            Some(option) => option,
            None => {
                return Outcome::Done(
                    CommandResult::Message(String::from_str("Available settings: number, syntax")),
                );
            },
        };
        let chars = chars_of(option.as_str());
        Outcome::Done(
            if chars_are(&chars, "number") || chars_are(&chars, "nu") {
                buffer.line_numbers = true;
                CommandResult::Message(String::from_str("Line numbers enabled"))
            } else if chars_are(&chars, "nonumber") || chars_are(&chars, "nonu") {
                buffer.line_numbers = false;
                CommandResult::Message(String::from_str("Line numbers disabled"))
            } else if chars_are(&chars, "syntax") {
                buffer.syntax_highlighting = true;
                CommandResult::Message(String::from_str("Syntax highlighting enabled"))
            } else if chars_are(&chars, "nosyntax") {
                buffer.syntax_highlighting = false;
                CommandResult::Message(String::from_str("Syntax highlighting disabled"))
            } else {
                CommandResult::Error(join("Unknown setting: ", option.as_str()))
            },
        )
    }
}

} // verus!
