//! What the shell is to do for one line of input.

use vstd::prelude::*;
use vstd::string::StringExecFns;
use crate::model::tokens_of;
use crate::number::{parse_i32, parsed_i32};
use crate::text::{
    first_word, first_word_of, join_of, join_with_spaces, same_text, strip_prefix,
    strip_prefix_of, trim, trim_of, trim_start, trim_start_of,
};
use crate::tokenizer::split_quoted_line;

verus! {

/// What one line of input asks for. To carry it out is left to the shell:
/// nothing here reads or changes anything outside the program.
#[derive(Debug, PartialEq, Eq)]
pub enum Action {
    /// Do nothing.
    Nothing,
    /// Leave the shell with this status.
    Exit(i32),
    /// Print this text.
    Print(String),
    /// Say where on the search path the command of this name is found.
    Locate(String),
    /// Print the working directory.
    PrintWorkingDirectory,
    /// Make this directory the working directory.
    ChangeDirectory(String),
    /// Run the program named by the first argument with the others. There
    /// is a first argument, and no argument is empty.
    Run(Vec<String>),
}

/// An `Action` as a mathematical value: the same cases, with texts as
/// sequences of characters.
pub enum ActionView {
    Nothing,
    Exit(i32),
    Print(Seq<char>),
    Locate(Seq<char>),
    PrintWorkingDirectory,
    ChangeDirectory(Seq<char>),
    Run(Seq<Seq<char>>),
}

impl View for Action {
    type V = ActionView;

    open spec fn view(&self) -> ActionView {
        match self {
            Action::Nothing => ActionView::Nothing,
            Action::Exit(status) => ActionView::Exit(*status),
            Action::Print(text) => ActionView::Print(text@),
            Action::Locate(name) => ActionView::Locate(name@),
            Action::PrintWorkingDirectory => ActionView::PrintWorkingDirectory,
            Action::ChangeDirectory(target) => ActionView::ChangeDirectory(target@),
            Action::Run(arguments) => ActionView::Run(arguments.deep_view()),
        }
    }
}

/// Whether `name` is one of the commands that the shell carries out itself.
pub open spec fn is_builtin_name(name: Seq<char>) -> bool {
    name == "exit"@ || name == "echo"@ || name == "type"@ || name == "pwd"@ || name == "cd"@
}

/// The status with which `exit` followed by `rest` leaves: the number that
/// the first word of `rest` spells, or 0 where there is no word or the word
/// spells no number.
pub open spec fn exit_status_of(rest: Seq<char>) -> i32 {
    match first_word_of(rest) {
        Some(word) => match parsed_i32(word) {
            Some(status) => status,
            None => 0,
        },
        None => 0,
    }
}

/// What `type` followed by `rest` asks for.
pub open spec fn type_action_of(rest: Seq<char>) -> ActionView {
    let name = trim_start_of(rest);
    if is_builtin_name(name) {
        ActionView::Print(name + " is a shell builtin"@)
    } else {
        ActionView::Locate(name)
    }
}

/// What a line that starts with no builtin's name asks for.
pub open spec fn run_action_of(line: Seq<char>) -> ActionView {
    let arguments = tokens_of(line);
    if arguments.len() == 0 {
        ActionView::Nothing
    } else {
        ActionView::Run(arguments)
    }
}

/// What `line` asks for. White space round the line is ignored. A builtin
/// is recognised by the letters the line starts with, in the order `exit`,
/// `echo`, `type`, `pwd` (which must be the whole line), `cd`; any other
/// line is split into the arguments of a program to run.
pub open spec fn action_of(line: Seq<char>) -> ActionView {
    let line = trim_of(line);
    if line.len() == 0 {
        ActionView::Nothing
    } else if let Some(rest) = strip_prefix_of(line, "exit"@) {
        ActionView::Exit(exit_status_of(rest))
    } else if let Some(rest) = strip_prefix_of(line, "echo"@) {
        ActionView::Print(join_of(tokens_of(trim_start_of(rest))))
    } else if let Some(rest) = strip_prefix_of(line, "type"@) {
        type_action_of(rest)
    } else if line == "pwd"@ {
        ActionView::PrintWorkingDirectory
    } else if let Some(rest) = strip_prefix_of(line, "cd"@) {
        ActionView::ChangeDirectory(trim_start_of(rest))
    } else {
        run_action_of(line)
    }
}

/// Whether `name` is one of the commands that the shell carries out itself.
pub fn is_builtin(name: &str) -> (builtin: bool)
    ensures
        builtin == is_builtin_name(name@),
{
    same_text(name, "exit") || same_text(name, "echo") || same_text(name, "type")
        || same_text(name, "pwd") || same_text(name, "cd")
}

/// Reads one line of input and says what it asks for.
pub fn parse_command(line: &str) -> (action: Action)
    ensures
        action@ == action_of(line@),
        action matches Action::Run(arguments) ==> arguments.len() > 0 && forall|i: int|
            0 <= i < arguments.len() ==> (#[trigger] arguments[i])@.len() > 0,
{
    let line = trim(line);
    if line.is_empty() {
        return Action::Nothing;
    }
    if let Some(rest) = strip_prefix(line, "exit") {
        let status = match first_word(rest) {
            Some(word) => match parse_i32(word) {
                Some(status) => status,
                None => 0,
            },
            None => 0,
        };
        return Action::Exit(status);
    }
    if let Some(rest) = strip_prefix(line, "echo") {
        let arguments = split_quoted_line(trim_start(rest));
        return Action::Print(join_with_spaces(&arguments));
    }
    if let Some(rest) = strip_prefix(line, "type") {
        let name = trim_start(rest);
        return if is_builtin(name) {
            Action::Print(String::from_str(name).concat(" is a shell builtin"))
        } else {
            Action::Locate(String::from_str(name))
        };
    }
    if same_text(line, "pwd") {
        return Action::PrintWorkingDirectory;
    }
    if let Some(rest) = strip_prefix(line, "cd") {
        return Action::ChangeDirectory(String::from_str(trim_start(rest)));
    }
    let arguments = split_quoted_line(line);
    if arguments.len() == 0 {
        Action::Nothing
    } else {
        Action::Run(arguments)
    }
}

} // verus!
