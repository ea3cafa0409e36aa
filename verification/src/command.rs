//! The command model: a parsed command, its classification as builtin or
//! external, the operators that join adjacent commands, and the parse error.

use vstd::prelude::*;
use crate::text::str_eq;

verus! {

/// Whether a command names a shell builtin or an external program.
#[derive(Clone, Copy, PartialEq, Eq, Structural, Debug)]
pub enum CommandType {
    Builtin,
    External,
}

/// An operator standing between two adjacent commands: operator `i` relates
/// command `i` to command `i + 1`.
#[derive(Clone, Copy, PartialEq, Eq, Structural, Debug)]
pub enum Operator {
    Pipe,
    RedirectOverwrite,
    RedirectAppend,
}

/// Why a line of input could not be parsed.
#[derive(Clone, Copy, PartialEq, Eq, Structural, Debug)]
pub enum CommandError {
    /// The input held no tokens at all.
    Empty,
}

/// The classification a program name receives: only the fixed builtin names
/// make a command a builtin.
pub open spec fn spec_kind(program: Seq<char>) -> CommandType {
    if program == "exit"@ || program == "+debug"@ {
        CommandType::Builtin
    } else {
        CommandType::External
    }
}

/// The mathematical shape of a command: its classification, program name and
/// argument list, as character sequences.
#[verifier::ext_equal]
pub struct CommandView {
    pub kind: CommandType,
    pub program: Seq<char>,
    pub args: Seq<Seq<char>>,
}

/// One command: a program name, its arguments, and the classification derived
/// from the program name.
#[derive(Clone)]
pub struct Command {
    pub command_type: CommandType,
    pub command: String,
    pub args: Vec<String>,
}

impl View for Command {
    type V = CommandView;

    open spec fn view(&self) -> CommandView {
        CommandView {
            kind: self.command_type,
            program: self.command@,
            args: self.args.deep_view(),
        }
    }
}

impl DeepView for Command {
    type V = CommandView;

    open spec fn deep_view(&self) -> CommandView {
        self.view()
    }
}

impl Command {
    /// The classification is always the one derived from the program name.
    pub open spec fn wf(&self) -> bool {
        self.command_type == spec_kind(self.command@)
    }

    /// Builds a command, deriving its classification from `command`.
    pub fn new(command: String, args: Vec<String>) -> (r: Command)
        ensures
            r@.program == command@,
            r@.args == args.deep_view(),
            r@.kind == spec_kind(command@),
            r.wf(),
    {
        let command_type = if str_eq(command.as_str(), "exit") || str_eq(
            command.as_str(),
            "+debug",
        ) {
            CommandType::Builtin
        } else {
            CommandType::External
        };
        Command { command_type, command, args }
    }
}

} // verus!
