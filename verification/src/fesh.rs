//! The shell core: per-line control decisions. A line is parsed, rewritten
//! through the alias table, and then either dispatched as a builtin or
//! planned as a pipeline; performing the plan is the surrounding program's
//! work.

use vstd::prelude::*;
use crate::command::CommandType;
use crate::command_list::{CommandList, CommandListView};
use crate::config::Config;
use crate::input_parser::InputParser;
use crate::logger::Logger;
use crate::text::str_eq;

verus! {

/// The closed set of builtin operations, resolved from a program name once at
/// dispatch.
#[derive(Clone, Copy, PartialEq, Eq, Structural, Debug)]
pub enum BuiltinOp {
    /// Print the alias table.
    ListAliases,
    /// Change the working directory to the first argument.
    ChangeDir,
    /// Terminate the whole shell process with status 0.
    Exit,
    /// Flip the process-wide debug-diagnostics flag.
    ToggleDebug,
}

/// The builtin operation a program name stands for, if any.
pub open spec fn builtin_op_of(program: Seq<char>) -> Option<BuiltinOp> {
    if program == "aliases"@ {
        Some(BuiltinOp::ListAliases)
    } else if program == "cd"@ {
        Some(BuiltinOp::ChangeDir)
    } else if program == "exit"@ {
        Some(BuiltinOp::Exit)
    } else if program == "+debug"@ {
        Some(BuiltinOp::ToggleDebug)
    } else {
        None
    }
}

/// The builtin the leading command dispatches to: only a leading command
/// classified as a builtin short-circuits the pipeline, and only when its
/// name resolves to a builtin operation.
pub open spec fn spec_first_builtin(cl: CommandListView) -> Option<BuiltinOp> {
    if cl.commands.len() > 0 && cl.commands[0].kind == CommandType::Builtin {
        builtin_op_of(cl.commands[0].program)
    } else {
        None
    }
}

/// Resolves a program name to its builtin operation.
pub fn builtin_op(program: &str) -> (r: Option<BuiltinOp>)
    ensures
        r == builtin_op_of(program@),
{
    if str_eq(program, "aliases") {
        Some(BuiltinOp::ListAliases)
    } else if str_eq(program, "cd") {
        Some(BuiltinOp::ChangeDir)
    } else if str_eq(program, "exit") {
        Some(BuiltinOp::Exit)
    } else if str_eq(program, "+debug") {
        Some(BuiltinOp::ToggleDebug)
    } else {
        None
    }
}

/// The shell core: its configuration, its parser, and its own diagnostics
/// flag.
pub struct Fesh {
    pub config: Config,
    pub input_parser: InputParser,
    pub logger: Logger,
}

impl Fesh {
    pub fn new(config: Config) -> (r: Fesh)
        ensures
            r.config == config,
            r.input_parser.logger.debug_enabled == false,
            r.logger.debug_enabled == false,
    {
        Fesh { config, input_parser: InputParser::new(), logger: Logger::new(false) }
    }

    /// Flips the debug flag of every component this core owns: the effect of
    /// the debug-toggle builtin on the core.
    pub fn toggle_logger(&mut self)
        ensures
            final(self).logger.debug_enabled == !old(self).logger.debug_enabled,
            final(self).input_parser.logger.debug_enabled == !old(
                self,
            ).input_parser.logger.debug_enabled,
            final(self).config == old(self).config,
    {
        self.input_parser.logger.toggle_debug();
        self.logger.toggle_debug();
    }

    /// The builtin the list's leading command dispatches to, if any. Only the
    /// first command of a list can be a builtin; a list whose first command
    /// is one is never run as a pipeline.
    pub fn check_first_builtin(&self, command_list: &CommandList) -> (r: Option<BuiltinOp>)
        ensures
            r == spec_first_builtin(command_list@),
    {
        if command_list.commands.len() > 0 {
            let first = &command_list.commands[0];
            match first.command_type {
                CommandType::Builtin => builtin_op(first.command.as_str()),
                CommandType::External => None,
            }
        } else {
            None
        }
    }
}

} // verus!
