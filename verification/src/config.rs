//! The shell's static configuration: prompt parameters, alias table, line
//! editing mode, history location, and extra environment entries. Loading it
//! from a file is the surrounding program's work.

use vstd::prelude::*;
use crate::bindings::Bindings;
use crate::prompt::Prompt;
use crate::text::str_eq;

verus! {

/// The line-editing mode the input reader runs in.
#[derive(Clone, Copy, PartialEq, Eq, Structural, Debug)]
pub enum EditMode {
    Emacs,
    Vi,
}

/// The edit mode a configured name stands for. A name that is neither
/// `emacs` nor `vi` is a fatal configuration error.
pub open spec fn edit_mode_of(s: Seq<char>) -> Option<EditMode> {
    if s == "emacs"@ {
        Some(EditMode::Emacs)
    } else if s == "vi"@ {
        Some(EditMode::Vi)
    } else {
        None
    }
}

/// Resolves a configured edit-mode name.
pub fn edit_mode(s: &str) -> (r: Option<EditMode>)
    ensures
        r == edit_mode_of(s@),
{
    if str_eq(s, "emacs") {
        Some(EditMode::Emacs)
    } else if str_eq(s, "vi") {
        Some(EditMode::Vi)
    } else {
        None
    }
}

/// Line-editing configuration.
pub struct ReadlineConfig {
    pub edit_mode: String,
}

/// Where the input history is kept.
pub struct HistoryConfig {
    pub history_path: String,
}

/// The shell's configuration, read once at startup and read-only afterwards.
pub struct Config {
    pub prompt: Prompt,
    pub aliases: Bindings,
    pub readline: ReadlineConfig,
    pub history: HistoryConfig,
    pub env: Bindings,
}

} // verus!
