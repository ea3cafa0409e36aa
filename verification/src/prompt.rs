//! The prompt: its text, its display color, and which pieces of context it
//! shows. Painting the text with terminal escapes is the surrounding
//! program's work; the text itself is assembled here.

use vstd::prelude::*;
use vstd::string::*;
use crate::text::str_eq;

verus! {

/// A prompt color, by name.
#[derive(Clone, Copy, PartialEq, Eq, Structural, Debug)]
pub enum Color {
    Black,
    Red,
    Green,
    Yellow,
    Blue,
    Magenta,
    Cyan,
    White,
    BrightBlack,
    BrightRed,
    BrightGreen,
    BrightYellow,
    BrightBlue,
    BrightMagenta,
    BrightCyan,
    BrightWhite,
}

/// The color a lowercased name stands for, if any: the bright names are
/// accepted with a space or an underscore.
pub open spec fn color_of_name(s: Seq<char>) -> Option<Color> {
    if s == "black"@ {
        Some(Color::Black)
    } else if s == "red"@ {
        Some(Color::Red)
    } else if s == "green"@ {
        Some(Color::Green)
    } else if s == "yellow"@ {
        Some(Color::Yellow)
    } else if s == "blue"@ {
        Some(Color::Blue)
    } else if s == "magenta"@ {
        Some(Color::Magenta)
    } else if s == "cyan"@ {
        Some(Color::Cyan)
    } else if s == "white"@ {
        Some(Color::White)
    } else if s == "bright black"@ || s == "bright_black"@ {
        Some(Color::BrightBlack)
    } else if s == "bright red"@ || s == "bright_red"@ {
        Some(Color::BrightRed)
    } else if s == "bright green"@ || s == "bright_green"@ {
        Some(Color::BrightGreen)
    } else if s == "bright yellow"@ || s == "bright_yellow"@ {
        Some(Color::BrightYellow)
    } else if s == "bright blue"@ || s == "bright_blue"@ {
        Some(Color::BrightBlue)
    } else if s == "bright magenta"@ || s == "bright_magenta"@ {
        Some(Color::BrightMagenta)
    } else if s == "bright cyan"@ || s == "bright_cyan"@ {
        Some(Color::BrightCyan)
    } else if s == "bright white"@ || s == "bright_white"@ {
        Some(Color::BrightWhite)
    } else {
        None
    }
}

/// Resolves a lowercased color name.
pub fn color_from_name(s: &str) -> (r: Option<Color>)
    ensures
        r == color_of_name(s@),
{
    if str_eq(s, "black") {
        Some(Color::Black)
    } else if str_eq(s, "red") {
        Some(Color::Red)
    } else if str_eq(s, "green") {
        Some(Color::Green)
    } else if str_eq(s, "yellow") {
        Some(Color::Yellow)
    } else if str_eq(s, "blue") {
        Some(Color::Blue)
    } else if str_eq(s, "magenta") {
        Some(Color::Magenta)
    } else if str_eq(s, "cyan") {
        Some(Color::Cyan)
    } else if str_eq(s, "white") {
        Some(Color::White)
    } else if str_eq(s, "bright black") || str_eq(s, "bright_black") {
        Some(Color::BrightBlack)
    } else if str_eq(s, "bright red") || str_eq(s, "bright_red") {
        Some(Color::BrightRed)
    } else if str_eq(s, "bright green") || str_eq(s, "bright_green") {
        Some(Color::BrightGreen)
    } else if str_eq(s, "bright yellow") || str_eq(s, "bright_yellow") {
        Some(Color::BrightYellow)
    } else if str_eq(s, "bright blue") || str_eq(s, "bright_blue") {
        Some(Color::BrightBlue)
    } else if str_eq(s, "bright magenta") || str_eq(s, "bright_magenta") {
        Some(Color::BrightMagenta)
    } else if str_eq(s, "bright cyan") || str_eq(s, "bright_cyan") {
        Some(Color::BrightCyan)
    } else if str_eq(s, "bright white") || str_eq(s, "bright_white") {
        Some(Color::BrightWhite)
    } else {
        None
    }
}

/// The text a prompt shows: the working directory and the user name where
/// asked for, then the prompt text, joined by single spaces.
pub open spec fn prompt_text_spec(
    show_cwd: bool,
    show_user: bool,
    cwd: Seq<char>,
    user: Seq<char>,
    text: Seq<char>,
) -> Seq<char> {
    if show_cwd && show_user {
        cwd + " "@ + user + " "@ + text
    } else if show_cwd {
        cwd + " "@ + text
    } else if show_user {
        user + " "@ + text
    } else {
        text
    }
}

/// Prompt rendering parameters.
pub struct Prompt {
    pub prompt: String,
    pub color: Color,
    pub show_cwd: bool,
    pub show_user: bool,
    pub show_branch: bool,
}

impl Prompt {
    pub fn new(prompt: String, color: Color, show_cwd: bool, show_user: bool, show_branch: bool) -> (r:
        Prompt)
        ensures
            r.prompt@ == prompt@,
            r.color == color,
            r.show_cwd == show_cwd,
            r.show_user == show_user,
            r.show_branch == show_branch,
    {
        Prompt { prompt, color, show_cwd, show_user, show_branch }
    }

    /// Assembles the prompt's text from the given working directory and user
    /// name, honoring the prompt's flags.
    pub fn prompt_text(&self, cwd: &str, user: &str) -> (r: String)
        ensures
            r@ == prompt_text_spec(self.show_cwd, self.show_user, cwd@, user@, self.prompt@),
    {
        let mut out = String::new();
        if self.show_cwd {
            out.append(cwd);
            out.append(" ");
        }
        if self.show_user {
            out.append(user);
            out.append(" ");
        }
        out.append(self.prompt.as_str());
        proof {
            assert(out@ =~= prompt_text_spec(
                self.show_cwd,
                self.show_user,
                cwd@,
                user@,
                self.prompt@,
            ));
        }
        out
    }
}

} // verus!
