//! Log lines: a level tag and a message, wrapped in an ANSI colour.
//!
//! The functions here build the line; printing it is left to the caller.

use vstd::prelude::*;
use vstd::string::StringExecFns;

verus! {

/// The colours a log line can be printed in.
#[derive(Clone, Copy, Debug, PartialEq, Eq, Structural)]
pub enum Color {
    Red,
    Green,
    Blue,
}

/// The escape sequence that switches the terminal to `color`.
pub open spec fn ansi_code(color: Color) -> Seq<char> {
    match color {
        Color::Red => "\x1b[31m"@,
        Color::Green => "\x1b[32m"@,
        Color::Blue => "\x1b[34m"@,
    }
}

/// A whole log line: colour on, `[level] message`, colour off.
pub open spec fn log_line(color: Color, level: Seq<char>, message: Seq<char>) -> Seq<char> {
    ansi_code(color) + "["@ + level + "] "@ + message + "\x1b[0m"@
}

pub fn color_to_ansi(color: &Color) -> (code: &'static str)
    ensures
        code@ == ansi_code(*color),
{
    match color {
        Color::Red => "\x1b[31m",
        Color::Green => "\x1b[32m",
        Color::Blue => "\x1b[34m",
    }
}

/// Builds the line that reports `message` at `level` in `color`.
pub fn format_line(color: &Color, level: &str, message: &str) -> (line: String)
    ensures
        line@ == log_line(*color, level@, message@),
{
    let mut line = String::from_str(color_to_ansi(color));
    line.append("[");
    line.append(level);
    line.append("] ");
    line.append(message);
    line.append("\x1b[0m");
    line
}

/// The line for an informational message: blue, tagged `INFO`.
pub fn info(message: &String) -> (line: String)
    ensures
        line@ == log_line(Color::Blue, "INFO"@, message@),
{
    format_line(&Color::Blue, "INFO", message.as_str())
}

/// The line for an error message: red, tagged `ERR!`.
pub fn error(message: &String) -> (line: String)
    ensures
        line@ == log_line(Color::Red, "ERR!"@, message@),
{
    format_line(&Color::Red, "ERR!", message.as_str())
}

/// The line for a completion message: green, tagged `DONE`.
pub fn done(message: &String) -> (line: String)
    ensures
        line@ == log_line(Color::Green, "DONE"@, message@),
{
    format_line(&Color::Green, "DONE", message.as_str())
}

} // verus!
