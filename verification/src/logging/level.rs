//! How grave a message is.

use vstd::prelude::*;

verus! {

/// The levels of a message.
#[derive(Clone, Copy, Debug, PartialEq, Eq, Structural)]
pub enum LogLevel {
    Error,
    Warning,
    /// Shown only where the caller asks for it.
    Info,
}

/// How a level is written: its name in the colour of the level.
pub open spec fn level_text(level: LogLevel) -> Seq<char> {
    match level {
        LogLevel::Error => "\x1b[1;31mError"@,
        LogLevel::Warning => "\x1b[1;33mWarning"@,
        LogLevel::Info => "\x1b[1;34mInfo"@,
    }
}

impl LogLevel {
    /// Writes the level.
    pub fn to_string(&self) -> (text: String)
        ensures
            text@ == level_text(*self),
    {
        match self {
            LogLevel::Error => String::from_str("\x1b[1;31mError"),
            LogLevel::Warning => String::from_str("\x1b[1;33mWarning"),
            LogLevel::Info => String::from_str("\x1b[1;34mInfo"),
        }
    }
}

} // verus!
