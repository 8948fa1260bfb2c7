//! One message.

use crate::logging::level::{level_text, LogLevel};
use vstd::prelude::*;

verus! {

/// A message: its level and title, and where they are given the cause of
/// the problem, a longer text and a hint.
#[derive(Debug, PartialEq, Eq)]
pub struct Log {
    pub level: LogLevel,
    pub title: String,
    pub cause: String,
    pub message: String,
    pub hint: String,
}

/// What a `Log` stands for in contracts.
pub struct LogView {
    pub level: LogLevel,
    pub title: Seq<char>,
    pub cause: Seq<char>,
    pub message: Seq<char>,
    pub hint: Seq<char>,
}

impl View for Log {
    type V = LogView;

    open spec fn view(&self) -> LogView {
        LogView {
            level: self.level,
            title: self.title@,
            cause: self.cause@,
            message: self.message@,
            hint: self.hint@,
        }
    }
}

impl DeepView for Log {
    type V = LogView;

    open spec fn deep_view(&self) -> LogView {
        self@
    }
}

impl Clone for Log {
    fn clone(&self) -> (copy: Self)
        ensures
            copy == *self,
    {
        Log {
            level: self.level,
            title: self.title.clone(),
            cause: self.cause.clone(),
            message: self.message.clone(),
            hint: self.hint.clone(),
        }
    }
}

/// `text` with a margin behind each end of line.
pub open spec fn with_margin(text: Seq<char>) -> Seq<char>
    decreases text.len(),
{
    if text.len() == 0 {
        Seq::empty()
    } else if text.last() == '\n' {
        with_margin(text.drop_last()) + "\n | "@
    } else {
        with_margin(text.drop_last()).push(text.last())
    }
}

/// The line that a cause adds to a log.
pub open spec fn cause_text(cause: Seq<char>) -> Seq<char> {
    if cause.len() == 0 {
        Seq::empty()
    } else {
        "\n--> "@ + cause
    }
}

/// The lines that a message adds to a log.
pub open spec fn message_text(message: Seq<char>) -> Seq<char> {
    if message.len() == 0 {
        Seq::empty()
    } else {
        "\n |\n | "@ + with_margin(message)
    }
}

/// The lines that a hint adds to a log.
pub open spec fn hint_text(hint: Seq<char>) -> Seq<char> {
    if hint.len() == 0 {
        Seq::empty()
    } else {
        "\n |\n\x1b[1;34m | ? "@ + hint
    }
}

/// How a log is written. An information is one line, and is written only
/// where `with_infos` asks for it.
pub open spec fn log_text(log: LogView, with_infos: bool) -> Seq<char> {
    if log.level == LogLevel::Info {
        if with_infos {
            level_text(log.level) + ": "@ + log.title + "\x1b[0m"@ + "\x1b[0m\n"@
        } else {
            Seq::empty()
        }
    } else {
        level_text(log.level) + ": "@ + log.title + "\x1b[0m"@ + cause_text(log.cause)
            + message_text(log.message) + hint_text(log.hint) + "\n\x1b[0m\n"@
    }
}

/// Copies `text`, with a margin behind each end of line.
fn margin(text: &String) -> (out: String)
    ensures
        out@ == with_margin(text@),
{
    let source = text.as_str();
    let len = source.unicode_len();
    let mut out = String::new();
    let mut i: usize = 0;
    while i < len
        invariant
            i <= len,
            len == source@.len(),
            source@ == text@,
            out@ == with_margin(text@.take(i as int)),
        decreases len - i,
    {
        let c = source.get_char(i);
        proof {
            assert(text@.take(i + 1).drop_last() =~= text@.take(i as int));
            assert(text@.take(i + 1).last() == c);
        }
        out.append(source.substring_char(i, i + 1));
        assert(source@.subrange(i as int, i + 1) =~= seq![c]);
        if c == '\n' {
            proof {
                reveal_strlit("\n | ");
                reveal_strlit(" | ");
                assert(seq![c] + " | "@ =~= "\n | "@);
            }
            out.append(" | ");
            assert(out@ =~= with_margin(text@.take(i + 1)));
        } else {
            assert(out@ =~= with_margin(text@.take(i + 1)));
        }
        i += 1;
    }
    assert(text@.take(len as int) =~= text@);
    out
}

/// Whether `text` is empty.
fn is_empty(text: &String) -> (empty: bool)
    ensures
        empty == (text@.len() == 0),
{
    text.as_str().unicode_len() == 0
}

impl Log {
    /// A message of the given level.
    pub fn new(level: LogLevel, title: String, message: String) -> (log: Log)
        ensures
            log@ == (LogView {
                level,
                title: title@,
                cause: Seq::empty(),
                message: message@,
                hint: Seq::empty(),
            }),
    {
        Log { level, title, cause: String::new(), message, hint: String::new() }
    }

    /// An information, which is a title alone.
    pub fn info(title: String) -> (log: Log)
        ensures
            log@ == (LogView {
                level: LogLevel::Info,
                title: title@,
                cause: Seq::empty(),
                message: Seq::empty(),
                hint: Seq::empty(),
            }),
    {
        Log {
            level: LogLevel::Info,
            title,
            cause: String::new(),
            message: String::new(),
            hint: String::new(),
        }
    }

    /// Adds a cause. A second cause follows the first behind a comma.
    pub fn add_cause(&mut self, cause: String) -> (log: &mut Self)
        ensures
            log@ == (LogView {
                cause: if old(self)@.cause.len() == 0 {
                    cause@
                } else {
                    old(self)@.cause + ", "@ + cause@
                },
                ..old(self)@
            }),
            *final(self) == *final(log),
    {
        if !is_empty(&self.cause) {
            self.cause.append(", ");
        }
        self.cause.append(cause.as_str());
        assert(self.cause@ =~= if old(self)@.cause.len() == 0 {
            cause@
        } else {
            old(self)@.cause + ", "@ + cause@
        });
        self
    }

    /// Adds a hint, and hands back a copy of the log as it is then.
    pub fn add_hint(&mut self, hint: String) -> (log: Self)
        ensures
            final(self)@ == (LogView { hint: old(self)@.hint + hint@, ..old(self)@ }),
            log == *final(self),
    {
        self.hint.append(hint.as_str());
        self.clone()
    }

    /// A copy of the log.
    pub fn finish(&mut self) -> (log: Self)
        ensures
            log == *old(self),
            *final(self) == *old(self),
    {
        self.clone()
    }

    pub fn level(&self) -> (level: &LogLevel)
        ensures
            *level == self.level,
    {
        &self.level
    }

    /// Writes the log as the user reads it. An information is written only
    /// where `with_infos` asks for it.
    pub fn to_string(&self, with_infos: bool) -> (text: String)
        ensures
            text@ == log_text(self@, with_infos),
    {
        let mut to_write = String::new();
        if self.level == LogLevel::Info && !with_infos {
            return to_write;
        }
        to_write.append(self.level.to_string().as_str());
        to_write.append(": ");
        to_write.append(self.title.as_str());
        to_write.append("\x1b[0m");
        if self.level == LogLevel::Info {
            to_write.append("\x1b[0m\n");
            return to_write;
        }
        if !is_empty(&self.cause) {
            to_write.append("\n--> ");
            to_write.append(self.cause.as_str());
        }
        if !is_empty(&self.message) {
            to_write.append("\n |\n | ");
            to_write.append(margin(&self.message).as_str());
        }
        if !is_empty(&self.hint) {
            to_write.append("\n |\n\x1b[1;34m | ? ");
            to_write.append(self.hint.as_str());
        }
        to_write.append("\n\x1b[0m\n");
        assert(to_write@ =~= log_text(self@, with_infos));
        to_write
    }
}

} // verus!
