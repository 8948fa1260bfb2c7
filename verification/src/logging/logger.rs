//! The messages of one step of the program, kept until they are shown.

use crate::logging::level::LogLevel;
use crate::logging::log::{Log, log_text, LogView};
use vstd::prelude::*;

verus! {

/// A list of messages, the oldest first.
#[derive(Debug, PartialEq, Eq)]
pub struct Logger {
    pub logs: Vec<Log>,
}

impl View for Logger {
    type V = Seq<LogView>;

    open spec fn view(&self) -> Seq<LogView> {
        self.logs.deep_view()
    }
}

/// Whether one of `logs` is an error.
pub open spec fn has_error(logs: Seq<LogView>) -> bool {
    exists|i: int| 0 <= i < logs.len() && (#[trigger] logs[i]).level == LogLevel::Error
}

/// The text of `logs`, one behind the other.
pub open spec fn logs_text(logs: Seq<LogView>, with_infos: bool) -> Seq<char>
    decreases logs.len(),
{
    if logs.len() == 0 {
        Seq::empty()
    } else {
        logs_text(logs.drop_last(), with_infos) + log_text(logs.last(), with_infos)
    }
}

/// What is to be done with the messages of a logger: the text to show, and
/// whether the program has to stop behind it.
#[derive(Debug, PartialEq, Eq)]
pub struct Report {
    pub output: String,
    pub fatal: bool,
}

impl Clone for Logger {
    fn clone(&self) -> (copy: Self)
        ensures
            copy@ == self@,
    {
        let mut logs: Vec<Log> = Vec::new();
        let mut i: usize = 0;
        while i < self.logs.len()
            invariant
                i <= self.logs.len(),
                logs.len() == i,
                forall|k: int| 0 <= k < i ==> (#[trigger] logs[k]) == self.logs[k],
            decreases self.logs.len() - i,
        {
            logs.push(self.logs[i].clone());
            i += 1;
        }
        let copy = Logger { logs };
        assert(copy@ =~= self@);
        copy
    }
}

impl Logger {
    /// A logger without messages.
    pub fn new() -> (logger: Logger)
        ensures
            logger@ == Seq::<LogView>::empty(),
    {
        let logger = Logger { logs: Vec::new() };
        assert(logger@ =~= Seq::<LogView>::empty());
        logger
    }

    /// Adds `log` behind the messages that are there.
    pub fn add_log(&mut self, log: Log)
        ensures
            final(self)@ == old(self)@.push(log@),
    {
        self.logs.push(log);
        assert(self@ =~= old(self)@.push(log@));
    }

    /// Whether one of the messages is an error.
    pub fn has_error(&self) -> (found: bool)
        ensures
            found == has_error(self@),
    {
        let mut i: usize = 0;
        while i < self.logs.len()
            invariant
                i <= self.logs.len(),
                forall|k: int| 0 <= k < i ==> (#[trigger] self@[k]).level != LogLevel::Error,
            decreases self.logs.len() - i,
        {
            if self.logs[i].level == LogLevel::Error {
                assert(self@[i as int].level == LogLevel::Error);
                return true;
            }
            i += 1;
        }
        false
    }

    /// The text of all messages, in their order. Informations are written
    /// only where `with_infos` asks for them.
    pub fn render_all(&self, with_infos: bool) -> (text: String)
        ensures
            text@ == logs_text(self@, with_infos),
    {
        let mut text = String::new();
        let mut i: usize = 0;
        while i < self.logs.len()
            invariant
                i <= self.logs.len(),
                text@ == logs_text(self@.take(i as int), with_infos),
            decreases self.logs.len() - i,
        {
            text.append(self.logs[i].to_string(with_infos).as_str());
            proof {
                assert(self@.take(i + 1).drop_last() =~= self@.take(i as int));
                assert(self@.take(i + 1).last() == self.logs[i as int]@);
            }
            i += 1;
        }
        assert(self@.take(self.logs.len() as int) =~= self@);
        text
    }

    /// `Ok` where no message is an error, else a copy of the logger.
    pub fn get_result(&self) -> (result: Result<(), Self>)
        ensures
            has_error(self@) ==> result is Err && result->Err_0@ == self@,
            !has_error(self@) ==> result is Ok,
    {
        self.get_result_with_value::<()>(())
    }

    /// `value` where no message is an error, else a copy of the logger.
    pub fn get_result_with_value<T>(&self, value: T) -> (result: Result<T, Self>)
        ensures
            has_error(self@) ==> result is Err && result->Err_0@ == self@,
            !has_error(self@) ==> result == Ok::<T, Self>(value),
    {
        if self.has_error() {
            Err(self.clone())
        } else {
            Ok(value)
        }
    }

    /// What is to be done with the messages: all of them are to be shown,
    /// and the program has to stop if one of them is an error.
    pub fn interpret(&self, with_infos: bool) -> (report: Report)
        ensures
            report.output@ == logs_text(self@, with_infos),
            report.fatal == has_error(self@),
    {
        Report { output: self.render_all(with_infos), fatal: self.has_error() }
    }
}

} // verus!
