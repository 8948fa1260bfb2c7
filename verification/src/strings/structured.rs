//! The shape of the table of texts.

use vstd::prelude::*;

verus! {

/// One text in English, and where they exist in French and German.
#[derive(Clone, Debug, PartialEq, Eq)]
pub struct MultiString {
    pub en: String,
    pub fr: Option<String>,
    pub de: Option<String>,
}

/// The texts of one message.
#[derive(Clone, Debug, PartialEq, Eq)]
pub struct Log {
    pub title: Option<MultiString>,
    pub message: Option<MultiString>,
    pub hint: Option<MultiString>,
}

/// The texts of the errors.
#[derive(Clone, Debug, PartialEq, Eq)]
pub struct Errors {
    pub no_given_arguments: Log,
    pub invalid_path_or_not_a_directory: Log,
    pub source_file_does_not_exist: Log,
    pub invalid_file_extension: Log,
    pub wrong_file_extension: Log,
    pub no_file_extension: Log,
    pub execution_failed: Log,
    pub platform: Log,
}

/// The texts of the informations.
#[derive(Clone, Debug, PartialEq, Eq)]
pub struct Infos {
    pub library_building: Log,
    pub working_directory: Log,
    pub ignored_option_flag: Log,
    pub finished: Log,
}

/// The texts of all messages.
#[derive(Clone, Debug, PartialEq, Eq)]
pub struct Logs {
    pub infos: Infos,
    pub errors: Errors,
}

/// The lines of the help page that describe the flags.
#[derive(Clone, Debug, PartialEq, Eq)]
pub struct HelpAvailableFlags {
    pub title: MultiString,
    pub h: MultiString,
    pub l: MultiString,
    pub p: MultiString,
    pub o: MultiString,
    pub d: MultiString,
    pub a: MultiString,
    pub s: MultiString,
}

/// The lines of the help page that describe the arguments.
#[derive(Clone, Debug, PartialEq, Eq)]
pub struct HelpArguments {
    pub sources: MultiString,
    pub options: MultiString,
}

/// The help page.
#[derive(Clone, Debug, PartialEq, Eq)]
pub struct Help {
    pub title: MultiString,
    pub arguments: HelpArguments,
    pub available_flags: HelpAvailableFlags,
}

/// All texts of the program.
#[derive(Clone, Debug, PartialEq, Eq)]
pub struct Strings {
    pub help: Help,
    pub logs: Logs,
}

} // verus!
