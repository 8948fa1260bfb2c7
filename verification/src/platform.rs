//! The platforms that code can be compiled for.

use crate::logging::level::LogLevel;
use crate::logging::log::{Log, LogView};
use crate::text::{concat, debug_text, is_text, to_debug};
use vstd::prelude::*;

verus! {

/// The names of the platforms that are known, for messages.
pub const AVAILABLE_PLATFORMS: &'static str = "Android, IOS, Linux, MacOS, Windows";

/// A platform, or the name of one that is not known.
#[derive(Debug, PartialEq, Eq)]
pub enum Platform {
    Android,
    IOS,
    Linux,
    MacOS,
    Windows,
    /// A platform that is not known, by the name that was given for it.
    Unknown(String),
}

impl Clone for Platform {
    fn clone(&self) -> (copy: Self)
        ensures
            copy == *self,
    {
        match self {
            Platform::Android => Platform::Android,
            Platform::IOS => Platform::IOS,
            Platform::Linux => Platform::Linux,
            Platform::MacOS => Platform::MacOS,
            Platform::Windows => Platform::Windows,
            Platform::Unknown(id) => Platform::Unknown(id.clone()),
        }
    }
}

/// The platform that is written `platform_id`, in small letters.
pub open spec fn platform_of(platform_id: String) -> Platform {
    if platform_id@ == "android"@ {
        Platform::Android
    } else if platform_id@ == "ios"@ {
        Platform::IOS
    } else if platform_id@ == "linux"@ {
        Platform::Linux
    } else if platform_id@ == "macos"@ {
        Platform::MacOS
    } else if platform_id@ == "windows"@ {
        Platform::Windows
    } else {
        Platform::Unknown(platform_id)
    }
}

/// The platform that is written `platform_id`. The name is read in small
/// letters only; any other name gives `Unknown` with the name itself.
pub fn get_from_id(platform_id: String) -> (platform: Platform)
    ensures
        platform == platform_of(platform_id),
{
    if is_text(&platform_id, "android") {
        Platform::Android
    } else if is_text(&platform_id, "ios") {
        Platform::IOS
    } else if is_text(&platform_id, "linux") {
        Platform::Linux
    } else if is_text(&platform_id, "macos") {
        Platform::MacOS
    } else if is_text(&platform_id, "windows") {
        Platform::Windows
    } else {
        Platform::Unknown(platform_id)
    }
}

/// The name of `platform`, as messages show it: a name that is not known
/// is shown as the standard library writes a string for debugging.
pub open spec fn platform_text(platform: Platform) -> Seq<char> {
    match platform {
        Platform::Android => "Android"@,
        Platform::IOS => "IOS"@,
        Platform::Linux => "Linux"@,
        Platform::MacOS => "MacOS"@,
        Platform::Windows => "Windows"@,
        Platform::Unknown(id) => "Unknown("@ + debug_text(id@) + ")"@,
    }
}

impl Platform {
    /// The name of the platform, as messages show it.
    pub fn to_string(&self) -> (text: String)
        ensures
            text@ == platform_text(*self),
    {
        match self {
            Platform::Android => String::from_str("Android"),
            Platform::IOS => String::from_str("IOS"),
            Platform::Linux => String::from_str("Linux"),
            Platform::MacOS => String::from_str("MacOS"),
            Platform::Windows => String::from_str("Windows"),
            Platform::Unknown(id) => {
                let mut text = String::from_str("Unknown(");
                text.append(to_debug(id.as_str()).as_str());
                text.append(")");
                text
            },
        }
    }
}

/// The message for a program that was run and wrote `program_result` to
/// its error stream: none where it wrote nothing, else an error that
/// carries what it wrote.
pub fn exec_report(program_id: &String, program_result: String) -> (log: Option<Log>)
    ensures
        program_result@.len() == 0 ==> log is None,
        program_result@.len() > 0 ==> log is Some && log->Some_0@ == (LogView {
            level: LogLevel::Error,
            title: "Execution of '"@ + program_id@ + "' failed"@,
            cause: Seq::empty(),
            message: program_result@,
            hint: "The called program may be not installed. It could be a bug from 'juc' or the called program"@,
        }),
{
    if program_result.as_str().unicode_len() == 0 {
        return None;
    }
    let mut title = concat("Execution of '", program_id.as_str());
    title.append("' failed");
    let mut log = Log::new(LogLevel::Error, title, program_result);
    let log = log.add_hint(
        String::from_str(
            "The called program may be not installed. It could be a bug from 'juc' or the called program",
        ),
    );
    assert(log@.hint =~= "The called program may be not installed. It could be a bug from 'juc' or the called program"@);
    Some(log)
}

} // verus!
