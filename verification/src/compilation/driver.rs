//! What is run around the code generator: the names of the files it
//! writes, and the arguments of the assembler and the linker.

use crate::args::{Args, Dict, flag_text};
use crate::compilation::data::CompilerData;
use crate::logging::level::LogLevel;
use crate::logging::log::{Log, LogView};
use crate::logging::logger::Logger;
use crate::platform::{get_from_id, Platform, platform_of, platform_text};
use crate::strings::manager::{is_language, spoken, StringsManager};

use crate::text::{
    concat, directory_of, directory_text, fill, filled, lowercase, remove_every, to_lowercase,
    without_every,
};
use vstd::prelude::*;

verus! {

/// The module that the source file `source` holds: the name of the file
/// without its extension, which is taken out wherever it stands in the
/// name.
pub fn module_name(source: &String) -> (module: String)
    ensures
        module@ == without_every(source@, ".ju"@, 0),
{
    remove_every(source.as_str(), ".ju")
}

/// The file `source` in the directory `directory`, with `extension` behind
/// it.
pub open spec fn file_text(directory: Seq<char>, source: Seq<char>, extension: Seq<char>) -> Seq<
    char,
> {
    directory + "/"@ + source + extension
}

/// The name of the assembly file of the source file `source_path`.
pub fn assembly_file(output_dir: &String, source_path: &String) -> (path: String)
    ensures
        path@ == file_text(output_dir@, source_path@, ".asm"@),
{
    let mut path = concat(output_dir.as_str(), "/");
    path.append(source_path.as_str());
    path.append(".asm");
    path
}

/// The name of the object file of the source file `source_path`.
pub fn object_file(output_dir: &String, source_path: &String) -> (path: String)
    ensures
        path@ == file_text(output_dir@, source_path@, ".o"@),
{
    let mut path = concat(output_dir.as_str(), "/");
    path.append(source_path.as_str());
    path.append(".o");
    path
}

/// The arguments with which the assembler turns the assembly file of
/// `source_path` into its object file.
pub fn assembler_arguments(output_dir: &String, source_path: &String) -> (arguments: Vec<String>)
    ensures
        arguments.deep_view() == seq![
            file_text(output_dir@, source_path@, ".asm"@),
            "-felf64"@,
            "-o"@,
            file_text(output_dir@, source_path@, ".o"@),
        ],
{
    let mut arguments: Vec<String> = Vec::new();
    arguments.push(assembly_file(output_dir, source_path));
    arguments.push(String::from_str("-felf64"));
    arguments.push(String::from_str("-o"));
    arguments.push(object_file(output_dir, source_path));
    assert(arguments.deep_view() =~= seq![
        file_text(output_dir@, source_path@, ".asm"@),
        "-felf64"@,
        "-o"@,
        file_text(output_dir@, source_path@, ".o"@),
    ]);
    arguments
}

/// The name of the linked file: the value of the option `-o`, or the
/// default name.
pub open spec fn output_text(options: Map<Seq<char>, Seq<char>>) -> Seq<char> {
    if options.dom().contains(flag_text('o')) {
        options[flag_text('o')]
    } else {
        "junon.out"@
    }
}

/// The name of the linked file.
pub fn output_path(options: &Dict) -> (path: String)
    ensures
        path@ == output_text(options@),
{
    match Args::when_flag('o', options) {
        Some(path) => path,
        None => String::from_str("junon.out"),
    }
}

/// The directory in which the files of the compilation are written: that
/// of the linked file where the option `-o` names it, else none.
pub fn output_directory(options: &Dict) -> (directory: String)
    ensures
        directory@ == if options@.dom().contains(flag_text('o')) {
            directory_text(options@[flag_text('o')])
        } else {
            Seq::<char>::empty()
        },
{
    match Args::when_flag('o', options) {
        Some(path) => directory_of(path.as_str()),
        None => String::new(),
    }
}

/// The object files of `sources`, in their order.
pub open spec fn object_texts(output_dir: Seq<char>, sources: Seq<Seq<char>>) -> Seq<Seq<char>> {
    Seq::new(sources.len(), |i: int| file_text(output_dir, sources[i], ".o"@))
}

/// The arguments of the linker: the name of the linked file, the file to
/// add where the option `-a` names one, the switch for a library, and the
/// object files in the order of the sources.
pub open spec fn linker_texts(
    is_library: bool,
    sources: Seq<Seq<char>>,
    options: Map<Seq<char>, Seq<char>>,
    output_dir: Seq<char>,
) -> Seq<Seq<char>> {
    linker_head(is_library, options) + object_texts(output_dir, sources)
}

/// The arguments of the linker that stand before the object files.
pub open spec fn linker_head(is_library: bool, options: Map<Seq<char>, Seq<char>>) -> Seq<
    Seq<char>,
> {
    let added = if options.dom().contains(flag_text('a')) {
        seq![options[flag_text('a')]]
    } else {
        Seq::<Seq<char>>::empty()
    };
    let shared = if is_library {
        seq!["-shared"@]
    } else {
        Seq::<Seq<char>>::empty()
    };
    seq!["-o"@, output_text(options)] + added + shared
}

/// The arguments with which the linker links the object files of all
/// sources.
pub fn linker_arguments(data: &CompilerData, output_dir: &String) -> (arguments: Vec<String>)
    ensures
        arguments.deep_view() == linker_texts(
            data.is_library,
            data.sources.deep_view(),
            data.options@,
            output_dir@,
        ),
{
    let mut arguments: Vec<String> = Vec::new();
    arguments.push(String::from_str("-o"));
    arguments.push(output_path(&data.options));
    match Args::when_flag('a', &data.options) {
        Some(to_add) => {
            arguments.push(to_add);
        },
        None => {},
    }
    if data.is_library {
        arguments.push(String::from_str("-shared"));
    }
    let ghost head = arguments.deep_view();
    assert(head =~= linker_head(data.is_library, data.options@));
    let mut i: usize = 0;
    while i < data.sources.len()
        invariant
            i <= data.sources.len(),
            arguments.deep_view() == head + object_texts(
                output_dir@,
                data.sources.deep_view().take(i as int),
            ),
        decreases data.sources.len() - i,
    {
        let ghost before = arguments.deep_view();
        let object = object_file(output_dir, &data.sources[i]);
        arguments.push(object);
        proof {
            let sources = data.sources.deep_view();
            assert(arguments.deep_view() =~= before.push(object@));
            assert(sources.take(i + 1)[i as int] == data.sources[i as int]@);
            assert(object_texts(output_dir@, sources.take(i + 1)) =~= object_texts(
                output_dir@,
                sources.take(i as int),
            ).push(object@));
            assert(arguments.deep_view() =~= head + object_texts(
                output_dir@,
                sources.take(i + 1),
            ));
        }
        i += 1;
    }
    assert(data.sources.deep_view().take(data.sources.len() as int) =~= data.sources.deep_view());
    arguments
}

/// Where a compilation starts: the messages for the user, the platform
/// for which code is generated, and what the command line asks.
#[derive(Debug)]
pub struct Start {
    pub logger: Logger,
    pub platform: Platform,
    pub data: CompilerData,
}

/// Whether `name` is the name of a platform that is known.
pub open spec fn names_platform(name: Seq<char>) -> bool {
    name == "android"@ || name == "ios"@ || name == "linux"@ || name == "macos"@ || name
        == "windows"@
}

/// Whether code is asked for a platform that is not known: the option
/// `-p` gives a name that names none, or no such option is given and
/// `current` is not known.
pub open spec fn asks_unknown_platform(options: Map<Seq<char>, Seq<char>>, current: Platform) -> bool {
    if options.dom().contains(flag_text('p')) {
        !names_platform(lowercase(options[flag_text('p')]))
    } else {
        current is Unknown
    }
}

/// Whether `sm` holds the texts that the start of a compilation shows,
/// in a language that the program speaks: the title that tells of a
/// library where one is built, and the texts of the error where the
/// platform is not known. Where neither is shown nothing is asked of `sm`.
pub open spec fn has_start_texts(sm: StringsManager, is_library: bool, unknown: bool) -> bool {
    &&& is_library ==> is_language(sm.speak_lang@)
        && sm.deserialized.logs.infos.library_building.title is Some
    &&& unknown ==> is_language(sm.speak_lang@) && sm.deserialized.logs.errors.platform.title is Some
        && sm.deserialized.logs.errors.platform.message is Some
        && sm.deserialized.logs.errors.platform.hint is Some
}

/// The platform for which code is generated: the one that the option `-p`
/// names, in small letters, or else `current`.
pub open spec fn chosen_platform(options: Dict, current: Platform, chosen: Platform) -> bool {
    if options@.dom().contains(flag_text('p')) {
        exists|id: String| id@ == lowercase(options@[flag_text('p')]) && chosen == platform_of(id)
    } else {
        chosen == current
    }
}

/// The message that tells for which platform code is generated.
pub open spec fn platform_info(platform: Platform) -> LogView {
    LogView {
        level: LogLevel::Info,
        title: "Platform : '"@ + platform_text(platform) + "'"@,
        cause: Seq::empty(),
        message: Seq::empty(),
        hint: Seq::empty(),
    }
}

/// The message that tells that a library is built.
pub open spec fn library_info(sm: StringsManager) -> LogView {
    LogView {
        level: LogLevel::Info,
        title: spoken(sm.deserialized.logs.infos.library_building.title->Some_0, sm.speak_lang@)@,
        cause: Seq::empty(),
        message: Seq::empty(),
        hint: Seq::empty(),
    }
}

/// The error for a platform that is not known by the name `id`.
pub open spec fn platform_error(sm: StringsManager, id: Seq<char>) -> LogView {
    LogView {
        level: LogLevel::Error,
        title: spoken(sm.deserialized.logs.errors.platform.title->Some_0, sm.speak_lang@)@,
        cause: Seq::empty(),
        message: filled(
            spoken(sm.deserialized.logs.errors.platform.message->Some_0, sm.speak_lang@)@,
            id,
        ),
        hint: filled(
            spoken(sm.deserialized.logs.errors.platform.hint->Some_0, sm.speak_lang@)@,
            "Android, IOS, Linux, MacOS, Windows"@,
        ),
    }
}

/// The messages with which a compilation starts: that a library is built,
/// where it is; the platform; and an error where the platform is not
/// known.
pub open spec fn start_logs(sm: StringsManager, is_library: bool, platform: Platform) -> Seq<
    LogView,
> {
    let library = if is_library {
        seq![library_info(sm)]
    } else {
        Seq::<LogView>::empty()
    };
    let unknown = match platform {
        Platform::Unknown(id) => seq![platform_error(sm, id@)],
        _ => Seq::<LogView>::empty(),
    };
    library + seq![platform_info(platform)] + unknown
}

/// Prepares a compilation from what the command line asks: a library is
/// built where the option `-l` is given; code is generated for the
/// platform that the option `-p` names, or else for `current`, the
/// platform on which the compiler runs. The messages tell both, and hold
/// an error where the platform is not known. Nothing is prepared where
/// `sm` lacks a text that the messages show.
pub fn run_compiler(sources: &Vec<String>, options: &Dict, sm: &StringsManager, current: Platform) -> (start:
    Option<Start>)
    ensures
        start is Some <==> has_start_texts(
            *sm,
            options@.dom().contains(flag_text('l')),
            asks_unknown_platform(options@, current),
        ),
        start matches Some(start) ==> {
            &&& start.data.is_library == options@.dom().contains(flag_text('l'))
            &&& start.data.sources.deep_view() == sources.deep_view()
            &&& start.data.options@ == options@
            &&& chosen_platform(*options, current, start.platform)
            &&& start.platform is Unknown == asks_unknown_platform(options@, current)
            &&& start.logger@ == start_logs(*sm, start.data.is_library, start.platform)
        },
{
    let mut logger = Logger::new();
    let is_library = Args::when_flag('l', options).is_some();
    let platform = match Args::when_flag('p', options) {
        Some(platform_id) => get_from_id(to_lowercase(platform_id.as_str())),
        None => current,
    };
    let unknown = match &platform {
        Platform::Unknown(_) => true,
        _ => false,
    };
    assert(unknown == asks_unknown_platform(options@, current));
    if is_library {
        let title = match &sm.deserialized.logs.infos.library_building.title {
            Some(title) => title,
            None => {
                return None;
            },
        };
        if !sm.speaks_known_language() {
            return None;
        }
        logger.add_log(Log::info(title.get(sm)));
    }
    let mut title = concat("Platform : '", platform.to_string().as_str());
    title.append("'");
    logger.add_log(Log::info(title));
    match &platform {
        Platform::Unknown(invalid_platform_id) => {
            let texts = &sm.deserialized.logs.errors.platform;
            if !sm.speaks_known_language() || texts.title.is_none() || texts.message.is_none()
                || texts.hint.is_none() {
                return None;
            }
            logger.add_log(unknown_platform(sm, invalid_platform_id));
        },
        _ => {},
    }
    let data = CompilerData {
        is_library,
        sources: copy_of(sources),
        options: options.clone(),
    };
    assert(logger@ =~= start_logs(*sm, is_library, platform));
    Some(Start { logger, platform, data })
}

/// The error for a platform that is not known.
fn unknown_platform(sm: &StringsManager, invalid_platform_id: &String) -> (log: Log)
    requires
        has_start_texts(*sm, false, true),
    ensures
        log@ == platform_error(*sm, invalid_platform_id@),
{
    let texts = &sm.deserialized.logs.errors.platform;
    let title = match &texts.title {
        Some(title) => title.get(sm),
        None => String::new(),
    };
    let message = match &texts.message {
        Some(message) => message.get(sm),
        None => String::new(),
    };
    let hint = match &texts.hint {
        Some(hint) => hint.get(sm),
        None => String::new(),
    };
    let mut log = Log::new(
        LogLevel::Error,
        title,
        fill(message.as_str(), invalid_platform_id.as_str()),
    );
    let log = log.add_hint(fill(hint.as_str(), crate::platform::AVAILABLE_PLATFORMS));
    assert(log@.hint =~= platform_error(*sm, invalid_platform_id@).hint);
    log
}

/// A copy of `texts`.
fn copy_of(texts: &Vec<String>) -> (copy: Vec<String>)
    ensures
        copy.deep_view() == texts.deep_view(),
{
    let mut copy: Vec<String> = Vec::new();
    let mut i: usize = 0;
    while i < texts.len()
        invariant
            i <= texts.len(),
            copy.len() == i,
            forall|k: int| 0 <= k < i ==> (#[trigger] copy[k])@ == texts[k]@,
        decreases texts.len() - i,
    {
        copy.push(texts[i].clone());
        i += 1;
    }
    assert(copy.deep_view() =~= texts.deep_view());
    copy
}

} // verus!
