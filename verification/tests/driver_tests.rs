use juc::args::{Args, Dict};
use juc::compilation::compilers::linux::LinuxCompiler;
use juc::compilation::data::CompilerData;
use juc::compilation::driver::{
    assembler_arguments, assembly_file, linker_arguments, module_name, object_file,
    output_directory, output_path, run_compiler,
};
use juc::compilation::error::CompileError;
use juc::logging::level::LogLevel;
use juc::logging::log::Log;
use juc::objects::type_::Type;
use juc::objects::variable::Variable;
use juc::parsing::elements::Element;
use juc::parsing::elements::Token;
use juc::platform::{exec_report, get_from_id, Platform};
use juc::strings::manager::StringsManager;
use juc::strings::structured::{
    Errors, Help, HelpArguments, HelpAvailableFlags, Infos, Logs, MultiString, Strings,
};
use juc::text::{directory_of, fill, remove_every};

fn strings(words: &[&str]) -> Vec<String> {
    words.iter().map(|w| w.to_string()).collect()
}

fn options(pairs: &[(&str, &str)]) -> Dict {
    let mut dict = Dict::new();
    for (key, value) in pairs {
        dict.insert(key.to_string(), value.to_string());
    }
    dict
}

fn multi(en: &str) -> MultiString {
    MultiString { en: en.to_string(), fr: None, de: None }
}

fn texts(title: &str, message: &str, hint: &str) -> juc::strings::structured::Log {
    juc::strings::structured::Log {
        title: Some(MultiString {
            en: title.to_string(),
            fr: Some(format!("{} (fr)", title)),
            de: None,
        }),
        message: Some(multi(message)),
        hint: Some(multi(hint)),
    }
}

fn manager() -> StringsManager {
    let log = || texts("title", "message {}", "hint {}");
    StringsManager::new(Strings {
        help: Help {
            title: multi("help"),
            arguments: HelpArguments { sources: multi("sources"), options: multi("options") },
            available_flags: HelpAvailableFlags {
                title: multi("flags"),
                h: multi("h"),
                l: multi("l"),
                p: multi("p"),
                o: multi("o"),
                d: multi("d"),
                a: multi("a"),
                s: multi("s"),
            },
        },
        logs: Logs {
            infos: Infos {
                library_building: texts("Library building", "", ""),
                working_directory: log(),
                ignored_option_flag: log(),
                finished: log(),
            },
            errors: Errors {
                no_given_arguments: log(),
                invalid_path_or_not_a_directory: log(),
                source_file_does_not_exist: log(),
                invalid_file_extension: log(),
                wrong_file_extension: log(),
                no_file_extension: log(),
                execution_failed: log(),
                platform: texts(
                    "Invalid platform",
                    "Platform '{}' is not compatible",
                    "Available platforms : {}",
                ),
            },
        },
    })
}

#[test]
fn arguments_are_read_into_sources_and_options() {
    let mut args = Args::new(strings(&["juc", "a.ju", "-o", "bin/prog", "b.ju", "-l", "-x", "y"]));
    let warnings = args.run().unwrap();
    assert_eq!(args.get_sources(), &strings(&["a.ju", "b.ju"]));
    assert_eq!(Args::when_flag('o', args.get_options()), Some("bin/prog".to_string()));
    assert_eq!(Args::when_flag('l', args.get_options()), Some(String::new()));
    assert_eq!(Args::when_flag('x', args.get_options()), Some("y".to_string()));
    assert_eq!(Args::when_flag('p', args.get_options()), None);
    assert_eq!(warnings.logs.len(), 1);
    assert_eq!(warnings.logs[0].level, LogLevel::Warning);
    assert_eq!(warnings.logs[0].title, "Ignored option flag");
    assert_eq!(
        warnings.logs[0].message,
        "The given option flag '-x' does not match with any valid flag"
    );
    assert_eq!(
        warnings.logs[0].hint,
        "Run again, with the option flag '-h' to get the help page"
    );
}

#[test]
fn no_argument_is_an_error() {
    let mut args = Args::new(strings(&["juc"]));
    let errors = args.run().unwrap_err();
    assert_eq!(errors.logs.len(), 1);
    assert_eq!(errors.logs[0].level, LogLevel::Error);
    assert_eq!(errors.logs[0].title, "No given arguments");
    assert!(args.get_sources().is_empty());
}

#[test]
fn last_value_of_an_option_wins() {
    let mut args = Args::new(strings(&["juc", "-o", "a", "-o", "b"]));
    args.run().unwrap();
    assert_eq!(Args::when_flag('o', args.get_options()), Some("b".to_string()));
    let mut args = Args::new(strings(&["juc", "-o", "a", "-o"]));
    args.run().unwrap();
    assert_eq!(Args::when_flag('o', args.get_options()), Some(String::new()));
}

#[test]
fn odd_arguments_do_not_stop_the_reading() {
    let mut args = Args::new(strings(&["juc", "", "-", "x"]));
    let warnings = args.run().unwrap();
    assert_eq!(args.get_sources(), &strings(&[""]));
    assert_eq!(warnings.logs.len(), 1);
    assert_eq!(
        warnings.logs[0].message,
        "The given option flag '-' does not match with any valid flag"
    );
    let mut args = Args::new(vec![]);
    assert!(args.run().is_ok());
    assert!(args.get_sources().is_empty());
}

#[test]
fn is_option_marks_the_next_argument() {
    let mut args = Args::new(vec![]);
    assert!(!args.is_option(&"a.ju".to_string()));
    assert!(!args.previous_is_option);
    assert!(args.is_option(&"-o".to_string()));
    assert!(args.previous_is_option);
    assert!(!args.is_option(&"".to_string()));
    assert!(args.previous_is_option);
}

#[test]
fn platforms_are_read_by_name() {
    assert_eq!(get_from_id("android".to_string()), Platform::Android);
    assert_eq!(get_from_id("ios".to_string()), Platform::IOS);
    assert_eq!(get_from_id("linux".to_string()), Platform::Linux);
    assert_eq!(get_from_id("macos".to_string()), Platform::MacOS);
    assert_eq!(get_from_id("windows".to_string()), Platform::Windows);
    assert_eq!(get_from_id("Linux".to_string()), Platform::Unknown("Linux".to_string()));
    assert_eq!(get_from_id("".to_string()), Platform::Unknown("".to_string()));
    assert_eq!(Platform::MacOS.to_string(), "MacOS");
    assert_eq!(Platform::Unknown("x".to_string()).to_string(), "Unknown(\"x\")");
    for name in ["", "a\"b", "a\\b", "line\nbreak", "tab\t", "é", "\u{7f}", "'"] {
        assert_eq!(
            Platform::Unknown(name.to_string()).to_string(),
            format!("{:?}", Platform::Unknown(name.to_string()))
        );
    }
    assert_eq!(Platform::Linux.clone(), Platform::Linux);
}

#[test]
fn a_program_that_wrote_nothing_has_not_failed() {
    assert_eq!(exec_report(&"nasm".to_string(), String::new()), None);
    let log = exec_report(&"nasm".to_string(), "fatal: no input".to_string()).unwrap();
    assert_eq!(log.level, LogLevel::Error);
    assert_eq!(log.title, "Execution of 'nasm' failed");
    assert_eq!(log.message, "fatal: no input");
    assert_eq!(
        log.hint,
        "The called program may be not installed. It could be a bug from 'juc' or the called program"
    );
}

#[test]
fn file_names_of_a_source() {
    let dir = "build".to_string();
    let source = "main.ju".to_string();
    assert_eq!(assembly_file(&dir, &source), "build/main.ju.asm");
    assert_eq!(object_file(&dir, &source), "build/main.ju.o");
    assert_eq!(
        assembler_arguments(&dir, &source),
        strings(&["build/main.ju.asm", "-felf64", "-o", "build/main.ju.o"])
    );
    assert_eq!(assembly_file(&String::new(), &source), "/main.ju.asm");
    assert_eq!(module_name(&source), "main");
    assert_eq!(module_name(&"lib/util.ju".to_string()), "lib/util");
    assert_eq!(module_name(&"main".to_string()), "main");
    assert_eq!(module_name(&".ju".to_string()), "");
    assert_eq!(module_name(&"a.ju.ju".to_string()), "a");
    assert_eq!(module_name(&"a.jux.ju".to_string()), "ax");
    assert_eq!(module_name(&"..juju".to_string()), ".ju");
    for name in ["main.ju", "a.ju.b.ju", ".j.ju", "ju", ".", "", "é.ju.ü"] {
        assert_eq!(
            module_name(&name.to_string()),
            name.split(".ju").collect::<String>()
        );
    }
}

#[test]
fn output_of_the_linker() {
    assert_eq!(output_path(&options(&[])), "junon.out");
    assert_eq!(output_path(&options(&[("-o", "bin/prog")])), "bin/prog");
    assert_eq!(output_directory(&options(&[])), "");
    assert_eq!(output_directory(&options(&[("-o", "bin/prog")])), "bin");
    assert_eq!(output_directory(&options(&[("-o", "prog")])), "");
    assert_eq!(output_directory(&options(&[("-o", "/prog")])), "");
    assert_eq!(output_directory(&options(&[("-o", "a/b/c")])), "a/b");
}

#[test]
fn arguments_of_the_linker() {
    let data = CompilerData {
        is_library: false,
        sources: strings(&["a.ju", "b.ju"]),
        options: options(&[]),
    };
    assert_eq!(
        linker_arguments(&data, &"out".to_string()),
        strings(&["-o", "junon.out", "out/a.ju.o", "out/b.ju.o"])
    );
    let data = CompilerData {
        is_library: true,
        sources: strings(&["a.ju"]),
        options: options(&[("-o", "lib.so"), ("-a", "more.o")]),
    };
    assert_eq!(
        linker_arguments(&data, &"".to_string()),
        strings(&["-o", "lib.so", "more.o", "-shared", "/a.ju.o"])
    );
}

#[test]
fn templates_are_filled_once() {
    assert_eq!(fill("Platform '{}' is unknown", "amiga"), "Platform 'amiga' is unknown");
    assert_eq!(fill("{} and {}", "a"), "a and {}");
    assert_eq!(fill("none", "a"), "none");
    assert_eq!(fill("", "a"), "");
    assert_eq!(fill("{", "a"), "{");
    assert_eq!(fill("}{}", "a"), "}a");
    assert_eq!(fill("é{}ü", "ö"), "éöü");
    for template in ["a{}b", "{}{}", "{{}}", "}{", "x"] {
        assert_eq!(fill(template, "v"), template.replacen("{}", "v", 1));
    }
}

#[test]
fn patterns_and_directories() {
    assert_eq!(remove_every("main.ju", ".ju"), "main");
    assert_eq!(remove_every("aXXXb", "XX"), "aXb");
    assert_eq!(remove_every("x", ""), "x");
    assert_eq!(remove_every("", "x"), "");
    assert_eq!(remove_every("xx", "xx"), "");
    assert_eq!(directory_of("a/b/c.o"), "a/b");
    assert_eq!(directory_of("c.o"), "");
    assert_eq!(directory_of("a/"), "a");
    assert_eq!(directory_of(""), "");
}

#[test]
fn compilation_starts_with_its_messages() {
    let sm = manager();
    let sources = strings(&["a.ju"]);
    let start = run_compiler(&sources, &options(&[]), &sm, Platform::Linux).unwrap();
    assert_eq!(start.platform, Platform::Linux);
    assert!(!start.data.is_library);
    assert_eq!(start.data.sources, sources);
    assert_eq!(start.logger.logs, vec![Log::info("Platform : 'Linux'".to_string())]);
    assert!(!start.logger.has_error());

    let start =
        run_compiler(&sources, &options(&[("-l", ""), ("-p", "MacOS")]), &sm, Platform::Linux)
            .unwrap();
    assert_eq!(start.platform, Platform::MacOS);
    assert!(start.data.is_library);
    assert_eq!(
        start.logger.logs,
        vec![
            Log::info("Library building".to_string()),
            Log::info("Platform : 'MacOS'".to_string()),
        ]
    );
}

#[test]
fn unknown_platform_is_an_error() {
    let mut sm = manager();
    sm.set_speak_language("fr".to_string());
    let start =
        run_compiler(&vec![], &options(&[("-p", "Amiga")]), &sm, Platform::Linux).unwrap();
    assert_eq!(start.platform, Platform::Unknown("amiga".to_string()));
    assert!(start.logger.has_error());
    assert_eq!(
        start.logger.logs,
        vec![
            Log::info("Platform : 'Unknown(\"amiga\")'".to_string()),
            Log::new(
                LogLevel::Error,
                "Invalid platform (fr)".to_string(),
                "Platform 'amiga' is not compatible".to_string()
            )
            .add_hint("Available platforms : Android, IOS, Linux, MacOS, Windows".to_string()),
        ]
    );
}

#[test]
fn texts_are_asked_for_only_where_they_are_shown() {
    let mut sm = manager();
    sm.deserialized.logs.infos.library_building.title = None;
    sm.deserialized.logs.errors.platform.hint = None;
    assert!(run_compiler(&vec![], &options(&[]), &sm, Platform::Linux).is_some());
    assert!(run_compiler(&vec![], &options(&[("-l", "")]), &sm, Platform::Linux).is_none());
    assert!(run_compiler(&vec![], &options(&[("-p", "amiga")]), &sm, Platform::Linux).is_none());
    assert!(run_compiler(&vec![], &options(&[]), &sm, Platform::Unknown("x".to_string()))
        .is_none());
    let mut sm = manager();
    sm.set_speak_language("it".to_string());
    assert!(run_compiler(&vec![], &options(&[("-p", "linux")]), &sm, Platform::MacOS).is_some());
    assert!(run_compiler(&vec![], &options(&[("-l", "")]), &sm, Platform::Linux).is_none());
}

#[test]
fn failed_check_reads_nothing() {
    let mut args = Args::new(strings(&["juc"]));
    assert!(args.run().is_err());
    assert!(args.get_sources().is_empty());
    assert!(args.get_options().entries.is_empty());
    assert!(args.check_step_1);
}

#[test]
fn strings_manager() {
    let strings = manager();
    println!("{:#?}", strings.get().logs.errors.no_given_arguments.title);
    assert_eq!(
        strings.get().logs.errors.no_given_arguments.title.as_ref().unwrap().get(&strings),
        "title"
    );
}

#[test]
fn texts_are_given_in_the_language_that_is_spoken() {
    let mut sm = manager();
    let text = MultiString {
        en: "hello".to_string(),
        fr: Some("bonjour".to_string()),
        de: None,
    };
    assert_eq!(sm.speak_lang(), "en");
    assert!(sm.speaks_known_language());
    assert_eq!(text.get(&sm), "hello");
    sm.set_speak_language("fr".to_string());
    assert_eq!(text.get(&sm), "bonjour");
    sm.set_speak_language("de".to_string());
    assert_eq!(text.get(&sm), "hello");
    sm.set_speak_language("it".to_string());
    assert!(!sm.speaks_known_language());
    assert_eq!(sm.get().help.title.en, "help");
}

#[test]
fn static_data_follows_the_code() {
    let mut compiler = LinuxCompiler::new("unit".to_string());
    let greeting = Variable::static_(
        "greeting".to_string(),
        Type::Str,
        Token::Other("\"hello\"".to_string()),
    );
    let count = Variable::static_("count".to_string(), Type::Integer, Token::Nothing);
    let big = Variable::static_("big".to_string(), Type::BigInteger, Token::Other("7".to_string()));
    assert_eq!(compiler.add_static_variable(&greeting), Ok(()));
    assert_eq!(compiler.add_static_variable(&count), Ok(()));
    assert_eq!(compiler.add_static_variable(&big), Ok(()));
    compiler.emit(juc::assembly::instruction::Instruction::Raw("nop".to_string()));
    assert_eq!(
        compiler.terminate_file(),
        "\tnop \nsection .data \ngreeting: db `hello`, 0 \ncount: dd 0 \nbig: dq 7 \n"
    );
    assert!(compiler.code.is_empty());
    assert!(compiler.section_data.is_empty());
    assert_eq!(compiler.terminate_file(), "");
}

#[test]
fn static_data_that_cannot_be_defined_is_refused() {
    let mut compiler = LinuxCompiler::new("unit".to_string());
    let odd = Variable::static_("s".to_string(), Type::Str, Token::Other("x".to_string()));
    assert_eq!(compiler.add_static_variable(&odd), Err(CompileError::MalformedTree));
    let keyword = Variable::static_("s".to_string(), Type::Str, Token::Plus);
    assert_eq!(compiler.add_static_variable(&keyword), Err(CompileError::MalformedTree));
    let unknown = Variable::static_(
        "s".to_string(),
        Type::NotNative("t".to_string()),
        Token::Nothing,
    );
    assert_eq!(compiler.add_static_variable(&unknown), Err(CompileError::Unsupported));
    let zero = Variable::static_("z".to_string(), Type::Str, Token::Other("0".to_string()));
    assert_eq!(compiler.add_static_variable(&zero), Ok(()));
    assert_eq!(compiler.terminate_file(), "section .data \nz: db 0 \n");
}

#[test]
fn each_file_starts_in_its_own_module() {
    let mut compiler = LinuxCompiler::new("first".to_string());
    let function = || {
        vec![Element::Function(juc::objects::function::Function::new(
            "f".to_string(),
            vec![],
            String::new(),
        ))]
    };
    assert_eq!(
        compiler.compile_file("first".to_string(), &function()),
        Ok("section .text \n\tglobal f \nf: \n\tpush rbp \n\tmov rbp, rsp \n".to_string())
    );
    assert_eq!(compiler.code_data.scope.to_string(), "first");
    assert_eq!(
        compiler.compile_file("second".to_string(), &function()),
        Ok("section .text \n\tglobal f \nf: \n\tpush rbp \n\tmov rbp, rsp \n".to_string())
    );
    assert_eq!(compiler.code_data.scope.to_string(), "second");
    assert_eq!(
        compiler.compile_file("third".to_string(), &vec![Element::Other(Token::BracketClose)]),
        Err(CompileError::MalformedTree)
    );
    assert_eq!(CompileError::MalformedTree.message(), "malformed element tree");
    assert_eq!(CompileError::UnknownIdentifier.message(), "identifier not found");
    assert_eq!(CompileError::InvalidOperator.message(), "operator not recognized");
    assert_eq!(CompileError::Unsupported.message(), "unsupported construct");
}
