use juc::checking::data::CheckerData;
use juc::checking::syntax::{is_integer, run_checkers, SyntaxChecker};
use juc::logging::level::LogLevel;
use juc::logging::log::Log;
use juc::logging::logger::Logger;
use juc::logging::source::{line_to_string, source_to_string};
use juc::parsing::elements::Token;

fn other(text: &str) -> Token {
    Token::Other(text.to_string())
}

fn data(parsed: Vec<Vec<Token>>) -> CheckerData {
    CheckerData {
        source: "main.ju".to_string(),
        parsed,
        logger: Logger::new(),
        line_i: 0,
        token_i: 0,
    }
}

fn checked(parsed: Vec<Vec<Token>>) -> Vec<Log> {
    let mut checker = SyntaxChecker::new(data(parsed));
    checker.check();
    checker.data.logger.logs
}

#[test]
fn places_are_counted_from_one() {
    assert_eq!(source_to_string("main.ju".to_string(), 0, 0), "in 'main.ju' at (1, 1)");
    assert_eq!(source_to_string("a".to_string(), 9, 41), "in 'a' at (10, 42)");
}

#[test]
fn a_line_is_shown_with_one_token_in_red() {
    let line = vec![Token::Variable, other("a"), Token::TypeDef];
    assert_eq!(line_to_string(&line, 0), "\tlet\x1b[0m a\x1b[0m :\x1b[0m \n\n");
    assert_eq!(line_to_string(&line, 2), "\tlet\x1b[0m \x1b[31ma\x1b[0m :\x1b[0m \n\n");
    assert_eq!(line_to_string(&line, 4), "\tlet\x1b[0m a\x1b[0m :\x1b[0m \n\n");
    assert_eq!(line_to_string(&vec![], 1), "\t\n\n");
}

#[test]
fn integers_are_told_as_the_standard_library_tells_them() {
    let texts = [
        "0", "7", "-7", "+7", "007", "9223372036854775807", "9223372036854775808",
        "-9223372036854775808", "-9223372036854775809", "+9223372036854775807",
        "99999999999999999999999", "", "+", "-", "1.0", "1e3", "a", "1a", " 1", "--1", "١",
        "00000000000000000000000000001",
    ];
    for text in texts {
        assert_eq!(is_integer(text), text.parse::<i64>().is_ok(), "{:?}", text);
    }
}

#[test]
fn well_formed_lines_give_no_message() {
    let parsed = vec![
        vec![Token::Variable, other("a"), Token::TypeDef, other("int"), Token::Assign, other("1")],
        vec![Token::Static, other("s"), Token::TypeDef, other("str")],
        vec![Token::Return, other("a")],
        vec![Token::Function, other("main")],
        vec![Token::Assembly, other("mov"), other("rax"), Token::Comma, other("1")],
        vec![Token::Print, other("a"), other("b")],
        vec![Token::Exit, other("a"), other("b")],
        vec![Token::Return],
        vec![other("a")],
    ];
    assert_eq!(checked(parsed.clone()), vec![]);
    assert!(run_checkers(data(parsed)).is_ok());
}

#[test]
fn a_declaration_names_its_variable() {
    let line = vec![Token::Variable, other("12"), Token::TypeDef, other("int")];
    assert_eq!(
        checked(vec![line.clone()]),
        vec![Log::new(
            LogLevel::Error,
            "Invalid identifier for variable".to_string(),
            format!(
                "{}Found '12' but it cannot be used as a variable identifier",
                line_to_string(&line, 2)
            ),
        )
        .add_cause("in 'main.ju' at (1, 2)".to_string())
        .finish()]
    );
    let line = vec![Token::Static, Token::Plus];
    let logs = checked(vec![line]);
    assert_eq!(logs.len(), 1);
    assert_eq!(logs[0].title, "Invalid identifier for variable");
}

#[test]
fn a_declaration_needs_its_type() {
    let line = vec![Token::Variable, other("a")];
    assert_eq!(
        checked(vec![vec![Token::Return], line.clone()]),
        vec![Log::new(
            LogLevel::Error,
            "Expected token".to_string(),
            format!("{}No token was found next to 'a' but expected", line_to_string(&line, 2)),
        )
        .add_cause("in 'main.ju' at (2, 2)".to_string())
        .add_hint("Specify the variable's type with ':' + <type>".to_string())]
    );
    let line = vec![Token::Variable, other("a"), Token::Assign, other("1")];
    assert_eq!(
        checked(vec![line.clone()]),
        vec![Log::new(
            LogLevel::Error,
            "Invalid token".to_string(),
            format!("{}Found '=' but it's not a type definition token", line_to_string(&line, 3)),
        )
        .add_cause("in 'main.ju' at (1, 2)".to_string())
        .finish()]
    );
}

#[test]
fn a_lonely_declaration_is_an_error() {
    let line = vec![Token::Variable];
    assert_eq!(
        checked(vec![line.clone()]),
        vec![Log::new(
            LogLevel::Error,
            "Expected token".to_string(),
            format!("{}No token was found next to 'let' but expected", line_to_string(&line, 1)),
        )
        .add_cause("in 'main.ju' at (1, 1)".to_string())
        .finish()]
    );
}

#[test]
fn a_token_behind_no_instruction_is_an_error() {
    let line = vec![other("a"), other("b"), other("c")];
    let logs = checked(vec![line.clone()]);
    assert_eq!(
        logs,
        vec![
            Log::new(
                LogLevel::Error,
                "Invalid token instruction".to_string(),
                format!("{}No valid instruction found for token 'a'", line_to_string(&line, 1)),
            )
            .add_cause("in 'main.ju' at (1, 2)".to_string())
            .finish(),
            Log::new(
                LogLevel::Error,
                "Invalid token instruction".to_string(),
                format!("{}No valid instruction found for token 'b'", line_to_string(&line, 2)),
            )
            .add_cause("in 'main.ju' at (1, 3)".to_string())
            .finish(),
        ]
    );
}

#[test]
fn errors_come_back_from_the_checkers() {
    let result = run_checkers(data(vec![vec![Token::Variable]]));
    let logger = result.unwrap_err();
    assert_eq!(logger.logs.len(), 1);
    let mut checker = SyntaxChecker::new(data(vec![vec![Token::Return]]));
    checker.init();
    assert!(checker.run().is_ok());
    assert!(checker.finish().is_ok());
    assert_eq!(checker.data().line_i, 1);
}
