use juc::compilation::compilers::base::{is_number, KindToken};
use juc::parsing::elements;
use juc::parsing::parser::Parser;
use juc::parsing::tokens::{should_be_cut, string_to_token, token_to_string, Token};

fn other(text: &str) -> Token {
    Token::RawString(text.to_string())
}

fn word(text: &str) -> elements::Token {
    elements::Token::Other(text.to_string())
}

fn parsed(content: &str) -> Vec<Vec<Token>> {
    let mut parser = Parser::from(content.to_string());
    parser.run();
    parser.parsed
}

#[test]
fn test1() {
    let mut parser = Parser::from("a b c func".to_string());
    parser.run();
    println!("output:\n{:?}", parser);
    assert_eq!(
        parser.parsed(),
        &vec![vec![other("a"), other("b"), other("c"), Token::Function]]
    );

    let mut parser = Parser::from("a // f\n//g".to_string());
    parser.run();
    println!("output:\n{:?}", parser);
    assert_eq!(parser.parsed(), &vec![vec![other("a")]]);

    let mut parser = Parser::from("\"abc\" func \"def\"".to_string());
    parser.run();
    println!("output:\n{:?}", parser);
    assert_eq!(
        parser.parsed(),
        &vec![vec![other("\"abc\""), Token::Function, other("\"def\"")]]
    );

    let mut parser = Parser::from("\"abc\"".to_string());
    parser.run();
    println!("output:\n{:?}", parser);
    assert_eq!(parser.parsed(), &vec![vec![other("\"abc\"")]]);
}

#[test]
fn declaration_is_cut_into_its_tokens() {
    assert_eq!(
        parsed("let a: int = 1\nret a\n"),
        vec![
            vec![Token::Variable, other("a"), Token::TypeDef, other("int"), Token::Assign, other("1")],
            vec![Token::Return, other("a")],
        ]
    );
}

#[test]
fn empty_lines_are_left_out() {
    assert_eq!(parsed(""), Vec::<Vec<Token>>::new());
    assert_eq!(parsed("\n\n  \n"), Vec::<Vec<Token>>::new());
    assert_eq!(parsed("\n\nret\n\n\nret"), vec![vec![Token::Return], vec![Token::Return]]);
}

#[test]
fn two_equal_signs_are_one_token() {
    assert_eq!(
        parsed("a == b"),
        vec![vec![other("a"), other("=="), other("b")]]
    );
    assert_eq!(
        parsed("a = b"),
        vec![vec![other("a"), Token::Assign, other("b")]]
    );
    assert_eq!(
        parsed("a <= b"),
        vec![vec![other("a"), other("<"), Token::Assign, other("b")]]
    );
}

#[test]
fn line_of_assembly_keeps_its_words() {
    assert_eq!(
        parsed("@mov rax, 60\nfunc"),
        vec![
            vec![Token::AssemblyCode, other("mov"), other("rax"), Token::Comma, other("60")],
            vec![Token::Function],
        ]
    );
    assert_eq!(
        parsed("@ret (func) @"),
        vec![vec![
            Token::AssemblyCode,
            other("ret"),
            other("("),
            other("func"),
            other(")"),
            other("@"),
        ]]
    );
}

#[test]
fn last_word_of_assembly_is_read_as_a_token() {
    assert_eq!(parsed("@ ret"), vec![vec![Token::AssemblyCode, Token::Return]]);
}

#[test]
fn a_string_can_hold_anything() {
    assert_eq!(
        parsed("\"a // b\nc @\" x"),
        vec![vec![other("\"a // b\nc @\""), other("x")]]
    );
}

#[test]
fn a_string_that_is_not_closed_is_dropped() {
    assert_eq!(parsed("x \"abc"), vec![vec![other("x")]]);
}

#[test]
fn letters_of_any_script_make_words() {
    assert_eq!(parsed("é=ü"), vec![vec![other("é"), Token::Assign, other("ü")]]);
    assert_eq!(parsed("a="), vec![vec![other("a"), Token::Assign]]);
}

#[test]
fn run_adds_to_the_lines_that_are_there() {
    let mut parser = Parser::from("ret".to_string());
    parser.run();
    parser.run();
    assert_eq!(parser.parsed, vec![vec![Token::Return], vec![Token::Return]]);
}

#[test]
fn parser_for_a_file_waits_for_its_text() {
    let mut parser = Parser::new(&"main.ju".to_string());
    assert_eq!(parser.source, Some("main.ju".to_string()));
    parser.run();
    assert!(parser.parsed().is_empty());
    parser.set_content("func main".to_string());
    parser.run();
    assert_eq!(parser.parsed(), &vec![vec![Token::Function, other("main")]]);
}

#[test]
fn push_token_keeps_raw_words() {
    let mut token = "func".to_string();
    let mut line = vec![];
    Parser::push_token(&mut token, &mut line, false);
    assert_eq!(token, "");
    let mut token = "func".to_string();
    Parser::push_token(&mut token, &mut line, true);
    let mut token = String::new();
    Parser::push_token(&mut token, &mut line, true);
    assert_eq!(line, vec![Token::Function, other("func")]);
}

fn keywords() -> Vec<(&'static str, Token)> {
    vec![
        ("@", Token::AssemblyCode),
        ("=", Token::Assign),
        (",", Token::Comma),
        ("//", Token::Comment),
        ("func", Token::Function),
        ("(", Token::ParenOpen),
        (")", Token::ParenClose),
        ("ret", Token::Return),
        ("static", Token::Static),
        ("\"", Token::StringDot),
        (":", Token::TypeDef),
        ("let", Token::Variable),
    ]
}

#[test]
fn every_key_word_is_read_and_written() {
    for (text, token) in keywords() {
        assert_eq!(string_to_token(&text.to_string()), token);
        assert_eq!(token_to_string(&token), text);
    }
}

#[test]
fn any_other_text_is_a_catch_all_token() {
    for text in ["foo", "", "Func", "if", "else", "loop", "{", "}", "-", "+", "==", "<", "[", "\n"] {
        let token = string_to_token(&text.to_string());
        assert_eq!(token, other(text));
        assert_eq!(token_to_string(&token), text);
    }
    assert_eq!(string_to_token(&token_to_string(&other("foo"))), other("foo"));
    assert_eq!(string_to_token(&token_to_string(&other("func"))), Token::Function);
}

#[test]
fn tree_tokens_are_written_for_messages() {
    assert_eq!(elements::Token::ConditionIf.to_string(), "if");
    assert_eq!(elements::Token::TypeDef.to_string(), ":");
    assert_eq!(elements::Token::NewLine.to_string(), "\n");
    assert_eq!(word("count").to_string(), "count");
    assert_eq!(elements::Token::Nothing.to_string(), "");
}

#[test]
fn letters_and_digits_are_not_cut() {
    for c in ['a', 'Z', '0', '9', 'é', 'ß', '٣'] {
        assert!(!should_be_cut(&c));
        assert_eq!(should_be_cut(&c), !c.is_alphanumeric());
    }
    for c in [' ', '\n', '_', '-', '(', '"', '.', '@'] {
        assert!(should_be_cut(&c));
    }
}

#[test]
fn numbers_are_told_as_floating_point_literals_are() {
    let texts = [
        "0", "1", "42", "-7", "+7", "3.14", ".5", "5.", "-.5", "+5.", "1e5", "1E5", "1e+5", "1e-5",
        "1.5e10", ".5e1", "5.e1", "inf", "-inf", "+inf", "infinity", "Infinity", "INF", "nan", "NaN",
        "-nan", "", "+", "-", ".", "e", "e5", "1e", "1e+", ".e1", "1.2.3", "1_000", "0x10", " 1",
        "1 ", "a", "a1", "1a", "infinit", "infinityy", "na", "nann", "--1", "+-1", "1e5.0", "١",
        "1f", "1e5e5", "in", "i", "n",
    ];
    for text in texts {
        assert_eq!(is_number(text), text.parse::<f64>().is_ok(), "{:?}", text);
    }
}

#[test]
fn tokens_are_told_by_what_they_stand_for() {
    assert_eq!(KindToken::from_token(&elements::Token::BracketOpen), KindToken::Expression);
    assert_eq!(KindToken::from_token(&word("12")), KindToken::Value);
    assert_eq!(KindToken::from_token(&word("1.5")), KindToken::Value);
    assert_eq!(KindToken::from_token(&word("42")), KindToken::Value);
    assert_eq!(KindToken::from_token(&word("x")), KindToken::Identifier);
    assert_eq!(KindToken::from_token(&word("'c'")), KindToken::Identifier);
    assert_eq!(KindToken::from_token(&word("count")), KindToken::Identifier);
    assert_eq!(KindToken::from_token(&word("")), KindToken::Identifier);
    assert_eq!(KindToken::from_token(&elements::Token::Plus), KindToken::Identifier);
    assert_eq!(KindToken::from_token(&elements::Token::Nothing), KindToken::Identifier);
}

#[test]
fn a_line_of_the_lexer_is_shown_with_one_token_in_red() {
    let line = parsed("let a: int").remove(0);
    assert_eq!(
        juc::parsing::tokens::line_to_string(&line, 2),
        "\tlet\x1b[0m \x1b[31ma\x1b[0m :\x1b[0m int\x1b[0m \n\n"
    );
    assert_eq!(juc::parsing::tokens::line_to_string(&vec![], 0), "\t\n\n");
}
