//! The tokens of the lexer: twelve key words and signs, and the raw string
//! that carries any other word.

use crate::text::is_text;
use vstd::prelude::*;

verus! {

/// One word of a source text.
#[derive(Debug, PartialEq, Eq)]
pub enum Token {
    AssemblyCode,
    Assign,
    Comma,
    Comment,
    Function,
    ParenOpen,
    ParenClose,
    Return,
    Static,
    StringDot,
    TypeDef,
    Variable,
    /// Any other word, as the source wrote it.
    RawString(String),
    /// No token.
    Nothing,
}

impl Clone for Token {
    fn clone(&self) -> (copy: Self)
        ensures
            copy == *self,
    {
        match self {
            Token::AssemblyCode => Token::AssemblyCode,
            Token::Assign => Token::Assign,
            Token::Comma => Token::Comma,
            Token::Comment => Token::Comment,
            Token::Function => Token::Function,
            Token::ParenOpen => Token::ParenOpen,
            Token::ParenClose => Token::ParenClose,
            Token::Return => Token::Return,
            Token::Static => Token::Static,
            Token::StringDot => Token::StringDot,
            Token::TypeDef => Token::TypeDef,
            Token::Variable => Token::Variable,
            Token::RawString(text) => Token::RawString(text.clone()),
            Token::Nothing => Token::Nothing,
        }
    }
}

/// The key word or sign that is written `text`, if there is one.
pub open spec fn keyword(text: Seq<char>) -> Option<Token> {
    if text == "@"@ {
        Some(Token::AssemblyCode)
    } else if text == "="@ {
        Some(Token::Assign)
    } else if text == ","@ {
        Some(Token::Comma)
    } else if text == "//"@ {
        Some(Token::Comment)
    } else if text == "func"@ {
        Some(Token::Function)
    } else if text == "("@ {
        Some(Token::ParenOpen)
    } else if text == ")"@ {
        Some(Token::ParenClose)
    } else if text == "ret"@ {
        Some(Token::Return)
    } else if text == "static"@ {
        Some(Token::Static)
    } else if text == "\""@ {
        Some(Token::StringDot)
    } else if text == ":"@ {
        Some(Token::TypeDef)
    } else if text == "let"@ {
        Some(Token::Variable)
    } else {
        None
    }
}

/// The token that is written `name`: the key word or sign of that
/// writing, else the raw string with the text itself.
pub open spec fn token_of(name: String) -> Token {
    match keyword(name@) {
        Some(k) => k,
        None => Token::RawString(name),
    }
}

/// How `token` is written. There is no writing of `Token::Nothing`.
pub open spec fn token_text(token: Token) -> Seq<char> {
    match token {
        Token::AssemblyCode => "@"@,
        Token::Assign => "="@,
        Token::Comma => ","@,
        Token::Comment => "//"@,
        Token::Function => "func"@,
        Token::ParenOpen => "("@,
        Token::ParenClose => ")"@,
        Token::Return => "ret"@,
        Token::Static => "static"@,
        Token::StringDot => "\""@,
        Token::TypeDef => ":"@,
        Token::Variable => "let"@,
        Token::RawString(text) => text@,
        Token::Nothing => Seq::empty(),
    }
}

/// Whether `token` is a raw string with the writing of a key word or
/// sign: such a token is written as the key word or sign is.
pub open spec fn is_raw_keyword(token: Token) -> bool {
    token matches Token::RawString(text) && keyword(text@) is Some
}

/// No two key words or signs are written alike: the writing of each is
/// read as that key word or sign.
pub proof fn law_written_tokens_are_read(token: Token)
    requires
        !(token is Nothing),
        !(token is RawString),
    ensures
        keyword(token_text(token)) == Some(token),
{
    reveal_strlit("@");
    reveal_strlit("=");
    reveal_strlit(",");
    reveal_strlit("//");
    reveal_strlit("func");
    reveal_strlit("(");
    reveal_strlit(")");
    reveal_strlit("ret");
    reveal_strlit("static");
    reveal_strlit("\"");
    reveal_strlit(":");
    reveal_strlit("let");
    // Two writings differ in their length or in one of their first two
    // characters.
    let text = token_text(token);
    assert(text.len() >= 1);
    let first = text[0];
    if text.len() >= 2 {
        let second = text[1];
    }
}

/// The token that is written `token_name`: the key word or sign of that
/// writing, else the raw string with the text itself. It is never
/// `Token::Nothing`, and it is written as `token_name`.
pub fn string_to_token(token_name: &String) -> (token: Token)
    ensures
        token == token_of(*token_name),
        !(token is Nothing),
        token_text(token) == token_name@,
{
    if is_text(token_name, "@") {
        Token::AssemblyCode
    } else if is_text(token_name, "=") {
        Token::Assign
    } else if is_text(token_name, ",") {
        Token::Comma
    } else if is_text(token_name, "//") {
        Token::Comment
    } else if is_text(token_name, "func") {
        Token::Function
    } else if is_text(token_name, "(") {
        Token::ParenOpen
    } else if is_text(token_name, ")") {
        Token::ParenClose
    } else if is_text(token_name, "ret") {
        Token::Return
    } else if is_text(token_name, "static") {
        Token::Static
    } else if is_text(token_name, "\"") {
        Token::StringDot
    } else if is_text(token_name, ":") {
        Token::TypeDef
    } else if is_text(token_name, "let") {
        Token::Variable
    } else {
        Token::RawString(token_name.clone())
    }
}

/// The writing of `token`, which is not `Token::Nothing`. Read again, the
/// writing gives the token back, unless the token is a raw string with
/// the writing of a key word or sign.
pub fn token_to_string(token: &Token) -> (text: String)
    requires
        !(*token is Nothing),
    ensures
        text@ == token_text(*token),
        !is_raw_keyword(*token) ==> token_of(text) == *token,
{
    proof {
        if !(*token is RawString) {
            law_written_tokens_are_read(*token);
        }
    }
    match token {
        Token::AssemblyCode => String::from_str("@"),
        Token::Assign => String::from_str("="),
        Token::Comma => String::from_str(","),
        Token::Comment => String::from_str("//"),
        Token::Function => String::from_str("func"),
        Token::ParenOpen => String::from_str("("),
        Token::ParenClose => String::from_str(")"),
        Token::Return => String::from_str("ret"),
        Token::Static => String::from_str("static"),
        Token::StringDot => String::from_str("\""),
        Token::TypeDef => String::from_str(":"),
        Token::Variable => String::from_str("let"),
        Token::RawString(val) => val.clone(),
        Token::Nothing => String::new(),
    }
}

/// The first `count` tokens of `line`, each with a reset of the colour
/// and a space behind it; the token before place `token_i` is written in
/// red.
pub open spec fn tokens_text(line: Seq<Token>, token_i: int, count: int) -> Seq<char>
    decreases count,
{
    if count <= 0 {
        Seq::empty()
    } else {
        tokens_text(line, token_i, count - 1) + if token_i > 0 && count - 1 == token_i - 1 {
            "\x1b[31m"@
        } else {
            Seq::<char>::empty()
        } + token_text(line[count - 1]) + "\x1b[0m "@
    }
}

/// How a line of tokens is shown in a message: behind a tabulator, and
/// with an empty line behind it.
pub open spec fn line_text(line: Seq<Token>, token_i: int) -> Seq<char> {
    "\t"@ + tokens_text(line, token_i, line.len() as int) + "\n\n"@
}

/// Writes a line of tokens, none of which is `Token::Nothing`, for a
/// message. The token before place `token_i` is written in red, none
/// where `token_i` is zero.
pub fn line_to_string(line: &Vec<Token>, token_i: usize) -> (result: String)
    requires
        forall|k: int| 0 <= k < line.len() ==> !(#[trigger] line[k] is Nothing),
    ensures
        result@ == line_text(line@, token_i as int),
{
    let mut result = String::from_str("\t");
    let ghost head = result@;
    let mut i: usize = 0;
    assert(result@ =~= head + tokens_text(line@, token_i as int, 0));
    while i < line.len()
        invariant
            i <= line.len(),
            head == "\t"@,
            forall|k: int| 0 <= k < line.len() ==> !(#[trigger] line[k] is Nothing),
            result@ == head + tokens_text(line@, token_i as int, i as int),
        decreases line.len() - i,
    {
        let ghost before = tokens_text(line@, token_i as int, i as int);
        let ghost mark = if token_i > 0 && i == token_i - 1 {
            "\x1b[31m"@
        } else {
            Seq::<char>::empty()
        };
        if token_i > 0 && i == token_i - 1 {
            result.append("\x1b[31m");
        }
        result.append(token_to_string(&line[i]).as_str());
        result.append("\x1b[0m ");
        assert(result@ =~= head + (before + mark + token_text(line[i as int]) + "\x1b[0m "@));
        i += 1;
    }
    result.append("\n\n");
    result
}

/// Whether `c` is a letter or a digit, as `char::is_alphanumeric` of the
/// standard library tells.
pub uninterp spec fn is_alphanumeric(c: char) -> bool;

/// `char::is_alphanumeric`: the standard library's test for a letter or a
/// digit of any script.
#[verifier::external_body]
fn char_is_alphanumeric(c: char) -> (b: bool)
    ensures
        b == is_alphanumeric(c),
{
    c.is_alphanumeric()
}

/// Whether `c` ends the word before it: every character does but letters
/// and digits.
pub fn should_be_cut(c: &char) -> (cut: bool)
    ensures
        cut == !is_alphanumeric(*c),
{
    !char_is_alphanumeric(*c)
}

} // verus!
