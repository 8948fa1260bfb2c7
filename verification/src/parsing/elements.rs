//! The tree that a parser hands to the code generator.

use crate::objects::function::Function;
use crate::objects::variable::Variable;
use vstd::prelude::*;

verus! {

/// One word of a program, as the tree of its elements holds it.
#[derive(Debug, PartialEq, Eq)]
pub enum Token {
    Assembly,
    Assign,
    BracketOpen,
    BracketClose,
    Comma,
    ConditionElse,
    ConditionIf,
    Divide,
    Equal,
    Exit,
    Function,
    LessThan,
    LessThanOrEqual,
    Loop,
    LoopBreak,
    LoopContinue,
    Minus,
    MoreThan,
    MoreThanOrEqual,
    Multiply,
    NewLine,
    NotEqual,
    ParenOpen,
    ParenClose,
    Plus,
    Print,
    Return,
    SquareBracketOpen,
    SquareBracketClose,
    Static,
    TypeDef,
    Variable,
    /// An identifier or a literal, as the source wrote it.
    Other(String),
    /// No token: the place of a value that was not given.
    Nothing,
}

impl Clone for Token {
    fn clone(&self) -> (copy: Self)
        ensures
            copy == *self,
    {
        match self {
            Token::Assembly => Token::Assembly,
            Token::Assign => Token::Assign,
            Token::BracketOpen => Token::BracketOpen,
            Token::BracketClose => Token::BracketClose,
            Token::Comma => Token::Comma,
            Token::ConditionElse => Token::ConditionElse,
            Token::ConditionIf => Token::ConditionIf,
            Token::Divide => Token::Divide,
            Token::Equal => Token::Equal,
            Token::Exit => Token::Exit,
            Token::Function => Token::Function,
            Token::LessThan => Token::LessThan,
            Token::LessThanOrEqual => Token::LessThanOrEqual,
            Token::Loop => Token::Loop,
            Token::LoopBreak => Token::LoopBreak,
            Token::LoopContinue => Token::LoopContinue,
            Token::Minus => Token::Minus,
            Token::MoreThan => Token::MoreThan,
            Token::MoreThanOrEqual => Token::MoreThanOrEqual,
            Token::Multiply => Token::Multiply,
            Token::NewLine => Token::NewLine,
            Token::NotEqual => Token::NotEqual,
            Token::ParenOpen => Token::ParenOpen,
            Token::ParenClose => Token::ParenClose,
            Token::Plus => Token::Plus,
            Token::Print => Token::Print,
            Token::Return => Token::Return,
            Token::SquareBracketOpen => Token::SquareBracketOpen,
            Token::SquareBracketClose => Token::SquareBracketClose,
            Token::Static => Token::Static,
            Token::TypeDef => Token::TypeDef,
            Token::Variable => Token::Variable,
            Token::Other(text) => Token::Other(text.clone()),
            Token::Nothing => Token::Nothing,
        }
    }
}

/// How `token` is shown in a message. `Token::Nothing` is shown as
/// nothing.
pub open spec fn spelling(token: Token) -> Seq<char> {
    match token {
        Token::Assembly => "@"@,
        Token::Assign => "="@,
        Token::BracketOpen => "{"@,
        Token::BracketClose => "}"@,
        Token::Comma => ","@,
        Token::ConditionElse => "else"@,
        Token::ConditionIf => "if"@,
        Token::Divide => "/"@,
        Token::Equal => "=="@,
        Token::Exit => "exit"@,
        Token::Function => "func"@,
        Token::LessThan => "<"@,
        Token::LessThanOrEqual => "<="@,
        Token::Loop => "loop"@,
        Token::LoopBreak => "break"@,
        Token::LoopContinue => "continue"@,
        Token::Minus => "-"@,
        Token::MoreThan => ">"@,
        Token::MoreThanOrEqual => ">="@,
        Token::Multiply => "*"@,
        Token::NewLine => "\n"@,
        Token::NotEqual => "!="@,
        Token::ParenOpen => "("@,
        Token::ParenClose => ")"@,
        Token::Plus => "+"@,
        Token::Print => "print"@,
        Token::Return => "ret"@,
        Token::SquareBracketOpen => "["@,
        Token::SquareBracketClose => "]"@,
        Token::Static => "static"@,
        Token::TypeDef => ":"@,
        Token::Variable => "let"@,
        Token::Other(text) => text@,
        Token::Nothing => Seq::empty(),
    }
}

impl Token {
    /// Writes the token as a message shows it.
    pub fn to_string(&self) -> (text: String)
        ensures
            text@ == spelling(*self),
    {
        match self {
            Token::Assembly => String::from_str("@"),
            Token::Assign => String::from_str("="),
            Token::BracketOpen => String::from_str("{"),
            Token::BracketClose => String::from_str("}"),
            Token::Comma => String::from_str(","),
            Token::ConditionElse => String::from_str("else"),
            Token::ConditionIf => String::from_str("if"),
            Token::Divide => String::from_str("/"),
            Token::Equal => String::from_str("=="),
            Token::Exit => String::from_str("exit"),
            Token::Function => String::from_str("func"),
            Token::LessThan => String::from_str("<"),
            Token::LessThanOrEqual => String::from_str("<="),
            Token::Loop => String::from_str("loop"),
            Token::LoopBreak => String::from_str("break"),
            Token::LoopContinue => String::from_str("continue"),
            Token::Minus => String::from_str("-"),
            Token::MoreThan => String::from_str(">"),
            Token::MoreThanOrEqual => String::from_str(">="),
            Token::Multiply => String::from_str("*"),
            Token::NewLine => String::from_str("\n"),
            Token::NotEqual => String::from_str("!="),
            Token::ParenOpen => String::from_str("("),
            Token::ParenClose => String::from_str(")"),
            Token::Plus => String::from_str("+"),
            Token::Print => String::from_str("print"),
            Token::Return => String::from_str("ret"),
            Token::SquareBracketOpen => String::from_str("["),
            Token::SquareBracketClose => String::from_str("]"),
            Token::Static => String::from_str("static"),
            Token::TypeDef => String::from_str(":"),
            Token::Variable => String::from_str("let"),
            Token::Other(text) => text.clone(),
            Token::Nothing => String::new(),
        }
    }
}

/// An operator between two operands. An operand that is the token
/// `BracketOpen` stands for the expression that follows the operation in
/// the tree.
#[derive(Clone, Debug, PartialEq, Eq)]
pub struct Operation {
    pub operator: Token,
    pub arg1: Token,
    pub arg2: Token,
}

impl Operation {
    pub fn new(operator: Token, arg1: Token, arg2: Token) -> (operation: Operation)
        ensures
            operation == (Operation { operator, arg1, arg2 }),
    {
        Operation { operator, arg1, arg2 }
    }

    pub fn operator(&self) -> (operator: &Token)
        ensures
            *operator == self.operator,
    {
        &self.operator
    }

    pub fn arg1(&self) -> (arg1: &Token)
        ensures
            *arg1 == self.arg1,
    {
        &self.arg1
    }

    pub fn arg2(&self) -> (arg2: &Token)
        ensures
            *arg2 == self.arg2,
    {
        &self.arg2
    }
}

/// One node of the tree. The tree is flat: the elements of a nested
/// expression stand in the same sequence, between `Other(BracketOpen)` and
/// the `Other(BracketClose)` that matches it.
#[derive(Debug, PartialEq, Eq)]
pub enum Element {
    /// The values of an array literal.
    Array(Vec<Token>),
    /// Assembly text, to be written as it is.
    Assembly(String),
    /// The head of a function.
    Function(Function),
    Operation(Operation),
    /// A return, with `Token::Nothing` where no value is returned.
    Return(Token),
    /// The arguments of a call.
    Parameters(Vec<Element>),
    /// The declaration of a variable.
    Variable(Variable),
    Other(Token),
}

} // verus!
