//! The check of the syntax: each line starts an instruction that the
//! language knows, and a declaration names its variable and its type.

use crate::checking::data::CheckerData;
use crate::compilation::compilers::base::{digits_end, is_sign};
use crate::logging::level::LogLevel;
use crate::logging::log::{Log, LogView};
use crate::logging::logger::{has_error, Logger};
use crate::logging::source::{line_text, line_to_string, source_text, source_to_string};
use crate::parsing::elements::{spelling, Token};
use crate::text::char_is_digit;
use vstd::prelude::*;

verus! {

/// The digit that `c` writes.
pub open spec fn digit_value(c: char) -> nat {
    (c as u32 - '0' as u32) as nat
}

/// The number that the digits of `s[from..to]` write.
pub open spec fn digits_value(s: Seq<char>, from: int, to: int) -> nat
    decreases to - from,
{
    if to <= from {
        0
    } else {
        digits_value(s, from, to - 1) * 10 + digit_value(s[to - 1])
    }
}

/// Whether `s` is written as an integer of 64 bits: an optional sign and
/// at least one digit, of a number that such an integer can hold.
pub open spec fn is_integer_text(s: Seq<char>) -> bool {
    let from: int = if s.len() > 0 && is_sign(s[0]) {
        1
    } else {
        0
    };
    &&& from < s.len()
    &&& digits_end(s, from) == s.len()
    &&& digits_value(s, from, s.len() as int) <= if s[0] == '-' {
        0x8000_0000_0000_0000nat
    } else {
        0x7fff_ffff_ffff_ffffnat
    }
}

/// More digits never write a smaller number.
proof fn lemma_digits_value_grows(s: Seq<char>, from: int, middle: int, to: int)
    requires
        from <= middle <= to,
    ensures
        digits_value(s, from, middle) <= digits_value(s, from, to),
    decreases to - middle,
{
    if middle < to {
        lemma_digits_value_grows(s, from, middle, to - 1);
    }
}

/// Tests `s` for the writing of an integer of 64 bits.
pub fn is_integer(s: &str) -> (b: bool)
    ensures
        b == is_integer_text(s@),
{
    let len = s.unicode_len();
    let mut from: usize = 0;
    let mut bound: u64 = 0x7fff_ffff_ffff_ffff;
    if len > 0 {
        let first = s.get_char(0);
        if first == '+' || first == '-' {
            from = 1;
        }
        if first == '-' {
            bound = 0x8000_0000_0000_0000;
        }
    }
    if from >= len {
        return false;
    }
    let mut value: u64 = 0;
    let mut i: usize = from;
    while i < len
        invariant
            from <= i <= len,
            len == s@.len(),
            digits_end(s@, from as int) == digits_end(s@, i as int),
            value == digits_value(s@, from as int, i as int),
            value <= bound,
            from == if s@.len() > 0 && is_sign(s@[0]) {
                1int
            } else {
                0int
            },
            bound == if s@[0] == '-' {
                0x8000_0000_0000_0000int
            } else {
                0x7fff_ffff_ffff_ffffint
            },
        decreases len - i,
    {
        let c = s.get_char(i);
        if !char_is_digit(c) {
            assert(digits_end(s@, i as int) == i);
            return false;
        }
        let digit: u64 = (c as u32 - '0' as u32) as u64;
        assert(digit <= 9);
        if value > (bound - digit) / 10 {
            proof {
                assert(value * 10 + digit > bound);
                assert(digits_value(s@, from as int, i + 1) > bound);
                lemma_digits_value_grows(s@, from as int, i + 1, len as int);
            }
            return false;
        }
        value = value * 10 + digit;
        i += 1;
    }
    true
}

/// Whether `token` can name a variable: it is a word that is not written
/// as an integer.
pub open spec fn names_variable(token: Token) -> bool {
    token matches Token::Other(id) && !is_integer_text(id@)
}

/// A message about the tokens of a line.
pub open spec fn line_error(
    title: Seq<char>,
    line: Seq<Token>,
    marked: int,
    message: Seq<char>,
    cause: Seq<char>,
    hint: Seq<char>,
) -> LogView {
    LogView {
        level: LogLevel::Error,
        title,
        cause,
        message: line_text(line, marked) + message,
        hint,
    }
}

/// The error for a declaration that names no variable.
pub open spec fn invalid_identifier(line: Seq<Token>, token_i: int, cause: Seq<char>) -> LogView {
    line_error(
        "Invalid identifier for variable"@,
        line,
        token_i + 1,
        "Found '"@ + spelling(line[token_i])
            + "' but it cannot be used as a variable identifier"@,
        cause,
        Seq::empty(),
    )
}

/// The error for a declaration with another token in the place of the
/// colon.
pub open spec fn invalid_type_definition(line: Seq<Token>, token_i: int, cause: Seq<char>) -> LogView {
    line_error(
        "Invalid token"@,
        line,
        token_i + 2,
        "Found '"@ + spelling(line[2]) + "' but it's not a type definition token"@,
        cause,
        Seq::empty(),
    )
}

/// The error for a declaration that ends behind its variable.
pub open spec fn missing_type_definition(line: Seq<Token>, token_i: int, cause: Seq<char>) -> LogView {
    line_error(
        "Expected token"@,
        line,
        token_i + 1,
        "No token was found next to '"@ + spelling(line[token_i]) + "' but expected"@,
        cause,
        "Specify the variable's type with ':' + <type>"@,
    )
}

/// The error for a declaration that is its key word alone.
pub open spec fn lonely_declaration(line: Seq<Token>, token_i: int, cause: Seq<char>) -> LogView {
    line_error(
        "Expected token"@,
        line,
        token_i + 1,
        "No token was found next to '"@ + spelling(line[token_i]) + "' but expected"@,
        cause,
        Seq::empty(),
    )
}

/// The error for a token that follows a token which starts no
/// instruction.
pub open spec fn invalid_instruction(
    line: Seq<Token>,
    token_i: int,
    previous: Token,
    cause: Seq<char>,
) -> LogView {
    line_error(
        "Invalid token instruction"@,
        line,
        token_i,
        "No valid instruction found for token '"@ + spelling(previous) + "'"@,
        cause,
        Seq::empty(),
    )
}

/// What the check of one token gives: a message, or none, and whether
/// the rest of the line is left unchecked.
pub struct Checked {
    pub log: Option<LogView>,
    pub break_line: bool,
}

/// The check of token number `token_i` of `line`, which follows the token
/// `previous`; the first token of a line follows `Token::Nothing`.
pub open spec fn checked_token(
    source: Seq<char>,
    line_i: int,
    line: Seq<Token>,
    token_i: int,
    previous: Token,
) -> Checked {
    let cause = source_text(source, line_i, token_i);
    match previous {
        Token::Assembly => Checked { log: None, break_line: true },
        Token::Assign => Checked { log: None, break_line: false },
        Token::Function => Checked { log: None, break_line: false },
        Token::Return => Checked { log: None, break_line: false },
        Token::Variable | Token::Static => if !names_variable(line[token_i]) {
            Checked { log: Some(invalid_identifier(line, token_i, cause)), break_line: true }
        } else if line.len() <= 2 {
            Checked { log: Some(missing_type_definition(line, token_i, cause)), break_line: true }
        } else if line[2] is TypeDef {
            Checked { log: None, break_line: true }
        } else {
            Checked { log: Some(invalid_type_definition(line, token_i, cause)), break_line: true }
        },
        Token::Print => Checked { log: None, break_line: true },
        Token::Exit => Checked { log: None, break_line: true },
        Token::Nothing => if line.len() == 1 && (line[token_i] is Variable
            || line[token_i] is Static) {
            Checked { log: Some(lonely_declaration(line, token_i, cause)), break_line: false }
        } else {
            Checked { log: None, break_line: false }
        },
        _ => Checked {
            log: Some(invalid_instruction(line, token_i, previous, cause)),
            break_line: false,
        },
    }
}

/// `logs` with the message of `checked` behind them, where it has one.
pub open spec fn with_log(logs: Seq<LogView>, checked: Checked) -> Seq<LogView> {
    match checked.log {
        Some(log) => logs.push(log),
        None => logs,
    }
}

/// The messages after the tokens of `line` from number `token_i` on are
/// checked, where `logs` are the messages before.
pub open spec fn checked_line(
    logs: Seq<LogView>,
    source: Seq<char>,
    line_i: int,
    line: Seq<Token>,
    token_i: int,
    previous: Token,
) -> Seq<LogView>
    decreases line.len() - token_i,
{
    if token_i < 0 || token_i >= line.len() {
        logs
    } else {
        let checked = checked_token(source, line_i, line, token_i, previous);
        if checked.break_line {
            with_log(logs, checked)
        } else {
            checked_line(
                with_log(logs, checked),
                source,
                line_i,
                line,
                token_i + 1,
                line[token_i],
            )
        }
    }
}

/// The messages after the lines of `lines` from number `from` on are
/// checked, where `logs` are the messages before and the first of these
/// lines is counted as line number `line_i`.
pub open spec fn checked_lines(
    logs: Seq<LogView>,
    source: Seq<char>,
    lines: Seq<Vec<Token>>,
    from: int,
    line_i: int,
) -> Seq<LogView>
    decreases lines.len() - from,
{
    if from < 0 || from >= lines.len() {
        logs
    } else {
        checked_lines(
            checked_line(logs, source, line_i, lines[from]@, 0, Token::Nothing),
            source,
            lines,
            from + 1,
            line_i + 1,
        )
    }
}

/// Checks the syntax of the lines of a source file.
#[derive(Debug)]
pub struct SyntaxChecker {
    pub data: CheckerData,
}

impl SyntaxChecker {
    pub fn new(data: CheckerData) -> (checker: SyntaxChecker)
        ensures
            checker.data == data,
    {
        SyntaxChecker { data }
    }

    /// Nothing is to be prepared.
    pub fn init(&mut self)
        ensures
            *final(self) == *old(self),
    {
    }

    /// Runs the check: `Ok` where no message is an error, else the
    /// messages.
    pub fn run(&mut self) -> (result: Result<(), Logger>)
        requires
            old(self).data.line_i + old(self).data.parsed.len() < usize::MAX,
            forall|k: int|
                0 <= k < old(self).data.parsed.len() ==> (#[trigger] old(self).data.parsed[k]).len() < usize::MAX - 2,
        ensures
            final(self).data.logger@ == checked_lines(
                old(self).data.logger@,
                old(self).data.source@,
                old(self).data.parsed@,
                0,
                old(self).data.line_i as int,
            ),
            has_error(final(self).data.logger@) ==> result is Err && result->Err_0@ == final(self).data.logger@,
            !has_error(final(self).data.logger@) ==> result is Ok,
    {
        self.init();
        self.check();
        self.finish()
    }

    /// Checks every line, token by token.
    pub fn check(&mut self)
        requires
            old(self).data.line_i + old(self).data.parsed.len() < usize::MAX,
            forall|k: int|
                0 <= k < old(self).data.parsed.len() ==> (#[trigger] old(self).data.parsed[k]).len() < usize::MAX - 2,
        ensures
            final(self).data.source == old(self).data.source,
            final(self).data.parsed == old(self).data.parsed,
            final(self).data.line_i == old(self).data.line_i + old(self).data.parsed.len(),
            final(self).data.logger@ == checked_lines(
                old(self).data.logger@,
                old(self).data.source@,
                old(self).data.parsed@,
                0,
                old(self).data.line_i as int,
            ),
    {
        let mut l: usize = 0;
        while l < self.data.parsed.len()
            invariant
                l <= self.data.parsed.len(),
                self.data.source == old(self).data.source,
                self.data.parsed == old(self).data.parsed,
                self.data.line_i == old(self).data.line_i + l,
                old(self).data.line_i + old(self).data.parsed.len() < usize::MAX,
                forall|k: int|
                    0 <= k < self.data.parsed.len() ==> (#[trigger] self.data.parsed[k]).len()
                        < usize::MAX - 2,
                checked_lines(
                    old(self).data.logger@,
                    old(self).data.source@,
                    old(self).data.parsed@,
                    0,
                    old(self).data.line_i as int,
                ) == checked_lines(
                    self.data.logger@,
                    self.data.source@,
                    self.data.parsed@,
                    l as int,
                    self.data.line_i as int,
                ),
            decreases self.data.parsed.len() - l,
        {
            let mut previous_token = Token::Nothing;
            let mut break_line = false;
            self.data.token_i = 0;
            let ghost start = self.data.logger@;
            let ghost line = self.data.parsed[l as int]@;
            while !break_line && self.data.token_i < self.data.parsed[l].len()
                invariant
                    l < self.data.parsed.len(),
                    line == self.data.parsed[l as int]@,
                    line.len() < usize::MAX - 2,
                    self.data.token_i <= line.len(),
                    self.data.source == old(self).data.source,
                    self.data.parsed == old(self).data.parsed,
                    self.data.line_i == old(self).data.line_i + l,
                    self.data.line_i < usize::MAX,
                    checked_line(
                        start,
                        self.data.source@,
                        self.data.line_i as int,
                        line,
                        0,
                        Token::Nothing,
                    ) == if break_line {
                        self.data.logger@
                    } else {
                        checked_line(
                            self.data.logger@,
                            self.data.source@,
                            self.data.line_i as int,
                            line,
                            self.data.token_i as int,
                            previous_token,
                        )
                    },
                decreases line.len() - self.data.token_i + if break_line {
                    0int
                } else {
                    1int
                },
            {
                let token_i = self.data.token_i;
                break_line = self.check_for_instruction(l, &previous_token);
                previous_token = self.data.parsed[l][token_i].clone();
                if !break_line {
                    self.data.token_i += 1;
                }
            }
            self.data.line_i += 1;
            l += 1;
        }
    }

    /// Checks the token at the place where the checker stands, in line
    /// number `line` of the file, behind the token `previous_token`. Adds
    /// the message that the check gives, and tells whether the rest of the
    /// line is left unchecked.
    pub fn check_for_instruction(&mut self, line: usize, previous_token: &Token) -> (break_line:
        bool)
        requires
            line < old(self).data.parsed.len(),
            old(self).data.token_i < old(self).data.parsed[line as int].len(),
            old(self).data.parsed[line as int].len() < usize::MAX - 2,
            old(self).data.line_i < usize::MAX,
        ensures
            final(self).data.source == old(self).data.source,
            final(self).data.parsed == old(self).data.parsed,
            final(self).data.line_i == old(self).data.line_i,
            final(self).data.token_i == old(self).data.token_i,
            break_line == checked_token(
                old(self).data.source@,
                old(self).data.line_i as int,
                old(self).data.parsed[line as int]@,
                old(self).data.token_i as int,
                *previous_token,
            ).break_line,
            final(self).data.logger@ == with_log(
                old(self).data.logger@,
                checked_token(
                    old(self).data.source@,
                    old(self).data.line_i as int,
                    old(self).data.parsed[line as int]@,
                    old(self).data.token_i as int,
                    *previous_token,
                ),
            ),
    {
        proof {
            reveal_strlit("");
            assert(""@ =~= Seq::<char>::empty());
        }
        let token_i = self.data.token_i;
        let cause = source_to_string(self.data.source.clone(), self.data.line_i, token_i);
        let tokens = &self.data.parsed[line];
        let token = &tokens[token_i];
        match previous_token {
            Token::Assembly => true,
            Token::Assign => false,
            Token::Function => false,
            Token::Return => false,
            Token::Variable | Token::Static => {
                let named = match token {
                    Token::Other(variable_id) => !is_integer(variable_id.as_str()),
                    _ => false,
                };
                if !named {
                    let log = SyntaxChecker::error(
                        "Invalid identifier for variable",
                        tokens,
                        token_i + 1,
                        "Found '",
                        token,
                        "' but it cannot be used as a variable identifier",
                        cause,
                        "",
                    );
                    self.data.logger.add_log(log);
                } else if tokens.len() <= 2 {
                    let log = SyntaxChecker::error(
                        "Expected token",
                        tokens,
                        token_i + 1,
                        "No token was found next to '",
                        token,
                        "' but expected",
                        cause,
                        "Specify the variable's type with ':' + <type>",
                    );
                    self.data.logger.add_log(log);
                } else {
                    let is_type_definition = match &tokens[2] {
                        Token::TypeDef => true,
                        _ => false,
                    };
                    if !is_type_definition {
                        let log = SyntaxChecker::error(
                            "Invalid token",
                            tokens,
                            token_i + 2,
                            "Found '",
                            &tokens[2],
                            "' but it's not a type definition token",
                            cause,
                            "",
                        );
                        self.data.logger.add_log(log);
                    }
                }
                true
            },
            Token::Print => true,
            Token::Exit => true,
            Token::Nothing => {
                let declares = match token {
                    Token::Variable => true,
                    Token::Static => true,
                    _ => false,
                };
                if tokens.len() == 1 && declares {
                    let log = SyntaxChecker::error(
                        "Expected token",
                        tokens,
                        token_i + 1,
                        "No token was found next to '",
                        token,
                        "' but expected",
                        cause,
                        "",
                    );
                    self.data.logger.add_log(log);
                }
                false
            },
            _ => {
                let log = SyntaxChecker::error(
                    "Invalid token instruction",
                    tokens,
                    token_i,
                    "No valid instruction found for token '",
                    previous_token,
                    "'",
                    cause,
                    "",
                );
                self.data.logger.add_log(log);
                false
            },
        }
    }

    /// An error about the tokens of a line: the line with one token
    /// marked, and a sentence that names a token.
    fn error(
        title: &str,
        line: &Vec<Token>,
        marked: usize,
        before: &str,
        named: &Token,
        after: &str,
        cause: String,
        hint: &str,
    ) -> (log: Log)
        ensures
            log@ == line_error(
                title@,
                line@,
                marked as int,
                before@ + spelling(*named) + after@,
                cause@,
                hint@,
            ),
    {
        let mut message = line_to_string(line, marked);
        message.append(before);
        message.append(named.to_string().as_str());
        message.append(after);
        let mut log = Log::new(LogLevel::Error, String::from_str(title), message);
        log.add_cause(cause);
        let log = log.add_hint(String::from_str(hint));
        assert(log@.message =~= line_text(line@, marked as int) + (before@ + spelling(*named)
            + after@));
        assert(log@.hint =~= hint@);
        log
    }

    /// `Ok` where no message is an error, else the messages.
    pub fn finish(&mut self) -> (result: Result<(), Logger>)
        ensures
            *final(self) == *old(self),
            has_error(old(self).data.logger@) ==> result is Err && result->Err_0@ == old(self).data.logger@,
            !has_error(old(self).data.logger@) ==> result is Ok,
    {
        self.data.logger.get_result()
    }

    pub fn data(&mut self) -> (data: &mut CheckerData)
        ensures
            *data == old(self).data,
            final(self).data == *final(data),
    {
        &mut self.data
    }
}

/// Runs the checks on the lines of a source file: `Ok` where no message
/// is an error, else the messages.
pub fn run_checkers(data: CheckerData) -> (result: Result<(), Logger>)
    requires
        data.line_i + data.parsed.len() < usize::MAX,
        forall|k: int| 0 <= k < data.parsed.len() ==> (#[trigger] data.parsed[k]).len() < usize::MAX
            - 2,
    ensures
        has_error(
            checked_lines(data.logger@, data.source@, data.parsed@, 0, data.line_i as int),
        ) ==> result is Err && result->Err_0@ == checked_lines(
            data.logger@,
            data.source@,
            data.parsed@,
            0,
            data.line_i as int,
        ),
        !has_error(
            checked_lines(data.logger@, data.source@, data.parsed@, 0, data.line_i as int),
        ) ==> result is Ok,
{
    let mut syntax_checker = SyntaxChecker::new(data);
    syntax_checker.run()
}

} // verus!
