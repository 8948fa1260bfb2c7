//! Places in a source file, written for messages.

use crate::parsing::elements::{spelling, Token};
use crate::text::{decimal, decimal_text};
use vstd::prelude::*;

verus! {

/// The tokens of `line` up to number `count`, each with a reset of the
/// colour and a space behind it; the token before place `token_i` is
/// written in red.
pub open spec fn tokens_text(line: Seq<Token>, token_i: int, count: int) -> Seq<char>
    decreases count,
{
    if count <= 0 {
        Seq::empty()
    } else {
        tokens_text(line, token_i, count - 1) + if token_i > 0 && count - 1 == token_i - 1 {
            "\x1b[31m"@
        } else {
            Seq::<char>::empty()
        } + spelling(line[count - 1]) + "\x1b[0m "@
    }
}

/// How a line of tokens is shown in a message: behind a tabulator, and
/// with an empty line behind it.
pub open spec fn line_text(line: Seq<Token>, token_i: int) -> Seq<char> {
    "\t"@ + tokens_text(line, token_i, line.len() as int) + "\n\n"@
}

/// Writes a line of tokens for a message. The token before place
/// `token_i` is written in red, none where `token_i` is zero.
pub fn line_to_string(line: &Vec<Token>, token_i: usize) -> (result: String)
    ensures
        result@ == line_text(line@, token_i as int),
{
    let mut result = String::from_str("\t");
    let ghost head = result@;
    let mut i: usize = 0;
    assert(result@ =~= head + tokens_text(line@, token_i as int, 0));
    while i < line.len()
        invariant
            i <= line.len(),
            head == "\t"@,
            result@ == head + tokens_text(line@, token_i as int, i as int),
        decreases line.len() - i,
    {
        let ghost before = tokens_text(line@, token_i as int, i as int);
        let ghost mark = if token_i > 0 && i == token_i - 1 {
            "\x1b[31m"@
        } else {
            Seq::<char>::empty()
        };
        if token_i > 0 && i == token_i - 1 {
            result.append("\x1b[31m");
        }
        result.append(line[i].to_string().as_str());
        result.append("\x1b[0m ");
        assert(result@ =~= head + (before + mark + spelling(line[i as int]) + "\x1b[0m "@));
        i += 1;
    }
    result.append("\n\n");
    result
}

/// How a place in a source file is written: lines and tokens are counted
/// from one.
pub open spec fn source_text(source: Seq<char>, line_i: int, token_i: int) -> Seq<char> {
    "in '"@ + source + "' at ("@ + decimal_text((line_i + 1) as nat) + ", "@ + decimal_text(
        (token_i + 1) as nat,
    ) + ")"@
}

/// Writes the place of token number `token_i` in line number `line_i` of
/// the file `source`, both counted from zero.
pub fn source_to_string(source: String, line_i: usize, token_i: usize) -> (result: String)
    requires
        line_i < usize::MAX,
        token_i < usize::MAX,
    ensures
        result@ == source_text(source@, line_i as int, token_i as int),
{
    let mut result = String::from_str("in '");
    result.append(source.as_str());
    result.append("' at (");
    result.append(decimal(line_i + 1).as_str());
    result.append(", ");
    result.append(decimal(token_i + 1).as_str());
    result.append(")");
    result
}

} // verus!
