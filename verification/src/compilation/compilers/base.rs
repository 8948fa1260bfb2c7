//! What every code generator shares: how a token is read as an operand.

use crate::parsing::elements::Token;
use crate::text::{char_is_digit, is_digit};
use vstd::prelude::*;

verus! {

/// What a token stands for where a value is expected.
#[derive(Clone, Copy, Debug, PartialEq, Eq, Structural)]
pub enum KindToken {
    /// The expression that follows in the tree.
    Expression,
    /// The name of a variable or of a function.
    Identifier,
    /// A literal.
    Value,
}

/// The place just behind the digits that start at `from`.
pub open spec fn digits_end(s: Seq<char>, from: int) -> int
    decreases s.len() - from,
{
    if 0 <= from < s.len() && is_digit(s[from]) {
        digits_end(s, from + 1)
    } else {
        from
    }
}

/// Whether `c` is a sign.
pub open spec fn is_sign(c: char) -> bool {
    c == '+' || c == '-'
}

/// Whether `s` from `from` on spells `inf`, `infinity` or `nan`, in small or
/// capital letters.
pub open spec fn is_special(s: Seq<char>, from: int) -> bool {
    let n = s.len() - from;
    ||| n == 3 && (s[from] == 'i' || s[from] == 'I') && (s[from + 1] == 'n' || s[from + 1] == 'N')
        && (s[from + 2] == 'f' || s[from + 2] == 'F')
    ||| n == 3 && (s[from] == 'n' || s[from] == 'N') && (s[from + 1] == 'a' || s[from + 1] == 'A')
        && (s[from + 2] == 'n' || s[from + 2] == 'N')
    ||| n == 8 && (s[from] == 'i' || s[from] == 'I') && (s[from + 1] == 'n' || s[from + 1] == 'N')
        && (s[from + 2] == 'f' || s[from + 2] == 'F') && (s[from + 3] == 'i' || s[from + 3] == 'I')
        && (s[from + 4] == 'n' || s[from + 4] == 'N') && (s[from + 5] == 'i' || s[from + 5] == 'I')
        && (s[from + 6] == 't' || s[from + 6] == 'T') && (s[from + 7] == 'y' || s[from + 7] == 'Y')
}

/// Whether `s` from `from` on is an exponent that reaches the end of `s`:
/// the letter `e`, an optional sign and at least one digit.
pub open spec fn is_exponent(s: Seq<char>, from: int) -> bool {
    let digits_start = if from + 1 < s.len() && is_sign(s[from + 1]) {
        from + 2
    } else {
        from + 1
    };
    &&& 0 <= from < s.len()
    &&& s[from] == 'e' || s[from] == 'E'
    &&& digits_end(s, digits_start) > digits_start
    &&& digits_end(s, digits_start) == s.len()
}

/// Whether `s` from `from` on is a decimal number: digits with at most one
/// point among them, at least one digit in all, and an optional exponent.
pub open spec fn is_decimal(s: Seq<char>, from: int) -> bool {
    let whole_end = digits_end(s, from);
    let has_point = whole_end < s.len() && s[whole_end] == '.';
    let fraction_end = if has_point {
        digits_end(s, whole_end + 1)
    } else {
        whole_end
    };
    let digits = if has_point {
        fraction_end - from - 1
    } else {
        fraction_end - from
    };
    &&& digits >= 1
    &&& fraction_end == s.len() || is_exponent(s, fraction_end)
}

/// Whether `s` is written as a number: an optional sign, then a decimal
/// number or one of the words `inf`, `infinity` and `nan`.
pub open spec fn is_number_text(s: Seq<char>) -> bool {
    let from: int = if s.len() > 0 && is_sign(s[0]) {
        1
    } else {
        0
    };
    is_special(s, from) || is_decimal(s, from)
}

/// What `token` stands for where a value is expected.
pub open spec fn kind_of(token: Token) -> KindToken {
    match token {
        Token::BracketOpen => KindToken::Expression,
        Token::Other(text) => if is_number_text(text@) {
            KindToken::Value
        } else {
            KindToken::Identifier
        },
        _ => KindToken::Identifier,
    }
}

/// The place just behind the digits of `s` that start at `from`.
fn scan_digits(s: &str, from: usize, len: usize) -> (end: usize)
    requires
        len == s@.len(),
        from <= len,
    ensures
        end == digits_end(s@, from as int),
        from <= end <= len,
{
    let mut end = from;
    while end < len && char_is_digit(s.get_char(end))
        invariant
            from <= end <= len,
            len == s@.len(),
            digits_end(s@, from as int) == digits_end(s@, end as int),
        decreases len - end,
    {
        end += 1;
    }
    end
}

/// Tests `c` for the letter written `lower` or `upper`.
fn is_letter(c: char, lower: char, upper: char) -> (b: bool)
    ensures
        b == (c == lower || c == upper),
{
    c == lower || c == upper
}

/// Tests `s` from `from` on for one of the words that name a number.
fn scan_special(s: &str, from: usize, len: usize) -> (b: bool)
    requires
        len == s@.len(),
        from <= len,
    ensures
        b == is_special(s@, from as int),
{
    let n = len - from;
    if n == 3 {
        let a = s.get_char(from);
        let b = s.get_char(from + 1);
        let c = s.get_char(from + 2);
        (is_letter(a, 'i', 'I') && is_letter(b, 'n', 'N') && is_letter(c, 'f', 'F')) || (is_letter(
            a,
            'n',
            'N',
        ) && is_letter(b, 'a', 'A') && is_letter(c, 'n', 'N'))
    } else if n == 8 {
        is_letter(s.get_char(from), 'i', 'I') && is_letter(s.get_char(from + 1), 'n', 'N')
            && is_letter(s.get_char(from + 2), 'f', 'F') && is_letter(
            s.get_char(from + 3),
            'i',
            'I',
        ) && is_letter(s.get_char(from + 4), 'n', 'N') && is_letter(s.get_char(from + 5), 'i', 'I')
            && is_letter(s.get_char(from + 6), 't', 'T') && is_letter(
            s.get_char(from + 7),
            'y',
            'Y',
        )
    } else {
        false
    }
}

/// Tests `s` from `from` on for an exponent that reaches the end.
fn scan_exponent(s: &str, from: usize, len: usize) -> (b: bool)
    requires
        len == s@.len(),
        from < len,
    ensures
        b == is_exponent(s@, from as int),
{
    let c = s.get_char(from);
    if c != 'e' && c != 'E' {
        return false;
    }
    let mut digits_start = from + 1;
    if digits_start < len {
        let sign = s.get_char(digits_start);
        if sign == '+' || sign == '-' {
            digits_start += 1;
        }
    }
    let end = scan_digits(s, digits_start, len);
    end > digits_start && end == len
}

/// Tests `s` from `from` on for a decimal number.
fn scan_decimal(s: &str, from: usize, len: usize) -> (b: bool)
    requires
        len == s@.len(),
        from <= len,
    ensures
        b == is_decimal(s@, from as int),
{
    let whole_end = scan_digits(s, from, len);
    let has_point = whole_end < len && s.get_char(whole_end) == '.';
    let fraction_end = if has_point {
        scan_digits(s, whole_end + 1, len)
    } else {
        whole_end
    };
    let digits = if has_point {
        fraction_end - from - 1
    } else {
        fraction_end - from
    };
    if digits < 1 {
        return false;
    }
    fraction_end == len || scan_exponent(s, fraction_end, len)
}

/// Tests `s` for the writing of a number.
pub fn is_number(s: &str) -> (b: bool)
    ensures
        b == is_number_text(s@),
{
    let len = s.unicode_len();
    let mut from: usize = 0;
    if len > 0 {
        let first = s.get_char(0);
        if first == '+' || first == '-' {
            from = 1;
        }
    }
    scan_special(s, from, len) || scan_decimal(s, from, len)
}

impl KindToken {
    /// What `id_or_value_or_expression` stands for where a value is
    /// expected: `BracketOpen` stands for the expression that follows, a
    /// token written as a number for that value, any other token for a
    /// name.
    pub fn from_token(id_or_value_or_expression: &Token) -> (kind: KindToken)
        ensures
            kind == kind_of(*id_or_value_or_expression),
    {
        match id_or_value_or_expression {
            Token::BracketOpen => KindToken::Expression,
            Token::Other(text) => if is_number(text.as_str()) {
                KindToken::Value
            } else {
                KindToken::Identifier
            },
            _ => KindToken::Identifier,
        }
    }
}

} // verus!
