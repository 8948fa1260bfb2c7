//! Text helpers shared by the whole crate: decimal rendering of offsets and
//! label numbers, and a few operations on `String` stated over `Seq<char>`.

use vstd::prelude::*;

verus! {

/// The character that writes the digit `d` (`d < 10`).
pub open spec fn digit_char(d: nat) -> char {
    if d == 0 {
        '0'
    } else if d == 1 {
        '1'
    } else if d == 2 {
        '2'
    } else if d == 3 {
        '3'
    } else if d == 4 {
        '4'
    } else if d == 5 {
        '5'
    } else if d == 6 {
        '6'
    } else if d == 7 {
        '7'
    } else if d == 8 {
        '8'
    } else {
        '9'
    }
}

/// The decimal writing of `n`, most significant digit first, without sign
/// or leading zero.
pub open spec fn decimal_text(n: nat) -> Seq<char>
    decreases n,
{
    if n < 10 {
        seq![digit_char(n)]
    } else {
        decimal_text(n / 10).push(digit_char(n % 10))
    }
}

/// The one-character string that writes the digit `d`.
fn digit_str(d: usize) -> (s: &'static str)
    requires
        d < 10,
    ensures
        s@ == seq![digit_char(d as nat)],
{
    proof {
        reveal_strlit("0");
        reveal_strlit("1");
        reveal_strlit("2");
        reveal_strlit("3");
        reveal_strlit("4");
        reveal_strlit("5");
        reveal_strlit("6");
        reveal_strlit("7");
        reveal_strlit("8");
        reveal_strlit("9");
    }
    let s = if d == 0 {
        "0"
    } else if d == 1 {
        "1"
    } else if d == 2 {
        "2"
    } else if d == 3 {
        "3"
    } else if d == 4 {
        "4"
    } else if d == 5 {
        "5"
    } else if d == 6 {
        "6"
    } else if d == 7 {
        "7"
    } else if d == 8 {
        "8"
    } else {
        "9"
    };
    assert(s@ =~= seq![digit_char(d as nat)]);
    s
}

/// Writes `n` in decimal.
pub fn decimal(n: usize) -> (s: String)
    ensures
        s@ == decimal_text(n as nat),
    decreases n,
{
    if n < 10 {
        String::from_str(digit_str(n))
    } else {
        let mut s = decimal(n / 10);
        s.append(digit_str(n % 10));
        assert(s@ =~= decimal_text(n as nat));
        s
    }
}

/// Whether `c` is one of the ten ASCII digits.
pub open spec fn is_digit(c: char) -> bool {
    '0' <= c <= '9'
}

/// Tests `c` for an ASCII digit.
pub fn char_is_digit(c: char) -> (b: bool)
    ensures
        b == is_digit(c),
{
    '0' <= c && c <= '9'
}

/// The text `a` followed by the text `b`.
pub fn concat(a: &str, b: &str) -> (s: String)
    ensures
        s@ == a@ + b@,
{
    let mut s = String::from_str(a);
    s.append(b);
    s
}

/// Whether the string `s` reads exactly as `text`.
pub fn is_text(s: &String, text: &str) -> (b: bool)
    ensures
        b == (s@ == text@),
{
    let other = String::from_str(text);
    *s == other
}

/// The first place of `text` at or behind `from` where the two characters
/// `{}` stand, or the length of `text` where they stand nowhere.
pub open spec fn hole_from(text: Seq<char>, from: int) -> int
    decreases text.len() - from,
{
    if from < 0 || from + 1 >= text.len() {
        text.len() as int
    } else if text[from] == '{' && text[from + 1] == '}' {
        from
    } else {
        hole_from(text, from + 1)
    }
}

/// `template` with `value` in the place of its first `{}`; `template`
/// itself where it has none.
pub open spec fn filled(template: Seq<char>, value: Seq<char>) -> Seq<char> {
    let hole = hole_from(template, 0);
    if hole >= template.len() {
        template
    } else {
        template.subrange(0, hole) + value + template.subrange(hole + 2, template.len() as int)
    }
}

/// Puts `value` in the place of the first `{}` of `template`.
pub fn fill(template: &str, value: &str) -> (text: String)
    ensures
        text@ == filled(template@, value@),
{
    let len = template.unicode_len();
    let mut i: usize = 0;
    while i < len && i + 1 < len
        invariant
            len == template@.len(),
            hole_from(template@, 0) == hole_from(template@, i as int),
        decreases len - i,
    {
        if template.get_char(i) == '{' && template.get_char(i + 1) == '}' {
            let mut text = String::from_str(template.substring_char(0, i));
            text.append(value);
            text.append(template.substring_char(i + 2, len));
            return text;
        }
        i += 1;
    }
    let text = String::from_str(template);
    text
}

/// The place of the last `/` of `path` before `end`, or -1 where there is
/// none.
pub open spec fn last_slash(path: Seq<char>, end: int) -> int
    decreases end,
{
    if end <= 0 || end > path.len() {
        -1
    } else if path[end - 1] == '/' {
        end - 1
    } else {
        last_slash(path, end - 1)
    }
}

/// The directory of `path`: what stands before its last `/`, and nothing
/// where it has none.
pub open spec fn directory_text(path: Seq<char>) -> Seq<char> {
    let slash = last_slash(path, path.len() as int);
    if slash < 0 {
        Seq::empty()
    } else {
        path.subrange(0, slash)
    }
}

/// The directory of `path`.
pub fn directory_of(path: &str) -> (directory: String)
    ensures
        directory@ == directory_text(path@),
{
    let len = path.unicode_len();
    let mut end: usize = len;
    while end > 0
        invariant
            end <= len,
            len == path@.len(),
            last_slash(path@, len as int) == last_slash(path@, end as int),
        decreases end,
    {
        if path.get_char(end - 1) == '/' {
            return String::from_str(path.substring_char(0, end - 1));
        }
        end -= 1;
    }
    String::new()
}

/// `text` in small letters, as `str::to_lowercase` of the standard library
/// writes it.
pub uninterp spec fn lowercase(text: Seq<char>) -> Seq<char>;

/// `str::to_lowercase`: the text with every capital letter, of any script,
/// replaced by its small one.
#[verifier::external_body]
pub(crate) fn to_lowercase(text: &str) -> (lower: String)
    ensures
        lower@ == lowercase(text@),
{
    text.to_lowercase()
}

/// Whether `pattern` stands in `text` at the place `at`.
pub open spec fn occurs_at(text: Seq<char>, pattern: Seq<char>, at: int) -> bool {
    0 <= at && at + pattern.len() <= text.len() && text.subrange(at, at + pattern.len())
        == pattern
}

/// `text` from the place `from` on, without `pattern` wherever it stands:
/// the text is read from left to right, and what is read as the pattern is
/// left out and not read again. An empty pattern stands nowhere.
pub open spec fn without_every(text: Seq<char>, pattern: Seq<char>, from: int) -> Seq<char>
    decreases text.len() - from,
{
    if from < 0 || from >= text.len() {
        Seq::empty()
    } else if pattern.len() > 0 && occurs_at(text, pattern, from) {
        without_every(text, pattern, from + pattern.len())
    } else {
        seq![text[from]] + without_every(text, pattern, from + 1)
    }
}

/// Takes `pattern` out of `text` wherever it stands.
pub fn remove_every(text: &str, pattern: &str) -> (rest: String)
    ensures
        rest@ == without_every(text@, pattern@, 0),
{
    let len = text.unicode_len();
    let pattern_len = pattern.unicode_len();
    let mut rest = String::new();
    let mut i: usize = 0;
    while i < len
        invariant
            i <= len,
            len == text@.len(),
            pattern_len == pattern@.len(),
            rest@ + without_every(text@, pattern@, i as int) == without_every(
                text@,
                pattern@,
                0,
            ),
        decreases len - i,
    {
        let found = pattern_len > 0 && pattern_len <= len - i && is_text(
            &String::from_str(text.substring_char(i, i + pattern_len)),
            pattern,
        );
        if found {
            i += pattern_len;
        } else {
            let ghost before = rest@;
            rest.append(text.substring_char(i, i + 1));
            assert(text@.subrange(i as int, i + 1) =~= seq![text@[i as int]]);
            assert(rest@ + without_every(text@, pattern@, i + 1) =~= before + (seq![
                text@[i as int],
            ] + without_every(text@, pattern@, i + 1)));
            i += 1;
        }
    }
    assert(rest@ + Seq::<char>::empty() =~= rest@);
    rest
}

/// `text` as the standard library writes a string for debugging: between
/// quotes, with escapes where a character needs one.
pub uninterp spec fn debug_text(text: Seq<char>) -> Seq<char>;

/// The `Debug` formatting of `str`: the text between quotes, with an
/// escape for each character that needs one.
#[verifier::external_body]
pub(crate) fn to_debug(text: &str) -> (quoted: String)
    ensures
        quoted@ == debug_text(text@),
{
    format!("{:?}", text)
}

} // verus!
