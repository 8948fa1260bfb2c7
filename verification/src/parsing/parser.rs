//! The first reading of a source text: its words, line by line.

use crate::parsing::tokens::{is_alphanumeric, keyword, should_be_cut, string_to_token, Token};
use vstd::prelude::*;

verus! {

/// A word of the text. A raw word is kept as it is written, whatever it
/// spells: the words of a line of assembly are.
pub struct Word {
    pub text: Seq<char>,
    pub raw: bool,
}

/// Whether `token` is the token of the word `word`: the key word or sign
/// that the word spells, unless the word is raw, else the raw string with
/// the text of the word.
pub open spec fn spells(token: Token, word: Word) -> bool {
    if !word.raw && keyword(word.text) is Some {
        token == keyword(word.text)->Some_0
    } else {
        token is RawString && token->RawString_0@ == word.text
    }
}

/// Whether the tokens of `line` are the tokens of the words of `words`.
pub open spec fn spells_line(line: Seq<Token>, words: Seq<Word>) -> bool {
    &&& line.len() == words.len()
    &&& forall|k: int| 0 <= k < line.len() ==> spells(#[trigger] line[k], words[k])
}

/// Whether the lines of `lines` are the lines of `words`.
pub open spec fn spells_lines(lines: Seq<Vec<Token>>, words: Seq<Seq<Word>>) -> bool {
    &&& lines.len() == words.len()
    &&& forall|k: int| 0 <= k < lines.len() ==> spells_line((#[trigger] lines[k])@, words[k])
}

/// A line with one more token is the line of the words with one more
/// word, where the token is that of the word.
pub proof fn lemma_spells_push(line: Seq<Token>, words: Seq<Word>, token: Token, word: Word)
    requires
        spells_line(line, words),
        spells(token, word),
    ensures
        spells_line(line.push(token), words.push(word)),
{
    assert forall|k: int| 0 <= k < line.push(token).len() implies spells(
        #[trigger] line.push(token)[k],
        words.push(word)[k],
    ) by {
        if k < line.len() {
            assert(spells(line[k], words[k]));
        }
    }
}

/// Lines with one more line are the lines of the words with one more
/// line of words, where the line is that of the words.
pub proof fn lemma_spells_lines_push(
    lines: Seq<Vec<Token>>,
    words: Seq<Seq<Word>>,
    line: Vec<Token>,
    line_words: Seq<Word>,
)
    requires
        spells_lines(lines, words),
        spells_line(line@, line_words),
    ensures
        spells_lines(lines.push(line), words.push(line_words)),
{
    assert forall|k: int| 0 <= k < lines.push(line).len() implies spells_line(
        (#[trigger] lines.push(line)[k])@,
        words.push(line_words)[k],
    ) by {
        if k < lines.len() {
            assert(spells_line(lines[k]@, words[k]));
        }
    }
}

/// How far a text is read.
pub struct Reading {
    /// The characters of the word that is being read.
    pub token: Seq<char>,
    /// The words of the line that is being read.
    pub line: Seq<Word>,
    /// The lines that are complete.
    pub parsed: Seq<Seq<Word>>,
    /// Whether the character read last was the first of a sign of two
    /// equal characters.
    pub was_double_char: bool,
    /// Whether the reading stands between two quotes.
    pub is_string: bool,
    /// The characters behind the opening quote.
    pub string_content: Seq<char>,
    /// Whether the line is a line of assembly.
    pub is_asm_code: bool,
    /// Whether the rest of the line is a comment.
    pub is_comment: bool,
}

/// The reading before the first character.
pub open spec fn reading_start() -> Reading {
    Reading {
        token: Seq::empty(),
        line: Seq::empty(),
        parsed: Seq::empty(),
        was_double_char: false,
        is_string: false,
        string_content: Seq::empty(),
        is_asm_code: false,
        is_comment: false,
    }
}

/// `line` with the word `token` behind it, unless the word is empty.
pub open spec fn with_word(line: Seq<Word>, token: Seq<char>, raw: bool) -> Seq<Word> {
    if token.len() == 0 {
        line
    } else {
        line.push(Word { text: token, raw })
    }
}

/// `parsed` with the line `line` behind it, unless the line is empty.
pub open spec fn with_line(parsed: Seq<Seq<Word>>, line: Seq<Word>) -> Seq<Seq<Word>> {
    if line.len() == 0 {
        parsed
    } else {
        parsed.push(line)
    }
}

/// The reading after a character that ends a word and is no end of line:
/// the word before it is complete; the character itself, unless it is a
/// space, is a sign, alone or together with an equal character behind it.
/// Two slashes start a comment.
pub open spec fn read_sign(r: Reading, content: Seq<char>, i: int) -> Reading {
    let c = content[i];
    let line = with_word(r.line, r.token, r.is_asm_code);
    let cut = Reading { token: Seq::empty(), line, ..r };
    if c != ' ' && !r.was_double_char {
        if i + 1 < content.len() && c == content[i + 1] {
            if keyword(seq![c, c]) == Some(Token::Comment) {
                Reading { is_comment: true, ..cut }
            } else {
                Reading {
                    line: line.push(Word { text: seq![c, c], raw: false }),
                    was_double_char: true,
                    ..cut
                }
            }
        } else {
            Reading {
                line: line.push(Word { text: seq![c], raw: r.is_asm_code && c != ',' }),
                was_double_char: false,
                ..cut
            }
        }
    } else {
        Reading { was_double_char: false, ..cut }
    }
}

/// The reading after character number `i` of `content`.
pub open spec fn read_char(r: Reading, content: Seq<char>, i: int) -> Reading {
    let c = content[i];
    if c != '\n' && r.is_comment {
        r
    } else if c == '"' {
        if r.is_string {
            Reading {
                is_string: false,
                line: r.line.push(
                    Word { text: seq!['"'] + r.string_content + seq!['"'], raw: false },
                ),
                string_content: Seq::empty(),
                ..r
            }
        } else {
            Reading { is_string: true, ..r }
        }
    } else if r.is_string {
        Reading { string_content: r.string_content.push(c), ..r }
    } else if c == '@' {
        Reading {
            token: Seq::empty(),
            line: r.line.push(Word { text: seq!['@'], raw: r.is_asm_code }),
            is_asm_code: true,
            ..r
        }
    } else if c == '\n' {
        Reading {
            token: Seq::empty(),
            line: Seq::empty(),
            parsed: with_line(r.parsed, with_word(r.line, r.token, r.is_asm_code)),
            is_asm_code: false,
            is_comment: false,
            ..r
        }
    } else if !is_alphanumeric(c) {
        read_sign(r, content, i)
    } else {
        Reading { token: r.token.push(c), ..r }
    }
}

/// The reading after the first `count` characters of `content`.
pub open spec fn read_to(content: Seq<char>, count: int) -> Reading
    decreases count,
{
    if count <= 0 {
        reading_start()
    } else {
        read_char(read_to(content, count - 1), content, count - 1)
    }
}

/// The words of `content`, line by line: the lines that are complete at
/// the end of the text, and behind them the line that the text ends in.
/// Empty lines are left out.
pub open spec fn words_of(content: Seq<char>) -> Seq<Seq<Word>> {
    let r = read_to(content, content.len() as int);
    with_line(r.parsed, with_word(r.line, r.token, false))
}

/// Reads a source text into lines of tokens.
#[derive(Debug)]
pub struct Parser {
    pub parsed: Vec<Vec<Token>>,
    /// The name of the file that the text comes from, where it comes from
    /// one.
    pub source: Option<String>,
    pub content: String,
}

impl Parser {
    /// A parser for the file `source`, whose text is still to be given.
    pub fn new(source: &String) -> (parser: Parser)
        ensures
            parser.parsed@.len() == 0,
            parser.source == Some(*source),
            parser.content@.len() == 0,
    {
        Parser { parsed: Vec::new(), source: Some(source.clone()), content: String::new() }
    }

    /// A parser for the text `content`.
    pub fn from(content: String) -> (parser: Parser)
        ensures
            parser.parsed@.len() == 0,
            parser.source is None,
            parser.content == content,
    {
        Parser { parsed: Vec::new(), source: None, content }
    }

    /// Gives the parser the text of its file.
    pub fn set_content(&mut self, content: String)
        ensures
            final(self).content == content,
            final(self).parsed == old(self).parsed,
            final(self).source == old(self).source,
    {
        self.content = content;
    }

    /// Reads the text: the lines of its words are added behind the lines
    /// that are there.
    pub fn run(&mut self)
        ensures
            final(self).content == old(self).content,
            final(self).source == old(self).source,
            final(self).parsed@.len() == old(self).parsed@.len() + words_of(
                old(self).content@,
            ).len(),
            final(self).parsed@.subrange(0, old(self).parsed@.len() as int)
                == old(self).parsed@,
            spells_lines(
                final(self).parsed@.subrange(
                    old(self).parsed@.len() as int,
                    final(self).parsed@.len() as int,
                ),
                words_of(old(self).content@),
            ),
    {
        let mut token = String::new();
        let mut line: Vec<Token> = Vec::new();
        let mut was_double_char = false;
        let mut is_string = false;
        let mut string_content = String::new();
        let mut is_asm_code = false;
        let mut is_comment = false;
        let ghost before = self.parsed@;
        let ghost kept = self.parsed@.len() as int;
        let ghost text = self.content@;
        let len = self.content.as_str().unicode_len();
        let mut i: usize = 0;
        assert(self.parsed@.subrange(kept, self.parsed@.len() as int) =~= Seq::<
            Vec<Token>,
        >::empty());
        assert(self.parsed@.subrange(0, kept) =~= before);
        while i < len
            invariant
                i <= len,
                len == text.len(),
                self.content@ == text,
                self.content == old(self).content,
                self.source == old(self).source,
                self.parsed@.len() >= kept,
                kept == before.len(),
                self.parsed@.subrange(0, kept) == before,
                spells_lines(
                    self.parsed@.subrange(kept, self.parsed@.len() as int),
                    read_to(text, i as int).parsed,
                ),
                spells_line(line@, read_to(text, i as int).line),
                token@ == read_to(text, i as int).token,
                string_content@ == read_to(text, i as int).string_content,
                was_double_char == read_to(text, i as int).was_double_char,
                is_string == read_to(text, i as int).is_string,
                is_asm_code == read_to(text, i as int).is_asm_code,
                is_comment == read_to(text, i as int).is_comment,
            decreases len - i,
        {
            let ghost r = read_to(text, i as int);
            let c = self.content.as_str().get_char(i);
            if c != '\n' && is_comment {
            } else if c == '"' {
                if is_string {
                    is_string = false;
                    let mut quoted = String::from_str("\"");
                    quoted.append(string_content.as_str());
                    quoted.append("\"");
                    proof {
                        reveal_strlit("\"");
                        assert(quoted@ =~= seq!['"'] + r.string_content + seq!['"']);
                    }
                    Parser::push_spelled(
                        &mut line,
                        string_to_token(&quoted),
                        Ghost(r.line),
                        Ghost(Word { text: quoted@, raw: false }),
                    );
                    string_content = String::new();
                } else {
                    is_string = true;
                }
            } else if is_string {
                string_content.append(self.content.as_str().substring_char(i, i + 1));
                assert(string_content@ =~= r.string_content.push(c));
            } else if c == '@' {
                let sign = String::from_str("@");
                proof {
                    reveal_strlit("@");
                    assert(sign@ =~= seq!['@']);
                }
                let sign_token = if is_asm_code {
                    Token::RawString(sign)
                } else {
                    string_to_token(&sign)
                };
                Parser::push_spelled(
                    &mut line,
                    sign_token,
                    Ghost(r.line),
                    Ghost(Word { text: seq!['@'], raw: is_asm_code }),
                );
                token = String::new();
                is_asm_code = true;
            } else if c == '\n' {
                Parser::push_word(&mut token, &mut line, is_asm_code, Ghost(r.line));
                self.push_line(
                    line,
                    Ghost(kept),
                    Ghost(r.parsed),
                    Ghost(with_word(r.line, r.token, r.is_asm_code)),
                );
                line = Vec::new();
                is_asm_code = false;
                is_comment = false;
            } else if should_be_cut(&c) {
                Parser::push_word(&mut token, &mut line, is_asm_code, Ghost(r.line));
                let ghost cut = with_word(r.line, r.token, r.is_asm_code);
                if c != ' ' && !was_double_char {
                    if i + 1 < len && c == self.content.as_str().get_char(i + 1) {
                        let double = String::from_str(
                            self.content.as_str().substring_char(i, i + 2),
                        );
                        assert(double@ =~= seq![c, c]);
                        let double_char_as_token = string_to_token(&double);
                        let is_comment_sign = match &double_char_as_token {
                            Token::Comment => true,
                            _ => false,
                        };
                        if is_comment_sign {
                            is_comment = true;
                        } else {
                            Parser::push_spelled(
                                &mut line,
                                double_char_as_token,
                                Ghost(cut),
                                Ghost(Word { text: seq![c, c], raw: false }),
                            );
                            was_double_char = true;
                        }
                    } else {
                        let single = String::from_str(
                            self.content.as_str().substring_char(i, i + 1),
                        );
                        assert(single@ =~= seq![c]);
                        let raw = is_asm_code && c != ',';
                        let single_token = if raw {
                            Token::RawString(single)
                        } else {
                            string_to_token(&single)
                        };
                        Parser::push_spelled(
                            &mut line,
                            single_token,
                            Ghost(cut),
                            Ghost(Word { text: seq![c], raw }),
                        );
                        was_double_char = false;
                    }
                } else {
                    was_double_char = false;
                }
            } else {
                token.append(self.content.as_str().substring_char(i, i + 1));
                assert(token@ =~= r.token.push(c));
            }
            i += 1;
        }
        let ghost r = read_to(text, len as int);
        Parser::push_word(&mut token, &mut line, false, Ghost(r.line));
        self.push_line(
            line,
            Ghost(kept),
            Ghost(r.parsed),
            Ghost(with_word(r.line, r.token, false)),
        );
        assert(self.parsed@.subrange(0, kept) == before);
    }

    /// Adds the word `token` to `line`, unless it is empty, and starts a
    /// new word. A word of a line of assembly is kept as it is written.
    pub fn push_token(token: &mut String, line: &mut Vec<Token>, is_asm_code: bool)
        ensures
            final(token)@.len() == 0,
            old(token)@.len() == 0 ==> *final(line) == *old(line),
            old(token)@.len() > 0 ==> final(line)@.len() == old(line)@.len() + 1,
            old(token)@.len() > 0 ==> final(line)@.drop_last() == old(line)@,
            old(token)@.len() > 0 ==> spells(
                final(line)@.last(),
                Word { text: old(token)@, raw: is_asm_code },
            ),
    {
        if token.as_str().unicode_len() > 0 {
            if is_asm_code {
                line.push(Token::RawString(token.clone()));
            } else {
                line.push(string_to_token(token));
            }
            assert(line@.drop_last() =~= old(line)@);
            *token = String::new();
        }
    }

    /// Adds the word `token` to `line` as `push_token` does, where the
    /// line is known to be that of `words`.
    fn push_word(
        token: &mut String,
        line: &mut Vec<Token>,
        is_asm_code: bool,
        Ghost(words): Ghost<Seq<Word>>,
    )
        requires
            spells_line(old(line)@, words),
        ensures
            final(token)@.len() == 0,
            spells_line(final(line)@, with_word(words, old(token)@, is_asm_code)),
    {
        let ghost before = line@;
        Parser::push_token(token, line, is_asm_code);
        proof {
            if old(token)@.len() > 0 {
                lemma_spells_push(
                    before,
                    words,
                    line@.last(),
                    Word { text: old(token)@, raw: is_asm_code },
                );
                assert(line@ =~= before.push(line@.last()));
            }
        }
    }

    /// Adds `token` to `line`, where the line is known to be that of
    /// `words` and the token that of `word`.
    fn push_spelled(
        line: &mut Vec<Token>,
        token: Token,
        Ghost(words): Ghost<Seq<Word>>,
        Ghost(word): Ghost<Word>,
    )
        requires
            spells_line(old(line)@, words),
            spells(token, word),
        ensures
            spells_line(final(line)@, words.push(word)),
    {
        proof {
            lemma_spells_push(line@, words, token, word);
        }
        line.push(token);
    }

    /// Adds `line` to the lines that are read, unless it is empty, where
    /// the lines behind the first `kept` are known to be those of `words`
    /// and the line that of `line_words`.
    fn push_line(
        &mut self,
        line: Vec<Token>,
        Ghost(kept): Ghost<int>,
        Ghost(words): Ghost<Seq<Seq<Word>>>,
        Ghost(line_words): Ghost<Seq<Word>>,
    )
        requires
            0 <= kept <= old(self).parsed@.len(),
            spells_lines(
                old(self).parsed@.subrange(kept, old(self).parsed@.len() as int),
                words,
            ),
            spells_line(line@, line_words),
        ensures
            final(self).content == old(self).content,
            final(self).source == old(self).source,
            final(self).parsed@.len() >= old(self).parsed@.len(),
            final(self).parsed@.subrange(0, kept) == old(self).parsed@.subrange(0, kept),
            spells_lines(
                final(self).parsed@.subrange(kept, final(self).parsed@.len() as int),
                with_line(words, line_words),
            ),
    {
        if line.len() > 0 {
            let ghost lines = self.parsed@;
            proof {
                lemma_spells_lines_push(
                    lines.subrange(kept, lines.len() as int),
                    words,
                    line,
                    line_words,
                );
            }
            self.parsed.push(line);
            assert(self.parsed@.subrange(kept, self.parsed@.len() as int) =~= lines.subrange(
                kept,
                lines.len() as int,
            ).push(line));
            assert(self.parsed@.subrange(0, kept) =~= lines.subrange(0, kept));
        }
    }

    pub fn parsed(&self) -> (parsed: &Vec<Vec<Token>>)
        ensures
            *parsed == self.parsed,
    {
        &self.parsed
    }
}

} // verus!
