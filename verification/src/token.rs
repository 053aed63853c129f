//! Tokens of the source language and the lexer that produces them.
//!
//! The lexer is a pure function of the source text. Its result is stated by
//! [`scan`], a mathematical description of the token sequence over
//! `Seq<char>`; [`Lexer::lex`] is proved to compute exactly that.
use vstd::prelude::*;

use crate::text::{chars_of, digit_char, digits_of, string_of};

verus! {

/// A token of the source language.
///
/// `Equal` is the assignment arrow: both `=` and `<-` produce it. `Enter` marks
/// a line break. `EOF` marks the end of the stream; the lexer never emits it.
#[derive(Debug, Clone, PartialEq, Eq, Hash)]
pub enum Type {
    Plus,
    Minus,
    Asterisk,
    Slash,
    LParen,
    RParen,
    SemiColon,
    Colon,
    Equal,
    Less,
    Greater,
    Enter,
    LBraces,
    RBraces,
    Conma,
    Period,
    Identifier(String),
    DoubleQuotation(String),
    Number(i64),
    EOF,
}

/// The mathematical value of a [`Type`]: text as `Seq<char>`, numbers as `int`.
pub enum Tok {
    Plus,
    Minus,
    Asterisk,
    Slash,
    LParen,
    RParen,
    SemiColon,
    Colon,
    Equal,
    Less,
    Greater,
    Enter,
    LBraces,
    RBraces,
    Conma,
    Period,
    Identifier(Seq<char>),
    DoubleQuotation(Seq<char>),
    Number(int),
    EOF,
}

impl View for Type {
    type V = Tok;

    open spec fn view(&self) -> Tok {
        match self {
            Type::Plus => Tok::Plus,
            Type::Minus => Tok::Minus,
            Type::Asterisk => Tok::Asterisk,
            Type::Slash => Tok::Slash,
            Type::LParen => Tok::LParen,
            Type::RParen => Tok::RParen,
            Type::SemiColon => Tok::SemiColon,
            Type::Colon => Tok::Colon,
            Type::Equal => Tok::Equal,
            Type::Less => Tok::Less,
            Type::Greater => Tok::Greater,
            Type::Enter => Tok::Enter,
            Type::LBraces => Tok::LBraces,
            Type::RBraces => Tok::RBraces,
            Type::Conma => Tok::Conma,
            Type::Period => Tok::Period,
            Type::Identifier(word) => Tok::Identifier(word@),
            Type::DoubleQuotation(word) => Tok::DoubleQuotation(word@),
            Type::Number(value) => Tok::Number(*value as int),
            Type::EOF => Tok::EOF,
        }
    }
}

/// The values of a sequence of tokens, in order.
pub open spec fn toks(tokens: Seq<Type>) -> Seq<Tok> {
    tokens.map_values(|t: Type| t@)
}

impl Type {
    /// Whether two tokens have the same value.
    pub fn same(&self, other: &Type) -> (equal: bool)
        ensures
            equal == (self@ == other@),
    {
        match (self, other) {
            (Type::Plus, Type::Plus) => true,
            (Type::Minus, Type::Minus) => true,
            (Type::Asterisk, Type::Asterisk) => true,
            (Type::Slash, Type::Slash) => true,
            (Type::LParen, Type::LParen) => true,
            (Type::RParen, Type::RParen) => true,
            (Type::SemiColon, Type::SemiColon) => true,
            (Type::Colon, Type::Colon) => true,
            (Type::Equal, Type::Equal) => true,
            (Type::Less, Type::Less) => true,
            (Type::Greater, Type::Greater) => true,
            (Type::Enter, Type::Enter) => true,
            (Type::LBraces, Type::LBraces) => true,
            (Type::RBraces, Type::RBraces) => true,
            (Type::Conma, Type::Conma) => true,
            (Type::Period, Type::Period) => true,
            (Type::Identifier(a), Type::Identifier(b)) => *a == *b,
            (Type::DoubleQuotation(a), Type::DoubleQuotation(b)) => *a == *b,
            (Type::Number(a), Type::Number(b)) => *a == *b,
            (Type::EOF, Type::EOF) => true,
            _ => false,
        }
    }

    /// A copy of the token with the same value.
    pub fn duplicate(&self) -> (copy: Type)
        ensures
            copy@ == self@,
    {
        match self {
            Type::Plus => Type::Plus,
            Type::Minus => Type::Minus,
            Type::Asterisk => Type::Asterisk,
            Type::Slash => Type::Slash,
            Type::LParen => Type::LParen,
            Type::RParen => Type::RParen,
            Type::SemiColon => Type::SemiColon,
            Type::Colon => Type::Colon,
            Type::Equal => Type::Equal,
            Type::Less => Type::Less,
            Type::Greater => Type::Greater,
            Type::Enter => Type::Enter,
            Type::LBraces => Type::LBraces,
            Type::RBraces => Type::RBraces,
            Type::Conma => Type::Conma,
            Type::Period => Type::Period,
            Type::Identifier(word) => Type::Identifier(word.clone()),
            Type::DoubleQuotation(word) => Type::DoubleQuotation(word.clone()),
            Type::Number(value) => Type::Number(*value),
            Type::EOF => Type::EOF,
        }
    }
}

/// Why a source text has no token sequence.
#[derive(Debug, Clone, Copy, PartialEq, Eq, Structural)]
pub enum LexError {
    /// A character outside the recognised set.
    InvalidCharacter(char),
    /// An integer literal above `i64::MAX`.
    NumberTooLarge,
}

/// The token of a punctuation character. `<` is listed as `Less`; the lexer
/// looks for the arrow `<-` before it consults this table.
pub open spec fn punctuation(c: char) -> Option<Tok> {
    if c == '+' {
        Some(Tok::Plus)
    } else if c == '-' {
        Some(Tok::Minus)
    } else if c == '*' {
        Some(Tok::Asterisk)
    } else if c == '/' {
        Some(Tok::Slash)
    } else if c == ';' {
        Some(Tok::SemiColon)
    } else if c == ':' {
        Some(Tok::Colon)
    } else if c == '=' {
        Some(Tok::Equal)
    } else if c == '(' {
        Some(Tok::LParen)
    } else if c == ')' {
        Some(Tok::RParen)
    } else if c == '<' {
        Some(Tok::Less)
    } else if c == '>' {
        Some(Tok::Greater)
    } else if c == '{' {
        Some(Tok::LBraces)
    } else if c == '}' {
        Some(Tok::RBraces)
    } else if c == ',' {
        Some(Tok::Conma)
    } else if c == '.' {
        Some(Tok::Period)
    } else if c == '\n' {
        Some(Tok::Enter)
    } else {
        None
    }
}

/// Code points of the Japanese scripts that may appear in identifiers:
/// Hiragana, Katakana, and the CJK ideograph blocks.
pub open spec fn japanese(c: char) -> bool {
    let code = c as u32;
    ||| 0x3040 <= code <= 0x309F
    ||| 0x30A0 <= code <= 0x30FF
    ||| 0x3400 <= code <= 0x4DBF
    ||| 0x4E00 <= code <= 0x9FFF
    ||| 0x20000 <= code <= 0x2A6DF
    ||| 0x2A700 <= code <= 0x2B73F
    ||| 0x2B740 <= code <= 0x2B81F
    ||| 0x2B820 <= code <= 0x2CEAF
    ||| 0xF900 <= code <= 0xFAFF
    ||| 0x2F800 <= code <= 0x2FA1F
}

/// An ASCII decimal digit.
pub open spec fn digit(c: char) -> bool {
    0x30 <= c as u32 <= 0x39
}

/// A character that may begin an identifier.
pub open spec fn word_start(c: char) -> bool {
    let code = c as u32;
    ||| 0x61 <= code <= 0x7A
    ||| 0x41 <= code <= 0x5A
    ||| c == '_'
    ||| japanese(c)
}

/// A character that may continue an identifier.
pub open spec fn word_part(c: char) -> bool {
    word_start(c) || digit(c)
}

/// The kinds of maximal runs the lexer captures.
#[derive(Debug, Clone, Copy, PartialEq, Eq, Structural)]
pub enum Run {
    /// Identifier characters.
    Word,
    /// Decimal digits.
    Digits,
    /// Decimal digits and `.`.
    Numeral,
    /// Anything but a double quote.
    Quoted,
}

/// Whether `c` belongs to a run of the given kind.
pub open spec fn in_run(kind: Run, c: char) -> bool {
    match kind {
        Run::Word => word_part(c),
        Run::Digits => digit(c),
        Run::Numeral => digit(c) || c == '.',
        Run::Quoted => c != '"',
    }
}

/// Length of the longest run of `kind` characters of `src` that starts at `from`.
pub open spec fn run_len(src: Seq<char>, from: int, kind: Run) -> nat
    decreases src.len() - from,
{
    if 0 <= from < src.len() && in_run(kind, src[from]) {
        1 + run_len(src, from + 1, kind)
    } else {
        0
    }
}

/// The number written by a sequence of decimal digits.
pub open spec fn integer_value(digits: Seq<char>) -> int
    decreases digits.len(),
{
    if digits.len() == 0 {
        0
    } else {
        integer_value(digits.drop_last()) * 10 + (digits.last() as u32 - 0x30)
    }
}

/// Number of characters of `src` at and after `pos`.
pub open spec fn remaining(src: Seq<char>, pos: int) -> nat {
    if 0 <= pos < src.len() {
        (src.len() - pos) as nat
    } else {
        0
    }
}

/// Puts `first` in front of the tokens of `rest`, or passes the error on.
pub open spec fn followed(first: Tok, rest: Result<Seq<Tok>, LexError>) -> Result<
    Seq<Tok>,
    LexError,
> {
    match rest {
        Ok(tokens) => Ok(seq![first] + tokens),
        Err(e) => Err(e),
    }
}

/// The tokens of `src` from position `pos` on.
///
/// * `<-` is the arrow; a `<` not followed by `-` is `Less`.
/// * `"` opens a string literal that runs to the next `"`, which is consumed;
///   without a closing quote the literal runs to the end of the text.
/// * A digit opens a numeral: the longest run of digits and `.`. Its value is
///   that of the digits before the first `.`.
/// * A letter, `_` or a Japanese character opens an identifier: the longest run
///   of identifier characters.
/// * Space and tab produce nothing.
/// * Any other character is an error, as is a numeral above `i64::MAX`.
pub open spec fn scan(src: Seq<char>, pos: int) -> Result<Seq<Tok>, LexError>
    decreases remaining(src, pos),
{
    if !(0 <= pos < src.len()) {
        Ok(Seq::empty())
    } else {
        let c = src[pos];
        if c == '<' {
            if pos + 1 < src.len() && src[pos + 1] == '-' {
                followed(Tok::Equal, scan(src, pos + 2))
            } else {
                followed(Tok::Less, scan(src, pos + 1))
            }
        } else if c == '"' {
            let n = run_len(src, pos + 1, Run::Quoted);
            followed(
                Tok::DoubleQuotation(src.subrange(pos + 1, pos + 1 + n)),
                scan(src, pos + 2 + n),
            )
        } else if punctuation(c) is Some {
            followed(punctuation(c)->0, scan(src, pos + 1))
        } else if digit(c) {
            let whole = 1 + run_len(src, pos + 1, Run::Digits);
            let all = 1 + run_len(src, pos + 1, Run::Numeral);
            let value = integer_value(src.subrange(pos, pos + whole));
            if value > i64::MAX {
                Err(LexError::NumberTooLarge)
            } else {
                followed(Tok::Number(value), scan(src, pos + all))
            }
        } else if word_start(c) {
            let n = 1 + run_len(src, pos + 1, Run::Word);
            followed(Tok::Identifier(src.subrange(pos, pos + n)), scan(src, pos + n))
        } else if c == ' ' || c == '\t' {
            scan(src, pos + 1)
        } else {
            Err(LexError::InvalidCharacter(c))
        }
    }
}

/// The tokens of a whole source text.
pub open spec fn tokens_of(src: Seq<char>) -> Result<Seq<Tok>, LexError> {
    scan(src, 0)
}

/// A run never extends past the end of the text.
pub proof fn lemma_run_within(src: Seq<char>, from: int, kind: Run)
    requires
        0 <= from <= src.len(),
    ensures
        from + run_len(src, from, kind) <= src.len(),
    decreases src.len() - from,
{
    if from < src.len() && in_run(kind, src[from]) {
        lemma_run_within(src, from + 1, kind);
    }
}

/// A run is maximal: every character in it belongs to its kind, and the
/// character after it, if there is one, does not.
pub proof fn lemma_run_maximal(src: Seq<char>, from: int, kind: Run)
    requires
        0 <= from <= src.len(),
    ensures
        forall|i: int|
            from <= i < from + run_len(src, from, kind) ==> in_run(kind, #[trigger] src[i]),
        from + run_len(src, from, kind) < src.len() ==> !in_run(
            kind,
            src[from + run_len(src, from, kind)],
        ),
    decreases src.len() - from,
{
    if from < src.len() && in_run(kind, src[from]) {
        lemma_run_maximal(src, from + 1, kind);
    }
}

/// Where every character from `from` on belongs to `kind`, the run reaches the end.
pub proof fn lemma_run_whole(src: Seq<char>, from: int, kind: Run)
    requires
        0 <= from <= src.len(),
        forall|i: int| from <= i < src.len() ==> in_run(kind, #[trigger] src[i]),
    ensures
        from + run_len(src, from, kind) == src.len(),
    decreases src.len() - from,
{
    if from < src.len() {
        lemma_run_whole(src, from + 1, kind);
    }
}

/// A numeral begins with its digits: the run of digits and `.` is the run of
/// digits followed by the run of digits and `.` that starts after them.
pub proof fn lemma_numeral_split(src: Seq<char>, from: int)
    requires
        0 <= from <= src.len(),
    ensures
        run_len(src, from, Run::Numeral) == run_len(src, from, Run::Digits) + run_len(
            src,
            from + run_len(src, from, Run::Digits),
            Run::Numeral,
        ),
    decreases src.len() - from,
{
    if from < src.len() && digit(src[from]) {
        lemma_numeral_split(src, from + 1);
    }
}

/// An identifier lexes to itself: a text that begins with an identifier start
/// and consists of identifier characters only, ASCII or Japanese, is one
/// `Identifier` token holding the whole text.
pub proof fn lemma_identifier_is_one_token(word: Seq<char>)
    requires
        word.len() > 0,
        word_start(word[0]),
        forall|i: int| 0 <= i < word.len() ==> word_part(#[trigger] word[i]),
    ensures
        tokens_of(word) == Ok::<Seq<Tok>, LexError>(seq![Tok::Identifier(word)]),
{
    lemma_run_whole(word, 1, Run::Word);
    let n = 1 + run_len(word, 1, Run::Word);
    assert(word.subrange(0, n as int) == word);
    assert(scan(word, n as int) == Ok::<Seq<Tok>, LexError>(Seq::empty()));
}

/// The decimal digits of a number are digits, and there is at least one.
pub proof fn lemma_digits_are_digits(n: nat)
    ensures
        digits_of(n).len() >= 1,
        forall|i: int| 0 <= i < digits_of(n).len() ==> digit(#[trigger] digits_of(n)[i]),
    decreases n,
{
    if n >= 10 {
        lemma_digits_are_digits(n / 10);
    }
}

/// The decimal digits of a number write that number.
pub proof fn lemma_digits_write_the_number(n: nat)
    ensures
        integer_value(digits_of(n)) == n,
    decreases n,
{
    let digits = digits_of(n);
    if n >= 10 {
        lemma_digits_write_the_number(n / 10);
        assert(digits.drop_last() == digits_of(n / 10));
    } else {
        assert(integer_value(digits.drop_last()) == 0);
    }
}

/// A number reads back: the decimal digits of a number that fits into `i64`
/// are one `Number` token, and its value is that number.
pub proof fn lemma_number_reads_back(n: nat)
    requires
        n <= i64::MAX,
    ensures
        tokens_of(digits_of(n)) == Ok::<Seq<Tok>, LexError>(seq![Tok::Number(n as int)]),
{
    let src = digits_of(n);
    lemma_digits_are_digits(n);
    lemma_digits_write_the_number(n);
    lemma_run_whole(src, 1, Run::Digits);
    lemma_run_whole(src, 1, Run::Numeral);
    assert(src.subrange(0, src.len() as int) == src);
    assert(scan(src, src.len() as int) == Ok::<Seq<Tok>, LexError>(Seq::empty()));
}

/// The token of a punctuation character, if it is one.
pub fn punctuation_of(c: char) -> (token: Option<Type>)
    ensures
        match token {
            Some(t) => punctuation(c) == Some(t@),
            None => punctuation(c).is_none(),
        },
{
    if c == '+' {
        Some(Type::Plus)
    } else if c == '-' {
        Some(Type::Minus)
    } else if c == '*' {
        Some(Type::Asterisk)
    } else if c == '/' {
        Some(Type::Slash)
    } else if c == ';' {
        Some(Type::SemiColon)
    } else if c == ':' {
        Some(Type::Colon)
    } else if c == '=' {
        Some(Type::Equal)
    } else if c == '(' {
        Some(Type::LParen)
    } else if c == ')' {
        Some(Type::RParen)
    } else if c == '<' {
        Some(Type::Less)
    } else if c == '>' {
        Some(Type::Greater)
    } else if c == '{' {
        Some(Type::LBraces)
    } else if c == '}' {
        Some(Type::RBraces)
    } else if c == ',' {
        Some(Type::Conma)
    } else if c == '.' {
        Some(Type::Period)
    } else if c == '\n' {
        Some(Type::Enter)
    } else {
        None
    }
}

/// Whether `c` belongs to a run of the given kind.
pub fn belongs(kind: Run, c: char) -> (member: bool)
    ensures
        member == in_run(kind, c),
{
    let code: u32 = c as u32;
    let is_digit = 0x30 <= code && code <= 0x39;
    match kind {
        Run::Word => is_digit || starts_word(c),
        Run::Digits => is_digit,
        Run::Numeral => is_digit || c == '.',
        Run::Quoted => c != '"',
    }
}

/// Whether `c` may begin an identifier.
pub fn starts_word(c: char) -> (start: bool)
    ensures
        start == word_start(c),
{
    let code: u32 = c as u32;
    (0x61 <= code && code <= 0x7A) || (0x41 <= code && code <= 0x5A) || c == '_'
        || in_japanese_blocks(c)
}

/// Whether `c` lies in one of the Japanese blocks.
pub fn in_japanese_blocks(c: char) -> (inside: bool)
    ensures
        inside == japanese(c),
{
    let code: u32 = c as u32;
    (0x3040 <= code && code <= 0x309F) || (0x30A0 <= code && code <= 0x30FF) || (0x3400 <= code
        && code <= 0x4DBF) || (0x4E00 <= code && code <= 0x9FFF) || (0x20000 <= code && code
        <= 0x2A6DF) || (0x2A700 <= code && code <= 0x2B73F) || (0x2B740 <= code && code <= 0x2B81F)
        || (0x2B820 <= code && code <= 0x2CEAF) || (0xF900 <= code && code <= 0xFAFF) || (0x2F800
        <= code && code <= 0x2FA1F)
}

/// The end of the longest run of `kind` characters that starts at `from`.
pub(crate) fn run_end(chars: &Vec<char>, from: usize, kind: Run) -> (end: usize)
    requires
        from <= chars.len(),
    ensures
        end == from + run_len(chars@, from as int, kind),
        from <= end <= chars.len(),
{
    let mut end: usize = from;
    while end < chars.len() && belongs(kind, chars[end])
        invariant
            from <= end <= chars.len(),
            from + run_len(chars@, from as int, kind) == end + run_len(chars@, end as int, kind),
        decreases chars.len() - end,
    {
        end += 1;
    }
    end
}

/// The lexer: holds a source text and turns it into tokens.
pub struct Lexer {
    code: String,
}

impl Lexer {
    /// The text this lexer reads.
    pub closed spec fn source(&self) -> Seq<char> {
        self.code@
    }

    /// A lexer for `code`.
    pub fn new(code: String) -> (lexer: Self)
        ensures
            lexer.source() == code@,
    {
        Self { code }
    }

    /// The tokens of the source text, or the first lexical error in it.
    pub fn lex(&self) -> (result: Result<Vec<Type>, LexError>)
        ensures
            match result {
                Ok(tokens) => tokens_of(self.source()) == Ok::<Seq<Tok>, LexError>(toks(tokens@)),
                Err(e) => tokens_of(self.source()) == Err::<Seq<Tok>, LexError>(e),
            },
    {
        let chars = chars_of(self.code.as_str());
        let mut tokens: Vec<Type> = Vec::new();
        let mut pos: usize = 0;
        while pos < chars.len()
            invariant
                pos <= chars.len(),
                chars@ == self.source(),
                match scan(chars@, pos as int) {
                    Ok(rest) => tokens_of(chars@) == Ok::<Seq<Tok>, LexError>(toks(tokens@) + rest),
                    Err(e) => tokens_of(chars@) == Err::<Seq<Tok>, LexError>(e),
                },
            decreases chars.len() - pos,
        {
            let ghost before = toks(tokens@);
            let c = chars[pos];
            let mut token: Option<Type> = None;
            if c == '<' {
                if pos + 1 < chars.len() && chars[pos + 1] == '-' {
                    token = Some(Type::Equal);
                    pos += 2;
                } else {
                    token = Some(Type::Less);
                    pos += 1;
                }
            } else if c == '"' {
                let end = run_end(&chars, pos + 1, Run::Quoted);
                token = Some(Type::DoubleQuotation(string_of(&chars, pos + 1, end)));
                pos = if end < chars.len() {
                    end + 1
                } else {
                    end
                };
                assert(scan(chars@, end + 1) == scan(chars@, pos as int));
            } else if let Some(mark) = punctuation_of(c) {
                token = Some(mark);
                pos += 1;
            } else if belongs(Run::Digits, c) {
                match self.parse_number(&chars, pos) {
                    Ok((number, end)) => {
                        token = Some(number);
                        pos = end;
                    },
                    Err(e) => {
                        return Err(e);
                    },
                }
            } else if starts_word(c) {
                let (word, end) = self.parse_identifier(&chars, pos);
                token = Some(word);
                pos = end;
            } else if c == ' ' || c == '\t' {
                pos += 1;
            } else {
                return Err(LexError::InvalidCharacter(c));
            }
            match token {
                Some(t) => {
                    let ghost value = t@;
                    tokens.push(t);
                    proof {
                        assert(toks(tokens@) == before.push(value));
                        match scan(chars@, pos as int) {
                            Ok(rest) => {
                                assert(before + (seq![value] + rest) == before.push(value) + rest);
                            },
                            Err(_) => {},
                        }
                    }
                },
                None => {},
            }
        }
        Ok(tokens)
    }

    /// Whether `c` is a character of the Japanese scripts that identifiers may hold.
    pub fn is_japanese_char(&self, c: char) -> (inside: bool)
        ensures
            inside == japanese(c),
    {
        in_japanese_blocks(c)
    }

    /// Reads the identifier that starts at `from`: the token and where it ends.
    fn parse_identifier(&self, chars: &Vec<char>, from: usize) -> (found: (Type, usize))
        requires
            from < chars.len(),
            word_start(chars@[from as int]),
        ensures
            found.1 == from + 1 + run_len(chars@, from + 1, Run::Word),
            from < found.1 <= chars.len(),
            found.0@ == Tok::Identifier(chars@.subrange(from as int, found.1 as int)),
    {
        let end = run_end(chars, from + 1, Run::Word);
        (Type::Identifier(string_of(chars, from, end)), end)
    }

    /// Reads the numeral that starts at `from`: the token and where it ends, or
    /// an error if its value does not fit.
    fn parse_number(&self, chars: &Vec<char>, from: usize) -> (found: Result<
        (Type, usize),
        LexError,
    >)
        requires
            from < chars.len(),
            digit(chars@[from as int]),
        ensures
            ({
                let whole = 1 + run_len(chars@, from + 1, Run::Digits);
                let all = 1 + run_len(chars@, from + 1, Run::Numeral);
                let value = integer_value(chars@.subrange(from as int, from + whole));
                match found {
                    Ok((token, end)) => {
                        &&& value <= i64::MAX
                        &&& token@ == Tok::Number(value)
                        &&& end == from + all
                        &&& from < end <= chars.len()
                    },
                    Err(e) => value > i64::MAX && e == LexError::NumberTooLarge,
                }
            }),
    {
        let mut value: i64 = 0;
        let mut fits = true;
        let mut end: usize = from;
        while end < chars.len() && belongs(Run::Digits, chars[end])
            invariant
                from <= end <= chars.len(),
                from + run_len(chars@, from as int, Run::Digits) == end + run_len(
                    chars@,
                    end as int,
                    Run::Digits,
                ),
                0 <= integer_value(chars@.subrange(from as int, end as int)),
                fits ==> value == integer_value(chars@.subrange(from as int, end as int)),
                !fits ==> integer_value(chars@.subrange(from as int, end as int)) > i64::MAX,
            decreases chars.len() - end,
        {
            let d: i64 = (chars[end] as u32 - 0x30) as i64;
            proof {
                let longer = chars@.subrange(from as int, end + 1);
                assert(longer.drop_last() =~= chars@.subrange(from as int, end as int));
            }
            if fits && value <= (i64::MAX - d) / 10 {
                value = value * 10 + d;
            } else {
                fits = false;
            }
            end += 1;
        }
        let whole_end = end;
        let end = run_end(chars, whole_end, Run::Numeral);
        proof {
            lemma_numeral_split(chars@, from as int);
        }
        if fits {
            Ok((Type::Number(value), end))
        } else {
            Err(LexError::NumberTooLarge)
        }
    }
}

} // verus!
