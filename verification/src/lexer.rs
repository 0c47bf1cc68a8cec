//! The lexer: from characters to tokens.
//!
//! [`lex_at`] says which token begins at a character of the input, and at
//! which place, counted in bytes, it stands;
//! [`Lexer::next_token`] hands out the tokens one after the other.

use vstd::prelude::*;
use vstd::utf8::{char_is_scalar, encode_scalar, encode_utf8};
use crate::text::{
    char_code, char_is_alphanumeric, char_is_digit, int_literal_value, is_alphanumeric, is_digit,
    parse_int_literal, str_chars, string_of_chars,
};
use crate::token::{Token, TokenV};

verus! {

/// Why the lexer found no token.
#[derive(Debug, Clone, Copy, PartialEq, Eq, Structural)]
pub enum LexicalError {
    /// The input ends inside a string.
    UnterminatedStringLiteral,
    /// A backslash is followed by a character that names no escape.
    UnexpectedEscapeCode(char),
    /// The input ends after a backslash.
    UnexpectedEndOfFile,
    /// A character that begins no token.
    Unexpected(char),
    /// A run of digits, letters and underscores that begins like a number
    /// and is no integer of 64 bits in base 10.
    InvalidIntLiteral,
}

/// A token between the place where it begins and the place after its last
/// character; places count the bytes of the text in UTF-8, from 0.
pub type SpannedToken = (usize, Token, usize);

/// A character with its place in the input, counted in bytes.
pub type InputChar = (usize, char);

/// `ch` may begin an atom that is written without quotes.
pub open spec fn atom_start(ch: char) -> bool {
    ('a' <= ch <= 'z') || ch == '_'
}

/// `ch` may stand in an atom that is written without quotes, and in a
/// number.
pub open spec fn atom_char(ch: char) -> bool {
    is_alphanumeric(ch) || ch == '_'
}

/// `ch` is white space: a character with the Unicode property White_Space.
pub open spec fn whitespace(ch: char) -> bool {
    let c = ch as int;
    ||| 0x09 <= c <= 0x0d
    ||| c == 0x20
    ||| c == 0x85
    ||| c == 0xa0
    ||| c == 0x1680
    ||| 0x2000 <= c <= 0x200a
    ||| c == 0x2028
    ||| c == 0x2029
    ||| c == 0x202f
    ||| c == 0x205f
    ||| c == 0x3000
}

/// The character that a backslash and `ch` stand for, if any.
pub open spec fn escape_value(ch: char) -> Option<char> {
    if ch == '\'' {
        Some('\'')
    } else if ch == '"' {
        Some('"')
    } else if ch == '\\' {
        Some('\\')
    } else if ch == '/' {
        Some('/')
    } else if ch == 'n' {
        Some('\n')
    } else if ch == 'r' {
        Some('\r')
    } else if ch == 't' {
        Some('\t')
    } else if ch == 'e' {
        Some('\x1e')
    } else if ch == 's' {
        Some(' ')
    } else if ch == 'v' {
        Some('\x0b')
    } else if ch == 'f' {
        Some('\x0c')
    } else if ch == 'b' {
        Some('\x08')
    } else if ch == 'd' {
        Some('\x7f')
    } else {
        None
    }
}

/// The index of the first character from `s[p]` on that is no white
/// space.
pub open spec fn skip_whitespace(s: Seq<char>, p: int) -> int
    decreases s.len() - p,
{
    if 0 <= p < s.len() && whitespace(s[p]) {
        skip_whitespace(s, p + 1)
    } else {
        p
    }
}

/// The index of the first character from `s[p]` on that is no character
/// of an atom.
pub open spec fn atom_run_end(s: Seq<char>, p: int) -> int
    decreases s.len() - p,
{
    if 0 <= p < s.len() && atom_char(s[p]) {
        atom_run_end(s, p + 1)
    } else {
        p
    }
}

/// What stands between quotes, read from `p` on, after the characters
/// `acc`: the text and the index after the closing `quote`. A backslash
/// and the character after it stand for one character. Where the input
/// ends before the closing quote, a string fails and an atom ends.
pub open spec fn scan_quoted(s: Seq<char>, p: int, acc: Seq<char>, quote: char) -> Result<
    (Seq<char>, int),
    LexicalError,
>
    decreases s.len() - p,
{
    if p < 0 || p >= s.len() {
        if quote == '"' {
            Err(LexicalError::UnterminatedStringLiteral)
        } else {
            Ok((acc, s.len() as int))
        }
    } else if s[p] == quote {
        Ok((acc, p + 1))
    } else if s[p] == '\\' {
        if p + 1 >= s.len() {
            Err(LexicalError::UnexpectedEndOfFile)
        } else {
            match escape_value(s[p + 1]) {
                Some(c) => scan_quoted(s, p + 2, acc.push(c), quote),
                None => Err(LexicalError::UnexpectedEscapeCode(s[p + 1])),
            }
        }
    } else {
        scan_quoted(s, p + 1, acc.push(s[p]), quote)
    }
}

/// The number of bytes that `c` takes in UTF-8.
pub open spec fn utf8_len(c: char) -> int {
    let code = c as int;
    if code < 0x80 {
        1
    } else if code < 0x800 {
        2
    } else if code < 0x10000 {
        3
    } else {
        4
    }
}

/// The place of the character `s[i]` in the text: the number of bytes that
/// the characters before it take in UTF-8. With `i == s.len()`, the length
/// of the text in bytes.
pub open spec fn byte_offset(s: Seq<char>, i: int) -> int
    decreases i,
{
    if i <= 0 {
        0
    } else {
        byte_offset(s, i - 1) + utf8_len(s[i - 1])
    }
}

/// What the lexer finds from a character of the input on.
pub enum Lexed {
    /// Nothing but white space is left.
    End,
    /// A token, from the place `start` up to the place `end`, both in
    /// bytes; `next` is the index of the character after the token.
    Token { token: TokenV, start: int, end: int, next: int },
    /// No token.
    Error(LexicalError),
}

/// The token `token` made of the characters `s[from..to]`.
pub open spec fn token_at(s: Seq<char>, token: TokenV, from: int, to: int) -> Lexed {
    Lexed::Token { token, start: byte_offset(s, from), end: byte_offset(s, to), next: to }
}

/// The token that stands between quotes from the character `s[from]` on.
pub open spec fn lex_quoted(s: Seq<char>, from: int, quote: char) -> Lexed {
    match scan_quoted(s, from + 1, Seq::empty(), quote) {
        Err(e) => Lexed::Error(e),
        Ok((text, to)) => token_at(
            s,
            if quote == '"' {
                TokenV::StringLiteral(text)
            } else {
                TokenV::AtomLiteral(text)
            },
            from,
            to,
        ),
    }
}

/// The number that begins with the character `s[from]`: that character
/// and every character of an atom after it.
pub open spec fn lex_number(s: Seq<char>, from: int) -> Lexed {
    let to = atom_run_end(s, from + 1);
    match int_literal_value(s.subrange(from, to)) {
        Some(value) => token_at(s, TokenV::IntLiteral(value), from, to),
        None => Lexed::Error(LexicalError::InvalidIntLiteral),
    }
}

/// A token of one character.
pub open spec fn punctuation(ch: char) -> Option<TokenV> {
    if ch == ',' {
        Some(TokenV::Comma)
    } else if ch == '.' {
        Some(TokenV::Dot)
    } else if ch == '[' {
        Some(TokenV::LSquareBracket)
    } else if ch == '{' {
        Some(TokenV::LCurlyBracket)
    } else if ch == '(' {
        Some(TokenV::LParen)
    } else if ch == ']' {
        Some(TokenV::RSquareBracket)
    } else if ch == '}' {
        Some(TokenV::RCurlyBracket)
    } else if ch == ')' {
        Some(TokenV::RParen)
    } else {
        None
    }
}

/// What the lexer finds in `s` from the character `s[p]` on: white space
/// is passed over; a `-` before a digit begins a number, any other `-` is
/// a token of its own. The places of a token are counted in bytes of the
/// text in UTF-8.
pub open spec fn lex_at(s: Seq<char>, p: int) -> Lexed {
    let from = skip_whitespace(s, p);
    if from < 0 || from >= s.len() {
        Lexed::End
    } else {
        let ch = s[from];
        if ch == '-' {
            if from + 1 < s.len() && is_digit(s[from + 1]) {
                lex_number(s, from)
            } else {
                token_at(s, TokenV::Minus, from, from + 1)
            }
        } else if punctuation(ch) is Some {
            token_at(s, punctuation(ch)->Some_0, from, from + 1)
        } else if ch == '"' || ch == '\'' {
            lex_quoted(s, from, ch)
        } else if is_digit(ch) {
            lex_number(s, from)
        } else if atom_start(ch) {
            let to = atom_run_end(s, from + 1);
            token_at(s, TokenV::AtomLiteral(s.subrange(from, to)), from, to)
        } else {
            Lexed::Error(LexicalError::Unexpected(ch))
        }
    }
}

/// Passing over white space ends at the index where it began or later,
/// within the input.
pub proof fn lemma_skip_whitespace_bounds(s: Seq<char>, p: int)
    requires
        0 <= p <= s.len(),
    ensures
        p <= skip_whitespace(s, p) <= s.len(),
    decreases s.len() - p,
{
    if p < s.len() && whitespace(s[p]) {
        lemma_skip_whitespace_bounds(s, p + 1);
    }
}

/// A run of atom characters ends at the index where it began or later,
/// within the input.
pub proof fn lemma_atom_run_bounds(s: Seq<char>, p: int)
    requires
        0 <= p <= s.len(),
    ensures
        p <= atom_run_end(s, p) <= s.len(),
    decreases s.len() - p,
{
    if p < s.len() && atom_char(s[p]) {
        lemma_atom_run_bounds(s, p + 1);
    }
}

/// What stands between quotes ends within the input.
pub proof fn lemma_scan_quoted_bounds(s: Seq<char>, p: int, acc: Seq<char>, quote: char)
    requires
        0 <= p <= s.len(),
    ensures
        scan_quoted(s, p, acc, quote) is Ok ==> p <= scan_quoted(s, p, acc, quote)->Ok_0.1
            <= s.len(),
    decreases s.len() - p,
{
    if p < s.len() && s[p] != quote {
        if s[p] == '\\' {
            if p + 1 < s.len() {
                match escape_value(s[p + 1]) {
                    Some(c) => lemma_scan_quoted_bounds(s, p + 2, acc.push(c), quote),
                    None => {},
                }
            }
        } else {
            lemma_scan_quoted_bounds(s, p + 1, acc.push(s[p]), quote);
        }
    }
}

/// Places grow with the characters: each character takes at least one
/// byte.
pub proof fn lemma_byte_offset_grows(s: Seq<char>, i: int, j: int)
    requires
        0 <= i <= j,
    ensures
        0 <= byte_offset(s, i),
        byte_offset(s, i) + (j - i) <= byte_offset(s, j),
    decreases j,
{
    if i < j {
        lemma_byte_offset_grows(s, i, j - 1);
    } else if i > 0 {
        lemma_byte_offset_grows(s, i - 1, i - 1);
    }
}

/// The place of a character counts the first character of the text and
/// then the others before it.
pub proof fn lemma_byte_offset_after_first(s: Seq<char>, i: int)
    requires
        1 <= i <= s.len(),
    ensures
        byte_offset(s, i) == utf8_len(s[0]) + byte_offset(s.drop_first(), i - 1),
    decreases i,
{
    if i > 1 {
        lemma_byte_offset_after_first(s, i - 1);
        assert(s.drop_first()[i - 2] == s[i - 1]);
    } else {
        assert(byte_offset(s, 0) == 0);
        assert(byte_offset(s.drop_first(), 0) == 0);
    }
}

/// A character takes as many bytes as its encoding has.
pub proof fn lemma_utf8_len_is_encoded_len(c: char)
    ensures
        encode_scalar(c as u32).len() == utf8_len(c),
{
    char_is_scalar(c);
}

/// The place behind the last character is the length of the text in
/// UTF-8.
pub proof fn lemma_byte_offset_of_end(s: Seq<char>)
    ensures
        byte_offset(s, s.len() as int) == encode_utf8(s).len(),
    decreases s.len(),
{
    if s.len() > 0 {
        lemma_utf8_len_is_encoded_len(s[0]);
        lemma_byte_offset_of_end(s.drop_first());
        lemma_byte_offset_after_first(s, s.len() as int);
    }
}

/// A token lies within the input, behind the character where the lexer
/// began, at places that are no earlier than that character's,
/// and is not empty.
pub proof fn lemma_lex_at_bounds(s: Seq<char>, p: int)
    requires
        0 <= p <= s.len(),
    ensures
        match lex_at(s, p) {
            Lexed::Token { token, start, end, next } => p < next <= s.len() && byte_offset(s, p)
                <= start < end <= byte_offset(s, s.len() as int) && end == byte_offset(s, next),
            _ => true,
        },
{
    lemma_skip_whitespace_bounds(s, p);
    let from = skip_whitespace(s, p);
    if from < s.len() {
        lemma_atom_run_bounds(s, from + 1);
        lemma_scan_quoted_bounds(s, from + 1, Seq::empty(), '"');
        lemma_scan_quoted_bounds(s, from + 1, Seq::empty(), '\'');
        lemma_byte_offset_grows(s, p, from);
        match lex_at(s, p) {
            Lexed::Token { token, start, end, next } => {
                lemma_byte_offset_grows(s, from, next);
                lemma_byte_offset_grows(s, next, s.len() as int);
            },
            _ => {},
        }
    }
}

/// `r` is what the lexer hands out where it finds `lexed`.
pub open spec fn hands_out(r: Result<SpannedToken, LexicalError>, lexed: Lexed) -> bool {
    match lexed {
        Lexed::Token { token, start, end, next } => r is Ok && r->Ok_0.0 == start && r->Ok_0.1@
            == token && r->Ok_0.2 == end,
        Lexed::Error(e) => r == Err::<SpannedToken, LexicalError>(e),
        Lexed::End => false,
    }
}

/// Mathematical value of a [`Lexer`]: the input and the index of the
/// character that is read next.
pub struct LexerV {
    pub input: Seq<char>,
    pub pos: int,
}

/// Hands out the tokens of one input, from its beginning.
pub struct Lexer {
    input: Vec<char>,
    // index of the character that is read next
    pos: usize,
    // place of that character, in bytes
    offset: usize,
    // length of the input, in bytes
    total: usize,
}

impl View for Lexer {
    type V = LexerV;

    closed spec fn view(&self) -> LexerV {
        LexerV { input: self.input@, pos: self.pos as int }
    }
}

/// Whether `ch` may begin an atom that is written without quotes.
#[inline]
pub fn is_atom_start(ch: char) -> (r: bool)
    ensures
        r == atom_start(ch),
{
    ('a' <= ch && ch <= 'z') || ch == '_'
}

/// Whether `ch` may stand in an atom that is written without quotes.
#[inline]
pub fn is_atom_char(ch: char) -> (r: bool)
    ensures
        r == atom_char(ch),
{
    char_is_alphanumeric(ch) || ch == '_'
}

/// Whether `ch` is white space.
#[inline]
pub fn is_whitespace(ch: char) -> (r: bool)
    ensures
        r == whitespace(ch),
{
    ('\u{9}' <= ch && ch <= '\u{d}') || ch == ' ' || ch == '\u{85}' || ch == '\u{a0}' || ch
        == '\u{1680}' || ('\u{2000}' <= ch && ch <= '\u{200a}') || ch == '\u{2028}' || ch
        == '\u{2029}' || ch == '\u{202f}' || ch == '\u{205f}' || ch == '\u{3000}'
}

/// The number of bytes that `ch` takes in UTF-8.
pub fn len_utf8(ch: char) -> (n: usize)
    ensures
        n == utf8_len(ch),
{
    let code = char_code(ch);
    if code < 0x80 {
        1
    } else if code < 0x800 {
        2
    } else if code < 0x10000 {
        3
    } else {
        4
    }
}

impl Lexer {
    /// The character that is read next lies within the input or at its
    /// end, and the lexer knows its place and the length of the input in
    /// bytes.
    pub closed spec fn wf(&self) -> bool {
        &&& self.pos <= self.input@.len()
        &&& self.offset == byte_offset(self.input@, self.pos as int)
        &&& self.total == byte_offset(self.input@, self.input@.len() as int)
    }

    fn err<T>(&self, e: LexicalError) -> (r: Result<T, LexicalError>)
        ensures
            r == Err::<T, LexicalError>(e),
    {
        Err(e)
    }

    /// A lexer at the beginning of `input_str`.
    pub fn new(input_str: &str) -> (r: Self)
        ensures
            r.wf(),
            r@.input == input_str@,
            r@.pos == 0,
    {
        let input = str_chars(input_str);
        let total = input_str.as_bytes().len();
        proof {
            lemma_byte_offset_of_end(input@);
        }
        Lexer { input, pos: 0, offset: 0, total }
    }

    /// Reads what stands between quotes; the opening quote, which is the
    /// character `from` at the place `start`, has been read.
    fn quoted_literal(&mut self, start: usize, Ghost(from): Ghost<int>, quote: char) -> (r: Result<
        SpannedToken,
        LexicalError,
    >)
        requires
            old(self).wf(),
            from + 1 == old(self)@.pos,
            start == byte_offset(old(self)@.input, from),
            quote == '"' || quote == '\'',
        ensures
            final(self).wf(),
            final(self)@.input == old(self)@.input,
            final(self)@.pos >= old(self)@.pos,
            hands_out(r, lex_quoted(old(self)@.input, from, quote)),
            r is Ok ==> final(self)@.pos == lex_quoted(old(self)@.input, from, quote)->next,
    {
        let mut out_str = String::new();
        let ghost s = self.input@;
        loop
            invariant
                self.wf(),
                self.input@ == s,
                s == old(self)@.input,
                self.pos >= old(self).pos,
                start == byte_offset(s, from),
                quote == '"' || quote == '\'',
                scan_quoted(s, from + 1, Seq::empty(), quote) == scan_quoted(
                    s,
                    self.pos as int,
                    out_str@,
                    quote,
                ),
            decreases s.len() - self.pos,
        {
            match self.consume() {
                None => {
                    if quote == '"' {
                        return Err(LexicalError::UnterminatedStringLiteral);
                    } else {
                        return Ok((start, Token::AtomLiteral(out_str), self.offset));
                    }
                },
                Some((_, ch)) => {
                    if ch == quote {
                        if quote == '"' {
                            return Ok((start, Token::StringLiteral(out_str), self.offset));
                        } else {
                            return Ok((start, Token::AtomLiteral(out_str), self.offset));
                        }
                    } else if ch == '\\' {
                        let c = self.escape_code()?;
                        out_str.push(c);
                    } else {
                        out_str.push(ch);
                    }
                },
            }
        }
    }

    fn string_literal(&mut self, start: usize, Ghost(from): Ghost<int>) -> (r: Result<
        SpannedToken,
        LexicalError,
    >)
        requires
            old(self).wf(),
            from + 1 == old(self)@.pos,
            start == byte_offset(old(self)@.input, from),
        ensures
            final(self).wf(),
            final(self)@.input == old(self)@.input,
            final(self)@.pos >= old(self)@.pos,
            hands_out(r, lex_quoted(old(self)@.input, from, '"')),
            r is Ok ==> final(self)@.pos == lex_quoted(old(self)@.input, from, '"')->next,
    {
        self.quoted_literal(start, Ghost(from), '"')
    }

    fn quoted_atom_literal(&mut self, start: usize, Ghost(from): Ghost<int>) -> (r: Result<
        SpannedToken,
        LexicalError,
    >)
        requires
            old(self).wf(),
            from + 1 == old(self)@.pos,
            start == byte_offset(old(self)@.input, from),
        ensures
            final(self).wf(),
            final(self)@.input == old(self)@.input,
            final(self)@.pos >= old(self)@.pos,
            hands_out(r, lex_quoted(old(self)@.input, from, '\'')),
            r is Ok ==> final(self)@.pos == lex_quoted(old(self)@.input, from, '\'')->next,
    {
        self.quoted_literal(start, Ghost(from), '\'')
    }

    /// Reads on to the end of the run of atom characters.
    fn atom_run(&mut self)
        requires
            old(self).wf(),
        ensures
            final(self).wf(),
            final(self)@.input == old(self)@.input,
            final(self)@.pos == atom_run_end(old(self)@.input, old(self)@.pos),
            old(self)@.pos <= final(self)@.pos <= final(self)@.input.len(),
    {
        let ghost s = self.input@;
        let ghost from = self.pos as int;
        loop
            invariant
                self.wf(),
                self.input@ == s,
                s == old(self)@.input,
                from == old(self)@.pos,
                from <= self.pos,
                atom_run_end(s, from) == atom_run_end(s, self.pos as int),
            decreases s.len() - self.pos,
        {
            match self.consume() {
                None => {
                    return ;
                },
                Some((_, ch)) => {
                    if !is_atom_char(ch) {
                        self.un_consume();
                        return ;
                    }
                },
            }
        }
    }

    /// Reads an atom that is written without quotes; its first character,
    /// which is the character `from` at the place `start`, has been read.
    fn atom_literal(&mut self, start: usize, from: usize) -> (r: Result<
        SpannedToken,
        LexicalError,
    >)
        requires
            old(self).wf(),
            from + 1 == old(self)@.pos,
            start == byte_offset(old(self)@.input, from as int),
        ensures
            final(self).wf(),
            final(self)@.input == old(self)@.input,
            final(self)@.pos == atom_run_end(old(self)@.input, from + 1),
            final(self)@.pos >= old(self)@.pos,
            hands_out(
                r,
                token_at(
                    old(self)@.input,
                    TokenV::AtomLiteral(
                        old(self)@.input.subrange(from as int, final(self)@.pos),
                    ),
                    from as int,
                    final(self)@.pos,
                ),
            ),
    {
        self.atom_run();
        let text = string_of_chars(&self.input, from, self.pos);
        Ok((start, Token::AtomLiteral(text), self.offset))
    }

    /// Reads a number; its first character, which is the character `from`
    /// at the place `start`, has been read.
    fn numeric_literal(&mut self, start: usize, from: usize) -> (r: Result<
        SpannedToken,
        LexicalError,
    >)
        requires
            old(self).wf(),
            from + 1 == old(self)@.pos,
            start == byte_offset(old(self)@.input, from as int),
        ensures
            final(self).wf(),
            final(self)@.input == old(self)@.input,
            final(self)@.pos >= old(self)@.pos,
            hands_out(r, lex_number(old(self)@.input, from as int)),
            r is Ok ==> final(self)@.pos == lex_number(old(self)@.input, from as int)->next,
    {
        self.atom_run();
        match parse_int_literal(&self.input, from, self.pos) {
            Some(val) => Ok((start, Token::IntLiteral(val), self.offset)),
            None => Err(LexicalError::InvalidIntLiteral),
        }
    }

    /// Steps back over the character that was read last, if any was read.
    pub fn un_consume(&mut self)
        requires
            old(self).wf(),
        ensures
            final(self).wf(),
            final(self)@.input == old(self)@.input,
            final(self)@.pos == if old(self)@.pos > 0 {
                old(self)@.pos - 1
            } else {
                0
            },
    {
        if self.pos > 0 {
            proof {
                lemma_byte_offset_grows(self.input@, self.pos - 1, self.pos - 1);
            }
            self.pos = self.pos - 1;
            self.offset = self.offset - len_utf8(self.input[self.pos]);
        }
    }

    /// Reads one character: hands out the next character with its place in
    /// the text, counted in bytes, if the input has not ended.
    pub fn consume(&mut self) -> (r: Option<InputChar>)
        requires
            old(self).wf(),
        ensures
            final(self).wf(),
            final(self)@.input == old(self)@.input,
            old(self)@.pos < old(self)@.input.len() ==> r is Some && r->Some_0.0 == byte_offset(
                old(self)@.input,
                old(self)@.pos,
            ) && r->Some_0.1 == old(self)@.input[old(self)@.pos] && final(self)@.pos == old(
                self,
            )@.pos + 1,
            old(self)@.pos >= old(self)@.input.len() ==> r is None && final(self)@.pos == old(
                self,
            )@.pos,
    {
        if self.pos < self.input.len() {
            let curr = (self.offset, self.input[self.pos]);
            proof {
                lemma_byte_offset_grows(self.input@, self.pos + 1, self.input@.len() as int);
            }
            self.offset = self.offset + len_utf8(self.input[self.pos]);
            self.pos = self.pos + 1;
            Some(curr)
        } else {
            None
        }
    }

    /// Reads the character after a backslash and hands out what the two
    /// stand for.
    pub fn escape_code(&mut self) -> (r: Result<char, LexicalError>)
        requires
            old(self).wf(),
        ensures
            final(self).wf(),
            final(self)@.input == old(self)@.input,
            final(self)@.pos >= old(self)@.pos,
            old(self)@.pos >= old(self)@.input.len() ==> r == Err::<char, LexicalError>(
                LexicalError::UnexpectedEndOfFile,
            ),
            old(self)@.pos < old(self)@.input.len() ==> final(self)@.pos == old(self)@.pos + 1
                && match escape_value(old(self)@.input[old(self)@.pos]) {
                Some(c) => r == Ok::<char, LexicalError>(c),
                None => r == Err::<char, LexicalError>(
                    LexicalError::UnexpectedEscapeCode(old(self)@.input[old(self)@.pos]),
                ),
            },
    {
        match self.consume() {
            Some((_, ch)) => {
                if ch == '\'' {
                    Ok('\'')
                } else if ch == '"' {
                    Ok('"')
                } else if ch == '\\' {
                    Ok('\\')
                } else if ch == '/' {
                    Ok('/')
                } else if ch == 'n' {
                    Ok('\n')
                } else if ch == 'r' {
                    Ok('\r')
                } else if ch == 't' {
                    Ok('\t')
                } else if ch == 'e' {
                    Ok('\x1e')
                } else if ch == 's' {
                    Ok(' ')
                } else if ch == 'v' {
                    Ok('\x0b')
                } else if ch == 'f' {
                    Ok('\x0c')
                } else if ch == 'b' {
                    Ok('\x08')
                } else if ch == 'd' {
                    Ok('\x7f')
                } else {
                    self.err(LexicalError::UnexpectedEscapeCode(ch))
                }
            },
            None => self.err(LexicalError::UnexpectedEndOfFile),
        }
    }

    /// The token `t` of one character, which has just been read from the
    /// place `start`.
    fn mk_tok(&self, start: usize, t: Token) -> (r: SpannedToken)
        requires
            self.wf(),
        ensures
            r.0 == start,
            r.1 == t,
            r.2 == byte_offset(self@.input, self@.pos),
    {
        (start, t, self.offset)
    }

    /// Whether the next character is a decimal digit.
    pub fn is_digit_ahead(&self) -> (r: bool)
        requires
            self.wf(),
        ensures
            r == (self@.pos < self@.input.len() && is_digit(self@.input[self@.pos])),
    {
        if let Some(upcoming) = self.look_ahead() {
            return char_is_digit(upcoming.1);
        }
        false
    }

    /// The next character with its place, which stays unread.
    pub fn look_ahead(&self) -> (r: Option<InputChar>)
        requires
            self.wf(),
        ensures
            self@.pos < self@.input.len() ==> r is Some && r->Some_0.0 == byte_offset(
                self@.input,
                self@.pos,
            ) && r->Some_0.1 == self@.input[self@.pos],
            self@.pos >= self@.input.len() ==> r is None,
    {
        if self.pos < self.input.len() {
            return Some((self.offset, self.input[self.pos]));
        }
        None
    }

    /// Hands `r` on; where `r` is a failure, the lexer gives up the rest of
    /// the input.
    fn settle(&mut self, r: Result<SpannedToken, LexicalError>) -> (out: Result<
        SpannedToken,
        LexicalError,
    >)
        requires
            old(self).wf(),
        ensures
            final(self).wf(),
            final(self)@.input == old(self)@.input,
            out == r,
            r is Ok ==> final(self)@.pos == old(self)@.pos,
            r is Err ==> final(self)@.pos == final(self)@.input.len(),
    {
        match r {
            Ok(t) => Ok(t),
            Err(e) => {
                self.pos = self.input.len();
                self.offset = self.total;
                Err(e)
            },
        }
    }

    /// The next token with the places where it begins and ends, or `None`
    /// where only white space is left. Places are counted in bytes of the
    /// text in UTF-8. After a token the lexer stands behind it. A failure
    /// ends the reading: after it the lexer stands at the end of the input
    /// and has no more tokens.
    pub fn next_token(&mut self) -> (r: Option<Result<SpannedToken, LexicalError>>)
        requires
            old(self).wf(),
        ensures
            final(self).wf(),
            final(self)@.input == old(self)@.input,
            old(self)@.pos <= final(self)@.pos <= final(self)@.input.len(),
            match lex_at(old(self)@.input, old(self)@.pos) {
                Lexed::End => r is None,
                lexed => r is Some && hands_out(r->Some_0, lexed),
            },
            final(self)@.pos == match lex_at(old(self)@.input, old(self)@.pos) {
                Lexed::Token { token, start, end, next } => next,
                _ => final(self)@.input.len() as int,
            },
    {
        let ghost s = self.input@;
        let ghost begin = self.pos as int;
        loop
            invariant
                self.wf(),
                self.input@ == s,
                s == old(self)@.input,
                begin == old(self)@.pos,
                begin <= self.pos,
                skip_whitespace(s, begin) == skip_whitespace(s, self.pos as int),
            decreases s.len() - self.pos,
        {
            let from = self.pos;
            match self.consume() {
                Some((i, ch)) => {
                    if ch == '-' {
                        if self.is_digit_ahead() {
                            let r = self.numeric_literal(i, from);
                            return Some(self.settle(r));
                        }
                        return Some(Ok(self.mk_tok(i, Token::Minus)));
                    } else if ch == ',' {
                        return Some(Ok(self.mk_tok(i, Token::Comma)));
                    } else if ch == '.' {
                        return Some(Ok(self.mk_tok(i, Token::Dot)));
                    } else if ch == '[' {
                        return Some(Ok(self.mk_tok(i, Token::LSquareBracket)));
                    } else if ch == '{' {
                        return Some(Ok(self.mk_tok(i, Token::LCurlyBracket)));
                    } else if ch == '(' {
                        return Some(Ok(self.mk_tok(i, Token::LParen)));
                    } else if ch == ']' {
                        return Some(Ok(self.mk_tok(i, Token::RSquareBracket)));
                    } else if ch == '}' {
                        return Some(Ok(self.mk_tok(i, Token::RCurlyBracket)));
                    } else if ch == ')' {
                        return Some(Ok(self.mk_tok(i, Token::RParen)));
                    } else if ch == '"' {
                        let r = self.string_literal(i, Ghost(from as int));
                        return Some(self.settle(r));
                    } else if ch == '\'' {
                        let r = self.quoted_atom_literal(i, Ghost(from as int));
                        return Some(self.settle(r));
                    } else if char_is_digit(ch) {
                        let r = self.numeric_literal(i, from);
                        return Some(self.settle(r));
                    } else if is_atom_start(ch) {
                        return Some(self.atom_literal(i, from));
                    } else if is_whitespace(ch) {
                        continue ;
                    } else {
                        let r = self.err(LexicalError::Unexpected(ch));
                        return Some(self.settle(r));
                    }
                },
                None => {
                    return None;
                },
            }
        }
    }
}

} // verus!
