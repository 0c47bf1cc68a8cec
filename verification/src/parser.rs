//! The term parser: from text to a term.
//!
//! [`term_of`] says which term a text denotes and [`terms_of`] which
//! terms a text of terms with a full stop after each denotes;
//! [`parse_nodot`] and [`parse`] compute them.

use vstd::prelude::*;
use crate::fterm::{term_views, well_formed, FTerm, TermV};
use crate::lexer::{
    lemma_lex_at_bounds, lex_at, Lexed, Lexer, LexicalError, SpannedToken,
};
use crate::token::{Token, TokenV};

verus! {

/// What the parser was looking for where it failed.
#[derive(Debug, Clone, Copy, PartialEq, Eq, Structural)]
pub enum Wanted {
    /// The beginning of a term.
    Term,
    /// A comma or the bracket that closes the list or the tuple.
    CommaOrClose,
    /// The full stop after a term.
    Dot,
    /// The end of the input.
    End,
}

/// Why a text is no term.
#[derive(Debug, PartialEq, Eq)]
pub enum ParseError {
    /// The lexer found no token.
    Lexical(LexicalError),
    /// The token found at the place `position`, counted in bytes of the
    /// text in UTF-8, is not what was wanted.
    UnexpectedToken { token: Token, position: usize, wanted: Wanted },
    /// The input ends where something was wanted.
    UnexpectedEnd { wanted: Wanted },
}

/// Mathematical value of a [`ParseError`].
pub enum ParseErrorV {
    Lexical(LexicalError),
    UnexpectedToken { token: TokenV, position: int, wanted: Wanted },
    UnexpectedEnd { wanted: Wanted },
}

impl View for ParseError {
    type V = ParseErrorV;

    open spec fn view(&self) -> ParseErrorV {
        match self {
            ParseError::Lexical(e) => ParseErrorV::Lexical(*e),
            ParseError::UnexpectedToken { token, position, wanted } => ParseErrorV::UnexpectedToken {
                token: token@,
                position: *position as int,
                wanted: *wanted,
            },
            ParseError::UnexpectedEnd { wanted } => ParseErrorV::UnexpectedEnd { wanted: *wanted },
        }
    }
}

/// The bracket that closes a list, or the one that closes a tuple.
pub open spec fn closing(square: bool) -> TokenV {
    if square {
        TokenV::RSquareBracket
    } else {
        TokenV::RCurlyBracket
    }
}

/// The list, or the tuple, of the given elements.
pub open spec fn bracketed(square: bool, items: Seq<TermV>) -> TermV {
    if square {
        if items.len() == 0 {
            TermV::EmptyList
        } else {
            TermV::List(items)
        }
    } else {
        if items.len() == 0 {
            TermV::EmptyTuple
        } else {
            TermV::Tuple(items)
        }
    }
}

/// The term that begins with `token`, which stands in `s` at the place
/// `start` and before the character `s[next]`, and the index of the
/// character after the term.
pub open spec fn value_of(s: Seq<char>, token: TokenV, start: int, next: int) -> Result<
    (TermV, int),
    ParseErrorV,
>
    decreases s.len() - next, 2int,
{
    match token {
        TokenV::AtomLiteral(a) => Ok((TermV::Atom(a), next)),
        TokenV::StringLiteral(a) => Ok((TermV::Str(a), next)),
        TokenV::IntLiteral(i) => Ok((TermV::Int(i), next)),
        TokenV::LSquareBracket => match items_from(s, next, true) {
            Err(e) => Err(e),
            Ok((items, p)) => Ok((bracketed(true, items), p)),
        },
        TokenV::LCurlyBracket => match items_from(s, next, false) {
            Err(e) => Err(e),
            Ok((items, p)) => Ok((bracketed(false, items), p)),
        },
        _ => Err(ParseErrorV::UnexpectedToken { token, position: start, wanted: Wanted::Term }),
    }
}

/// The elements between an opening bracket, which stands before the
/// character `s[p]`, and the bracket that closes it, and the index of the
/// character after that bracket.
pub open spec fn items_from(s: Seq<char>, p: int, square: bool) -> Result<
    (Seq<TermV>, int),
    ParseErrorV,
>
    decreases s.len() - p, 1int,
{
    if p < 0 || p > s.len() {
        Err(ParseErrorV::UnexpectedEnd { wanted: Wanted::Term })
    } else {
        match lex_at(s, p) {
            Lexed::End => Err(ParseErrorV::UnexpectedEnd { wanted: Wanted::Term }),
            Lexed::Error(e) => Err(ParseErrorV::Lexical(e)),
            Lexed::Token { token, start, end: _, next } => {
                if token == closing(square) {
                    Ok((Seq::empty(), next))
                } else {
                    proof {
                        lemma_lex_at_bounds(s, p);
                    }
                    more_items(s, token, start, next, square)
                }
            },
        }
    }
}

/// The elements from the one that begins with `token` up to the closing
/// bracket, and the index of the character after that bracket. The
/// elements are separated by commas.
pub open spec fn more_items(
    s: Seq<char>,
    token: TokenV,
    start: int,
    next: int,
    square: bool,
) -> Result<(Seq<TermV>, int), ParseErrorV>
    decreases s.len() - next, 3int,
{
    match value_of(s, token, start, next) {
        Err(e) => Err(e),
        Ok((first, p)) => {
            // a term ends where it begins or later, and within the input
            if p < next || p > s.len() {
                Err(ParseErrorV::UnexpectedEnd { wanted: Wanted::CommaOrClose })
            } else {
                match lex_at(s, p) {
                    Lexed::End => Err(ParseErrorV::UnexpectedEnd { wanted: Wanted::CommaOrClose }),
                    Lexed::Error(e) => Err(ParseErrorV::Lexical(e)),
                    Lexed::Token { token: t2, start: s2, end: _, next: e2 } => {
                        if t2 == closing(square) {
                            Ok((seq![first], e2))
                        } else if t2 == TokenV::Comma {
                            proof {
                                lemma_lex_at_bounds(s, p);
                            }
                            match lex_at(s, e2) {
                                Lexed::End => Err(
                                    ParseErrorV::UnexpectedEnd { wanted: Wanted::Term },
                                ),
                                Lexed::Error(e) => Err(ParseErrorV::Lexical(e)),
                                Lexed::Token { token: t3, start: s3, end: _, next: e3 } => {
                                    proof {
                                        lemma_lex_at_bounds(s, e2);
                                    }
                                    match more_items(s, t3, s3, e3, square) {
                                        Err(e) => Err(e),
                                        Ok((rest, q)) => Ok((seq![first] + rest, q)),
                                    }
                                },
                            }
                        } else {
                            Err(
                                ParseErrorV::UnexpectedToken {
                                    token: t2,
                                    position: s2,
                                    wanted: Wanted::CommaOrClose,
                                },
                            )
                        }
                    },
                }
            }
        },
    }
}

/// The term that the text `s` denotes: one term and nothing after it.
pub open spec fn term_of(s: Seq<char>) -> Result<TermV, ParseErrorV> {
    match lex_at(s, 0) {
        Lexed::End => Err(ParseErrorV::UnexpectedEnd { wanted: Wanted::Term }),
        Lexed::Error(e) => Err(ParseErrorV::Lexical(e)),
        Lexed::Token { token, start, end: _, next } => match value_of(s, token, start, next) {
            Err(e) => Err(e),
            Ok((term, p)) => match lex_at(s, p) {
                Lexed::End => Ok(term),
                Lexed::Error(e) => Err(ParseErrorV::Lexical(e)),
                Lexed::Token { token: t2, start: s2, end: _, next: e2 } => Err(
                    ParseErrorV::UnexpectedToken { token: t2, position: s2, wanted: Wanted::End },
                ),
            },
        },
    }
}

/// The terms that stand in `s` from `p` on, each followed by a full stop,
/// after the terms `acc`.
pub open spec fn dotted_from(s: Seq<char>, p: int, acc: Seq<TermV>) -> Result<
    Seq<TermV>,
    ParseErrorV,
>
    decreases s.len() - p,
{
    if p < 0 || p > s.len() {
        Err(ParseErrorV::UnexpectedEnd { wanted: Wanted::Term })
    } else {
        match lex_at(s, p) {
            Lexed::End => Ok(acc),
            Lexed::Error(e) => Err(ParseErrorV::Lexical(e)),
            Lexed::Token { token, start, end: _, next } => match value_of(s, token, start, next) {
                Err(e) => Err(e),
                Ok((term, q)) => {
                    proof {
                        lemma_lex_at_bounds(s, p);
                    }
                    if q < next || q > s.len() {
                        Err(ParseErrorV::UnexpectedEnd { wanted: Wanted::Dot })
                    } else {
                        match lex_at(s, q) {
                            Lexed::End => Err(ParseErrorV::UnexpectedEnd { wanted: Wanted::Dot }),
                            Lexed::Error(e) => Err(ParseErrorV::Lexical(e)),
                            Lexed::Token { token: t2, start: s2, end: _, next: e2 } => {
                                if t2 == TokenV::Dot {
                                    proof {
                                        lemma_lex_at_bounds(s, q);
                                    }
                                    dotted_from(s, e2, acc.push(term))
                                } else {
                                    Err(
                                        ParseErrorV::UnexpectedToken {
                                            token: t2,
                                            position: s2,
                                            wanted: Wanted::Dot,
                                        },
                                    )
                                }
                            },
                        }
                    }
                },
            },
        }
    }
}

/// The term that a text of terms, with a full stop after each, denotes:
/// the list of the terms.
pub open spec fn terms_of(s: Seq<char>) -> Result<TermV, ParseErrorV> {
    match dotted_from(s, 0, Seq::empty()) {
        Err(e) => Err(e),
        Ok(terms) => Ok(bracketed(true, terms)),
    }
}

/// The outcome of parsing as a mathematical value.
pub open spec fn parsed(r: Result<FTerm, ParseError>) -> Result<TermV, ParseErrorV> {
    match r {
        Ok(t) => Ok(t@),
        Err(e) => Err(e@),
    }
}

/// `r`, with the lexer standing at `pos`, is the outcome `spec`.
pub open spec fn value_outcome(
    r: Result<FTerm, ParseError>,
    pos: int,
    spec: Result<(TermV, int), ParseErrorV>,
) -> bool {
    match spec {
        Ok((t, p)) => r is Ok && r->Ok_0@ == t && pos == p,
        Err(e) => r is Err && r->Err_0@ == e,
    }
}

/// `r`, with the lexer standing at `pos`, is the outcome `spec`.
pub open spec fn items_outcome(
    r: Result<Vec<FTerm>, ParseError>,
    pos: int,
    spec: Result<(Seq<TermV>, int), ParseErrorV>,
) -> bool {
    match spec {
        Ok((items, p)) => r is Ok && term_views(r->Ok_0@) == items && pos == p,
        Err(e) => r is Err && r->Err_0@ == e,
    }
}

/// The outcome `r` with the terms `acc` before its terms.
pub open spec fn after(acc: Seq<TermV>, r: Result<(Seq<TermV>, int), ParseErrorV>) -> Result<
    (Seq<TermV>, int),
    ParseErrorV,
> {
    match r {
        Ok((rest, p)) => Ok((acc + rest, p)),
        Err(e) => Err(e),
    }
}

/// Every term of the sequence is well formed.
pub open spec fn all_well_formed(v: Seq<FTerm>) -> bool {
    forall|i: int| 0 <= i < v.len() ==> well_formed(#[trigger] v[i]@)
}

/// The list, or the tuple, of the given elements.
fn make_bracketed(square: bool, items: Vec<FTerm>) -> (r: FTerm)
    requires
        all_well_formed(items@),
    ensures
        r@ == bracketed(square, term_views(items@)),
        well_formed(r@),
{
    assert(term_views(items@).len() == items@.len());
    assert forall|i: int| 0 <= i < items@.len() implies well_formed(
        #[trigger] term_views(items@)[i],
    ) by {
        assert(well_formed(items@[i]@));
    }
    if items.len() == 0 {
        if square {
            FTerm::EmptyList
        } else {
            FTerm::EmptyTuple
        }
    } else if square {
        FTerm::List(items)
    } else {
        FTerm::Tuple(items)
    }
}

/// Whether `token` is the bracket that closes a list, or a tuple.
fn is_closing(token: &Token, square: bool) -> (r: bool)
    ensures
        r == (token@ == closing(square)),
{
    match token {
        Token::RSquareBracket => square,
        Token::RCurlyBracket => !square,
        _ => false,
    }
}

/// Parses the term that begins with `token`, which the lexer has just
/// handed out.
fn parse_value(lexer: &mut Lexer, token: Token, start: usize) -> (r: Result<FTerm, ParseError>)
    requires
        old(lexer).wf(),
        0 <= old(lexer)@.pos <= old(lexer)@.input.len(),
    ensures
        final(lexer).wf(),
        final(lexer)@.input == old(lexer)@.input,
        old(lexer)@.pos <= final(lexer)@.pos <= final(lexer)@.input.len(),
        value_outcome(
            r,
            final(lexer)@.pos,
            value_of(old(lexer)@.input, token@, start as int, old(lexer)@.pos),
        ),
        r is Ok ==> well_formed(r->Ok_0@),
    decreases old(lexer)@.input.len() - old(lexer)@.pos, 2int,
{
    match token {
        Token::AtomLiteral(a) => Ok(FTerm::Atom(a)),
        Token::StringLiteral(a) => Ok(FTerm::String(a)),
        Token::IntLiteral(i) => Ok(FTerm::Int64(i)),
        Token::LSquareBracket => {
            let items = parse_items(lexer, true)?;
            Ok(make_bracketed(true, items))
        },
        Token::LCurlyBracket => {
            let items = parse_items(lexer, false)?;
            Ok(make_bracketed(false, items))
        },
        other => Err(ParseError::UnexpectedToken { token: other, position: start, wanted: Wanted::Term }),
    }
}

/// Reads the next token.
fn advance(lexer: &mut Lexer, wanted: Wanted) -> (r: Result<SpannedToken, ParseError>)
    requires
        old(lexer).wf(),
        0 <= old(lexer)@.pos <= old(lexer)@.input.len(),
    ensures
        final(lexer).wf(),
        final(lexer)@.input == old(lexer)@.input,
        old(lexer)@.pos <= final(lexer)@.pos <= final(lexer)@.input.len(),
        match lex_at(old(lexer)@.input, old(lexer)@.pos) {
            Lexed::End => r is Err && r->Err_0@ == (ParseErrorV::UnexpectedEnd { wanted }),
            Lexed::Error(e) => r is Err && r->Err_0@ == ParseErrorV::Lexical(e),
            Lexed::Token { token, start, end, next } => r is Ok && r->Ok_0.0 == start && r->Ok_0.1@
                == token && r->Ok_0.2 == end && final(lexer)@.pos == next && old(lexer)@.pos
                < next,
        },
{
    proof {
        lemma_lex_at_bounds(lexer@.input, lexer@.pos);
    }
    match lexer.next_token() {
        None => Err(ParseError::UnexpectedEnd { wanted }),
        Some(Err(e)) => Err(ParseError::Lexical(e)),
        Some(Ok(spanned)) => Ok(spanned),
    }
}

/// Parses the elements of a list or of a tuple up to the closing bracket;
/// the opening bracket has just been read.
fn parse_items(lexer: &mut Lexer, square: bool) -> (r: Result<Vec<FTerm>, ParseError>)
    requires
        old(lexer).wf(),
        0 <= old(lexer)@.pos <= old(lexer)@.input.len(),
    ensures
        final(lexer).wf(),
        final(lexer)@.input == old(lexer)@.input,
        old(lexer)@.pos <= final(lexer)@.pos <= final(lexer)@.input.len(),
        items_outcome(
            r,
            final(lexer)@.pos,
            items_from(old(lexer)@.input, old(lexer)@.pos, square),
        ),
        r is Ok ==> all_well_formed(r->Ok_0@),
    decreases old(lexer)@.input.len() - old(lexer)@.pos, 1int,
{
    let ghost s = lexer@.input;
    let mut items: Vec<FTerm> = Vec::new();
    let (start, token, _) = advance(lexer, Wanted::Term)?;
    if is_closing(&token, square) {
        assert(term_views(items@) =~= Seq::<TermV>::empty());
        return Ok(items);
    }
    let ghost whole = more_items(s, token@, start as int, lexer@.pos, square);
    let mut token = token;
    let mut start = start;
    assert(term_views(items@) =~= Seq::<TermV>::empty());
    assert(after(Seq::<TermV>::empty(), whole) == whole);
    loop
        invariant
            lexer.wf(),
            lexer@.input == s,
            s == old(lexer)@.input,
            0 <= old(lexer)@.pos < lexer@.pos <= s.len(),
            all_well_formed(items@),
            items_from(s, old(lexer)@.pos, square) == whole,
            whole == after(
                term_views(items@),
                more_items(s, token@, start as int, lexer@.pos, square),
            ),
        decreases s.len() - lexer@.pos,
    {
        let ghost before = term_views(items@);
        let item = parse_value(lexer, token, start)?;
        let ghost first = item@;
        items.push(item);
        assert(term_views(items@) =~= before.push(first));
        let (s2, t2, _) = advance(lexer, Wanted::CommaOrClose)?;
        if is_closing(&t2, square) {
            assert(before + seq![first] =~= term_views(items@));
            return Ok(items);
        }
        match t2 {
            Token::Comma => {},
            other => {
                return Err(
                    ParseError::UnexpectedToken {
                        token: other,
                        position: s2,
                        wanted: Wanted::CommaOrClose,
                    },
                );
            },
        }
        let (s3, t3, _) = advance(lexer, Wanted::Term)?;
        proof {
            let rest = more_items(s, t3@, s3 as int, lexer@.pos, square);
            match rest {
                Ok((more, q)) => {
                    assert(before + (seq![first] + more) =~= before.push(first) + more);
                },
                Err(_) => {},
            }
        }
        token = t3;
        start = s3;
    }
}

/// Parses one term, which is all that `input` holds.
pub fn parse_nodot(input: &str) -> (r: Result<FTerm, ParseError>)
    ensures
        parsed(r) == term_of(input@),
        r is Ok ==> well_formed(r->Ok_0@),
{
    let mut lexer = Lexer::new(input);
    let (start, token, _) = advance(&mut lexer, Wanted::Term)?;
    let term = parse_value(&mut lexer, token, start)?;
    match lexer.next_token() {
        None => Ok(term),
        Some(Err(e)) => Err(ParseError::Lexical(e)),
        Some(Ok((s2, t2, _))) => Err(
            ParseError::UnexpectedToken { token: t2, position: s2, wanted: Wanted::End },
        ),
    }
}

/// Parses the terms of `input`, each of which is followed by a full stop,
/// and hands out the list of them.
pub fn parse(input: &str) -> (r: Result<FTerm, ParseError>)
    ensures
        parsed(r) == terms_of(input@),
        r is Ok ==> well_formed(r->Ok_0@),
{
    let mut lexer = Lexer::new(input);
    let ghost s = input@;
    let mut terms: Vec<FTerm> = Vec::new();
    assert(term_views(terms@) =~= Seq::<TermV>::empty());
    loop
        invariant
            lexer.wf(),
            lexer@.input == s,
            s == input@,
            0 <= lexer@.pos <= s.len(),
            all_well_formed(terms@),
            dotted_from(s, 0, Seq::empty()) == dotted_from(s, lexer@.pos, term_views(terms@)),
        decreases s.len() - lexer@.pos,
    {
        proof {
            lemma_lex_at_bounds(s, lexer@.pos);
        }
        let (start, token, _) = match lexer.next_token() {
            None => {
                return Ok(make_bracketed(true, terms));
            },
            Some(Err(e)) => {
                return Err(ParseError::Lexical(e));
            },
            Some(Ok(spanned)) => spanned,
        };
        let ghost before = term_views(terms@);
        let term = parse_value(&mut lexer, token, start)?;
        let ghost value = term@;
        let (s2, t2, _) = advance(&mut lexer, Wanted::Dot)?;
        match t2 {
            Token::Dot => {},
            other => {
                return Err(
                    ParseError::UnexpectedToken { token: other, position: s2, wanted: Wanted::Dot },
                );
            },
        }
        terms.push(term);
        assert(term_views(terms@) =~= before.push(value));
    }
}

} // verus!
