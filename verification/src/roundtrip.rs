//! From a term to its text and back: atoms and strings that the parser
//! reads as they were written.

use vstd::prelude::*;
use crate::fterm::{atom_text, escaped, escaped_char, string_text, unquoted_atom, TermV};
use crate::lexer::{
    atom_char, atom_run_end, atom_start, lex_at, lex_quoted, scan_quoted, skip_whitespace,
    token_at, Lexed, LexicalError,
};
use crate::parser::{term_of, ParseErrorV};
use crate::token::TokenV;

verus! {

/// A run of atom characters that reaches to the end of the input ends
/// there.
pub proof fn lemma_atom_run_to_end(s: Seq<char>, p: int)
    requires
        0 <= p <= s.len(),
        forall|i: int| p <= i < s.len() ==> atom_char(#[trigger] s[i]),
    ensures
        atom_run_end(s, p) == s.len(),
    decreases s.len() - p,
{
    if p < s.len() {
        lemma_atom_run_to_end(s, p + 1);
    }
}

/// Between quotes, a text without a quote and without a backslash is read
/// as it stands.
pub proof fn lemma_scan_plain(s: Seq<char>, quote: char, k: int)
    requires
        0 <= k <= s.len(),
        forall|i: int| 0 <= i < s.len() ==> (#[trigger] s[i]) != quote && s[i] != '\\',
    ensures
        scan_quoted(seq![quote] + s + seq![quote], k + 1, s.take(k), quote) == Ok::<
            (Seq<char>, int),
            LexicalError,
        >((s, (s.len() + 2) as int)),
    decreases s.len() - k,
{
    let text = seq![quote] + s + seq![quote];
    if k < s.len() {
        assert(text[k + 1] == s[k]);
        assert(s.take(k).push(s[k]) =~= s.take(k + 1));
        lemma_scan_plain(s, quote, k + 1);
    } else {
        assert(text[k + 1] == quote);
        assert(s.take(k) =~= s);
    }
}

/// An atom of letters, digits and underscores that begins with a small
/// letter or an underscore is written as it is, and its text is read as
/// that atom: by the lexer as one token, by the parser as one term.
pub proof fn lemma_bare_atom_round_trip(s: Seq<char>)
    requires
        s.len() > 0,
        atom_start(s[0]),
        forall|i: int| 0 <= i < s.len() ==> atom_char(#[trigger] s[i]),
    ensures
        atom_text(s) == s,
        lex_at(atom_text(s), 0) == token_at(s, TokenV::AtomLiteral(s), 0, s.len() as int),
        term_of(atom_text(s)) == Ok::<TermV, ParseErrorV>(TermV::Atom(s)),
{
    assert(unquoted_atom(s));
    assert(skip_whitespace(s, 0) == 0);
    lemma_atom_run_to_end(s, 1);
    assert(s.subrange(0, s.len() as int) =~= s);
    assert(skip_whitespace(s, s.len() as int) == s.len());
    assert(lex_at(s, s.len() as int) == Lexed::End);
}

/// An atom that is written between quotes, and that holds no single
/// quote and no backslash, is read as that atom: by the lexer as one
/// token, by the parser as one term.
pub proof fn lemma_quoted_atom_round_trip(s: Seq<char>)
    requires
        !unquoted_atom(s),
        forall|i: int| 0 <= i < s.len() ==> (#[trigger] s[i]) != '\'' && s[i] != '\\',
    ensures
        atom_text(s) == seq!['\''] + s + seq!['\''],
        lex_at(atom_text(s), 0) == token_at(
            atom_text(s),
            TokenV::AtomLiteral(s),
            0,
            (s.len() + 2) as int,
        ),
        term_of(atom_text(s)) == Ok::<TermV, ParseErrorV>(TermV::Atom(s)),
{
    let text = atom_text(s);
    assert(text[0] == '\'');
    assert(skip_whitespace(text, 0) == 0);
    lemma_scan_plain(s, '\'', 0);
    assert(s.take(0) =~= Seq::<char>::empty());
    assert(lex_quoted(text, 0, '\'') == token_at(
        text,
        TokenV::AtomLiteral(s),
        0,
        (s.len() + 2) as int,
    ));
    assert(text.len() == s.len() + 2);
    assert(skip_whitespace(text, text.len() as int) == text.len());
    assert(lex_at(text, text.len() as int) == Lexed::End);
}

/// A string whose characters all have a code above 32 is written between
/// the double quotes as it is.
pub proof fn lemma_escaped_plain(s: Seq<char>)
    requires
        forall|i: int| 0 <= i < s.len() ==> (#[trigger] s[i]) as int > 32,
    ensures
        escaped(s) == s,
    decreases s.len(),
{
    if s.len() > 0 {
        lemma_escaped_plain(s.drop_last());
        assert(escaped_char(s.last()) == seq![s.last()]);
        assert(s.drop_last() + seq![s.last()] =~= s);
    } else {
        assert(escaped(s) =~= s);
    }
}

/// The text of a string is read as that string, where the string holds
/// only characters with a code above 32 and neither a double quote nor a
/// backslash.
pub proof fn lemma_string_round_trip(s: Seq<char>)
    requires
        forall|i: int|
            0 <= i < s.len() ==> (#[trigger] s[i]) as int > 32 && s[i] != '"' && s[i] != '\\',
    ensures
        string_text(s) == seq!['"'] + s + seq!['"'],
        term_of(string_text(s)) == Ok::<TermV, ParseErrorV>(TermV::Str(s)),
{
    lemma_escaped_plain(s);
    let text = string_text(s);
    assert(text[0] == '"');
    assert(skip_whitespace(text, 0) == 0);
    lemma_scan_plain(s, '"', 0);
    assert(s.take(0) =~= Seq::<char>::empty());
    assert(lex_quoted(text, 0, '"') == token_at(
        text,
        TokenV::StringLiteral(s),
        0,
        (s.len() + 2) as int,
    ));
    assert(text.len() == s.len() + 2);
    assert(skip_whitespace(text, text.len() as int) == text.len());
    assert(lex_at(text, text.len() as int) == Lexed::End);
}

} // verus!
