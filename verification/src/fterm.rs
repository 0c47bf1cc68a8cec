//! The generic term: the tree that the term parser builds and that the
//! lowering of Kernel modules reads.

use vstd::prelude::*;
use crate::text::{char_code, char_is_alphanumeric, char_is_digit, is_alphanumeric, is_digit, int_text, decimal, push_int, push_decimal};

verus! {

/// Mathematical value of a term.
pub enum TermV {
    Atom(Seq<char>),
    Str(Seq<char>),
    Int(i64),
    List(Seq<TermV>),
    EmptyList,
    Tuple(Seq<TermV>),
    EmptyTuple,
    Binary(Seq<u8>),
}

/// A parsed Erlang value. A `List` or a `Tuple` with no elements is written
/// `EmptyList` or `EmptyTuple`; see [`well_formed`].
#[derive(Debug, PartialEq, Eq)]
pub enum FTerm {
    Atom(String),
    String(String),
    Int64(i64),
    List(Vec<FTerm>),
    EmptyList,
    Tuple(Vec<FTerm>),
    EmptyTuple,
    Binary(Vec<u8>),
}

/// Values of a sequence of terms, element by element.
pub open spec fn term_views(s: Seq<FTerm>) -> Seq<TermV>
    decreases s,
{
    Seq::new(
        s.len(),
        |i: int|
            if 0 <= i < s.len() {
                s[i]@
            } else {
                TermV::EmptyList
            },
    )
}

impl View for FTerm {
    type V = TermV;

    open spec fn view(&self) -> TermV
        decreases self,
    {
        match self {
            FTerm::Atom(s) => TermV::Atom(s@),
            FTerm::String(s) => TermV::Str(s@),
            FTerm::Int64(i) => TermV::Int(*i),
            FTerm::List(v) => TermV::List(term_views(v@)),
            FTerm::EmptyList => TermV::EmptyList,
            FTerm::Tuple(v) => TermV::Tuple(term_views(v@)),
            FTerm::EmptyTuple => TermV::EmptyTuple,
            FTerm::Binary(b) => TermV::Binary(b@),
        }
    }
}

/// No `List` and no `Tuple` anywhere in `t` is without elements.
pub open spec fn well_formed(t: TermV) -> bool
    decreases t,
{
    match t {
        TermV::List(s) => s.len() > 0 && forall|i: int|
            0 <= i < s.len() ==> well_formed(#[trigger] s[i]),
        TermV::Tuple(s) => s.len() > 0 && forall|i: int|
            0 <= i < s.len() ==> well_formed(#[trigger] s[i]),
        _ => true,
    }
}

/// `t` is a list, empty or not.
pub open spec fn is_list_value(t: TermV) -> bool {
    t is List || t is EmptyList
}

/// `t` is a tuple, empty or not.
pub open spec fn is_tuple_value(t: TermV) -> bool {
    t is Tuple || t is EmptyTuple
}

/// The elements of a list or of a tuple; no elements for any other term.
pub open spec fn elements(t: TermV) -> Seq<TermV> {
    match t {
        TermV::List(s) => s,
        TermV::Tuple(s) => s,
        _ => Seq::empty(),
    }
}

/// Deep copy of a sequence of terms.
pub fn clone_terms(v: &Vec<FTerm>) -> (out: Vec<FTerm>)
    ensures
        term_views(out@) == term_views(v@),
    decreases v,
{
    let mut out: Vec<FTerm> = Vec::new();
    let mut i: usize = 0;
    while i < v.len()
        invariant
            i <= v.len(),
            out.len() == i,
            forall|j: int| 0 <= j < i ==> out@[j]@ == v@[j]@,
        decreases v.len() - i,
    {
        out.push(v[i].clone());
        i += 1;
    }
    assert(term_views(out@) =~= term_views(v@));
    out
}

impl Clone for FTerm {
    fn clone(&self) -> (r: Self)
        ensures
            r@ == self@,
        decreases self,
    {
        match self {
            FTerm::Atom(s) => FTerm::Atom(s.clone()),
            FTerm::String(s) => FTerm::String(s.clone()),
            FTerm::Int64(i) => FTerm::Int64(*i),
            FTerm::List(v) => FTerm::List(clone_terms(v)),
            FTerm::EmptyList => FTerm::EmptyList,
            FTerm::Tuple(v) => FTerm::Tuple(clone_terms(v)),
            FTerm::EmptyTuple => FTerm::EmptyTuple,
            FTerm::Binary(b) => {
                let out = b.clone();
                assert(out@ =~= b@);
                FTerm::Binary(out)
            },
        }
    }
}

impl FTerm {
    /// The text of an atom.
    pub fn get_atom_text(&self) -> (r: String)
        requires
            self@ is Atom,
        ensures
            r@ == self@->Atom_0,
    {
        match self {
            FTerm::Atom(s) => s.clone(),
            _ => String::new(),
        }
    }

    /// The number that an integer term holds.
    pub fn get_i64(&self) -> (r: i64)
        requires
            self@ is Int,
        ensures
            r == self@->Int_0,
    {
        match self {
            FTerm::Int64(i) => *i,
            _ => 0,
        }
    }

    /// The elements of a list or of a tuple.
    pub fn get_vec(&self) -> (r: Vec<FTerm>)
        requires
            is_list_value(self@) || is_tuple_value(self@),
        ensures
            term_views(r@) == elements(self@),
    {
        match self {
            FTerm::List(v) => clone_terms(v),
            FTerm::Tuple(v) => clone_terms(v),
            _ => {
                let r: Vec<FTerm> = Vec::new();
                assert(term_views(r@) =~= elements(self@));
                r
            },
        }
    }

    /// Whether the term is an integer.
    pub fn is_int(&self) -> (r: bool)
        ensures
            r == (self@ is Int),
    {
        match self {
            FTerm::Int64(_) => true,
            _ => false,
        }
    }

    /// Whether the term is an atom.
    pub fn is_atom(&self) -> (r: bool)
        ensures
            r == (self@ is Atom),
    {
        match self {
            FTerm::Atom(_) => true,
            _ => false,
        }
    }

    /// Whether the term is a tuple, empty or not.
    pub fn is_tuple(&self) -> (r: bool)
        ensures
            r == is_tuple_value(self@),
    {
        match self {
            FTerm::Tuple(_) => true,
            FTerm::EmptyTuple => true,
            _ => false,
        }
    }

    /// The elements of a tuple.
    pub fn get_tuple_vec(&self) -> (r: Vec<FTerm>)
        requires
            is_tuple_value(self@),
        ensures
            term_views(r@) == elements(self@),
    {
        match self {
            FTerm::Tuple(v) => clone_terms(v),
            _ => {
                let r: Vec<FTerm> = Vec::new();
                assert(term_views(r@) =~= elements(self@));
                r
            },
        }
    }

    /// The truth value that the atom `true` or `false` names.
    pub fn get_bool(&self) -> (r: bool)
        requires
            self@ == TermV::Atom("true"@) || self@ == TermV::Atom("false"@),
        ensures
            r == (self@ == TermV::Atom("true"@)),
    {
        match self {
            FTerm::Atom(x) => x.as_str().eq("true"),
            _ => false,
        }
    }

    /// The number of elements of a list.
    pub fn list_size(&self) -> (r: usize)
        requires
            is_list_value(self@),
        ensures
            r == elements(self@).len(),
    {
        match self {
            FTerm::List(v) => {
                assert(term_views(v@).len() == v@.len());
                v.len()
            },
            _ => 0,
        }
    }

    /// Whether the term is a list, empty or not.
    pub fn is_list(&self) -> (r: bool)
        ensures
            r == is_list_value(self@),
    {
        match self {
            FTerm::List(_) => true,
            FTerm::EmptyList => true,
            _ => false,
        }
    }

    /// The elements of a list.
    pub fn get_list_vec(&self) -> (r: Vec<FTerm>)
        requires
            is_list_value(self@),
        ensures
            term_views(r@) == elements(self@),
    {
        match self {
            FTerm::List(v) => clone_terms(v),
            _ => {
                let r: Vec<FTerm> = Vec::new();
                assert(term_views(r@) =~= elements(self@));
                r
            },
        }
    }

    /// Whether the term is the atom with the text `s`.
    pub fn is_atom_of(&self, s: &str) -> (r: bool)
        ensures
            r == (self@ == TermV::Atom(s@)),
    {
        match self {
            FTerm::Atom(s2) => s.eq(s2.as_str()),
            _ => false,
        }
    }

    /// The term in source syntax.
    pub fn to_text(&self) -> (r: String)
        ensures
            r@ == term_text(self@),
    {
        let mut out = String::new();
        write_term(self, &mut out);
        assert(Seq::<char>::empty() + term_text(self@) =~= term_text(self@));
        out
    }
}

/// A character that may stand in an atom that is written without quotes.
pub open spec fn unquoted_character(c: char) -> bool {
    is_alphanumeric(c) || c == '_'
}

/// A character that may begin an atom that is written without quotes.
pub open spec fn first_unquoted_character(c: char) -> bool {
    ('a' <= c <= 'z') || is_digit(c) || c == '_'
}

/// An atom with this text is written without quotes.
pub open spec fn unquoted_atom(s: Seq<char>) -> bool {
    &&& s.len() > 0
    &&& first_unquoted_character(s[0])
    &&& forall|i: int| 0 <= i < s.len() ==> unquoted_character(#[trigger] s[i])
}

/// Whether `c` may stand in an atom that is written without quotes.
pub fn is_unquoted_atom_character(c: char) -> (r: bool)
    ensures
        r == unquoted_character(c),
{
    char_is_alphanumeric(c) || c == '_'
}

/// Whether `c` may begin an atom that is written without quotes.
pub fn is_first_unquoted_atom_character(c: char) -> (r: bool)
    ensures
        r == first_unquoted_character(c),
{
    ('a' <= c && c <= 'z') || char_is_digit(c) || c == '_'
}

/// Whether an atom with the text `s` needs no quotes.
pub fn is_unquoted_atom(s: &String) -> (r: bool)
    ensures
        r == unquoted_atom(s@),
{
    let mut count: usize = 0;
    let mut ok = true;
    for c in it: s.as_str().chars()
        invariant
            it.seq() == s@,
            ok == ((forall|i: int| 0 <= i < it.index() ==> unquoted_character(#[trigger] s@[i]))
                && (it.index() > 0 ==> first_unquoted_character(s@[0]))),
            (count == 0) == (it.index() == 0),
    {
        if count == 0 {
            if !is_first_unquoted_atom_character(c) {
                ok = false;
            }
            count = 1;
        }
        if !is_unquoted_atom_character(c) {
            ok = false;
        }
    }
    ok && count > 0
}

/// One hexadecimal digit, in lower case.
pub open spec fn hex_digit(d: int) -> char {
    if d < 10 {
        (48 + d) as char
    } else {
        (87 + d) as char
    }
}

/// A character of a string as it is written between the double quotes:
/// itself, or `\x` and its code in hexadecimal where the code is 32 or less.
pub open spec fn escaped_char(c: char) -> Seq<char> {
    let code = c as int;
    if code > 32 {
        seq![c]
    } else if code < 16 {
        seq!['\\', 'x', hex_digit(code)]
    } else {
        seq!['\\', 'x', hex_digit(code / 16), hex_digit(code % 16)]
    }
}

/// The characters of a string as they are written between the double quotes.
pub open spec fn escaped(s: Seq<char>) -> Seq<char>
    decreases s.len(),
{
    if s.len() == 0 {
        Seq::empty()
    } else {
        escaped(s.drop_last()) + escaped_char(s.last())
    }
}

/// An atom in source syntax: bare, or between single quotes.
pub open spec fn atom_text(s: Seq<char>) -> Seq<char> {
    if unquoted_atom(s) {
        s
    } else {
        seq!['\''] + s + seq!['\'']
    }
}

/// A string in source syntax.
pub open spec fn string_text(s: Seq<char>) -> Seq<char> {
    seq!['"'] + escaped(s) + seq!['"']
}

/// The parts, with a comma and a space between each two neighbours.
pub open spec fn joined(parts: Seq<Seq<char>>) -> Seq<char>
    decreases parts.len(),
{
    if parts.len() == 0 {
        Seq::empty()
    } else if parts.len() == 1 {
        parts[0]
    } else {
        joined(parts.drop_last()) + seq![',', ' '] + parts.last()
    }
}

/// The decimal numerals of the bytes.
pub open spec fn byte_texts(b: Seq<u8>) -> Seq<Seq<char>> {
    Seq::new(b.len(), |i: int| decimal(b[i] as nat))
}

/// The source syntax of each term of a sequence.
pub open spec fn term_texts(s: Seq<TermV>) -> Seq<Seq<char>>
    decreases s,
{
    Seq::new(
        s.len(),
        |i: int|
            if 0 <= i < s.len() {
                term_text(s[i])
            } else {
                Seq::empty()
            },
    )
}

/// A term in source syntax.
pub open spec fn term_text(t: TermV) -> Seq<char>
    decreases t,
{
    match t {
        TermV::Atom(s) => atom_text(s),
        TermV::Str(s) => string_text(s),
        TermV::Int(i) => int_text(i as int),
        TermV::EmptyList => seq!['[', ']'],
        TermV::List(s) => seq!['['] + joined(term_texts(s)) + seq![']'],
        TermV::EmptyTuple => seq!['{', '}'],
        TermV::Tuple(s) => seq!['{'] + joined(term_texts(s)) + seq!['}'],
        TermV::Binary(b) => seq!['<', '<', '['] + joined(byte_texts(b)) + seq![']', '>', '>'],
    }
}

fn hex_digit_char(d: u32) -> (c: char)
    requires
        d < 16,
    ensures
        c == hex_digit(d as int),
{
    if d < 10 {
        ((d as u8) + 48) as char
    } else {
        ((d as u8) + 87) as char
    }
}

/// Appends the quoted and escaped form of the string `s` to `out`.
fn write_string(s: &String, out: &mut String)
    ensures
        final(out)@ == old(out)@ + string_text(s@),
{
    out.push('"');
    let ghost start = out@;
    assert(start + escaped(s@.take(0)) =~= start);
    for c in it: s.as_str().chars()
        invariant
            it.seq() == s@,
            out@ == start + escaped(s@.take(it.index() as int)),
    {
        let ghost before = s@.take(it.index() as int);
        let ghost after = s@.take(it.index() + 1);
        assert(after.drop_last() =~= before);
        assert(after.last() == c);
        let ghost prev = out@;
        let code: u32 = char_code(c);
        if code > 32 {
            out.push(c);
        } else if code < 16 {
            out.push('\\');
            out.push('x');
            out.push(hex_digit_char(code));
        } else {
            out.push('\\');
            out.push('x');
            out.push(hex_digit_char(code / 16));
            out.push(hex_digit_char(code % 16));
        }
        assert(out@ =~= prev + escaped_char(c));
        assert(out@ =~= start + escaped(after));
    }
    assert(s@.take(s@.len() as int) =~= s@);
    out.push('"');
    assert(out@ =~= old(out)@ + string_text(s@));
}

/// Appends the elements of `v`, separated by commas, to `out`.
fn write_terms(v: &Vec<FTerm>, out: &mut String)
    ensures
        final(out)@ == old(out)@ + joined(term_texts(term_views(v@))),
    decreases v,
{
    let ghost texts = term_texts(term_views(v@));
    let mut i: usize = 0;
    assert(old(out)@ + joined(texts.take(0)) =~= old(out)@);
    while i < v.len()
        invariant
            i <= v.len(),
            texts == term_texts(term_views(v@)),
            out@ == old(out)@ + joined(texts.take(i as int)),
        decreases v.len() - i,
    {
        if i > 0 {
            out.push(',');
            out.push(' ');
        }
        write_term(&v[i], out);
        proof {
            let before = texts.take(i as int);
            let after = texts.take(i + 1);
            assert(after.drop_last() =~= before);
            assert(after.last() == term_text(v@[i as int]@));
            assert(out@ =~= old(out)@ + joined(after));
        }
        i += 1;
    }
    assert(texts.take(v@.len() as int) =~= texts);
}

/// Appends the decimal numerals of the bytes, separated by commas, to `out`.
fn write_bytes(b: &Vec<u8>, out: &mut String)
    ensures
        final(out)@ == old(out)@ + joined(byte_texts(b@)),
{
    let ghost texts = byte_texts(b@);
    let mut i: usize = 0;
    assert(old(out)@ + joined(texts.take(0)) =~= old(out)@);
    while i < b.len()
        invariant
            i <= b.len(),
            texts == byte_texts(b@),
            out@ == old(out)@ + joined(texts.take(i as int)),
        decreases b.len() - i,
    {
        if i > 0 {
            out.push(',');
            out.push(' ');
        }
        push_decimal(out, b[i] as u64);
        proof {
            let before = texts.take(i as int);
            let after = texts.take(i + 1);
            assert(after.drop_last() =~= before);
            assert(after.last() == decimal(b@[i as int] as nat));
            assert(out@ =~= old(out)@ + joined(after));
        }
        i += 1;
    }
    assert(texts.take(b@.len() as int) =~= texts);
}

/// Appends the source syntax of `t` to `out`.
pub fn write_term(t: &FTerm, out: &mut String)
    ensures
        final(out)@ == old(out)@ + term_text(t@),
    decreases t,
{
    match t {
        FTerm::Atom(s) => {
            if is_unquoted_atom(s) {
                out.append(s.as_str());
            } else {
                out.push('\'');
                out.append(s.as_str());
                out.push('\'');
                assert(out@ =~= old(out)@ + term_text(t@));
            }
        },
        FTerm::String(s) => write_string(s, out),
        FTerm::Int64(i) => push_int(out, *i),
        FTerm::EmptyList => {
            out.push('[');
            out.push(']');
            assert(out@ =~= old(out)@ + term_text(t@));
        },
        FTerm::List(v) => {
            out.push('[');
            write_terms(v, out);
            out.push(']');
            assert(out@ =~= old(out)@ + term_text(t@));
        },
        FTerm::EmptyTuple => {
            out.push('{');
            out.push('}');
            assert(out@ =~= old(out)@ + term_text(t@));
        },
        FTerm::Tuple(v) => {
            out.push('{');
            write_terms(v, out);
            out.push('}');
            assert(out@ =~= old(out)@ + term_text(t@));
        },
        FTerm::Binary(b) => {
            out.push('<');
            out.push('<');
            out.push('[');
            write_bytes(b, out);
            out.push(']');
            out.push('>');
            out.push('>');
            assert(out@ =~= old(out)@ + term_text(t@));
        },
    }
}

} // verus!
