//! The tokens of the term syntax.

use vstd::prelude::*;

verus! {

/// Mathematical value of a [`Token`].
pub enum TokenV {
    StringLiteral(Seq<char>),
    AtomLiteral(Seq<char>),
    BinaryLiteral(Seq<u8>),
    IntLiteral(i64),
    Comment,
    Comma,
    Dot,
    LCurlyBracket,
    LSquareBracket,
    LParen,
    RCurlyBracket,
    RSquareBracket,
    RParen,
    Minus,
}

/// A token: a literal with what it denotes, or a mark of punctuation.
/// The lexer of this crate hands out no `BinaryLiteral` and no `Comment`,
/// and the parser takes neither for the beginning of a term.
#[derive(Debug, PartialEq, Eq)]
pub enum Token {
    StringLiteral(String),
    AtomLiteral(String),
    BinaryLiteral(Vec<u8>),
    IntLiteral(i64),
    Comment,
    Comma,
    Dot,
    LCurlyBracket,
    LSquareBracket,
    LParen,
    RCurlyBracket,
    RSquareBracket,
    RParen,
    Minus,
}

impl View for Token {
    type V = TokenV;

    open spec fn view(&self) -> TokenV {
        match self {
            Token::StringLiteral(s) => TokenV::StringLiteral(s@),
            Token::AtomLiteral(s) => TokenV::AtomLiteral(s@),
            Token::BinaryLiteral(b) => TokenV::BinaryLiteral(b@),
            Token::IntLiteral(i) => TokenV::IntLiteral(*i),
            Token::Comment => TokenV::Comment,
            Token::Comma => TokenV::Comma,
            Token::Dot => TokenV::Dot,
            Token::LCurlyBracket => TokenV::LCurlyBracket,
            Token::LSquareBracket => TokenV::LSquareBracket,
            Token::LParen => TokenV::LParen,
            Token::RCurlyBracket => TokenV::RCurlyBracket,
            Token::RSquareBracket => TokenV::RSquareBracket,
            Token::RParen => TokenV::RParen,
            Token::Minus => TokenV::Minus,
        }
    }
}

impl Clone for Token {
    fn clone(&self) -> (r: Self)
        ensures
            r@ == self@,
    {
        match self {
            Token::StringLiteral(s) => Token::StringLiteral(s.clone()),
            Token::AtomLiteral(s) => Token::AtomLiteral(s.clone()),
            Token::BinaryLiteral(b) => {
                let bytes = b.clone();
                assert(bytes@ =~= b@);
                Token::BinaryLiteral(bytes)
            },
            Token::IntLiteral(i) => Token::IntLiteral(*i),
            Token::Comment => Token::Comment,
            Token::Comma => Token::Comma,
            Token::Dot => Token::Dot,
            Token::LCurlyBracket => Token::LCurlyBracket,
            Token::LSquareBracket => Token::LSquareBracket,
            Token::LParen => Token::LParen,
            Token::RCurlyBracket => Token::RCurlyBracket,
            Token::RSquareBracket => Token::RSquareBracket,
            Token::RParen => Token::RParen,
            Token::Minus => Token::Minus,
        }
    }
}

} // verus!
