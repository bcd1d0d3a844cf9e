//! The tokens of the configuration language.
use vstd::prelude::*;

verus! {

/// A token together with the text it was read from (without quotes or `#`).
#[derive(Clone, Debug, PartialEq, Eq)]
pub enum Token {
    Ident(String),
    Str(String),
    Hex(String),
    Path(String),
    Number(String),
    LBrace,
    RBrace,
    LParen,
    RParen,
    Comma,
}

/// A token as a mathematical value.
pub enum TokenV {
    Ident(Seq<char>),
    Str(Seq<char>),
    Hex(Seq<char>),
    Path(Seq<char>),
    Number(Seq<char>),
    LBrace,
    RBrace,
    LParen,
    RParen,
    Comma,
}

impl Token {
    pub open spec fn view(&self) -> TokenV {
        match self {
            Token::Ident(s) => TokenV::Ident(s@),
            Token::Str(s) => TokenV::Str(s@),
            Token::Hex(s) => TokenV::Hex(s@),
            Token::Path(s) => TokenV::Path(s@),
            Token::Number(s) => TokenV::Number(s@),
            Token::LBrace => TokenV::LBrace,
            Token::RBrace => TokenV::RBrace,
            Token::LParen => TokenV::LParen,
            Token::RParen => TokenV::RParen,
            Token::Comma => TokenV::Comma,
        }
    }

    /// A copy that keeps the text.
    pub fn duplicate(&self) -> (r: Token)
        ensures
            r@ == self@,
    {
        match self {
            Token::Ident(s) => Token::Ident(s.clone()),
            Token::Str(s) => Token::Str(s.clone()),
            Token::Hex(s) => Token::Hex(s.clone()),
            Token::Path(s) => Token::Path(s.clone()),
            Token::Number(s) => Token::Number(s.clone()),
            Token::LBrace => Token::LBrace,
            Token::RBrace => Token::RBrace,
            Token::LParen => Token::LParen,
            Token::RParen => Token::RParen,
            Token::Comma => Token::Comma,
        }
    }
}

} // verus!
