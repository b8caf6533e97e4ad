use vstd::prelude::*;

verus! {

/// A token of the Celeste language, as produced by the lexer.
#[derive(Debug, PartialEq, Clone)]
pub enum TokenType {
    Ident(String),
    Int(i32),
    StringLiteral(String),
    Equals,
    DoubleEquals,
    Less,
    Greater,
    OpenCurly,
    CloseCurly,
    OpenParen,
    CloseParen,
    Semicolon,
    Comma,
    Ellipsis,
    Fn,
    Let,
    Mut,
    Return,
    Extrn,
    Include,
    If,
    Else,
    For,
    While,
    Plus,
    Minus,
    Star,
    Slash,
    Eof,
}

/// The mathematical value of a token: text payloads are character sequences.
pub enum TokenSpec {
    Ident(Seq<char>),
    Int(i32),
    StringLiteral(Seq<char>),
    Equals,
    DoubleEquals,
    Less,
    Greater,
    OpenCurly,
    CloseCurly,
    OpenParen,
    CloseParen,
    Semicolon,
    Comma,
    Ellipsis,
    Fn,
    Let,
    Mut,
    Return,
    Extrn,
    Include,
    If,
    Else,
    For,
    While,
    Plus,
    Minus,
    Star,
    Slash,
    Eof,
}

impl View for TokenType {
    type V = TokenSpec;

    open spec fn view(&self) -> TokenSpec {
        match self {
            TokenType::Ident(s) => TokenSpec::Ident(s@),
            TokenType::Int(n) => TokenSpec::Int(*n),
            TokenType::StringLiteral(s) => TokenSpec::StringLiteral(s@),
            TokenType::Equals => TokenSpec::Equals,
            TokenType::DoubleEquals => TokenSpec::DoubleEquals,
            TokenType::Less => TokenSpec::Less,
            TokenType::Greater => TokenSpec::Greater,
            TokenType::OpenCurly => TokenSpec::OpenCurly,
            TokenType::CloseCurly => TokenSpec::CloseCurly,
            TokenType::OpenParen => TokenSpec::OpenParen,
            TokenType::CloseParen => TokenSpec::CloseParen,
            TokenType::Semicolon => TokenSpec::Semicolon,
            TokenType::Comma => TokenSpec::Comma,
            TokenType::Ellipsis => TokenSpec::Ellipsis,
            TokenType::Fn => TokenSpec::Fn,
            TokenType::Let => TokenSpec::Let,
            TokenType::Mut => TokenSpec::Mut,
            TokenType::Return => TokenSpec::Return,
            TokenType::Extrn => TokenSpec::Extrn,
            TokenType::Include => TokenSpec::Include,
            TokenType::If => TokenSpec::If,
            TokenType::Else => TokenSpec::Else,
            TokenType::For => TokenSpec::For,
            TokenType::While => TokenSpec::While,
            TokenType::Plus => TokenSpec::Plus,
            TokenType::Minus => TokenSpec::Minus,
            TokenType::Star => TokenSpec::Star,
            TokenType::Slash => TokenSpec::Slash,
            TokenType::Eof => TokenSpec::Eof,
        }
    }
}


impl TokenType {
    /// A copy of this token.
    pub fn duplicate(&self) -> (r: TokenType)
        ensures
            r@ == self@,
    {
        match self {
            TokenType::Ident(s) => TokenType::Ident(s.clone()),
            TokenType::Int(n) => TokenType::Int(*n),
            TokenType::StringLiteral(s) => TokenType::StringLiteral(s.clone()),
            TokenType::Equals => TokenType::Equals,
            TokenType::DoubleEquals => TokenType::DoubleEquals,
            TokenType::Less => TokenType::Less,
            TokenType::Greater => TokenType::Greater,
            TokenType::OpenCurly => TokenType::OpenCurly,
            TokenType::CloseCurly => TokenType::CloseCurly,
            TokenType::OpenParen => TokenType::OpenParen,
            TokenType::CloseParen => TokenType::CloseParen,
            TokenType::Semicolon => TokenType::Semicolon,
            TokenType::Comma => TokenType::Comma,
            TokenType::Ellipsis => TokenType::Ellipsis,
            TokenType::Fn => TokenType::Fn,
            TokenType::Let => TokenType::Let,
            TokenType::Mut => TokenType::Mut,
            TokenType::Return => TokenType::Return,
            TokenType::Extrn => TokenType::Extrn,
            TokenType::Include => TokenType::Include,
            TokenType::If => TokenType::If,
            TokenType::Else => TokenType::Else,
            TokenType::For => TokenType::For,
            TokenType::While => TokenType::While,
            TokenType::Plus => TokenType::Plus,
            TokenType::Minus => TokenType::Minus,
            TokenType::Star => TokenType::Star,
            TokenType::Slash => TokenType::Slash,
            TokenType::Eof => TokenType::Eof,
        }
    }
}

} // verus!
