use vstd::prelude::*;

verus! {

/// Tokens of the small stand-alone lexer.
#[derive(Clone, Debug, PartialEq)]
pub enum Token {
    // Keywords
    Fn,
    Let,
    If,
    While,
    Return,
    Enum,
    Match,
    // Symbols
    LBrace,
    RBrace,
    LParen,
    RParen,
    Colon,
    SemiColon,
    Comma,
    Eq,
    Assign,
    Arrow,
    Plus,
    Minus,
    Star,
    Slash,
    // Literals
    Identifier(String),
    Integer(u64),
    StringLiteral(String),
    // End of file
    EOF,
}

/// The mathematical value of a `Token`: the same shape, with the text of
/// identifiers and string literals as a sequence of characters.
pub enum SpecToken {
    Fn,
    Let,
    If,
    While,
    Return,
    Enum,
    Match,
    LBrace,
    RBrace,
    LParen,
    RParen,
    Colon,
    SemiColon,
    Comma,
    Eq,
    Assign,
    Arrow,
    Plus,
    Minus,
    Star,
    Slash,
    Identifier(Seq<char>),
    Integer(u64),
    StringLiteral(Seq<char>),
    EOF,
}

impl View for Token {
    type V = SpecToken;

    open spec fn view(&self) -> SpecToken {
        match self {
            Token::Fn => SpecToken::Fn,
            Token::Let => SpecToken::Let,
            Token::If => SpecToken::If,
            Token::While => SpecToken::While,
            Token::Return => SpecToken::Return,
            Token::Enum => SpecToken::Enum,
            Token::Match => SpecToken::Match,
            Token::LBrace => SpecToken::LBrace,
            Token::RBrace => SpecToken::RBrace,
            Token::LParen => SpecToken::LParen,
            Token::RParen => SpecToken::RParen,
            Token::Colon => SpecToken::Colon,
            Token::SemiColon => SpecToken::SemiColon,
            Token::Comma => SpecToken::Comma,
            Token::Eq => SpecToken::Eq,
            Token::Assign => SpecToken::Assign,
            Token::Arrow => SpecToken::Arrow,
            Token::Plus => SpecToken::Plus,
            Token::Minus => SpecToken::Minus,
            Token::Star => SpecToken::Star,
            Token::Slash => SpecToken::Slash,
            Token::Identifier(s) => SpecToken::Identifier(s@),
            Token::Integer(v) => SpecToken::Integer(*v),
            Token::StringLiteral(s) => SpecToken::StringLiteral(s@),
            Token::EOF => SpecToken::EOF,
        }
    }
}

/// Copies a token; the copy has the same value.
pub fn token_copy(t: &Token) -> (r: Token)
    ensures
        r@ == t@,
{
    match t {
        Token::Fn => Token::Fn,
        Token::Let => Token::Let,
        Token::If => Token::If,
        Token::While => Token::While,
        Token::Return => Token::Return,
        Token::Enum => Token::Enum,
        Token::Match => Token::Match,
        Token::LBrace => Token::LBrace,
        Token::RBrace => Token::RBrace,
        Token::LParen => Token::LParen,
        Token::RParen => Token::RParen,
        Token::Colon => Token::Colon,
        Token::SemiColon => Token::SemiColon,
        Token::Comma => Token::Comma,
        Token::Eq => Token::Eq,
        Token::Assign => Token::Assign,
        Token::Arrow => Token::Arrow,
        Token::Plus => Token::Plus,
        Token::Minus => Token::Minus,
        Token::Star => Token::Star,
        Token::Slash => Token::Slash,
        Token::Identifier(s) => Token::Identifier(s.clone()),
        Token::Integer(v) => Token::Integer(*v),
        Token::StringLiteral(s) => Token::StringLiteral(s.clone()),
        Token::EOF => Token::EOF,
    }
}

/// How a keyword is written; `None` for the other tokens.
pub open spec fn keyword_spelling(t: SpecToken) -> Option<Seq<char>> {
    match t {
        SpecToken::Fn => Some("fn"@),
        SpecToken::Let => Some("let"@),
        SpecToken::If => Some("if"@),
        SpecToken::While => Some("while"@),
        SpecToken::Return => Some("return"@),
        SpecToken::Enum => Some("enum"@),
        SpecToken::Match => Some("match"@),
        _ => None,
    }
}

} // verus!
