//! Thin helpers over strings, characters and vectors, used by the lexer in `core_lexer`.
use vstd::prelude::*;
use crate::token::SpecToken;

verus! {

/// Whether `c` has the Unicode `Alphabetic` property.
pub uninterp spec fn unicode_alphabetic(c: char) -> bool;

/// Whether `c` has the Unicode `Numeric` property (general category Nd, Nl or No).
pub uninterp spec fn unicode_numeric(c: char) -> bool;

/// A new empty string.
pub fn string_new() -> (r: String)
    ensures
        r@ == Seq::<char>::empty(),
{
    String::new()
}

/// Appends one character. Calls `String::push`, which the standard library
/// documents as appending the given char to the end of the string; the contract
/// states exactly that.
#[verifier::external_body]
pub fn string_push(s: &mut String, c: char)
    ensures
        final(s)@ == old(s)@.push(c),
{
    s.push(c);
}

/// Borrows the text of `s`.
pub fn string_as_str(s: &String) -> (r: &str)
    ensures
        r@ == s@,
{
    s.as_str()
}

/// A string with the text of `s`.
pub fn string_from_str(s: &str) -> (r: String)
    ensures
        r@ == s@,
{
    String::from_str(s)
}

fn string_clone(s: &String) -> (r: String)
    ensures
        r@ == s@,
{
    s.clone()
}

fn string_eq(a: &String, b: &String) -> (r: bool)
    ensures
        r == (a@ == b@),
{
    a.eq(b)
}

/// The characters of a source text, indexable by position.
pub struct VecChar {
    inner: Vec<char>,
}

impl VecChar {
    /// The number of characters fits in a `usize`.
    pub proof fn lemma_len_fits(&self)
        ensures
            self@.len() <= usize::MAX,
    {
        assert(self.inner@.len() == self.inner.len());
    }
}

impl View for VecChar {
    type V = Seq<char>;

    closed spec fn view(&self) -> Seq<char> {
        self.inner@
    }
}

/// The characters of `s`, in order.
pub fn vec_char_from_str(s: &str) -> (r: VecChar)
    ensures
        r@ == s@,
{
    let n: usize = s.unicode_len();
    let mut inner: Vec<char> = Vec::new();
    let mut i: usize = 0;
    while i < n
        invariant
            n == s@.len(),
            i <= n,
            inner@ == s@.subrange(0, i as int),
        decreases n - i,
    {
        let c: char = s.get_char(i);
        inner.push(c);
        i = i + 1;
        assert(inner@ =~= s@.subrange(0, i as int));
    }
    assert(s@.subrange(0, n as int) =~= s@);
    VecChar { inner }
}

/// The number of characters.
pub fn vec_char_len(v: &VecChar) -> (r: usize)
    ensures
        r == v@.len(),
{
    v.inner.len()
}

/// The character at `i`, if there is one.
pub fn vec_char_get(v: &VecChar, i: usize) -> (r: OptionChar)
    ensures
        i < v@.len() ==> r == OptionChar::Value(v@[i as int]),
        i >= v@.len() ==> r is Nothing,
{
    if i < v.inner.len() {
        OptionChar::Value(v.inner[i])
    } else {
        OptionChar::Nothing
    }
}

/// An optional character.
#[derive(Debug, PartialEq, Eq)]
pub enum OptionChar {
    Value(char),
    Nothing,
}

/// A growable list of tokens.
pub struct VecToken {
    inner: Vec<Token>,
}

impl View for VecToken {
    type V = Seq<SpecToken>;

    closed spec fn view(&self) -> Seq<SpecToken> {
        self.inner@.map_values(|t: Token| t@)
    }
}

/// An empty token list.
pub fn vec_token_new() -> (r: VecToken)
    ensures
        r@ == Seq::<SpecToken>::empty(),
{
    let r = VecToken { inner: Vec::new() };
    assert(r@ =~= Seq::<SpecToken>::empty());
    r
}

/// Appends a token.
pub fn vec_token_push(v: &mut VecToken, t: Token)
    ensures
        final(v)@ == old(v)@.push(t@),
{
    let ghost tv = t@;
    v.inner.push(t);
    assert(v@ =~= old(v)@.push(tv));
}

/// The number of tokens.
pub fn vec_token_len(v: &VecToken) -> (r: usize)
    ensures
        r == v@.len(),
{
    v.inner.len()
}

/// A copy of the token at `i`, if there is one.
pub fn vec_token_get(v: &VecToken, i: usize) -> (r: OptionToken)
    ensures
        i < v@.len() ==> (r matches OptionToken::Value(t) && t@ == v@[i as int]),
        i >= v@.len() ==> r is Nothing,
{
    if i < v.inner.len() {
        OptionToken::Value(token_clone(&v.inner[i]))
    } else {
        OptionToken::Nothing
    }
}

/// Whether `c` is ASCII whitespace: space, tab, line feed, form feed or carriage return.
pub fn char_is_whitespace(c: char) -> (r: bool)
    ensures
        r == (c == ' ' || c == '\t' || c == '\n' || c == '\x0C' || c == '\r'),
{
    c == ' ' || c == '\t' || c == '\n' || c == '\x0C' || c == '\r'
}

/// Whether `c` is an ASCII decimal digit.
pub fn char_is_digit(c: char) -> (r: bool)
    ensures
        r == ('0' <= c && c <= '9'),
{
    c >= '0' && c <= '9'
}

/// Whether `c` is alphabetic. Calls `char::is_alphabetic`, documented as true
/// exactly when `c` has the Unicode `Alphabetic` property; the contract names
/// that property and says nothing more of it.
#[verifier::external_body]
pub fn char_is_alphabetic(c: char) -> (r: bool)
    ensures
        r == unicode_alphabetic(c),
{
    c.is_alphabetic()
}

/// Whether `c` is alphanumeric. Calls `char::is_alphanumeric`, documented as
/// true exactly when `c` is alphabetic or numeric; the contract states that,
/// with both properties left as names.
#[verifier::external_body]
pub fn char_is_alphanumeric(c: char) -> (r: bool)
    ensures
        r == (unicode_alphabetic(c) || unicode_numeric(c)),
{
    c.is_alphanumeric()
}

/// Whether two texts are equal.
pub fn str_eq(a: &str, b: &str) -> (r: bool)
    ensures
        r == (a@ == b@),
{
    let n: usize = a.unicode_len();
    if n != b.unicode_len() {
        return false;
    }
    let mut i: usize = 0;
    while i < n
        invariant
            n == a@.len(),
            n == b@.len(),
            i <= n,
            forall|k: int| 0 <= k < i ==> a@[k] == b@[k],
        decreases n - i,
    {
        if a.get_char(i) != b.get_char(i) {
            return false;
        }
        i = i + 1;
    }
    assert(a@ =~= b@);
    true
}

/// Tokens of the second lexer.
#[derive(Debug)]
pub enum Token {
    Fn,
    Let,
    If,
    While,
    Return,
    Enum,
    Match,
    LBrace,
    RBrace,
    LParen,
    RParen,
    Colon,
    SemiColon,
    Comma,
    Eq,
    Assign,
    Arrow,
    Plus,
    Minus,
    Star,
    Slash,
    Identifier(String),
    Integer(u64),
    StringLiteral(String),
    Eof,
}

impl View for Token {
    type V = SpecToken;

    open spec fn view(&self) -> SpecToken {
        match self {
            Token::Fn => SpecToken::Fn,
            Token::Let => SpecToken::Let,
            Token::If => SpecToken::If,
            Token::While => SpecToken::While,
            Token::Return => SpecToken::Return,
            Token::Enum => SpecToken::Enum,
            Token::Match => SpecToken::Match,
            Token::LBrace => SpecToken::LBrace,
            Token::RBrace => SpecToken::RBrace,
            Token::LParen => SpecToken::LParen,
            Token::RParen => SpecToken::RParen,
            Token::Colon => SpecToken::Colon,
            Token::SemiColon => SpecToken::SemiColon,
            Token::Comma => SpecToken::Comma,
            Token::Eq => SpecToken::Eq,
            Token::Assign => SpecToken::Assign,
            Token::Arrow => SpecToken::Arrow,
            Token::Plus => SpecToken::Plus,
            Token::Minus => SpecToken::Minus,
            Token::Star => SpecToken::Star,
            Token::Slash => SpecToken::Slash,
            Token::Identifier(s) => SpecToken::Identifier(s@),
            Token::Integer(v) => SpecToken::Integer(*v),
            Token::StringLiteral(s) => SpecToken::StringLiteral(s@),
            Token::Eof => SpecToken::EOF,
        }
    }
}

/// An optional token.
#[derive(Debug)]
pub enum OptionToken {
    Value(Token),
    Nothing,
}

/// Copies a token; the copy has the same value.
pub fn token_clone(t: &Token) -> (r: Token)
    ensures
        r@ == t@,
{
    match t {
        Token::Fn => Token::Fn,
        Token::Let => Token::Let,
        Token::If => Token::If,
        Token::While => Token::While,
        Token::Return => Token::Return,
        Token::Enum => Token::Enum,
        Token::Match => Token::Match,
        Token::LBrace => Token::LBrace,
        Token::RBrace => Token::RBrace,
        Token::LParen => Token::LParen,
        Token::RParen => Token::RParen,
        Token::Colon => Token::Colon,
        Token::SemiColon => Token::SemiColon,
        Token::Comma => Token::Comma,
        Token::Eq => Token::Eq,
        Token::Assign => Token::Assign,
        Token::Arrow => Token::Arrow,
        Token::Plus => Token::Plus,
        Token::Minus => Token::Minus,
        Token::Star => Token::Star,
        Token::Slash => Token::Slash,
        Token::Identifier(s) => Token::Identifier(string_clone(s)),
        Token::Integer(n) => Token::Integer(*n),
        Token::StringLiteral(s) => Token::StringLiteral(string_clone(s)),
        Token::Eof => Token::Eof,
    }
}

/// Whether two tokens are equal: the same kind, with equal text or value.
pub fn token_eq(a: &Token, b: &Token) -> (r: bool)
    ensures
        r == (a@ == b@),
{
    match (a, b) {
        (Token::Fn, Token::Fn) => true,
        (Token::Let, Token::Let) => true,
        (Token::If, Token::If) => true,
        (Token::While, Token::While) => true,
        (Token::Return, Token::Return) => true,
        (Token::Enum, Token::Enum) => true,
        (Token::Match, Token::Match) => true,
        (Token::LBrace, Token::LBrace) => true,
        (Token::RBrace, Token::RBrace) => true,
        (Token::LParen, Token::LParen) => true,
        (Token::RParen, Token::RParen) => true,
        (Token::Colon, Token::Colon) => true,
        (Token::SemiColon, Token::SemiColon) => true,
        (Token::Comma, Token::Comma) => true,
        (Token::Eq, Token::Eq) => true,
        (Token::Assign, Token::Assign) => true,
        (Token::Arrow, Token::Arrow) => true,
        (Token::Plus, Token::Plus) => true,
        (Token::Minus, Token::Minus) => true,
        (Token::Star, Token::Star) => true,
        (Token::Slash, Token::Slash) => true,
        (Token::Identifier(x), Token::Identifier(y)) => string_eq(x, y),
        (Token::Integer(x), Token::Integer(y)) => *x == *y,
        (Token::StringLiteral(x), Token::StringLiteral(y)) => string_eq(x, y),
        (Token::Eof, Token::Eof) => true,
        _ => false,
    }
}

} // verus!
