//! Lexical analysis of the compiled Rust subset.
use vstd::prelude::*;
use vstd::string::StringSliceAdditionalSpecFns;
use crate::text::{
    ByteString, byte_of, is_alpha, is_alphanumeric, is_digit, is_whitespace, spec_is_alpha,
    spec_is_alphanumeric, spec_is_digit, spec_is_whitespace, string_clone, string_eq,
    string_from_str, string_get, string_new, string_push,
};

verus! {

// ------------------------------------------------------------------
// Tokens
// ------------------------------------------------------------------

/// Comparison operators.
#[derive(Debug, PartialEq, Eq, Structural, Clone, Copy)]
pub enum Comparison {
    Eq,
    Neq,
    Gt,
    Lt,
    Geq,
    Leq,
}

/// Literal tokens; `S` is the representation of string text.
#[derive(Debug)]
pub enum LiteralOf<S> {
    Int(usize),
    String(S),
    Char(char),
    Bool(bool),
}

/// Tokens of the Rust subset; `S` is the representation of text.
#[derive(Debug)]
pub enum TokenOf<S> {
    Fn,
    Enum,
    Let,
    If,
    Else,
    While,
    Return,
    Match,
    As,
    Unsafe,
    Mut,
    Ampersand,
    LBrace,
    RBrace,
    LParen,
    RParen,
    Colon,
    DoubleColon,
    SemiColon,
    Comma,
    Assign,
    Bang,
    Cmp(Comparison),
    ArmArrow,
    Plus,
    Minus,
    Star,
    Slash,
    Remainder,
    Usize,
    U8,
    Bool,
    Char,
    Str,
    TypeArrow,
    Literal(LiteralOf<S>),
    Identifier(S),
    Eof,
}

/// A literal token.
pub type Literal = LiteralOf<ByteString>;

/// A token.
pub type Token = TokenOf<ByteString>;

/// The value of a literal: its text as bytes.
pub type LiteralV = LiteralOf<Seq<u8>>;

/// The value of a token: its text as bytes.
pub type TokenV = TokenOf<Seq<u8>>;

pub open spec fn literal_view(l: Literal) -> LiteralV {
    match l {
        LiteralOf::Int(v) => LiteralOf::Int(v),
        LiteralOf::String(s) => LiteralOf::String(s@),
        LiteralOf::Char(c) => LiteralOf::Char(c),
        LiteralOf::Bool(b) => LiteralOf::Bool(b),
    }
}

impl View for LiteralOf<ByteString> {
    type V = LiteralV;

    open spec fn view(&self) -> LiteralV {
        literal_view(*self)
    }
}

pub open spec fn token_view(t: Token) -> TokenV {
    match t {
        TokenOf::Fn => TokenOf::Fn,
        TokenOf::Enum => TokenOf::Enum,
        TokenOf::Let => TokenOf::Let,
        TokenOf::If => TokenOf::If,
        TokenOf::Else => TokenOf::Else,
        TokenOf::While => TokenOf::While,
        TokenOf::Return => TokenOf::Return,
        TokenOf::Match => TokenOf::Match,
        TokenOf::As => TokenOf::As,
        TokenOf::Unsafe => TokenOf::Unsafe,
        TokenOf::Mut => TokenOf::Mut,
        TokenOf::Ampersand => TokenOf::Ampersand,
        TokenOf::LBrace => TokenOf::LBrace,
        TokenOf::RBrace => TokenOf::RBrace,
        TokenOf::LParen => TokenOf::LParen,
        TokenOf::RParen => TokenOf::RParen,
        TokenOf::Colon => TokenOf::Colon,
        TokenOf::DoubleColon => TokenOf::DoubleColon,
        TokenOf::SemiColon => TokenOf::SemiColon,
        TokenOf::Comma => TokenOf::Comma,
        TokenOf::Assign => TokenOf::Assign,
        TokenOf::Bang => TokenOf::Bang,
        TokenOf::Cmp(c) => TokenOf::Cmp(c),
        TokenOf::ArmArrow => TokenOf::ArmArrow,
        TokenOf::Plus => TokenOf::Plus,
        TokenOf::Minus => TokenOf::Minus,
        TokenOf::Star => TokenOf::Star,
        TokenOf::Slash => TokenOf::Slash,
        TokenOf::Remainder => TokenOf::Remainder,
        TokenOf::Usize => TokenOf::Usize,
        TokenOf::U8 => TokenOf::U8,
        TokenOf::Bool => TokenOf::Bool,
        TokenOf::Char => TokenOf::Char,
        TokenOf::Str => TokenOf::Str,
        TokenOf::TypeArrow => TokenOf::TypeArrow,
        TokenOf::Literal(l) => TokenOf::Literal(literal_view(l)),
        TokenOf::Identifier(s) => TokenOf::Identifier(s@),
        TokenOf::Eof => TokenOf::Eof,
    }
}

impl View for TokenOf<ByteString> {
    type V = TokenV;

    open spec fn view(&self) -> TokenV {
        token_view(*self)
    }
}

// ------------------------------------------------------------------
// Errors
// ------------------------------------------------------------------

/// What went wrong while compiling.
#[derive(Debug, PartialEq, Eq, Structural, Clone, Copy)]
pub enum ErrorKind {
    UnexpectedCharacter,
    UnexpectedEndOfInput,
    UnexpectedEndOfCharLiteral,
    UnexpectedEndOfStringLiteral,
    UnexpectedEndOfEscapeSequence,
    IntegerLiteralTooLarge,
    UnexpectedToken,
    TypeMismatch,
    ExpectedNumericType,
    ExpectedBoolType,
    ExpectedIdentifier,
    ExpectedTopLevelItem,
    DuplicateParameterName,
    DuplicateFunctionName,
    DuplicateEnumName,
    ExpectedType,
    CannotCompareNonIntegerValues,
    InvalidCast,
    CannotDereference,
    UndefinedVariable,
    UnexpectedTokenInFactor,
    ExpectedPattern,
    CallDoesNotMatchSignature,
    CallToUndefinedFunction,
    ExpectedLiteral,
    UnterminatedCString,
    ExpectedSecondHexDigit,
    InvalidEscape,
    UnsupportedLlvmToken,
    UnexpectedLlvmToken,
    ExpectedLlvmIdentifier,
    ExpectedLlvmTopLevelItem,
    ExpectedCStringLiteral,
    DuplicateLlvmFunction,
    DuplicateLlvmParameters,
    ExpectedLlvmInstruction,
    DuplicateRegisterAssignment,
    ExpectedLlvmAssignOperation,
    ExpectedArrayTypeSeparator,
    ExpectedLlvmType,
    ExpectedLlvmValue,
    ExpectedLlvmNumber,
    ExpectedLlvmIntegerLiteral,
}

/// The text of the message that reports an error of kind `k`.
pub open spec fn error_kind_message(k: ErrorKind) -> Seq<char> {
    match k {
        ErrorKind::UnexpectedCharacter => "unexpected character"@,
        ErrorKind::UnexpectedEndOfInput => "unexpected end of input"@,
        ErrorKind::UnexpectedEndOfCharLiteral => "unexpected end of char literal"@,
        ErrorKind::UnexpectedEndOfStringLiteral => "unexpected end of string literal"@,
        ErrorKind::UnexpectedEndOfEscapeSequence => "unexpected end of escape sequence"@,
        ErrorKind::IntegerLiteralTooLarge => "integer literal too large"@,
        ErrorKind::UnexpectedToken => "unexpected token"@,
        ErrorKind::TypeMismatch => "type mismatch"@,
        ErrorKind::ExpectedNumericType => "expected numeric type"@,
        ErrorKind::ExpectedBoolType => "expected bool type"@,
        ErrorKind::ExpectedIdentifier => "expected identifier"@,
        ErrorKind::ExpectedTopLevelItem => "expected top-level item"@,
        ErrorKind::DuplicateParameterName => "duplicate parameter name"@,
        ErrorKind::DuplicateFunctionName => "duplicate function name"@,
        ErrorKind::DuplicateEnumName => "duplicate enum name"@,
        ErrorKind::ExpectedType => "expected type"@,
        ErrorKind::CannotCompareNonIntegerValues => "cannot compare non-integer values"@,
        ErrorKind::InvalidCast => "invalid cast"@,
        ErrorKind::CannotDereference => "cannot dereference this expression"@,
        ErrorKind::UndefinedVariable => "undefined variable"@,
        ErrorKind::UnexpectedTokenInFactor => "unexpected token in parse_factor()"@,
        ErrorKind::ExpectedPattern => "expected pattern"@,
        ErrorKind::CallDoesNotMatchSignature => "function call does not match function signature"@,
        ErrorKind::CallToUndefinedFunction => "call to undefined function"@,
        ErrorKind::ExpectedLiteral => "expected literal"@,
        ErrorKind::UnterminatedCString => "unterminated LLVM c-string"@,
        ErrorKind::ExpectedSecondHexDigit => "expected second digit for escaped character byte"@,
        ErrorKind::InvalidEscape => "invalid escaped character byte"@,
        ErrorKind::UnsupportedLlvmToken => "unsupported token in LLVM input"@,
        ErrorKind::UnexpectedLlvmToken => "unexpected LLVM token"@,
        ErrorKind::ExpectedLlvmIdentifier => "expected LLVM identifier"@,
        ErrorKind::ExpectedLlvmTopLevelItem => "expected LLVM top-level item"@,
        ErrorKind::ExpectedCStringLiteral => "expected LLVM c-string literal"@,
        ErrorKind::DuplicateLlvmFunction => "duplicate LLVM function definition"@,
        ErrorKind::DuplicateLlvmParameters => "duplicate parameters in LLVM function"@,
        ErrorKind::ExpectedLlvmInstruction => "expected LLVM instruction"@,
        ErrorKind::DuplicateRegisterAssignment => "SSA violation: duplicate virtual register assignment"@,
        ErrorKind::ExpectedLlvmAssignOperation => "expected LLVM assignment operation"@,
        ErrorKind::ExpectedArrayTypeSeparator => "expected x in LLVM array type"@,
        ErrorKind::ExpectedLlvmType => "expected LLVM type"@,
        ErrorKind::ExpectedLlvmValue => "expected LLVM value"@,
        ErrorKind::ExpectedLlvmNumber => "expected LLVM number"@,
        ErrorKind::ExpectedLlvmIntegerLiteral => "expected LLVM integer literal"@,
    }
}

impl ErrorKind {
    /// The message that reports this error.
    pub fn message(&self) -> (r: &'static str)
        ensures
            r@ == error_kind_message(*self),
    {
        match self {
            ErrorKind::UnexpectedCharacter => "unexpected character",
            ErrorKind::UnexpectedEndOfInput => "unexpected end of input",
            ErrorKind::UnexpectedEndOfCharLiteral => "unexpected end of char literal",
            ErrorKind::UnexpectedEndOfStringLiteral => "unexpected end of string literal",
            ErrorKind::UnexpectedEndOfEscapeSequence => "unexpected end of escape sequence",
            ErrorKind::IntegerLiteralTooLarge => "integer literal too large",
            ErrorKind::UnexpectedToken => "unexpected token",
            ErrorKind::TypeMismatch => "type mismatch",
            ErrorKind::ExpectedNumericType => "expected numeric type",
            ErrorKind::ExpectedBoolType => "expected bool type",
            ErrorKind::ExpectedIdentifier => "expected identifier",
            ErrorKind::ExpectedTopLevelItem => "expected top-level item",
            ErrorKind::DuplicateParameterName => "duplicate parameter name",
            ErrorKind::DuplicateFunctionName => "duplicate function name",
            ErrorKind::DuplicateEnumName => "duplicate enum name",
            ErrorKind::ExpectedType => "expected type",
            ErrorKind::CannotCompareNonIntegerValues => "cannot compare non-integer values",
            ErrorKind::InvalidCast => "invalid cast",
            ErrorKind::CannotDereference => "cannot dereference this expression",
            ErrorKind::UndefinedVariable => "undefined variable",
            ErrorKind::UnexpectedTokenInFactor => "unexpected token in parse_factor()",
            ErrorKind::ExpectedPattern => "expected pattern",
            ErrorKind::CallDoesNotMatchSignature => "function call does not match function signature",
            ErrorKind::CallToUndefinedFunction => "call to undefined function",
            ErrorKind::ExpectedLiteral => "expected literal",
            ErrorKind::UnterminatedCString => "unterminated LLVM c-string",
            ErrorKind::ExpectedSecondHexDigit => "expected second digit for escaped character byte",
            ErrorKind::InvalidEscape => "invalid escaped character byte",
            ErrorKind::UnsupportedLlvmToken => "unsupported token in LLVM input",
            ErrorKind::UnexpectedLlvmToken => "unexpected LLVM token",
            ErrorKind::ExpectedLlvmIdentifier => "expected LLVM identifier",
            ErrorKind::ExpectedLlvmTopLevelItem => "expected LLVM top-level item",
            ErrorKind::ExpectedCStringLiteral => "expected LLVM c-string literal",
            ErrorKind::DuplicateLlvmFunction => "duplicate LLVM function definition",
            ErrorKind::DuplicateLlvmParameters => "duplicate parameters in LLVM function",
            ErrorKind::ExpectedLlvmInstruction => "expected LLVM instruction",
            ErrorKind::DuplicateRegisterAssignment => "SSA violation: duplicate virtual register assignment",
            ErrorKind::ExpectedLlvmAssignOperation => "expected LLVM assignment operation",
            ErrorKind::ExpectedArrayTypeSeparator => "expected x in LLVM array type",
            ErrorKind::ExpectedLlvmType => "expected LLVM type",
            ErrorKind::ExpectedLlvmValue => "expected LLVM value",
            ErrorKind::ExpectedLlvmNumber => "expected LLVM number",
            ErrorKind::ExpectedLlvmIntegerLiteral => "expected LLVM integer literal",
        }
    }
}

/// An error with the source position where it was found.
#[derive(Debug, PartialEq, Eq, Structural, Clone, Copy)]
pub struct CompileError {
    pub kind: ErrorKind,
    /// line of the position, counted from 1
    pub line: usize,
    /// column of the position, counted from 1
    pub column: usize,
    /// index of the first character of the line
    pub line_start: usize,
}

// ------------------------------------------------------------------
// Source file and lexer state
// ------------------------------------------------------------------

/// A position in the source: line and column, both counted from 1.
#[derive(Debug, PartialEq, Eq, Structural, Clone, Copy)]
pub enum SourceLocation {
    Coords(usize, usize),
}

/// The source text, the index of the next character and its location.
#[derive(Debug)]
pub enum SourceFile {
    SourceFile(ByteString, usize, SourceLocation),
}

/// The lexer: the source file and the current token.
#[derive(Debug)]
pub enum Lexer {
    Lexer(SourceFile, Token),
}

pub open spec fn sf_text(sf: SourceFile) -> Seq<u8> {
    let SourceFile::SourceFile(content, _, _) = sf;
    content@
}

pub open spec fn sf_index(sf: SourceFile) -> int {
    let SourceFile::SourceFile(_, index, _) = sf;
    index as int
}

pub open spec fn sf_line(sf: SourceFile) -> int {
    let SourceFile::SourceFile(_, _, SourceLocation::Coords(line, _)) = sf;
    line as int
}

pub open spec fn sf_col(sf: SourceFile) -> int {
    let SourceFile::SourceFile(_, _, SourceLocation::Coords(_, col)) = sf;
    col as int
}

/// Positions stay representable: the index is at most one past the end, and
/// line and column cannot overflow while the rest of the text is read.
pub open spec fn sf_wf(sf: SourceFile) -> bool {
    let len = sf_text(sf).len();
    &&& len < usize::MAX
    &&& sf_index(sf) <= len + 1
    &&& sf_line(sf) + (len + 1 - sf_index(sf)) < usize::MAX
    &&& sf_col(sf) + (len + 1 - sf_index(sf)) < usize::MAX
}

/// How much text is left to read, counting the position past the end.
pub open spec fn sf_rest(sf: SourceFile) -> int {
    sf_text(sf).len() + 1 - sf_index(sf)
}

/// The next character, if any.
pub open spec fn sf_peek(sf: SourceFile) -> Option<char> {
    if 0 <= sf_index(sf) < sf_text(sf).len() {
        Some(sf_text(sf)[sf_index(sf)] as char)
    } else {
        None
    }
}

/// The source file after reading one character (or the end).
pub open spec fn sf_consume(sf: SourceFile) -> SourceFile {
    let SourceFile::SourceFile(content, index, SourceLocation::Coords(line, col)) = sf;
    if sf_peek(sf) == Some('\n') {
        SourceFile::SourceFile(content, (index + 1) as usize, SourceLocation::Coords((line + 1) as usize, 1))
    } else {
        SourceFile::SourceFile(content, (index + 1) as usize, SourceLocation::Coords(line, (col + 1) as usize))
    }
}

/// The index of the first character of the current line.
pub open spec fn sf_line_start(sf: SourceFile) -> usize {
    if sf_col(sf) == 0 {
        sf_index(sf) as usize
    } else if sf_index(sf) + 1 >= sf_col(sf) {
        (sf_index(sf) + 1 - sf_col(sf)) as usize
    } else {
        0
    }
}

/// The error `kind` at the position of `sf`.
pub open spec fn error_at(sf: SourceFile, kind: ErrorKind) -> CompileError {
    CompileError {
        kind,
        line: sf_line(sf) as usize,
        column: sf_col(sf) as usize,
        line_start: sf_line_start(sf),
    }
}

pub open spec fn lx_sf(l: Lexer) -> SourceFile {
    let Lexer::Lexer(sf, _) = l;
    sf
}

pub open spec fn lx_token(l: Lexer) -> Token {
    let Lexer::Lexer(_, t) = l;
    t
}

/// The text of a source file fits in memory.
pub proof fn lemma_text_len(sf: SourceFile)
    ensures
        sf_text(sf).len() <= usize::MAX,
        sf_peek(sf) is Some ==> sf_index(sf_consume(sf)) == sf_index(sf) + 1,
        sf_peek(sf) is Some ==> sf_text(sf_consume(sf)) == sf_text(sf),
{
    let SourceFile::SourceFile(content, _, _) = sf;
    assert(content.bytes@.len() == content.bytes.len());
}

pub proof fn lemma_consume(sf: SourceFile)
    requires
        sf_wf(sf),
        sf_index(sf) <= sf_text(sf).len(),
    ensures
        sf_wf(sf_consume(sf)),
        sf_text(sf_consume(sf)) == sf_text(sf),
        sf_index(sf_consume(sf)) == sf_index(sf) + 1,
{
}

// ------------------------------------------------------------------
// The scanning functions, as functions on the source file.
// ------------------------------------------------------------------

pub open spec fn spec_skip_whitespace(sf: SourceFile) -> SourceFile
    decreases sf_text(sf).len() - sf_index(sf),
{
    match sf_peek(sf) {
        Some(c) => if spec_is_whitespace(c) {
            proof {
                lemma_text_len(sf);
            }
            spec_skip_whitespace(sf_consume(sf))
        } else {
            sf
        },
        None => sf,
    }
}

/// Reads up to and including the next newline, or one past the end.
pub open spec fn spec_skip_line_comment(sf: SourceFile) -> SourceFile
    decreases sf_text(sf).len() - sf_index(sf),
{
    if sf_index(sf) > sf_text(sf).len() {
        sf
    } else {
        match sf_peek(sf) {
            Some(c) => if c == '\n' {
                sf_consume(sf)
            } else {
                proof {
                    lemma_text_len(sf);
                }
                spec_skip_line_comment(sf_consume(sf))
            },
            None => sf_consume(sf),
        }
    }
}

/// The run of identifier characters at the position, and the state after it.
pub open spec fn spec_scan_identifier(sf: SourceFile) -> (Seq<u8>, SourceFile)
    decreases sf_text(sf).len() - sf_index(sf),
{
    match sf_peek(sf) {
        Some(c) => if spec_is_alphanumeric(c) {
            proof {
                lemma_text_len(sf);
            }
            let (w, sf2) = spec_scan_identifier(sf_consume(sf));
            (seq![byte_of(c)] + w, sf2)
        } else {
            (Seq::empty(), sf)
        },
        None => (Seq::empty(), sf),
    }
}

/// The keyword token for a word, or an identifier.
pub open spec fn spec_identifier_to_token(w: Seq<u8>) -> TokenV {
    if w == "fn".spec_bytes() {
        TokenOf::Fn
    } else if w == "enum".spec_bytes() {
        TokenOf::Enum
    } else if w == "let".spec_bytes() {
        TokenOf::Let
    } else if w == "if".spec_bytes() {
        TokenOf::If
    } else if w == "else".spec_bytes() {
        TokenOf::Else
    } else if w == "while".spec_bytes() {
        TokenOf::While
    } else if w == "return".spec_bytes() {
        TokenOf::Return
    } else if w == "match".spec_bytes() {
        TokenOf::Match
    } else if w == "as".spec_bytes() {
        TokenOf::As
    } else if w == "unsafe".spec_bytes() {
        TokenOf::Unsafe
    } else if w == "mut".spec_bytes() {
        TokenOf::Mut
    } else if w == "usize".spec_bytes() {
        TokenOf::Usize
    } else if w == "u8".spec_bytes() {
        TokenOf::U8
    } else if w == "bool".spec_bytes() {
        TokenOf::Bool
    } else if w == "char".spec_bytes() {
        TokenOf::Char
    } else if w == "str".spec_bytes() {
        TokenOf::Str
    } else if w == "true".spec_bytes() {
        TokenOf::Literal(LiteralOf::Bool(true))
    } else if w == "false".spec_bytes() {
        TokenOf::Literal(LiteralOf::Bool(false))
    } else {
        TokenOf::Identifier(w)
    }
}

/// How a keyword, `true` or `false` is written; `None` for the other tokens.
pub open spec fn keyword_text(t: TokenV) -> Option<Seq<u8>> {
    match t {
        TokenOf::Fn => Some("fn".spec_bytes()),
        TokenOf::Enum => Some("enum".spec_bytes()),
        TokenOf::Let => Some("let".spec_bytes()),
        TokenOf::If => Some("if".spec_bytes()),
        TokenOf::Else => Some("else".spec_bytes()),
        TokenOf::While => Some("while".spec_bytes()),
        TokenOf::Return => Some("return".spec_bytes()),
        TokenOf::Match => Some("match".spec_bytes()),
        TokenOf::As => Some("as".spec_bytes()),
        TokenOf::Unsafe => Some("unsafe".spec_bytes()),
        TokenOf::Mut => Some("mut".spec_bytes()),
        TokenOf::Usize => Some("usize".spec_bytes()),
        TokenOf::U8 => Some("u8".spec_bytes()),
        TokenOf::Bool => Some("bool".spec_bytes()),
        TokenOf::Char => Some("char".spec_bytes()),
        TokenOf::Str => Some("str".spec_bytes()),
        TokenOf::Literal(LiteralOf::Bool(true)) => Some("true".spec_bytes()),
        TokenOf::Literal(LiteralOf::Bool(false)) => Some("false".spec_bytes()),
        _ => None,
    }
}

/// Reserved words are keywords: every keyword's spelling lexes to that
/// keyword and never to an identifier, and a word lexes to a keyword only when
/// it is that keyword's spelling; every other word is an identifier of itself.
pub proof fn law_reserved_words(t: TokenV, w: Seq<u8>)
    ensures
        keyword_text(t) == Some(w) ==> spec_identifier_to_token(w) == t,
        spec_identifier_to_token(w) is Identifier ==> spec_identifier_to_token(w) == TokenOf::Identifier(w),
        !(spec_identifier_to_token(w) is Identifier) ==> keyword_text(spec_identifier_to_token(w)) == Some(w),
{
    reveal_strlit("fn");
    reveal_strlit("enum");
    reveal_strlit("let");
    reveal_strlit("if");
    reveal_strlit("else");
    reveal_strlit("while");
    reveal_strlit("return");
    reveal_strlit("match");
    reveal_strlit("as");
    reveal_strlit("unsafe");
    reveal_strlit("mut");
    reveal_strlit("usize");
    reveal_strlit("u8");
    reveal_strlit("bool");
    reveal_strlit("char");
    reveal_strlit("str");
    reveal_strlit("true");
    reveal_strlit("false");
    crate::text::lemma_ascii_bytes("fn");
    assert("fn".spec_bytes().len() == 2 && "fn".spec_bytes()[0] == 102u8 && "fn".spec_bytes()[1] == 110u8);
    crate::text::lemma_ascii_bytes("enum");
    assert("enum".spec_bytes().len() == 4 && "enum".spec_bytes()[0] == 101u8 && "enum".spec_bytes()[1] == 110u8);
    crate::text::lemma_ascii_bytes("let");
    assert("let".spec_bytes().len() == 3 && "let".spec_bytes()[0] == 108u8 && "let".spec_bytes()[1] == 101u8);
    crate::text::lemma_ascii_bytes("if");
    assert("if".spec_bytes().len() == 2 && "if".spec_bytes()[0] == 105u8 && "if".spec_bytes()[1] == 102u8);
    crate::text::lemma_ascii_bytes("else");
    assert("else".spec_bytes().len() == 4 && "else".spec_bytes()[0] == 101u8 && "else".spec_bytes()[1] == 108u8);
    crate::text::lemma_ascii_bytes("while");
    assert("while".spec_bytes().len() == 5 && "while".spec_bytes()[0] == 119u8 && "while".spec_bytes()[1] == 104u8);
    crate::text::lemma_ascii_bytes("return");
    assert("return".spec_bytes().len() == 6 && "return".spec_bytes()[0] == 114u8 && "return".spec_bytes()[1] == 101u8);
    crate::text::lemma_ascii_bytes("match");
    assert("match".spec_bytes().len() == 5 && "match".spec_bytes()[0] == 109u8 && "match".spec_bytes()[1] == 97u8);
    crate::text::lemma_ascii_bytes("as");
    assert("as".spec_bytes().len() == 2 && "as".spec_bytes()[0] == 97u8 && "as".spec_bytes()[1] == 115u8);
    crate::text::lemma_ascii_bytes("unsafe");
    assert("unsafe".spec_bytes().len() == 6 && "unsafe".spec_bytes()[0] == 117u8 && "unsafe".spec_bytes()[1] == 110u8);
    crate::text::lemma_ascii_bytes("mut");
    assert("mut".spec_bytes().len() == 3 && "mut".spec_bytes()[0] == 109u8 && "mut".spec_bytes()[1] == 117u8);
    crate::text::lemma_ascii_bytes("usize");
    assert("usize".spec_bytes().len() == 5 && "usize".spec_bytes()[0] == 117u8 && "usize".spec_bytes()[1] == 115u8);
    crate::text::lemma_ascii_bytes("u8");
    assert("u8".spec_bytes().len() == 2 && "u8".spec_bytes()[0] == 117u8 && "u8".spec_bytes()[1] == 56u8);
    crate::text::lemma_ascii_bytes("bool");
    assert("bool".spec_bytes().len() == 4 && "bool".spec_bytes()[0] == 98u8 && "bool".spec_bytes()[1] == 111u8);
    crate::text::lemma_ascii_bytes("char");
    assert("char".spec_bytes().len() == 4 && "char".spec_bytes()[0] == 99u8 && "char".spec_bytes()[1] == 104u8);
    crate::text::lemma_ascii_bytes("str");
    assert("str".spec_bytes().len() == 3 && "str".spec_bytes()[0] == 115u8 && "str".spec_bytes()[1] == 116u8);
    crate::text::lemma_ascii_bytes("true");
    assert("true".spec_bytes().len() == 4 && "true".spec_bytes()[0] == 116u8 && "true".spec_bytes()[1] == 114u8);
    crate::text::lemma_ascii_bytes("false");
    assert("false".spec_bytes().len() == 5 && "false".spec_bytes()[0] == 102u8 && "false".spec_bytes()[1] == 97u8);
}

/// The decimal integer at the position, continuing from `value`; an error if
/// it exceeds `usize::MAX`.
pub open spec fn spec_scan_integer_from(sf: SourceFile, value: nat) -> (
    Result<usize, CompileError>,
    SourceFile,
)
    decreases sf_text(sf).len() - sf_index(sf),
{
    match sf_peek(sf) {
        Some(c) => if spec_is_digit(c) {
            let v2 = value * 10 + (c as int - '0' as int);
            if v2 > usize::MAX {
                (Err(error_at(sf, ErrorKind::IntegerLiteralTooLarge)), sf)
            } else {
                proof {
                    lemma_text_len(sf);
                }
                spec_scan_integer_from(sf_consume(sf), v2 as nat)
            }
        } else {
            (Ok(value as usize), sf)
        },
        None => (Ok(value as usize), sf),
    }
}

/// The character an escape sequence stands for, after the backslash.
pub open spec fn spec_scan_escape_char(sf: SourceFile) -> (Result<char, CompileError>, SourceFile) {
    let sf2 = sf_consume(sf);
    match sf_peek(sf) {
        Some(c) => if c == 'n' {
            (Ok('\n'), sf2)
        } else if c == 't' {
            (Ok('\t'), sf2)
        } else if c == 'r' {
            (Ok('\r'), sf2)
        } else if c == '0' {
            (Ok('\0'), sf2)
        } else {
            (Ok(c), sf2)
        },
        None => (Err(error_at(sf2, ErrorKind::UnexpectedEndOfEscapeSequence)), sf2),
    }
}

/// Reads one character, which must be `expected`.
pub open spec fn spec_expect_char(sf: SourceFile, expected: char) -> (
    Result<(), CompileError>,
    SourceFile,
) {
    let sf2 = sf_consume(sf);
    match sf_peek(sf) {
        Some(c) => if c != expected {
            (Err(error_at(sf2, ErrorKind::UnexpectedCharacter)), sf2)
        } else {
            (Ok(()), sf2)
        },
        None => (Err(error_at(sf2, ErrorKind::UnexpectedEndOfInput)), sf2),
    }
}

/// A character literal: quote, a character or an escape, quote.
pub open spec fn spec_scan_char_literal(sf: SourceFile) -> (Result<char, CompileError>, SourceFile) {
    let (r1, sf1) = spec_expect_char(sf, '\'');
    match r1 {
        Err(e) => (Err(e), sf1),
        Ok(_) => {
            let sf2 = sf_consume(sf1);
            let (c, sf3) = match sf_peek(sf1) {
                Some(ch) => if ch == '\\' {
                    spec_scan_escape_char(sf2)
                } else {
                    (Ok(ch), sf2)
                },
                None => (Err(error_at(sf2, ErrorKind::UnexpectedEndOfCharLiteral)), sf2),
            };
            match c {
                Err(e) => (Err(e), sf3),
                Ok(ch) => {
                    let (r4, sf4) = spec_expect_char(sf3, '\'');
                    match r4 {
                        Err(e) => (Err(e), sf4),
                        Ok(_) => (Ok(ch), sf4),
                    }
                },
            }
        },
    }
}

/// The body of a string literal after the opening quote, up to and including
/// the closing quote.
pub open spec fn spec_scan_string_body(sf: SourceFile) -> (Result<Seq<u8>, CompileError>, SourceFile)
    decreases sf_text(sf).len() - sf_index(sf),
{
    proof {
        lemma_text_len(sf);
    }
    let sf2 = sf_consume(sf);
    match sf_peek(sf) {
        Some(c) => if c == '"' {
            (Ok(Seq::empty()), sf2)
        } else if c == '\\' {
            let (e, sf3) = spec_scan_escape_char(sf2);
            match e {
                Err(err) => (Err(err), sf3),
                Ok(ch) => {
                    proof {
                        lemma_escape_bounds(sf2);
                    }
                    let (rest, sf4) = spec_scan_string_body(sf3);
                    match rest {
                        Err(err) => (Err(err), sf4),
                        Ok(w) => (Ok(seq![byte_of(ch)] + w), sf4),
                    }
                },
            }
        } else {
            let (rest, sf4) = spec_scan_string_body(sf2);
            match rest {
                Err(err) => (Err(err), sf4),
                Ok(w) => (Ok(seq![byte_of(c)] + w), sf4),
            }
        },
        None => (Err(error_at(sf2, ErrorKind::UnexpectedEndOfStringLiteral)), sf2),
    }
}

pub proof fn lemma_escape_bounds(sf: SourceFile)
    ensures
        spec_scan_escape_char(sf).0 is Ok ==> sf_index(spec_scan_escape_char(sf).1) == sf_index(sf)
            + 1,
        spec_scan_escape_char(sf).0 is Ok ==> sf_text(spec_scan_escape_char(sf).1) == sf_text(sf),
        spec_scan_escape_char(sf).0 is Ok ==> sf_index(sf) < sf_text(sf).len(),
{
    lemma_text_len(sf);
}

/// A string literal: opening quote, body, closing quote.
pub open spec fn spec_scan_string_literal(sf: SourceFile) -> (
    Result<Seq<u8>, CompileError>,
    SourceFile,
) {
    let (r1, sf1) = spec_expect_char(sf, '"');
    match r1 {
        Err(e) => (Err(e), sf1),
        Ok(_) => spec_scan_string_body(sf1),
    }
}


/// The token after `sf`: whitespace is skipped, then one token is scanned.
#[verifier::opaque]
pub open spec fn spec_next_token(sf: SourceFile) -> (Result<TokenV, CompileError>, SourceFile)
    decreases sf_rest(sf), 2int,
{
    if !sf_wf(sf) {
        (Ok(TokenOf::Eof), sf)
    } else {
        proof {
            lemma_skip_whitespace(sf);
        }
        let sf1 = spec_skip_whitespace(sf);
        match sf_peek(sf1) {
            Some(c) => if spec_is_alpha(c) {
                let (w, sf2) = spec_scan_identifier(sf1);
                (Ok(spec_identifier_to_token(w)), sf2)
            } else if spec_is_digit(c) {
                let (v, sf2) = spec_scan_integer_from(sf1, 0);
                match v {
                    Ok(n) => (Ok(TokenOf::Literal(LiteralOf::Int(n))), sf2),
                    Err(e) => (Err(e), sf2),
                }
            } else if c == '\'' {
                let (v, sf2) = spec_scan_char_literal(sf1);
                match v {
                    Ok(ch) => (Ok(TokenOf::Literal(LiteralOf::Char(ch))), sf2),
                    Err(e) => (Err(e), sf2),
                }
            } else if c == '"' {
                let (v, sf2) = spec_scan_string_literal(sf1);
                match v {
                    Ok(w) => (Ok(TokenOf::Literal(LiteralOf::String(w))), sf2),
                    Err(e) => (Err(e), sf2),
                }
            } else {
                spec_scan_symbol(sf1)
            },
            None => (Ok(TokenOf::Eof), sf1),
        }
    }
}

/// A symbol token; `sf` is at its first character.
pub open spec fn spec_scan_symbol(sf: SourceFile) -> (Result<TokenV, CompileError>, SourceFile)
    decreases sf_rest(sf), 1int,
{
    let sf2 = sf_consume(sf);
    if !sf_wf(sf) || sf_peek(sf) is None {
        (Err(error_at(sf2, ErrorKind::UnexpectedEndOfInput)), sf2)
    } else {
        let c = sf_peek(sf)->Some_0;
        if c == '{' {
            (Ok(TokenOf::LBrace), sf2)
        } else if c == '}' {
            (Ok(TokenOf::RBrace), sf2)
        } else if c == '(' {
            (Ok(TokenOf::LParen), sf2)
        } else if c == ')' {
            (Ok(TokenOf::RParen), sf2)
        } else if c == ';' {
            (Ok(TokenOf::SemiColon), sf2)
        } else if c == ',' {
            (Ok(TokenOf::Comma), sf2)
        } else if c == '+' {
            (Ok(TokenOf::Plus), sf2)
        } else if c == '*' {
            (Ok(TokenOf::Star), sf2)
        } else if c == '/' {
            spec_scan_slash(sf2)
        } else if c == '%' {
            (Ok(TokenOf::Remainder), sf2)
        } else if c == '&' {
            (Ok(TokenOf::Ampersand), sf2)
        } else if c == ':' {
            spec_follow(sf2, ':', TokenOf::DoubleColon, TokenOf::Colon)
        } else if c == '=' {
            if sf_peek(sf2) == Some('=') {
                (Ok(TokenOf::Cmp(Comparison::Eq)), sf_consume(sf2))
            } else if sf_peek(sf2) == Some('>') {
                (Ok(TokenOf::ArmArrow), sf_consume(sf2))
            } else {
                (Ok(TokenOf::Assign), sf2)
            }
        } else if c == '-' {
            spec_follow(sf2, '>', TokenOf::TypeArrow, TokenOf::Minus)
        } else if c == '!' {
            spec_follow(sf2, '=', TokenOf::Cmp(Comparison::Neq), TokenOf::Bang)
        } else if c == '<' {
            spec_follow(sf2, '=', TokenOf::Cmp(Comparison::Leq), TokenOf::Cmp(Comparison::Lt))
        } else if c == '>' {
            spec_follow(sf2, '=', TokenOf::Cmp(Comparison::Geq), TokenOf::Cmp(Comparison::Gt))
        } else {
            (Err(error_at(sf2, ErrorKind::UnexpectedCharacter)), sf2)
        }
    }
}

/// How a comparison operator is written.
pub open spec fn comparison_spelling(c: Comparison) -> Seq<char> {
    match c {
        Comparison::Eq => seq!['=', '='],
        Comparison::Neq => seq!['!', '='],
        Comparison::Gt => seq!['>'],
        Comparison::Lt => seq!['<'],
        Comparison::Geq => seq!['>', '='],
        Comparison::Leq => seq!['<', '='],
    }
}

/// A comparison token is read from its own spelling, and no longer one fits:
/// its characters are the ones read, and a one-character `<` or `>` is not
/// followed by `=`. (A `/` starts a comment, after which the token is the next
/// one in the text.)
pub proof fn law_comparison_tokens(sf: SourceFile, c: Comparison)
    requires
        sf_peek(sf) != Some('/'),
        spec_scan_symbol(sf).0 == Ok::<TokenV, CompileError>(TokenOf::Cmp(c)),
    ensures
        sf_peek(sf) == Some(comparison_spelling(c)[0]),
        comparison_spelling(c).len() == 2 ==> sf_peek(sf_consume(sf)) == Some(comparison_spelling(c)[1])
            && spec_scan_symbol(sf).1 == sf_consume(sf_consume(sf)),
        comparison_spelling(c).len() == 1 ==> sf_peek(sf_consume(sf)) != Some('=')
            && spec_scan_symbol(sf).1 == sf_consume(sf),
{
    let spelling = comparison_spelling(c);
    match c {
        Comparison::Eq => assert(spelling[0] == '=' && spelling[1] == '='),
        Comparison::Neq => assert(spelling[0] == '!' && spelling[1] == '='),
        Comparison::Gt => assert(spelling[0] == '>'),
        Comparison::Lt => assert(spelling[0] == '<'),
        Comparison::Geq => assert(spelling[0] == '>' && spelling[1] == '='),
        Comparison::Leq => assert(spelling[0] == '<' && spelling[1] == '='),
    }
}

/// `two` if the next character is `next` (which is then read), else `one`.
pub open spec fn spec_follow(sf: SourceFile, next: char, two: TokenV, one: TokenV) -> (
    Result<TokenV, CompileError>,
    SourceFile,
) {
    if sf_peek(sf) == Some(next) {
        (Ok(two), sf_consume(sf))
    } else {
        (Ok(one), sf)
    }
}

/// After a '/': a line comment (skipped, then the next token) or a slash.
pub open spec fn spec_scan_slash(sf: SourceFile) -> (Result<TokenV, CompileError>, SourceFile)
    decreases sf_rest(sf), 0int,
{
    if !sf_wf(sf) {
        (Ok(TokenOf::Slash), sf)
    } else if sf_peek(sf) == Some('/') {
        proof {
            lemma_consume(sf);
            lemma_skip_line_comment(sf_consume(sf));
        }
        spec_next_token(spec_skip_line_comment(sf_consume(sf)))
    } else {
        (Ok(TokenOf::Slash), sf)
    }
}

// ------------------------------------------------------------------
// Lemmas: every scanning function keeps the text and moves forward.
// ------------------------------------------------------------------

/// `b` is `a` further on in the same text.
pub open spec fn sf_advanced(a: SourceFile, b: SourceFile) -> bool {
    &&& sf_text(b) == sf_text(a)
    &&& sf_wf(b)
    &&& sf_index(a) <= sf_index(b)
}

pub proof fn lemma_skip_whitespace(sf: SourceFile)
    requires
        sf_wf(sf),
    ensures
        sf_advanced(sf, spec_skip_whitespace(sf)),
    decreases sf_text(sf).len() - sf_index(sf),
{
    if let Some(c) = sf_peek(sf) {
        if spec_is_whitespace(c) {
            lemma_skip_whitespace(sf_consume(sf));
        }
    }
}

pub proof fn lemma_skip_line_comment(sf: SourceFile)
    requires
        sf_wf(sf),
        sf_index(sf) <= sf_text(sf).len(),
    ensures
        sf_advanced(sf, spec_skip_line_comment(sf)),
        sf_index(sf) < sf_index(spec_skip_line_comment(sf)),
    decreases sf_text(sf).len() - sf_index(sf),
{
    if let Some(c) = sf_peek(sf) {
        if c != '\n' {
            lemma_skip_line_comment(sf_consume(sf));
        }
    }
}

pub proof fn lemma_scan_identifier(sf: SourceFile)
    requires
        sf_wf(sf),
    ensures
        sf_advanced(sf, spec_scan_identifier(sf).1),
        (sf_peek(sf) matches Some(c) && spec_is_alphanumeric(c)) ==> sf_index(sf) < sf_index(
            spec_scan_identifier(sf).1,
        ),
    decreases sf_text(sf).len() - sf_index(sf),
{
    if let Some(c) = sf_peek(sf) {
        if spec_is_alphanumeric(c) {
            lemma_scan_identifier(sf_consume(sf));
        }
    }
}

pub proof fn lemma_scan_integer_from(sf: SourceFile, value: nat)
    requires
        sf_wf(sf),
    ensures
        sf_advanced(sf, spec_scan_integer_from(sf, value).1),
        (spec_scan_integer_from(sf, value).0 is Ok && (sf_peek(sf) matches Some(c) && spec_is_digit(
            c,
        ))) ==> sf_index(sf) < sf_index(spec_scan_integer_from(sf, value).1),
    decreases sf_text(sf).len() - sf_index(sf),
{
    if let Some(c) = sf_peek(sf) {
        if spec_is_digit(c) {
            let v2 = value * 10 + (c as int - '0' as int);
            if v2 <= usize::MAX {
                lemma_scan_integer_from(sf_consume(sf), v2 as nat);
            }
        }
    }
}

pub proof fn lemma_expect_char(sf: SourceFile, expected: char)
    requires
        sf_wf(sf),
        sf_index(sf) <= sf_text(sf).len(),
    ensures
        sf_advanced(sf, spec_expect_char(sf, expected).1),
        sf_index(spec_expect_char(sf, expected).1) == sf_index(sf) + 1,
        spec_expect_char(sf, expected).0 is Ok ==> sf_index(sf) < sf_text(sf).len(),
{
}

pub proof fn lemma_scan_char_literal(sf: SourceFile)
    requires
        sf_wf(sf),
        sf_index(sf) <= sf_text(sf).len(),
    ensures
        sf_advanced(sf, spec_scan_char_literal(sf).1),
        sf_index(sf) < sf_index(spec_scan_char_literal(sf).1),
{
    lemma_expect_char(sf, '\'');
    let (r1, sf1) = spec_expect_char(sf, '\'');
    if r1 is Ok {
        lemma_consume(sf1);
        let sf2 = sf_consume(sf1);
        if let Some(ch) = sf_peek(sf1) {
            if ch == '\\' {
                lemma_escape_bounds(sf2);
                if spec_scan_escape_char(sf2).0 is Ok {
                    lemma_consume(sf2);
                    lemma_expect_char(spec_scan_escape_char(sf2).1, '\'');
                }
            } else {
                lemma_expect_char(sf2, '\'');
            }
        }
    }
}

pub proof fn lemma_scan_string_body(sf: SourceFile)
    requires
        sf_wf(sf),
        sf_index(sf) <= sf_text(sf).len(),
    ensures
        sf_advanced(sf, spec_scan_string_body(sf).1),
        sf_index(sf) < sf_index(spec_scan_string_body(sf).1),
    decreases sf_text(sf).len() - sf_index(sf),
{
    lemma_consume(sf);
    let sf2 = sf_consume(sf);
    if let Some(c) = sf_peek(sf) {
        if c == '"' {
        } else if c == '\\' {
            lemma_escape_bounds(sf2);
            if spec_scan_escape_char(sf2).0 is Ok {
                lemma_consume(sf2);
                lemma_scan_string_body(spec_scan_escape_char(sf2).1);
            }
        } else {
            lemma_scan_string_body(sf2);
        }
    }
}

pub proof fn lemma_scan_string_literal(sf: SourceFile)
    requires
        sf_wf(sf),
        sf_index(sf) <= sf_text(sf).len(),
    ensures
        sf_advanced(sf, spec_scan_string_literal(sf).1),
        sf_index(sf) < sf_index(spec_scan_string_literal(sf).1),
{
    lemma_expect_char(sf, '"');
    let (r1, sf1) = spec_expect_char(sf, '"');
    if r1 is Ok {
        lemma_scan_string_body(sf1);
    }
}

/// Scanning a token keeps the text and moves forward; it moves strictly
/// forward unless it finds the end of the input.
pub proof fn lemma_next_token(sf: SourceFile)
    requires
        sf_wf(sf),
    ensures
        sf_advanced(sf, spec_next_token(sf).1),
        spec_next_token(sf).0 matches Ok(t) && t is Eof ==> sf_peek(spec_next_token(sf).1) is None,
        spec_next_token(sf).0 matches Ok(t) && !(t is Eof) ==> sf_index(sf) < sf_index(
            spec_next_token(sf).1,
        ),
    decreases sf_rest(sf), 2int,
{
    reveal(spec_next_token);
    lemma_skip_whitespace(sf);
    let sf1 = spec_skip_whitespace(sf);
    if let Some(c) = sf_peek(sf1) {
        if spec_is_alpha(c) {
            lemma_scan_identifier(sf1);
        } else if spec_is_digit(c) {
            lemma_scan_integer_from(sf1, 0);
        } else if c == '\'' {
            lemma_scan_char_literal(sf1);
        } else if c == '"' {
            lemma_scan_string_literal(sf1);
        } else {
            lemma_scan_symbol(sf1);
        }
    }
}

pub proof fn lemma_scan_symbol(sf: SourceFile)
    requires
        sf_wf(sf),
        sf_peek(sf) is Some,
    ensures
        sf_advanced(sf, spec_scan_symbol(sf).1),
        spec_scan_symbol(sf).0 matches Ok(t) && t is Eof ==> sf_peek(spec_scan_symbol(sf).1) is None,
        spec_scan_symbol(sf).0 matches Ok(t) && !(t is Eof) ==> sf_index(sf) < sf_index(
            spec_scan_symbol(sf).1,
        ),
    decreases sf_rest(sf), 1int,
{
    lemma_consume(sf);
    let sf2 = sf_consume(sf);
    let c = sf_peek(sf)->Some_0;
    if c == '/' {
        lemma_scan_slash(sf2);
    } else if sf_peek(sf2) is Some {
        lemma_consume(sf2);
    }
}

pub proof fn lemma_scan_slash(sf: SourceFile)
    requires
        sf_wf(sf),
    ensures
        sf_advanced(sf, spec_scan_slash(sf).1),
        spec_scan_slash(sf).0 matches Ok(t) && t is Eof ==> sf_peek(spec_scan_slash(sf).1) is None,
    decreases sf_rest(sf), 0int,
{
    reveal(spec_next_token);
    if sf_peek(sf) == Some('/') {
        lemma_consume(sf);
        lemma_skip_line_comment(sf_consume(sf));
        lemma_next_token(spec_skip_line_comment(sf_consume(sf)));
    }
}


// ------------------------------------------------------------------
// The lexer
// ------------------------------------------------------------------

/// The value of a token result.
pub open spec fn token_result_view(r: Result<Token, CompileError>) -> Result<TokenV, CompileError> {
    match r {
        Ok(t) => Ok(t@),
        Err(e) => Err(e),
    }
}

/// The value of a string result.
pub open spec fn string_result_view(r: Result<ByteString, CompileError>) -> Result<
    Seq<u8>,
    CompileError,
> {
    match r {
        Ok(s) => Ok(s@),
        Err(e) => Err(e),
    }
}

/// The lexer `l` moved on to the source state `sf`, with its current token kept.
pub open spec fn lexer_at(l: Lexer, sf: SourceFile) -> Lexer {
    Lexer::Lexer(sf, lx_token(l))
}

/// The lexer's position is representable.
pub open spec fn lexer_wf(l: Lexer) -> bool {
    sf_wf(lx_sf(l))
}

/// Get the character at the given index.
pub fn sourceFile_get_char(file: &SourceFile, index: usize) -> (r: Option<char>)
    ensures
        index < sf_text(*file).len() ==> r == Some(sf_text(*file)[index as int] as char),
        index >= sf_text(*file).len() ==> r is None,
{
    let SourceFile::SourceFile(string, _, _) = file;
    string_get(string, index)
}

/// Returns the current line.
pub fn sourceFile_current_line(file: &SourceFile) -> (r: usize)
    ensures
        r == sf_line(*file),
{
    let SourceFile::SourceFile(_, _, SourceLocation::Coords(line, _)) = file;
    *line
}

/// Returns the current column in the current line.
pub fn sourceFile_current_column(file: &SourceFile) -> (r: usize)
    ensures
        r == sf_col(*file),
{
    let SourceFile::SourceFile(_, _, SourceLocation::Coords(_, column)) = file;
    *column
}

/// Returns the index of the beginning of the current line.
pub fn sourceFile_current_line_start(file: &SourceFile) -> (r: usize)
    ensures
        r == sf_line_start(*file),
{
    let SourceFile::SourceFile(_, index, SourceLocation::Coords(_, column)) = file;
    if *column == 0 {
        *index
    } else if *index >= *column - 1 {
        *index - (*column - 1)
    } else {
        0
    }
}

/// The error `kind` at the lexer's current position.
pub fn lexer_error(lexer: &Lexer, kind: ErrorKind) -> (r: CompileError)
    ensures
        r == error_at(lx_sf(*lexer), kind),
{
    let file: &SourceFile = lexer_sourcefile(lexer);
    CompileError {
        kind,
        line: sourceFile_current_line(file),
        column: sourceFile_current_column(file),
        line_start: sourceFile_current_line_start(file),
    }
}

/// Create a lexer over `source` and scan its first token.
pub fn lexer_new(source: ByteString) -> (r: Result<Lexer, CompileError>)
    requires
        source@.len() + 2 < usize::MAX,
    ensures
        ({
            let (res, sf) = spec_next_token(
                SourceFile::SourceFile(source, 0, SourceLocation::Coords(1, 1)),
            );
            match res {
                Ok(t) => r matches Ok(l) && lx_sf(l) == sf && lx_token(l)@ == t,
                Err(e) => r == Err::<Lexer, CompileError>(e),
            }
        }),
{
    let source_file: SourceFile = SourceFile::SourceFile(source, 0, SourceLocation::Coords(1, 1));
    let mut lexer: Lexer = Lexer::Lexer(source_file, TokenOf::Eof);
    match lexer_next_token(&mut lexer) {
        Ok(_) => Ok(lexer),
        Err(e) => Err(e),
    }
}

/// Get immutable access to the lexer source file state.
pub fn lexer_sourcefile(lexer: &Lexer) -> (r: &SourceFile)
    ensures
        *r == lx_sf(*lexer),
{
    let Lexer::Lexer(source, _) = lexer;
    source
}

/// The location of the next character.
pub fn lexer_location(lexer: &Lexer) -> (r: &SourceLocation)
    ensures
        *r == SourceLocation::Coords(sf_line(lx_sf(*lexer)) as usize, sf_col(lx_sf(*lexer)) as usize),
{
    let Lexer::Lexer(SourceFile::SourceFile(_, _, location), _) = lexer;
    location
}

/// Get the current token from the lexer.
pub fn lexer_current_token(lexer: &Lexer) -> (r: &Token)
    ensures
        *r == lx_token(*lexer),
{
    let Lexer::Lexer(_, token) = lexer;
    token
}

/// Replace the current token.
pub fn lexer_set_current_token(lexer: &mut Lexer, token: Token)
    ensures
        *final(lexer) == Lexer::Lexer(lx_sf(*old(lexer)), token),
{
    let Lexer::Lexer(_, old_token) = lexer;
    *old_token = token;
}

/// Peek at the next character without consuming it.
pub fn lexer_peek_char(lexer: &Lexer) -> (r: Option<char>)
    ensures
        r == sf_peek(lx_sf(*lexer)),
{
    let Lexer::Lexer(SourceFile::SourceFile(string, index, _), _) = lexer;
    string_get(string, *index)
}

/// Consume and return the next character.
pub fn lexer_consume_char(lexer: &mut Lexer) -> (r: Option<char>)
    requires
        lexer_wf(*old(lexer)),
        sf_index(lx_sf(*old(lexer))) <= sf_text(lx_sf(*old(lexer))).len(),
    ensures
        r == sf_peek(lx_sf(*old(lexer))),
        *final(lexer) == lexer_at(*old(lexer), sf_consume(lx_sf(*old(lexer)))),
{
    let Lexer::Lexer(SourceFile::SourceFile(source, index, SourceLocation::Coords(line, column)), _) =
        lexer;
    let current: Option<char> = string_get(source, *index);
    *index = *index + 1;
    match current {
        Some(character) => {
            if character == '\n' {
                *line = *line + 1;
                *column = 1;
            } else {
                *column = *column + 1;
            }
        },
        None => {
            *column = *column + 1;
        },
    }
    current
}

/// Consume the next character, which must be `expected`.
pub fn lexer_expect_char(lexer: &mut Lexer, expected: char) -> (r: Result<(), CompileError>)
    requires
        lexer_wf(*old(lexer)),
        sf_index(lx_sf(*old(lexer))) <= sf_text(lx_sf(*old(lexer))).len(),
    ensures
        r == spec_expect_char(lx_sf(*old(lexer)), expected).0,
        *final(lexer) == lexer_at(*old(lexer), spec_expect_char(lx_sf(*old(lexer)), expected).1),
{
    match lexer_consume_char(lexer) {
        Some(c) => {
            if c != expected {
                return Err(lexer_error(lexer, ErrorKind::UnexpectedCharacter));
            }
            Ok(())
        },
        None => Err(lexer_error(lexer, ErrorKind::UnexpectedEndOfInput)),
    }
}

/// Skip whitespace.
pub fn skip_whitespace(lexer: &mut Lexer)
    requires
        lexer_wf(*old(lexer)),
    ensures
        *final(lexer) == lexer_at(*old(lexer), spec_skip_whitespace(lx_sf(*old(lexer)))),
{
    proof {
        lemma_skip_whitespace(lx_sf(*lexer));
    }
    loop
        invariant
            lexer_wf(*lexer),
            lx_token(*lexer) == lx_token(*old(lexer)),
            spec_skip_whitespace(lx_sf(*lexer)) == spec_skip_whitespace(lx_sf(*old(lexer))),
        decreases sf_text(lx_sf(*lexer)).len() - sf_index(lx_sf(*lexer)),
    {
        match lexer_peek_char(lexer) {
            Some(c) => {
                if is_whitespace(c) {
                    proof {
                        lemma_consume(lx_sf(*lexer));
                    }
                    lexer_consume_char(lexer);
                } else {
                    return;
                }
            },
            None => return,
        }
    }
}

/// Skip the rest of a line comment, including the newline.
pub fn skip_line_comment(lexer: &mut Lexer)
    requires
        lexer_wf(*old(lexer)),
        sf_index(lx_sf(*old(lexer))) <= sf_text(lx_sf(*old(lexer))).len(),
    ensures
        *final(lexer) == lexer_at(*old(lexer), spec_skip_line_comment(lx_sf(*old(lexer)))),
{
    loop
        invariant
            lexer_wf(*lexer),
            sf_index(lx_sf(*lexer)) <= sf_text(lx_sf(*lexer)).len(),
            lx_token(*lexer) == lx_token(*old(lexer)),
            spec_skip_line_comment(lx_sf(*lexer)) == spec_skip_line_comment(lx_sf(*old(lexer))),
        decreases sf_text(lx_sf(*lexer)).len() - sf_index(lx_sf(*lexer)),
    {
        proof {
            lemma_consume(lx_sf(*lexer));
        }
        match lexer_consume_char(lexer) {
            Some('\n') => return,
            Some(_) => (),
            None => return,
        }
    }
}

/// Scan an identifier or keyword.
pub fn lexer_scan_identifier(lexer: &mut Lexer) -> (r: ByteString)
    requires
        lexer_wf(*old(lexer)),
    ensures
        r@ == spec_scan_identifier(lx_sf(*old(lexer))).0,
        *final(lexer) == lexer_at(*old(lexer), spec_scan_identifier(lx_sf(*old(lexer))).1),
{
    let mut ident: ByteString = string_new();
    loop
        invariant
            lexer_wf(*lexer),
            lx_token(*lexer) == lx_token(*old(lexer)),
            ident@ + spec_scan_identifier(lx_sf(*lexer)).0 == spec_scan_identifier(
                lx_sf(*old(lexer)),
            ).0,
            spec_scan_identifier(lx_sf(*lexer)).1 == spec_scan_identifier(lx_sf(*old(lexer))).1,
        decreases sf_text(lx_sf(*lexer)).len() - sf_index(lx_sf(*lexer)),
    {
        match lexer_peek_char(lexer) {
            Some(c) => {
                if is_alphanumeric(c) {
                    proof {
                        lemma_consume(lx_sf(*lexer));
                    }
                    let ghost before = ident@;
                    let ghost sf0 = lx_sf(*lexer);
                    lexer_consume_char(lexer);
                    string_push(&mut ident, c);
                    assert(ident@ + spec_scan_identifier(lx_sf(*lexer)).0 =~= before
                        + spec_scan_identifier(sf0).0);
                } else {
                    assert(ident@ =~= ident@ + spec_scan_identifier(lx_sf(*lexer)).0);
                    return ident;
                }
            },
            None => {
                assert(ident@ =~= ident@ + spec_scan_identifier(lx_sf(*lexer)).0);
                return ident;
            },
        }
    }
}

/// Convert an identifier to a keyword token if applicable.
pub fn identifier_to_token(ident: ByteString) -> (r: Token)
    ensures
        r@ == spec_identifier_to_token(ident@),
{
    if string_eq(&ident, &string_from_str("fn")) {
        TokenOf::Fn
    } else if string_eq(&ident, &string_from_str("enum")) {
        TokenOf::Enum
    } else if string_eq(&ident, &string_from_str("let")) {
        TokenOf::Let
    } else if string_eq(&ident, &string_from_str("if")) {
        TokenOf::If
    } else if string_eq(&ident, &string_from_str("else")) {
        TokenOf::Else
    } else if string_eq(&ident, &string_from_str("while")) {
        TokenOf::While
    } else if string_eq(&ident, &string_from_str("return")) {
        TokenOf::Return
    } else if string_eq(&ident, &string_from_str("match")) {
        TokenOf::Match
    } else if string_eq(&ident, &string_from_str("as")) {
        TokenOf::As
    } else if string_eq(&ident, &string_from_str("unsafe")) {
        TokenOf::Unsafe
    } else if string_eq(&ident, &string_from_str("mut")) {
        TokenOf::Mut
    } else if string_eq(&ident, &string_from_str("usize")) {
        TokenOf::Usize
    } else if string_eq(&ident, &string_from_str("u8")) {
        TokenOf::U8
    } else if string_eq(&ident, &string_from_str("bool")) {
        TokenOf::Bool
    } else if string_eq(&ident, &string_from_str("char")) {
        TokenOf::Char
    } else if string_eq(&ident, &string_from_str("str")) {
        TokenOf::Str
    } else if string_eq(&ident, &string_from_str("true")) {
        TokenOf::Literal(LiteralOf::Bool(true))
    } else if string_eq(&ident, &string_from_str("false")) {
        TokenOf::Literal(LiteralOf::Bool(false))
    } else {
        TokenOf::Identifier(ident)
    }
}

/// Scan a decimal integer literal; an error if it does not fit in a `usize`.
pub fn lexer_scan_integer(lexer: &mut Lexer) -> (r: Result<usize, CompileError>)
    requires
        lexer_wf(*old(lexer)),
    ensures
        r == spec_scan_integer_from(lx_sf(*old(lexer)), 0).0,
        *final(lexer) == lexer_at(*old(lexer), spec_scan_integer_from(lx_sf(*old(lexer)), 0).1),
{
    let mut value: usize = 0;
    loop
        invariant
            lexer_wf(*lexer),
            lx_token(*lexer) == lx_token(*old(lexer)),
            spec_scan_integer_from(lx_sf(*lexer), value as nat) == spec_scan_integer_from(
                lx_sf(*old(lexer)),
                0,
            ),
        decreases sf_text(lx_sf(*lexer)).len() - sf_index(lx_sf(*lexer)),
    {
        match lexer_peek_char(lexer) {
            Some(c) => {
                if is_digit(c) {
                    let digit: usize = (c as u8 - '0' as u8) as usize;
                    if value > (usize::MAX - digit) / 10 {
                        return Err(lexer_error(lexer, ErrorKind::IntegerLiteralTooLarge));
                    }
                    proof {
                        lemma_consume(lx_sf(*lexer));
                        assert(digit == c as int - '0' as int);
                    }
                    value = value * 10 + digit;
                    lexer_consume_char(lexer);
                } else {
                    return Ok(value);
                }
            },
            None => return Ok(value),
        }
    }
}

/// Scan a character literal, with its quotes.
pub fn lexer_scan_char_literal(lexer: &mut Lexer) -> (r: Result<char, CompileError>)
    requires
        lexer_wf(*old(lexer)),
        sf_index(lx_sf(*old(lexer))) <= sf_text(lx_sf(*old(lexer))).len(),
    ensures
        r == spec_scan_char_literal(lx_sf(*old(lexer))).0,
        *final(lexer) == lexer_at(*old(lexer), spec_scan_char_literal(lx_sf(*old(lexer))).1),
{
    proof {
        lemma_expect_char(lx_sf(*lexer), '\'');
    }
    match lexer_expect_char(lexer, '\'') {
        Err(e) => return Err(e),
        Ok(()) => {},
    }
    proof {
        lemma_consume(lx_sf(*lexer));
    }
    let c: char = match lexer_consume_char(lexer) {
        Some('\\') => {
            proof {
                lemma_escape_bounds(lx_sf(*lexer));
                lemma_text_len(lx_sf(*lexer));
            }
            match lexer_scan_escape_char(lexer) {
                Ok(ch) => ch,
                Err(e) => return Err(e),
            }
        },
        Some(ch) => ch,
        None => return Err(lexer_error(lexer, ErrorKind::UnexpectedEndOfCharLiteral)),
    };
    proof {
        lemma_consume(lx_sf(*lexer));
    }
    match lexer_expect_char(lexer, '\'') {
        Err(e) => return Err(e),
        Ok(()) => {},
    }
    Ok(c)
}

/// Scan a string literal, with its quotes and escapes.
pub fn lexer_scan_string_literal(lexer: &mut Lexer) -> (r: Result<ByteString, CompileError>)
    requires
        lexer_wf(*old(lexer)),
        sf_index(lx_sf(*old(lexer))) <= sf_text(lx_sf(*old(lexer))).len(),
    ensures
        string_result_view(r) == spec_scan_string_literal(lx_sf(*old(lexer))).0,
        *final(lexer) == lexer_at(*old(lexer), spec_scan_string_literal(lx_sf(*old(lexer))).1),
{
    proof {
        lemma_expect_char(lx_sf(*lexer), '"');
    }
    match lexer_expect_char(lexer, '"') {
        Err(e) => return Err(e),
        Ok(()) => {},
    }
    let ghost body_start = lx_sf(*lexer);
    let mut s: ByteString = string_new();
    loop
        invariant
            lexer_wf(*lexer),
            sf_index(lx_sf(*lexer)) <= sf_text(lx_sf(*lexer)).len(),
            lx_token(*lexer) == lx_token(*old(lexer)),
            spec_scan_string_literal(lx_sf(*old(lexer))) == spec_scan_string_body(body_start),
            spec_scan_string_body(lx_sf(*lexer)).1 == spec_scan_string_body(body_start).1,
            match spec_scan_string_body(body_start).0 {
                Ok(w) => spec_scan_string_body(lx_sf(*lexer)).0 matches Ok(rest) && w == s@ + rest,
                Err(e) => spec_scan_string_body(lx_sf(*lexer)).0 == Err::<Seq<u8>, CompileError>(e),
            },
        decreases sf_text(lx_sf(*lexer)).len() - sf_index(lx_sf(*lexer)),
    {
        let ghost sf0 = lx_sf(*lexer);
        let ghost before = s@;
        proof {
            lemma_consume(sf0);
        }
        match lexer_consume_char(lexer) {
            Some('"') => {
                assert(s@ =~= s@ + Seq::<u8>::empty());
                return Ok(s);
            },
            Some('\\') => {
                proof {
                    lemma_escape_bounds(lx_sf(*lexer));
                    lemma_text_len(lx_sf(*lexer));
                }
                match lexer_scan_escape_char(lexer) {
                    Ok(ch) => {
                        string_push(&mut s, ch);
                        proof {
                            if let Ok(w) = spec_scan_string_body(body_start).0 {
                                let rest = spec_scan_string_body(lx_sf(*lexer)).0->Ok_0;
                                assert(w == before + (seq![byte_of(ch)] + rest));
                                assert(w =~= s@ + rest);
                            }
                        }
                    },
                    Err(e) => return Err(e),
                }
            },
            Some(c) => {
                string_push(&mut s, c);
                proof {
                    if let Ok(w) = spec_scan_string_body(body_start).0 {
                        let rest = spec_scan_string_body(lx_sf(*lexer)).0->Ok_0;
                        assert(w == before + (seq![byte_of(c)] + rest));
                        assert(w =~= s@ + rest);
                    }
                }
            },
            None => return Err(lexer_error(lexer, ErrorKind::UnexpectedEndOfStringLiteral)),
        }
    }
}

/// Scan an escape sequence after a backslash.
pub fn lexer_scan_escape_char(lexer: &mut Lexer) -> (r: Result<char, CompileError>)
    requires
        lexer_wf(*old(lexer)),
        sf_index(lx_sf(*old(lexer))) <= sf_text(lx_sf(*old(lexer))).len(),
    ensures
        r == spec_scan_escape_char(lx_sf(*old(lexer))).0,
        *final(lexer) == lexer_at(*old(lexer), spec_scan_escape_char(lx_sf(*old(lexer))).1),
{
    match lexer_consume_char(lexer) {
        Some('n') => Ok('\n'),
        Some('t') => Ok('\t'),
        Some('r') => Ok('\r'),
        Some('0') => Ok('\0'),
        Some(c) => Ok(c),
        None => Err(lexer_error(lexer, ErrorKind::UnexpectedEndOfEscapeSequence)),
    }
}


/// Consume and return the next token; it also becomes the current token.
pub fn lexer_next_token(lexer: &mut Lexer) -> (r: Result<Token, CompileError>)
    requires
        lexer_wf(*old(lexer)),
    ensures
        token_result_view(r) == spec_next_token(lx_sf(*old(lexer))).0,
        r is Ok ==> lx_sf(*final(lexer)) == spec_next_token(lx_sf(*old(lexer))).1,
        r matches Ok(t) ==> lx_token(*final(lexer))@ == t@,
    decreases sf_rest(lx_sf(*old(lexer))), 2int,
{
    proof {
        reveal(spec_next_token);
    }
    proof {
        lemma_skip_whitespace(lx_sf(*lexer));
    }
    skip_whitespace(lexer);

    let token: Token = match lexer_peek_char(lexer) {
        Some(c) => {
            if is_alpha(c) {
                let ident: ByteString = lexer_scan_identifier(lexer);
                identifier_to_token(ident)
            } else if is_digit(c) {
                match lexer_scan_integer(lexer) {
                    Ok(value) => TokenOf::Literal(LiteralOf::Int(value)),
                    Err(e) => return Err(e),
                }
            } else if c == '\'' {
                match lexer_scan_char_literal(lexer) {
                    Ok(ch) => TokenOf::Literal(LiteralOf::Char(ch)),
                    Err(e) => return Err(e),
                }
            } else if c == '"' {
                match lexer_scan_string_literal(lexer) {
                    Ok(st) => TokenOf::Literal(LiteralOf::String(st)),
                    Err(e) => return Err(e),
                }
            } else {
                match lexer_scan_symbol(lexer) {
                    Ok(t) => t,
                    Err(e) => return Err(e),
                }
            }
        },
        None => TokenOf::Eof,
    };

    lexer_set_current_token(lexer, token_clone(&token));
    Ok(token)
}

/// Scan a symbol token; the lexer is at its first character.
pub fn lexer_scan_symbol(lexer: &mut Lexer) -> (r: Result<Token, CompileError>)
    requires
        lexer_wf(*old(lexer)),
        sf_peek(lx_sf(*old(lexer))) is Some,
    ensures
        token_result_view(r) == spec_scan_symbol(lx_sf(*old(lexer))).0,
        r is Ok ==> lx_sf(*final(lexer)) == spec_scan_symbol(lx_sf(*old(lexer))).1,
    decreases sf_rest(lx_sf(*old(lexer))), 1int,
{
    proof {
        lemma_consume(lx_sf(*lexer));
    }
    match unwrap_char_option(lexer_consume_char(lexer)) {
        '{' => Ok(TokenOf::LBrace),
        '}' => Ok(TokenOf::RBrace),
        '(' => Ok(TokenOf::LParen),
        ')' => Ok(TokenOf::RParen),
        ';' => Ok(TokenOf::SemiColon),
        ',' => Ok(TokenOf::Comma),
        '+' => Ok(TokenOf::Plus),
        '*' => Ok(TokenOf::Star),
        '/' => lexer_scan_slash(lexer),
        '%' => Ok(TokenOf::Remainder),
        '&' => Ok(TokenOf::Ampersand),
        ':' => Ok(lexer_scan_colon(lexer)),
        '=' => Ok(lexer_scan_equals(lexer)),
        '-' => Ok(lexer_scan_minus(lexer)),
        '!' => Ok(lexer_scan_bang(lexer)),
        '<' => Ok(lexer_scan_less(lexer)),
        '>' => Ok(lexer_scan_greater(lexer)),
        _ => Err(lexer_error(lexer, ErrorKind::UnexpectedCharacter)),
    }
}

fn unwrap_char_option(c: Option<char>) -> (r: char)
    requires
        c is Some,
    ensures
        c == Some(r),
{
    crate::text::unwrap::<char>(c)
}

/// After a '/': skip a line comment and scan the next token, or give a slash.
pub fn lexer_scan_slash(lexer: &mut Lexer) -> (r: Result<Token, CompileError>)
    requires
        lexer_wf(*old(lexer)),
    ensures
        token_result_view(r) == spec_scan_slash(lx_sf(*old(lexer))).0,
        r is Ok ==> lx_sf(*final(lexer)) == spec_scan_slash(lx_sf(*old(lexer))).1,
    decreases sf_rest(lx_sf(*old(lexer))), 0int,
{
    proof {
        reveal(spec_next_token);
    }
    match lexer_peek_char(lexer) {
        Some('/') => {
            proof {
                lemma_consume(lx_sf(*lexer));
                lemma_skip_line_comment(sf_consume(lx_sf(*lexer)));
            }
            lexer_consume_char(lexer);
            skip_line_comment(lexer);
            lexer_next_token(lexer)
        },
        _ => Ok(TokenOf::Slash),
    }
}

/// After a ':': a double colon or a colon.
pub fn lexer_scan_colon(lexer: &mut Lexer) -> (r: Token)
    requires
        lexer_wf(*old(lexer)),
    ensures
        ({
            let (res, sf) = spec_follow(lx_sf(*old(lexer)), ':', TokenOf::DoubleColon, TokenOf::Colon);
            &&& res == Ok::<TokenV, CompileError>(r@)
            &&& *final(lexer) == lexer_at(*old(lexer), sf)
        }),
{
    match lexer_peek_char(lexer) {
        Some(':') => {
            proof {
                lemma_consume(lx_sf(*lexer));
            }
            lexer_consume_char(lexer);
            TokenOf::DoubleColon
        },
        _ => TokenOf::Colon,
    }
}

/// After a '=': '==' or '=>' or '='.
pub fn lexer_scan_equals(lexer: &mut Lexer) -> (r: Token)
    requires
        lexer_wf(*old(lexer)),
    ensures
        sf_peek(lx_sf(*old(lexer))) == Some('=') ==> r@ == TokenOf::<Seq<u8>>::Cmp(Comparison::Eq)
            && *final(lexer) == lexer_at(*old(lexer), sf_consume(lx_sf(*old(lexer)))),
        sf_peek(lx_sf(*old(lexer))) == Some('>') ==> r@ == TokenOf::<Seq<u8>>::ArmArrow
            && *final(lexer) == lexer_at(*old(lexer), sf_consume(lx_sf(*old(lexer)))),
        sf_peek(lx_sf(*old(lexer))) != Some('=') && sf_peek(lx_sf(*old(lexer))) != Some('>')
            ==> r@ == TokenOf::<Seq<u8>>::Assign && *final(lexer) == *old(lexer),
{
    match lexer_peek_char(lexer) {
        Some('=') => {
            proof {
                lemma_consume(lx_sf(*lexer));
            }
            lexer_consume_char(lexer);
            TokenOf::Cmp(Comparison::Eq)
        },
        Some('>') => {
            proof {
                lemma_consume(lx_sf(*lexer));
            }
            lexer_consume_char(lexer);
            TokenOf::ArmArrow
        },
        _ => TokenOf::Assign,
    }
}

/// After a '-': '->' or '-'.
pub fn lexer_scan_minus(lexer: &mut Lexer) -> (r: Token)
    requires
        lexer_wf(*old(lexer)),
    ensures
        ({
            let (res, sf) = spec_follow(lx_sf(*old(lexer)), '>', TokenOf::TypeArrow, TokenOf::Minus);
            &&& res == Ok::<TokenV, CompileError>(r@)
            &&& *final(lexer) == lexer_at(*old(lexer), sf)
        }),
{
    match lexer_peek_char(lexer) {
        Some('>') => {
            proof {
                lemma_consume(lx_sf(*lexer));
            }
            lexer_consume_char(lexer);
            TokenOf::TypeArrow
        },
        _ => TokenOf::Minus,
    }
}

/// After a '!': '!=' or '!'.
pub fn lexer_scan_bang(lexer: &mut Lexer) -> (r: Token)
    requires
        lexer_wf(*old(lexer)),
    ensures
        ({
            let (res, sf) = spec_follow(
                lx_sf(*old(lexer)),
                '=',
                TokenOf::Cmp(Comparison::Neq),
                TokenOf::Bang,
            );
            &&& res == Ok::<TokenV, CompileError>(r@)
            &&& *final(lexer) == lexer_at(*old(lexer), sf)
        }),
{
    match lexer_peek_char(lexer) {
        Some('=') => {
            proof {
                lemma_consume(lx_sf(*lexer));
            }
            lexer_consume_char(lexer);
            TokenOf::Cmp(Comparison::Neq)
        },
        _ => TokenOf::Bang,
    }
}

/// After a '<': '<=' or '<'.
pub fn lexer_scan_less(lexer: &mut Lexer) -> (r: Token)
    requires
        lexer_wf(*old(lexer)),
    ensures
        ({
            let (res, sf) = spec_follow(
                lx_sf(*old(lexer)),
                '=',
                TokenOf::Cmp(Comparison::Leq),
                TokenOf::Cmp(Comparison::Lt),
            );
            &&& res == Ok::<TokenV, CompileError>(r@)
            &&& *final(lexer) == lexer_at(*old(lexer), sf)
        }),
{
    match lexer_peek_char(lexer) {
        Some('=') => {
            proof {
                lemma_consume(lx_sf(*lexer));
            }
            lexer_consume_char(lexer);
            TokenOf::Cmp(Comparison::Leq)
        },
        _ => TokenOf::Cmp(Comparison::Lt),
    }
}

/// After a '>': '>=' or '>'.
pub fn lexer_scan_greater(lexer: &mut Lexer) -> (r: Token)
    requires
        lexer_wf(*old(lexer)),
    ensures
        ({
            let (res, sf) = spec_follow(
                lx_sf(*old(lexer)),
                '=',
                TokenOf::Cmp(Comparison::Geq),
                TokenOf::Cmp(Comparison::Gt),
            );
            &&& res == Ok::<TokenV, CompileError>(r@)
            &&& *final(lexer) == lexer_at(*old(lexer), sf)
        }),
{
    match lexer_peek_char(lexer) {
        Some('=') => {
            proof {
                lemma_consume(lx_sf(*lexer));
            }
            lexer_consume_char(lexer);
            TokenOf::Cmp(Comparison::Geq)
        },
        _ => TokenOf::Cmp(Comparison::Gt),
    }
}

// ------------------------------------------------------------------
// Equality and copies of tokens
// ------------------------------------------------------------------

/// Check if two comparison tokens are equal.
pub fn comparison_eq(left: &Comparison, right: &Comparison) -> (r: bool)
    ensures
        r == (*left == *right),
{
    match left {
        Comparison::Eq => match right {
            Comparison::Eq => true,
            _ => false,
        },
        Comparison::Neq => match right {
            Comparison::Neq => true,
            _ => false,
        },
        Comparison::Gt => match right {
            Comparison::Gt => true,
            _ => false,
        },
        Comparison::Lt => match right {
            Comparison::Lt => true,
            _ => false,
        },
        Comparison::Geq => match right {
            Comparison::Geq => true,
            _ => false,
        },
        Comparison::Leq => match right {
            Comparison::Leq => true,
            _ => false,
        },
    }
}

/// Check if two literal tokens are equal.
pub fn literalToken_eq(left: &Literal, right: &Literal) -> (r: bool)
    ensures
        r == (left@ == right@),
{
    match left {
        LiteralOf::Int(left_value) => match right {
            LiteralOf::Int(right_value) => left_value == right_value,
            _ => false,
        },
        LiteralOf::String(left_value) => match right {
            LiteralOf::String(right_value) => string_eq(left_value, right_value),
            _ => false,
        },
        LiteralOf::Char(left_value) => match right {
            LiteralOf::Char(right_value) => left_value == right_value,
            _ => false,
        },
        LiteralOf::Bool(left_value) => match right {
            LiteralOf::Bool(right_value) => left_value == right_value,
            _ => false,
        },
    }
}

/// Check if two tokens are equal.
pub fn token_eq(a: &Token, b: &Token) -> (r: bool)
    ensures
        r == (a@ == b@),
{
    match a {
        TokenOf::Unsafe => matches!(b, TokenOf::Unsafe),
        TokenOf::Fn => matches!(b, TokenOf::Fn),
        TokenOf::Enum => matches!(b, TokenOf::Enum),
        TokenOf::Let => matches!(b, TokenOf::Let),
        TokenOf::If => matches!(b, TokenOf::If),
        TokenOf::Else => matches!(b, TokenOf::Else),
        TokenOf::While => matches!(b, TokenOf::While),
        TokenOf::Return => matches!(b, TokenOf::Return),
        TokenOf::Match => matches!(b, TokenOf::Match),
        TokenOf::As => matches!(b, TokenOf::As),
        TokenOf::Mut => matches!(b, TokenOf::Mut),
        TokenOf::Ampersand => matches!(b, TokenOf::Ampersand),
        TokenOf::LBrace => matches!(b, TokenOf::LBrace),
        TokenOf::RBrace => matches!(b, TokenOf::RBrace),
        TokenOf::LParen => matches!(b, TokenOf::LParen),
        TokenOf::RParen => matches!(b, TokenOf::RParen),
        TokenOf::Colon => matches!(b, TokenOf::Colon),
        TokenOf::DoubleColon => matches!(b, TokenOf::DoubleColon),
        TokenOf::SemiColon => matches!(b, TokenOf::SemiColon),
        TokenOf::Comma => matches!(b, TokenOf::Comma),
        TokenOf::Assign => matches!(b, TokenOf::Assign),
        TokenOf::Bang => matches!(b, TokenOf::Bang),
        TokenOf::Cmp(left_comparison) => match b {
            TokenOf::Cmp(right_comparison) => comparison_eq(left_comparison, right_comparison),
            _ => false,
        },
        TokenOf::ArmArrow => matches!(b, TokenOf::ArmArrow),
        TokenOf::Plus => matches!(b, TokenOf::Plus),
        TokenOf::Minus => matches!(b, TokenOf::Minus),
        TokenOf::Star => matches!(b, TokenOf::Star),
        TokenOf::Slash => matches!(b, TokenOf::Slash),
        TokenOf::Remainder => matches!(b, TokenOf::Remainder),
        TokenOf::Usize => matches!(b, TokenOf::Usize),
        TokenOf::U8 => matches!(b, TokenOf::U8),
        TokenOf::Bool => matches!(b, TokenOf::Bool),
        TokenOf::Char => matches!(b, TokenOf::Char),
        TokenOf::Str => matches!(b, TokenOf::Str),
        TokenOf::TypeArrow => matches!(b, TokenOf::TypeArrow),
        TokenOf::Literal(left_literal) => match b {
            TokenOf::Literal(right_literal) => literalToken_eq(left_literal, right_literal),
            _ => false,
        },
        TokenOf::Identifier(left) => match b {
            TokenOf::Identifier(right) => string_eq(left, right),
            _ => false,
        },
        TokenOf::Eof => matches!(b, TokenOf::Eof),
    }
}

/// Copy a comparison operator.
pub fn comparison_clone(comparison: &Comparison) -> (r: Comparison)
    ensures
        r == *comparison,
{
    match comparison {
        Comparison::Eq => Comparison::Eq,
        Comparison::Neq => Comparison::Neq,
        Comparison::Gt => Comparison::Gt,
        Comparison::Lt => Comparison::Lt,
        Comparison::Geq => Comparison::Geq,
        Comparison::Leq => Comparison::Leq,
    }
}

/// Copy a literal token payload.
pub fn literalToken_clone(literal: &Literal) -> (r: Literal)
    ensures
        r@ == literal@,
{
    match literal {
        LiteralOf::Int(value) => LiteralOf::Int(*value),
        LiteralOf::String(value) => LiteralOf::String(string_clone(value)),
        LiteralOf::Char(value) => LiteralOf::Char(*value),
        LiteralOf::Bool(value) => LiteralOf::Bool(*value),
    }
}

/// Copy a token.
pub fn token_clone(token: &Token) -> (r: Token)
    ensures
        r@ == token@,
{
    match token {
        TokenOf::Unsafe => TokenOf::Unsafe,
        TokenOf::Fn => TokenOf::Fn,
        TokenOf::Enum => TokenOf::Enum,
        TokenOf::Let => TokenOf::Let,
        TokenOf::If => TokenOf::If,
        TokenOf::Else => TokenOf::Else,
        TokenOf::While => TokenOf::While,
        TokenOf::Return => TokenOf::Return,
        TokenOf::Match => TokenOf::Match,
        TokenOf::As => TokenOf::As,
        TokenOf::Mut => TokenOf::Mut,
        TokenOf::Ampersand => TokenOf::Ampersand,
        TokenOf::LBrace => TokenOf::LBrace,
        TokenOf::RBrace => TokenOf::RBrace,
        TokenOf::LParen => TokenOf::LParen,
        TokenOf::RParen => TokenOf::RParen,
        TokenOf::Colon => TokenOf::Colon,
        TokenOf::DoubleColon => TokenOf::DoubleColon,
        TokenOf::SemiColon => TokenOf::SemiColon,
        TokenOf::Comma => TokenOf::Comma,
        TokenOf::Assign => TokenOf::Assign,
        TokenOf::Bang => TokenOf::Bang,
        TokenOf::Cmp(comparison) => TokenOf::Cmp(comparison_clone(comparison)),
        TokenOf::ArmArrow => TokenOf::ArmArrow,
        TokenOf::Plus => TokenOf::Plus,
        TokenOf::Minus => TokenOf::Minus,
        TokenOf::Star => TokenOf::Star,
        TokenOf::Slash => TokenOf::Slash,
        TokenOf::Remainder => TokenOf::Remainder,
        TokenOf::Usize => TokenOf::Usize,
        TokenOf::U8 => TokenOf::U8,
        TokenOf::Bool => TokenOf::Bool,
        TokenOf::Char => TokenOf::Char,
        TokenOf::Str => TokenOf::Str,
        TokenOf::TypeArrow => TokenOf::TypeArrow,
        TokenOf::Literal(literal) => TokenOf::Literal(literalToken_clone(literal)),
        TokenOf::Identifier(value) => TokenOf::Identifier(string_clone(value)),
        TokenOf::Eof => TokenOf::Eof,
    }
}

} // verus!
