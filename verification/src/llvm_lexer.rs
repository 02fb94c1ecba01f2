//! Lexical analysis of human-readable LLVM-IR.
use vstd::prelude::*;
use vstd::string::StringSliceAdditionalSpecFns;
use crate::rust_lexer::{
    CompileError, ErrorKind, SourceFile, SourceLocation, error_at, lemma_consume, lemma_expect_char,
    lemma_scan_integer_from, lemma_skip_line_comment, lemma_text_len, sf_advanced, sf_consume,
    sf_index, sf_peek, sf_rest, sf_text, sf_wf, spec_expect_char, spec_scan_integer_from,
    spec_skip_line_comment,
};
use crate::text::{
    ByteString, byte_of, digit_value, is_alpha, is_alphanumeric_or_dot, is_digit, is_hexadecimal_digit,
    is_whitespace, parse_integer, spec_is_alpha, spec_is_alphanumeric, spec_is_digit,
    spec_is_hexadecimal_digit, spec_is_whitespace, string_clone, string_eq, string_from_str,
    string_get, string_len, string_new, string_push, string_to_integer,
};

verus! {

/// Tokens of LLVM-IR; `S` is the representation of text.
#[derive(Debug)]
pub enum LlvmTokenOf<S> {
    Define,
    Ret,
    Br,
    Label,
    Add,
    Sub,
    Mul,
    Udiv,
    Urem,
    Icmp,
    Call,
    Gep,
    Constant,
    Ult,
    Ptr,
    I64,
    I32,
    I8,
    I1,
    Void,
    At,
    Percent,
    LParen,
    RParen,
    LBrace,
    RBrace,
    LBracket,
    RBracket,
    Comma,
    Minus,
    Assign,
    Colon,
    /// `c"..."`
    CString(S),
    Identifier(S),
    Integer(usize),
    Eof,
}

/// An LLVM-IR token.
pub type LlvmToken = LlvmTokenOf<ByteString>;

/// The value of an LLVM-IR token: text as bytes.
pub type LlvmTokenV = LlvmTokenOf<Seq<u8>>;

pub open spec fn llvm_token_view(t: LlvmToken) -> LlvmTokenV {
    match t {
        LlvmTokenOf::Define => LlvmTokenOf::Define,
        LlvmTokenOf::Ret => LlvmTokenOf::Ret,
        LlvmTokenOf::Br => LlvmTokenOf::Br,
        LlvmTokenOf::Label => LlvmTokenOf::Label,
        LlvmTokenOf::Add => LlvmTokenOf::Add,
        LlvmTokenOf::Sub => LlvmTokenOf::Sub,
        LlvmTokenOf::Mul => LlvmTokenOf::Mul,
        LlvmTokenOf::Udiv => LlvmTokenOf::Udiv,
        LlvmTokenOf::Urem => LlvmTokenOf::Urem,
        LlvmTokenOf::Icmp => LlvmTokenOf::Icmp,
        LlvmTokenOf::Call => LlvmTokenOf::Call,
        LlvmTokenOf::Gep => LlvmTokenOf::Gep,
        LlvmTokenOf::Constant => LlvmTokenOf::Constant,
        LlvmTokenOf::Ult => LlvmTokenOf::Ult,
        LlvmTokenOf::Ptr => LlvmTokenOf::Ptr,
        LlvmTokenOf::I64 => LlvmTokenOf::I64,
        LlvmTokenOf::I32 => LlvmTokenOf::I32,
        LlvmTokenOf::I8 => LlvmTokenOf::I8,
        LlvmTokenOf::I1 => LlvmTokenOf::I1,
        LlvmTokenOf::Void => LlvmTokenOf::Void,
        LlvmTokenOf::At => LlvmTokenOf::At,
        LlvmTokenOf::Percent => LlvmTokenOf::Percent,
        LlvmTokenOf::LParen => LlvmTokenOf::LParen,
        LlvmTokenOf::RParen => LlvmTokenOf::RParen,
        LlvmTokenOf::LBrace => LlvmTokenOf::LBrace,
        LlvmTokenOf::RBrace => LlvmTokenOf::RBrace,
        LlvmTokenOf::LBracket => LlvmTokenOf::LBracket,
        LlvmTokenOf::RBracket => LlvmTokenOf::RBracket,
        LlvmTokenOf::Comma => LlvmTokenOf::Comma,
        LlvmTokenOf::Minus => LlvmTokenOf::Minus,
        LlvmTokenOf::Assign => LlvmTokenOf::Assign,
        LlvmTokenOf::Colon => LlvmTokenOf::Colon,
        LlvmTokenOf::CString(s) => LlvmTokenOf::CString(s@),
        LlvmTokenOf::Identifier(s) => LlvmTokenOf::Identifier(s@),
        LlvmTokenOf::Integer(v) => LlvmTokenOf::Integer(v),
        LlvmTokenOf::Eof => LlvmTokenOf::Eof,
    }
}

impl View for LlvmTokenOf<ByteString> {
    type V = LlvmTokenV;

    open spec fn view(&self) -> LlvmTokenV {
        llvm_token_view(*self)
    }
}

/// The LLVM lexer: the source file and the current token.
#[derive(Debug)]
pub enum LlvmLexer {
    Lexer(SourceFile, LlvmToken),
}

pub open spec fn ll_sf(l: LlvmLexer) -> SourceFile {
    let LlvmLexer::Lexer(sf, _) = l;
    sf
}

pub open spec fn ll_token(l: LlvmLexer) -> LlvmToken {
    let LlvmLexer::Lexer(_, t) = l;
    t
}

/// The lexer `l` moved on to the source state `sf`, with its current token kept.
pub open spec fn ll_at(l: LlvmLexer, sf: SourceFile) -> LlvmLexer {
    LlvmLexer::Lexer(sf, ll_token(l))
}

// ------------------------------------------------------------------
// The scanning functions, as functions on the source file
// ------------------------------------------------------------------

/// The character after the next one, if any.
pub open spec fn sf_peek_second(sf: SourceFile) -> Option<char> {
    if 0 <= sf_index(sf) + 1 < sf_text(sf).len() {
        Some(sf_text(sf)[sf_index(sf) + 1] as char)
    } else {
        None
    }
}

/// Skips whitespace and comments, which run from ';' to the end of the line.
pub open spec fn spec_llvm_skip(sf: SourceFile) -> SourceFile
    decreases sf_rest(sf),
{
    if !sf_wf(sf) {
        sf
    } else {
        match sf_peek(sf) {
            Some(c) => if spec_is_whitespace(c) {
                proof {
                    lemma_consume(sf);
                }
                spec_llvm_skip(sf_consume(sf))
            } else if c == ';' {
                proof {
                    lemma_consume(sf);
                    lemma_skip_line_comment(sf_consume(sf));
                }
                spec_llvm_skip(spec_skip_line_comment(sf_consume(sf)))
            } else {
                sf
            },
            None => sf,
        }
    }
}

/// The run of identifier characters (letters, digits, '_' and '.') at the
/// position, and the state after it.
pub open spec fn spec_llvm_scan_identifier(sf: SourceFile) -> (Seq<u8>, SourceFile)
    decreases sf_text(sf).len() - sf_index(sf),
{
    match sf_peek(sf) {
        Some(c) => if spec_is_alphanumeric(c) || c == '.' {
            proof {
                lemma_text_len(sf);
            }
            let (w, sf2) = spec_llvm_scan_identifier(sf_consume(sf));
            (seq![byte_of(c)] + w, sf2)
        } else {
            (Seq::empty(), sf)
        },
        None => (Seq::empty(), sf),
    }
}

/// The keyword token for a word, or an identifier.
pub open spec fn spec_llvm_keyword(w: Seq<u8>) -> LlvmTokenV {
    if w == "define".spec_bytes() {
        LlvmTokenOf::Define
    } else if w == "ret".spec_bytes() {
        LlvmTokenOf::Ret
    } else if w == "br".spec_bytes() {
        LlvmTokenOf::Br
    } else if w == "label".spec_bytes() {
        LlvmTokenOf::Label
    } else if w == "add".spec_bytes() {
        LlvmTokenOf::Add
    } else if w == "sub".spec_bytes() {
        LlvmTokenOf::Sub
    } else if w == "mul".spec_bytes() {
        LlvmTokenOf::Mul
    } else if w == "udiv".spec_bytes() {
        LlvmTokenOf::Udiv
    } else if w == "urem".spec_bytes() {
        LlvmTokenOf::Urem
    } else if w == "icmp".spec_bytes() {
        LlvmTokenOf::Icmp
    } else if w == "call".spec_bytes() {
        LlvmTokenOf::Call
    } else if w == "getelementptr".spec_bytes() {
        LlvmTokenOf::Gep
    } else if w == "constant".spec_bytes() {
        LlvmTokenOf::Constant
    } else if w == "ult".spec_bytes() {
        LlvmTokenOf::Ult
    } else if w == "ptr".spec_bytes() {
        LlvmTokenOf::Ptr
    } else if w == "i64".spec_bytes() {
        LlvmTokenOf::I64
    } else if w == "i32".spec_bytes() {
        LlvmTokenOf::I32
    } else if w == "i8".spec_bytes() {
        LlvmTokenOf::I8
    } else if w == "i1".spec_bytes() {
        LlvmTokenOf::I1
    } else if w == "void".spec_bytes() {
        LlvmTokenOf::Void
    } else {
        LlvmTokenOf::Identifier(w)
    }
}

/// How a keyword is written; `None` for the other tokens.
pub open spec fn llvm_keyword_text(t: LlvmTokenV) -> Option<Seq<u8>> {
    match t {
        LlvmTokenOf::Define => Some("define".spec_bytes()),
        LlvmTokenOf::Ret => Some("ret".spec_bytes()),
        LlvmTokenOf::Br => Some("br".spec_bytes()),
        LlvmTokenOf::Label => Some("label".spec_bytes()),
        LlvmTokenOf::Add => Some("add".spec_bytes()),
        LlvmTokenOf::Sub => Some("sub".spec_bytes()),
        LlvmTokenOf::Mul => Some("mul".spec_bytes()),
        LlvmTokenOf::Udiv => Some("udiv".spec_bytes()),
        LlvmTokenOf::Urem => Some("urem".spec_bytes()),
        LlvmTokenOf::Icmp => Some("icmp".spec_bytes()),
        LlvmTokenOf::Call => Some("call".spec_bytes()),
        LlvmTokenOf::Gep => Some("getelementptr".spec_bytes()),
        LlvmTokenOf::Constant => Some("constant".spec_bytes()),
        LlvmTokenOf::Ult => Some("ult".spec_bytes()),
        LlvmTokenOf::Ptr => Some("ptr".spec_bytes()),
        LlvmTokenOf::I64 => Some("i64".spec_bytes()),
        LlvmTokenOf::I32 => Some("i32".spec_bytes()),
        LlvmTokenOf::I8 => Some("i8".spec_bytes()),
        LlvmTokenOf::I1 => Some("i1".spec_bytes()),
        LlvmTokenOf::Void => Some("void".spec_bytes()),
        _ => None,
    }
}

/// Reserved words are keywords: every keyword's spelling lexes to that
/// keyword and never to an identifier, and a word lexes to a keyword only when
/// it is that keyword's spelling; every other word is an identifier of itself.
pub proof fn law_llvm_reserved_words(t: LlvmTokenV, w: Seq<u8>)
    ensures
        llvm_keyword_text(t) == Some(w) ==> spec_llvm_keyword(w) == t,
        spec_llvm_keyword(w) is Identifier ==> spec_llvm_keyword(w) == LlvmTokenOf::Identifier(w),
        !(spec_llvm_keyword(w) is Identifier) ==> llvm_keyword_text(spec_llvm_keyword(w)) == Some(w),
{
    reveal_strlit("define");
    reveal_strlit("ret");
    reveal_strlit("br");
    reveal_strlit("label");
    reveal_strlit("add");
    reveal_strlit("sub");
    reveal_strlit("mul");
    reveal_strlit("udiv");
    reveal_strlit("urem");
    reveal_strlit("icmp");
    reveal_strlit("call");
    reveal_strlit("getelementptr");
    reveal_strlit("constant");
    reveal_strlit("ult");
    reveal_strlit("ptr");
    reveal_strlit("i64");
    reveal_strlit("i32");
    reveal_strlit("i8");
    reveal_strlit("i1");
    reveal_strlit("void");
    crate::text::lemma_ascii_bytes("define");
    assert("define".spec_bytes().len() == 6 && "define".spec_bytes()[0] == 100u8 && "define".spec_bytes()[1] == 101u8);
    crate::text::lemma_ascii_bytes("ret");
    assert("ret".spec_bytes().len() == 3 && "ret".spec_bytes()[0] == 114u8 && "ret".spec_bytes()[1] == 101u8);
    crate::text::lemma_ascii_bytes("br");
    assert("br".spec_bytes().len() == 2 && "br".spec_bytes()[0] == 98u8 && "br".spec_bytes()[1] == 114u8);
    crate::text::lemma_ascii_bytes("label");
    assert("label".spec_bytes().len() == 5 && "label".spec_bytes()[0] == 108u8 && "label".spec_bytes()[1] == 97u8);
    crate::text::lemma_ascii_bytes("add");
    assert("add".spec_bytes().len() == 3 && "add".spec_bytes()[0] == 97u8 && "add".spec_bytes()[1] == 100u8);
    crate::text::lemma_ascii_bytes("sub");
    assert("sub".spec_bytes().len() == 3 && "sub".spec_bytes()[0] == 115u8 && "sub".spec_bytes()[1] == 117u8);
    crate::text::lemma_ascii_bytes("mul");
    assert("mul".spec_bytes().len() == 3 && "mul".spec_bytes()[0] == 109u8 && "mul".spec_bytes()[1] == 117u8);
    crate::text::lemma_ascii_bytes("udiv");
    assert("udiv".spec_bytes().len() == 4 && "udiv".spec_bytes()[0] == 117u8 && "udiv".spec_bytes()[1] == 100u8);
    crate::text::lemma_ascii_bytes("urem");
    assert("urem".spec_bytes().len() == 4 && "urem".spec_bytes()[0] == 117u8 && "urem".spec_bytes()[1] == 114u8);
    crate::text::lemma_ascii_bytes("icmp");
    assert("icmp".spec_bytes().len() == 4 && "icmp".spec_bytes()[0] == 105u8 && "icmp".spec_bytes()[1] == 99u8);
    crate::text::lemma_ascii_bytes("call");
    assert("call".spec_bytes().len() == 4 && "call".spec_bytes()[0] == 99u8 && "call".spec_bytes()[1] == 97u8);
    crate::text::lemma_ascii_bytes("getelementptr");
    assert("getelementptr".spec_bytes().len() == 13 && "getelementptr".spec_bytes()[0] == 103u8 && "getelementptr".spec_bytes()[1] == 101u8);
    crate::text::lemma_ascii_bytes("constant");
    assert("constant".spec_bytes().len() == 8 && "constant".spec_bytes()[0] == 99u8 && "constant".spec_bytes()[1] == 111u8);
    crate::text::lemma_ascii_bytes("ult");
    assert("ult".spec_bytes().len() == 3 && "ult".spec_bytes()[0] == 117u8 && "ult".spec_bytes()[1] == 108u8);
    crate::text::lemma_ascii_bytes("ptr");
    assert("ptr".spec_bytes().len() == 3 && "ptr".spec_bytes()[0] == 112u8 && "ptr".spec_bytes()[1] == 116u8);
    crate::text::lemma_ascii_bytes("i64");
    assert("i64".spec_bytes().len() == 3 && "i64".spec_bytes()[0] == 105u8 && "i64".spec_bytes()[1] == 54u8);
    crate::text::lemma_ascii_bytes("i32");
    assert("i32".spec_bytes().len() == 3 && "i32".spec_bytes()[0] == 105u8 && "i32".spec_bytes()[1] == 51u8);
    crate::text::lemma_ascii_bytes("i8");
    assert("i8".spec_bytes().len() == 2 && "i8".spec_bytes()[0] == 105u8 && "i8".spec_bytes()[1] == 56u8);
    crate::text::lemma_ascii_bytes("i1");
    assert("i1".spec_bytes().len() == 2 && "i1".spec_bytes()[0] == 105u8 && "i1".spec_bytes()[1] == 49u8);
    crate::text::lemma_ascii_bytes("void");
    assert("void".spec_bytes().len() == 4 && "void".spec_bytes()[0] == 118u8 && "void".spec_bytes()[1] == 111u8);
}

/// The byte that an escape `\hs` stands for: the two characters read as a
/// number in base 16, where a digit is '0'..'9' or counts from 'A' = 10 up.
pub open spec fn escape_byte(h: char, s: char) -> Option<u8> {
    if !(spec_is_digit(s) || byte_of(s) >= 65) {
        None
    } else {
        match parse_integer(seq![byte_of(h), byte_of(s)], 16) {
            Some(v) => Some(v as u8),
            None => None,
        }
    }
}

/// The character an escape stands for, after the backslash: two hexadecimal
/// digits give a byte, any other character stands for itself.
pub open spec fn spec_llvm_escape(sf: SourceFile) -> (Result<char, CompileError>, SourceFile) {
    let sf2 = sf_consume(sf);
    match sf_peek(sf) {
        None => (Err(error_at(sf2, ErrorKind::UnterminatedCString)), sf2),
        Some(h) => if spec_is_hexadecimal_digit(h) {
            let sf3 = sf_consume(sf2);
            match sf_peek(sf2) {
                None => (Err(error_at(sf3, ErrorKind::ExpectedSecondHexDigit)), sf3),
                Some(s) => match escape_byte(h, s) {
                    Some(b) => (Ok(b as char), sf3),
                    None => (Err(error_at(sf3, ErrorKind::InvalidEscape)), sf3),
                },
            }
        } else {
            (Ok(h), sf2)
        },
    }
}

/// The body of a c-string after the opening quote, up to and including the
/// closing quote.
pub open spec fn spec_cstring_body(sf: SourceFile) -> (Result<Seq<u8>, CompileError>, SourceFile)
    decreases sf_rest(sf),
{
    let sf2 = sf_consume(sf);
    if !sf_wf(sf) {
        (Err(error_at(sf2, ErrorKind::UnterminatedCString)), sf2)
    } else {
        match sf_peek(sf) {
            Some(c) => if c == '"' {
                (Ok(Seq::empty()), sf2)
            } else if c == '\\' {
                proof {
                    lemma_consume(sf);
                    lemma_llvm_escape(sf2);
                }
                let (e, sf3) = spec_llvm_escape(sf2);
                match e {
                    Err(err) => (Err(err), sf3),
                    Ok(ch) => {
                        let (rest, sf4) = spec_cstring_body(sf3);
                        match rest {
                            Err(err) => (Err(err), sf4),
                            Ok(w) => (Ok(seq![byte_of(ch)] + w), sf4),
                        }
                    },
                }
            } else {
                proof {
                    lemma_consume(sf);
                }
                let (rest, sf4) = spec_cstring_body(sf2);
                match rest {
                    Err(err) => (Err(err), sf4),
                    Ok(w) => (Ok(seq![byte_of(c)] + w), sf4),
                }
            },
            None => (Err(error_at(sf2, ErrorKind::UnterminatedCString)), sf2),
        }
    }
}

/// A c-string `c"..."`.
pub open spec fn spec_scan_cstring(sf: SourceFile) -> (Result<Seq<u8>, CompileError>, SourceFile) {
    let (r1, sf1) = spec_expect_char(sf, 'c');
    match r1 {
        Err(e) => (Err(e), sf1),
        Ok(_) => {
            let (r2, sf2) = spec_expect_char(sf1, '"');
            match r2 {
                Err(e) => (Err(e), sf2),
                Ok(_) => spec_cstring_body(sf2),
            }
        },
    }
}

/// A one-character symbol.
pub open spec fn spec_llvm_symbol(sf: SourceFile) -> (Result<LlvmTokenV, CompileError>, SourceFile) {
    let sf2 = sf_consume(sf);
    match sf_peek(sf) {
        Some(c) => if c == '@' {
            (Ok(LlvmTokenOf::At), sf2)
        } else if c == '%' {
            (Ok(LlvmTokenOf::Percent), sf2)
        } else if c == '(' {
            (Ok(LlvmTokenOf::LParen), sf2)
        } else if c == ')' {
            (Ok(LlvmTokenOf::RParen), sf2)
        } else if c == '{' {
            (Ok(LlvmTokenOf::LBrace), sf2)
        } else if c == '}' {
            (Ok(LlvmTokenOf::RBrace), sf2)
        } else if c == '[' {
            (Ok(LlvmTokenOf::LBracket), sf2)
        } else if c == ']' {
            (Ok(LlvmTokenOf::RBracket), sf2)
        } else if c == ',' {
            (Ok(LlvmTokenOf::Comma), sf2)
        } else if c == '-' {
            (Ok(LlvmTokenOf::Minus), sf2)
        } else if c == '=' {
            (Ok(LlvmTokenOf::Assign), sf2)
        } else if c == ':' {
            (Ok(LlvmTokenOf::Colon), sf2)
        } else {
            (Err(error_at(sf2, ErrorKind::UnsupportedLlvmToken)), sf2)
        },
        None => (Err(error_at(sf2, ErrorKind::UnsupportedLlvmToken)), sf2),
    }
}

/// The token after `sf`: whitespace and comments are skipped, then one token
/// is scanned.
#[verifier::opaque]
pub open spec fn spec_llvm_next_token(sf: SourceFile) -> (Result<LlvmTokenV, CompileError>, SourceFile) {
    if !sf_wf(sf) {
        (Ok(LlvmTokenOf::Eof), sf)
    } else {
        let sf1 = spec_llvm_skip(sf);
        match sf_peek(sf1) {
            Some(ch) => if ch == 'c' && sf_peek_second(sf1) == Some('"') {
                let (v, sf2) = spec_scan_cstring(sf1);
                match v {
                    Ok(w) => (Ok(LlvmTokenOf::CString(w)), sf2),
                    Err(e) => (Err(e), sf2),
                }
            } else if spec_is_alpha(ch) || ch == '.' {
                let (w, sf2) = spec_llvm_scan_identifier(sf1);
                (Ok(spec_llvm_keyword(w)), sf2)
            } else if spec_is_digit(ch) {
                let (v, sf2) = spec_scan_integer_from(sf1, 0);
                match v {
                    Ok(n) => (Ok(LlvmTokenOf::Integer(n)), sf2),
                    Err(e) => (Err(e), sf2),
                }
            } else {
                spec_llvm_symbol(sf1)
            },
            None => (Ok(LlvmTokenOf::Eof), sf1),
        }
    }
}

// ------------------------------------------------------------------
// Lemmas: every scanning function keeps the text and moves forward.
// ------------------------------------------------------------------

pub proof fn lemma_llvm_skip(sf: SourceFile)
    requires
        sf_wf(sf),
    ensures
        sf_advanced(sf, spec_llvm_skip(sf)),
    decreases sf_rest(sf),
{
    if let Some(c) = sf_peek(sf) {
        lemma_consume(sf);
        if spec_is_whitespace(c) {
            lemma_llvm_skip(sf_consume(sf));
        } else if c == ';' {
            lemma_skip_line_comment(sf_consume(sf));
            lemma_llvm_skip(spec_skip_line_comment(sf_consume(sf)));
        }
    }
}

pub proof fn lemma_llvm_scan_identifier(sf: SourceFile)
    requires
        sf_wf(sf),
    ensures
        sf_advanced(sf, spec_llvm_scan_identifier(sf).1),
        (sf_peek(sf) matches Some(c) && (spec_is_alphanumeric(c) || c == '.')) ==> sf_index(sf)
            < sf_index(spec_llvm_scan_identifier(sf).1),
    decreases sf_text(sf).len() - sf_index(sf),
{
    if let Some(c) = sf_peek(sf) {
        if spec_is_alphanumeric(c) || c == '.' {
            lemma_consume(sf);
            lemma_llvm_scan_identifier(sf_consume(sf));
        }
    }
}

pub proof fn lemma_llvm_escape(sf: SourceFile)
    requires
        sf_wf(sf),
    ensures
        sf_text(spec_llvm_escape(sf).1) == sf_text(sf),
        spec_llvm_escape(sf).0 is Ok ==> sf_advanced(sf, spec_llvm_escape(sf).1) && sf_index(
            spec_llvm_escape(sf).1,
        ) <= sf_text(sf).len(),
{
    lemma_text_len(sf);
    if sf_peek(sf) is Some {
        lemma_consume(sf);
        let sf2 = sf_consume(sf);
        lemma_text_len(sf2);
        if sf_peek(sf2) is Some {
            lemma_consume(sf2);
        }
    }
}

pub proof fn lemma_cstring_body(sf: SourceFile)
    requires
        sf_wf(sf),
    ensures
        sf_text(spec_cstring_body(sf).1) == sf_text(sf),
        spec_cstring_body(sf).0 is Ok ==> sf_advanced(sf, spec_cstring_body(sf).1) && sf_index(sf)
            < sf_index(spec_cstring_body(sf).1),
    decreases sf_rest(sf),
{
    lemma_text_len(sf);
    if let Some(c) = sf_peek(sf) {
        lemma_consume(sf);
        let sf2 = sf_consume(sf);
        if c == '\\' {
            lemma_llvm_escape(sf2);
            let (e, sf3) = spec_llvm_escape(sf2);
            if e is Ok {
                lemma_cstring_body(sf3);
            }
        } else if c != '"' {
            lemma_cstring_body(sf2);
        }
    }
}

pub proof fn lemma_llvm_next_token(sf: SourceFile)
    requires
        sf_wf(sf),
    ensures
        spec_llvm_next_token(sf).0 is Ok ==> sf_advanced(sf, spec_llvm_next_token(sf).1),
        spec_llvm_next_token(sf).0 matches Ok(t) && !(t is Eof) ==> sf_index(sf) < sf_index(
            spec_llvm_next_token(sf).1,
        ),
        spec_llvm_next_token(sf).0 matches Ok(t) && t is Eof ==> sf_peek(
            spec_llvm_next_token(sf).1,
        ) is None,
{
    reveal(spec_llvm_next_token);
    lemma_llvm_skip(sf);
    let sf1 = spec_llvm_skip(sf);
    if let Some(ch) = sf_peek(sf1) {
        if ch == 'c' && sf_peek_second(sf1) == Some('"') {
            lemma_expect_char(sf1, 'c');
            let (r1, s1) = spec_expect_char(sf1, 'c');
            if r1 is Ok {
                lemma_expect_char(s1, '"');
                let (r2, s2) = spec_expect_char(s1, '"');
                if r2 is Ok {
                    lemma_cstring_body(s2);
                }
            }
        } else if spec_is_alpha(ch) || ch == '.' {
            lemma_llvm_scan_identifier(sf1);
        } else if spec_is_digit(ch) {
            lemma_scan_integer_from(sf1, 0);
        } else {
            lemma_consume(sf1);
        }
    }
}


// ------------------------------------------------------------------
// The lexer
// ------------------------------------------------------------------

/// The lexer's position is representable and not past the end.
pub open spec fn ll_wf(l: LlvmLexer) -> bool {
    &&& sf_wf(ll_sf(l))
    &&& sf_index(ll_sf(l)) <= sf_text(ll_sf(l)).len()
}

/// The value of a token result.
pub open spec fn llvm_token_result_view(r: Result<LlvmToken, CompileError>) -> Result<
    LlvmTokenV,
    CompileError,
> {
    match r {
        Ok(t) => Ok(t@),
        Err(e) => Err(e),
    }
}

/// The value of a string result.
pub open spec fn bytes_result_view(r: Result<ByteString, CompileError>) -> Result<Seq<u8>, CompileError> {
    match r {
        Ok(s) => Ok(s@),
        Err(e) => Err(e),
    }
}

/// The error `kind` at the lexer's position.
fn llvmLexer_error(lexer: &LlvmLexer, kind: ErrorKind) -> (r: CompileError)
    ensures
        r == error_at(ll_sf(*lexer), kind),
{
    let LlvmLexer::Lexer(file, _) = lexer;
    CompileError {
        kind,
        line: crate::rust_lexer::sourceFile_current_line(file),
        column: crate::rust_lexer::sourceFile_current_column(file),
        line_start: crate::rust_lexer::sourceFile_current_line_start(file),
    }
}

/// Get the lexer's source file.
pub fn llvmLexer_sourcefile(lexer: &LlvmLexer) -> (r: &SourceFile)
    ensures
        *r == ll_sf(*lexer),
{
    let LlvmLexer::Lexer(source, _) = lexer;
    source
}

/// Get the current token.
pub fn llvmLexer_current_token(lexer: &LlvmLexer) -> (r: &LlvmToken)
    ensures
        *r == ll_token(*lexer),
{
    let LlvmLexer::Lexer(_, token) = lexer;
    token
}

/// Set the current token.
pub fn llvmLexer_set_current_token(lexer: &mut LlvmLexer, token: LlvmToken)
    ensures
        *final(lexer) == LlvmLexer::Lexer(ll_sf(*old(lexer)), token),
{
    let LlvmLexer::Lexer(_, old_token) = lexer;
    *old_token = token;
}

/// Peek at the next character.
pub fn llvmLexer_peek_char(lexer: &LlvmLexer) -> (r: Option<char>)
    ensures
        r == sf_peek(ll_sf(*lexer)),
{
    let LlvmLexer::Lexer(SourceFile::SourceFile(string, index, _), _) = lexer;
    string_get(string, *index)
}

/// Whether the character after the next one is `expected`.
pub fn llvmLexer_next_char_eq(lexer: &LlvmLexer, expected: char) -> (r: bool)
    ensures
        r == (sf_peek_second(ll_sf(*lexer)) == Some(expected)),
{
    let LlvmLexer::Lexer(SourceFile::SourceFile(content, index, _), _) = lexer;
    if *index >= string_len(content) {
        return false;
    }
    match string_get(content, *index + 1) {
        Some(character) => character == expected,
        None => false,
    }
}

/// Consume and return the next character.
pub fn llvmLexer_consume_char(lexer: &mut LlvmLexer) -> (r: Option<char>)
    requires
        ll_wf(*old(lexer)),
    ensures
        r == sf_peek(ll_sf(*old(lexer))),
        *final(lexer) == ll_at(*old(lexer), sf_consume(ll_sf(*old(lexer)))),
{
    let LlvmLexer::Lexer(SourceFile::SourceFile(source, index, SourceLocation::Coords(line, column)), _) =
        lexer;
    let current: Option<char> = string_get(source, *index);
    *index = *index + 1;
    match current {
        Some(character) => {
            if character == '\n' {
                *line = *line + 1;
                *column = 1;
            } else {
                *column = *column + 1;
            }
        },
        None => {
            *column = *column + 1;
        },
    }
    current
}

/// Consume the next character, which must be `expected`.
pub fn llvmLexer_expect_char(lexer: &mut LlvmLexer, expected: char) -> (r: Result<(), CompileError>)
    requires
        ll_wf(*old(lexer)),
    ensures
        r == spec_expect_char(ll_sf(*old(lexer)), expected).0,
        *final(lexer) == ll_at(*old(lexer), spec_expect_char(ll_sf(*old(lexer)), expected).1),
{
    match llvmLexer_consume_char(lexer) {
        Some(c) => {
            if c != expected {
                return Err(llvmLexer_error(lexer, ErrorKind::UnexpectedCharacter));
            }
            Ok(())
        },
        None => Err(llvmLexer_error(lexer, ErrorKind::UnexpectedEndOfInput)),
    }
}

/// Skip the rest of the line, including the newline.
pub fn llvmLexer_skip_line(lexer: &mut LlvmLexer)
    requires
        ll_wf(*old(lexer)),
    ensures
        *final(lexer) == ll_at(*old(lexer), spec_skip_line_comment(ll_sf(*old(lexer)))),
{
    loop
        invariant
            ll_wf(*lexer),
            ll_token(*lexer) == ll_token(*old(lexer)),
            spec_skip_line_comment(ll_sf(*lexer)) == spec_skip_line_comment(ll_sf(*old(lexer))),
        decreases sf_text(ll_sf(*lexer)).len() - sf_index(ll_sf(*lexer)),
    {
        proof {
            lemma_consume(ll_sf(*lexer));
        }
        match llvmLexer_consume_char(lexer) {
            Some('\n') => return,
            Some(_) => (),
            None => return,
        }
    }
}

/// Skip whitespace and comments.
pub fn llvmLexer_skip_whitespace_and_comments(lexer: &mut LlvmLexer)
    requires
        sf_wf(ll_sf(*old(lexer))),
    ensures
        *final(lexer) == ll_at(*old(lexer), spec_llvm_skip(ll_sf(*old(lexer)))),
{
    loop
        invariant
            sf_wf(ll_sf(*lexer)),
            ll_token(*lexer) == ll_token(*old(lexer)),
            spec_llvm_skip(ll_sf(*lexer)) == spec_llvm_skip(ll_sf(*old(lexer))),
        decreases sf_rest(ll_sf(*lexer)),
    {
        match llvmLexer_peek_char(lexer) {
            Some(ch) => {
                proof {
                    lemma_consume(ll_sf(*lexer));
                }
                if is_whitespace(ch) {
                    llvmLexer_consume_char(lexer);
                } else if ch == ';' {
                    llvmLexer_consume_char(lexer);
                    proof {
                        lemma_skip_line_comment(ll_sf(*lexer));
                    }
                    llvmLexer_skip_line(lexer);
                } else {
                    return;
                }
            },
            None => return,
        }
    }
}

/// Scan an identifier or keyword (letters, digits, '_' and '.').
pub fn llvmLexer_scan_identifier_or_keyword(lexer: &mut LlvmLexer) -> (r: ByteString)
    requires
        sf_wf(ll_sf(*old(lexer))),
    ensures
        r@ == spec_llvm_scan_identifier(ll_sf(*old(lexer))).0,
        *final(lexer) == ll_at(*old(lexer), spec_llvm_scan_identifier(ll_sf(*old(lexer))).1),
{
    let mut identifier: ByteString = string_new();
    loop
        invariant
            sf_wf(ll_sf(*lexer)),
            ll_token(*lexer) == ll_token(*old(lexer)),
            identifier@ + spec_llvm_scan_identifier(ll_sf(*lexer)).0 == spec_llvm_scan_identifier(
                ll_sf(*old(lexer)),
            ).0,
            spec_llvm_scan_identifier(ll_sf(*lexer)).1 == spec_llvm_scan_identifier(
                ll_sf(*old(lexer)),
            ).1,
        decreases sf_text(ll_sf(*lexer)).len() - sf_index(ll_sf(*lexer)),
    {
        match llvmLexer_peek_char(lexer) {
            Some(ch) => {
                if is_alphanumeric_or_dot(ch) {
                    proof {
                        lemma_consume(ll_sf(*lexer));
                    }
                    let ghost before = identifier@;
                    let ghost sf0 = ll_sf(*lexer);
                    llvmLexer_consume_char(lexer);
                    string_push(&mut identifier, ch);
                    assert(identifier@ + spec_llvm_scan_identifier(ll_sf(*lexer)).0 =~= before
                        + spec_llvm_scan_identifier(sf0).0);
                } else {
                    assert(identifier@ =~= identifier@ + spec_llvm_scan_identifier(ll_sf(*lexer)).0);
                    return identifier;
                }
            },
            None => {
                assert(identifier@ =~= identifier@ + spec_llvm_scan_identifier(ll_sf(*lexer)).0);
                return identifier;
            },
        }
    }
}

/// Convert an identifier into a keyword token where it is one.
pub fn llvm_identifier_to_token(identifier: ByteString) -> (r: LlvmToken)
    ensures
        r@ == spec_llvm_keyword(identifier@),
{
    if string_eq(&identifier, &string_from_str("define")) {
        LlvmTokenOf::Define
    } else if string_eq(&identifier, &string_from_str("ret")) {
        LlvmTokenOf::Ret
    } else if string_eq(&identifier, &string_from_str("br")) {
        LlvmTokenOf::Br
    } else if string_eq(&identifier, &string_from_str("label")) {
        LlvmTokenOf::Label
    } else if string_eq(&identifier, &string_from_str("add")) {
        LlvmTokenOf::Add
    } else if string_eq(&identifier, &string_from_str("sub")) {
        LlvmTokenOf::Sub
    } else if string_eq(&identifier, &string_from_str("mul")) {
        LlvmTokenOf::Mul
    } else if string_eq(&identifier, &string_from_str("udiv")) {
        LlvmTokenOf::Udiv
    } else if string_eq(&identifier, &string_from_str("urem")) {
        LlvmTokenOf::Urem
    } else if string_eq(&identifier, &string_from_str("icmp")) {
        LlvmTokenOf::Icmp
    } else if string_eq(&identifier, &string_from_str("call")) {
        LlvmTokenOf::Call
    } else if string_eq(&identifier, &string_from_str("getelementptr")) {
        LlvmTokenOf::Gep
    } else if string_eq(&identifier, &string_from_str("constant")) {
        LlvmTokenOf::Constant
    } else if string_eq(&identifier, &string_from_str("ult")) {
        LlvmTokenOf::Ult
    } else if string_eq(&identifier, &string_from_str("ptr")) {
        LlvmTokenOf::Ptr
    } else if string_eq(&identifier, &string_from_str("i64")) {
        LlvmTokenOf::I64
    } else if string_eq(&identifier, &string_from_str("i32")) {
        LlvmTokenOf::I32
    } else if string_eq(&identifier, &string_from_str("i8")) {
        LlvmTokenOf::I8
    } else if string_eq(&identifier, &string_from_str("i1")) {
        LlvmTokenOf::I1
    } else if string_eq(&identifier, &string_from_str("void")) {
        LlvmTokenOf::Void
    } else {
        LlvmTokenOf::Identifier(identifier)
    }
}

/// Scan a decimal integer; an error if it exceeds `usize::MAX`.
pub fn llvmLexer_scan_integer(lexer: &mut LlvmLexer) -> (r: Result<usize, CompileError>)
    requires
        sf_wf(ll_sf(*old(lexer))),
    ensures
        r == spec_scan_integer_from(ll_sf(*old(lexer)), 0).0,
        *final(lexer) == ll_at(*old(lexer), spec_scan_integer_from(ll_sf(*old(lexer)), 0).1),
{
    let mut value: usize = 0;
    loop
        invariant
            sf_wf(ll_sf(*lexer)),
            ll_token(*lexer) == ll_token(*old(lexer)),
            spec_scan_integer_from(ll_sf(*lexer), value as nat) == spec_scan_integer_from(
                ll_sf(*old(lexer)),
                0,
            ),
        decreases sf_text(ll_sf(*lexer)).len() - sf_index(ll_sf(*lexer)),
    {
        match llvmLexer_peek_char(lexer) {
            Some(ch) => {
                if is_digit(ch) {
                    let digit: usize = (ch as u8 - '0' as u8) as usize;
                    if value > (usize::MAX - digit) / 10 {
                        return Err(llvmLexer_error(lexer, ErrorKind::IntegerLiteralTooLarge));
                    }
                    proof {
                        lemma_consume(ll_sf(*lexer));
                        assert(digit == ch as int - '0' as int);
                    }
                    value = value * 10 + digit;
                    llvmLexer_consume_char(lexer);
                } else {
                    return Ok(value);
                }
            },
            None => return Ok(value),
        }
    }
}

/// The byte of an escape whose first character is a hexadecimal digit.
fn escape_value(hex_digit: char, second_hex_digit: char) -> (r: Option<char>)
    requires
        spec_is_hexadecimal_digit(hex_digit),
    ensures
        match escape_byte(hex_digit, second_hex_digit) {
            Some(b) => r == Some(b as char),
            None => r is None,
        },
{
    let second_byte: u8 = second_hex_digit as u8;
    if !(is_digit(second_hex_digit) || second_byte >= 65) {
        return None;
    }
    let mut char_byte: ByteString = string_new();
    string_push(&mut char_byte, hex_digit);
    string_push(&mut char_byte, second_hex_digit);
    let ghost s = char_byte@;
    proof {
        assert(s =~= seq![byte_of(hex_digit), byte_of(second_hex_digit)]);
        assert(s.subrange(0, 0) =~= Seq::<u8>::empty());
        assert(s.subrange(0, 1) =~= seq![byte_of(hex_digit)]);
        assert(s.subrange(0, 1).drop_last() =~= s.subrange(0, 0));
        assert(s.subrange(0, 2).drop_last() =~= s.subrange(0, 1));
        assert(s.subrange(0, 2) =~= s);
    }
    match string_to_integer(&mut char_byte, 16) {
        Some(value) => {
            proof {
                reveal_with_fuel(parse_integer, 3);
                assert(s.subrange(0, 2).last() == s[1]);
                assert(s.subrange(0, 1).last() == s[0]);
            }
            let byte: u8 = value as u8;
            Some(byte as char)
        },
        None => None,
    }
}

/// Scan an escape after its backslash.
pub fn llvmLexer_scan_escape(lexer: &mut LlvmLexer) -> (r: Result<char, CompileError>)
    requires
        ll_wf(*old(lexer)),
    ensures
        r == spec_llvm_escape(ll_sf(*old(lexer))).0,
        *final(lexer) == ll_at(*old(lexer), spec_llvm_escape(ll_sf(*old(lexer))).1),
{
    proof {
        lemma_consume(ll_sf(*lexer));
    }
    match llvmLexer_consume_char(lexer) {
        Some(hex_digit) => {
            if is_hexadecimal_digit(hex_digit) {
                proof {
                    lemma_text_len(ll_sf(*lexer));
                }
                match llvmLexer_consume_char(lexer) {
                    Some(second_hex_digit) => match escape_value(hex_digit, second_hex_digit) {
                        Some(c) => Ok(c),
                        None => Err(llvmLexer_error(lexer, ErrorKind::InvalidEscape)),
                    },
                    None => Err(llvmLexer_error(lexer, ErrorKind::ExpectedSecondHexDigit)),
                }
            } else {
                Ok(hex_digit)
            }
        },
        None => Err(llvmLexer_error(lexer, ErrorKind::UnterminatedCString)),
    }
}

/// Scan a c-string `c"..."` and return its bytes.
pub fn llvmLexer_scan_cstring(lexer: &mut LlvmLexer) -> (r: Result<ByteString, CompileError>)
    requires
        ll_wf(*old(lexer)),
    ensures
        bytes_result_view(r) == spec_scan_cstring(ll_sf(*old(lexer))).0,
        r is Ok ==> *final(lexer) == ll_at(*old(lexer), spec_scan_cstring(ll_sf(*old(lexer))).1),
{
    proof {
        lemma_expect_char(ll_sf(*lexer), 'c');
    }
    match llvmLexer_expect_char(lexer, 'c') {
        Ok(()) => {},
        Err(e) => return Err(e),
    }
    proof {
        lemma_text_len(ll_sf(*lexer));
        lemma_expect_char(ll_sf(*lexer), '"');
    }
    match llvmLexer_expect_char(lexer, '"') {
        Ok(()) => {},
        Err(e) => return Err(e),
    }
    let ghost body_start = ll_sf(*lexer);
    proof {
        lemma_text_len(body_start);
    }
    let mut literal: ByteString = string_new();
    loop
        invariant
            ll_wf(*lexer),
            ll_token(*lexer) == ll_token(*old(lexer)),
            spec_scan_cstring(ll_sf(*old(lexer))) == spec_cstring_body(body_start),
            spec_cstring_body(ll_sf(*lexer)).1 == spec_cstring_body(body_start).1,
            match spec_cstring_body(body_start).0 {
                Ok(w) => spec_cstring_body(ll_sf(*lexer)).0 matches Ok(rest) && w == literal@ + rest,
                Err(e) => spec_cstring_body(ll_sf(*lexer)).0 == Err::<Seq<u8>, CompileError>(e),
            },
        decreases sf_rest(ll_sf(*lexer)),
    {
        let ghost sf0 = ll_sf(*lexer);
        let ghost before = literal@;
        proof {
            lemma_consume(sf0);
        }
        match llvmLexer_consume_char(lexer) {
            Some('"') => {
                assert(literal@ =~= literal@ + Seq::<u8>::empty());
                return Ok(literal);
            },
            Some('\\') => {
                proof {
                    lemma_llvm_escape(ll_sf(*lexer));
                }
                match llvmLexer_scan_escape(lexer) {
                    Ok(ch) => {
                        string_push(&mut literal, ch);
                        proof {
                            if let Ok(w) = spec_cstring_body(body_start).0 {
                                let rest = spec_cstring_body(ll_sf(*lexer)).0->Ok_0;
                                assert(w == before + (seq![byte_of(ch)] + rest));
                                assert(w =~= literal@ + rest);
                            }
                        }
                    },
                    Err(e) => return Err(e),
                }
            },
            Some(ch) => {
                string_push(&mut literal, ch);
                proof {
                    if let Ok(w) = spec_cstring_body(body_start).0 {
                        let rest = spec_cstring_body(ll_sf(*lexer)).0->Ok_0;
                        assert(w == before + (seq![byte_of(ch)] + rest));
                        assert(w =~= literal@ + rest);
                    }
                }
            },
            None => {
                return Err(llvmLexer_error(lexer, ErrorKind::UnterminatedCString));
            },
        }
    }
}

/// Scan a one-character symbol.
pub fn llvmLexer_scan_symbol(lexer: &mut LlvmLexer) -> (r: Result<LlvmToken, CompileError>)
    requires
        ll_wf(*old(lexer)),
    ensures
        llvm_token_result_view(r) == spec_llvm_symbol(ll_sf(*old(lexer))).0,
        *final(lexer) == ll_at(*old(lexer), spec_llvm_symbol(ll_sf(*old(lexer))).1),
{
    match llvmLexer_consume_char(lexer) {
        Some('@') => Ok(LlvmTokenOf::At),
        Some('%') => Ok(LlvmTokenOf::Percent),
        Some('(') => Ok(LlvmTokenOf::LParen),
        Some(')') => Ok(LlvmTokenOf::RParen),
        Some('{') => Ok(LlvmTokenOf::LBrace),
        Some('}') => Ok(LlvmTokenOf::RBrace),
        Some('[') => Ok(LlvmTokenOf::LBracket),
        Some(']') => Ok(LlvmTokenOf::RBracket),
        Some(',') => Ok(LlvmTokenOf::Comma),
        Some('-') => Ok(LlvmTokenOf::Minus),
        Some('=') => Ok(LlvmTokenOf::Assign),
        Some(':') => Ok(LlvmTokenOf::Colon),
        _ => Err(llvmLexer_error(lexer, ErrorKind::UnsupportedLlvmToken)),
    }
}

/// Consume and return the next token; it also becomes the current token.
pub fn llvmLexer_next_token(lexer: &mut LlvmLexer) -> (r: Result<LlvmToken, CompileError>)
    requires
        sf_wf(ll_sf(*old(lexer))),
    ensures
        llvm_token_result_view(r) == spec_llvm_next_token(ll_sf(*old(lexer))).0,
        r is Ok ==> ll_sf(*final(lexer)) == spec_llvm_next_token(ll_sf(*old(lexer))).1,
        r matches Ok(t) ==> ll_token(*final(lexer))@ == t@,
{
    proof {
        reveal(spec_llvm_next_token);
        lemma_llvm_skip(ll_sf(*lexer));
    }
    llvmLexer_skip_whitespace_and_comments(lexer);
    let token: LlvmToken = match llvmLexer_peek_char(lexer) {
        Some(ch) => {
            proof {
                lemma_text_len(ll_sf(*lexer));
            }
            if ch == 'c' && llvmLexer_next_char_eq(lexer, '"') {
                match llvmLexer_scan_cstring(lexer) {
                    Ok(value) => LlvmTokenOf::CString(value),
                    Err(e) => return Err(e),
                }
            } else if is_alpha(ch) || ch == '.' {
                let identifier: ByteString = llvmLexer_scan_identifier_or_keyword(lexer);
                llvm_identifier_to_token(identifier)
            } else if is_digit(ch) {
                match llvmLexer_scan_integer(lexer) {
                    Ok(value) => LlvmTokenOf::Integer(value),
                    Err(e) => return Err(e),
                }
            } else {
                match llvmLexer_scan_symbol(lexer) {
                    Ok(t) => t,
                    Err(e) => return Err(e),
                }
            }
        },
        None => LlvmTokenOf::Eof,
    };
    llvmLexer_set_current_token(lexer, llvmToken_clone(&token));
    Ok(token)
}

/// Create a lexer over `source` and scan its first token.
pub fn llvmLexer_new(source: ByteString) -> (r: Result<LlvmLexer, CompileError>)
    requires
        source@.len() + 2 < usize::MAX,
    ensures
        ({
            let (res, sf) = spec_llvm_next_token(
                SourceFile::SourceFile(source, 0, SourceLocation::Coords(1, 1)),
            );
            match res {
                Ok(t) => r matches Ok(l) && ll_sf(l) == sf && ll_token(l)@ == t,
                Err(e) => r == Err::<LlvmLexer, CompileError>(e),
            }
        }),
{
    let source_file: SourceFile = SourceFile::SourceFile(source, 0, SourceLocation::Coords(1, 1));
    let mut lexer: LlvmLexer = LlvmLexer::Lexer(source_file, LlvmTokenOf::Eof);
    match llvmLexer_next_token(&mut lexer) {
        Ok(_) => Ok(lexer),
        Err(e) => Err(e),
    }
}

/// Check whether two LLVM tokens are equal.
pub fn llvmToken_eq(left: &LlvmToken, right: &LlvmToken) -> (r: bool)
    ensures
        r == (left@ == right@),
{
    match left {
        LlvmTokenOf::Define => matches!(right, LlvmTokenOf::Define),
        LlvmTokenOf::Ret => matches!(right, LlvmTokenOf::Ret),
        LlvmTokenOf::Br => matches!(right, LlvmTokenOf::Br),
        LlvmTokenOf::Label => matches!(right, LlvmTokenOf::Label),
        LlvmTokenOf::Add => matches!(right, LlvmTokenOf::Add),
        LlvmTokenOf::Sub => matches!(right, LlvmTokenOf::Sub),
        LlvmTokenOf::Mul => matches!(right, LlvmTokenOf::Mul),
        LlvmTokenOf::Udiv => matches!(right, LlvmTokenOf::Udiv),
        LlvmTokenOf::Urem => matches!(right, LlvmTokenOf::Urem),
        LlvmTokenOf::Icmp => matches!(right, LlvmTokenOf::Icmp),
        LlvmTokenOf::Call => matches!(right, LlvmTokenOf::Call),
        LlvmTokenOf::Gep => matches!(right, LlvmTokenOf::Gep),
        LlvmTokenOf::Constant => matches!(right, LlvmTokenOf::Constant),
        LlvmTokenOf::Ult => matches!(right, LlvmTokenOf::Ult),
        LlvmTokenOf::Ptr => matches!(right, LlvmTokenOf::Ptr),
        LlvmTokenOf::I64 => matches!(right, LlvmTokenOf::I64),
        LlvmTokenOf::I32 => matches!(right, LlvmTokenOf::I32),
        LlvmTokenOf::I8 => matches!(right, LlvmTokenOf::I8),
        LlvmTokenOf::I1 => matches!(right, LlvmTokenOf::I1),
        LlvmTokenOf::Void => matches!(right, LlvmTokenOf::Void),
        LlvmTokenOf::At => matches!(right, LlvmTokenOf::At),
        LlvmTokenOf::Percent => matches!(right, LlvmTokenOf::Percent),
        LlvmTokenOf::LParen => matches!(right, LlvmTokenOf::LParen),
        LlvmTokenOf::RParen => matches!(right, LlvmTokenOf::RParen),
        LlvmTokenOf::LBrace => matches!(right, LlvmTokenOf::LBrace),
        LlvmTokenOf::RBrace => matches!(right, LlvmTokenOf::RBrace),
        LlvmTokenOf::LBracket => matches!(right, LlvmTokenOf::LBracket),
        LlvmTokenOf::RBracket => matches!(right, LlvmTokenOf::RBracket),
        LlvmTokenOf::Comma => matches!(right, LlvmTokenOf::Comma),
        LlvmTokenOf::Minus => matches!(right, LlvmTokenOf::Minus),
        LlvmTokenOf::Assign => matches!(right, LlvmTokenOf::Assign),
        LlvmTokenOf::Colon => matches!(right, LlvmTokenOf::Colon),
        LlvmTokenOf::CString(left_value) => match right {
            LlvmTokenOf::CString(right_value) => string_eq(left_value, right_value),
            _ => false,
        },
        LlvmTokenOf::Identifier(left_value) => match right {
            LlvmTokenOf::Identifier(right_value) => string_eq(left_value, right_value),
            _ => false,
        },
        LlvmTokenOf::Integer(left_value) => match right {
            LlvmTokenOf::Integer(right_value) => *left_value == *right_value,
            _ => false,
        },
        LlvmTokenOf::Eof => matches!(right, LlvmTokenOf::Eof),
    }
}

/// Copy an LLVM token.
pub fn llvmToken_clone(token: &LlvmToken) -> (r: LlvmToken)
    ensures
        r@ == token@,
{
    match token {
        LlvmTokenOf::Define => LlvmTokenOf::Define,
        LlvmTokenOf::Ret => LlvmTokenOf::Ret,
        LlvmTokenOf::Br => LlvmTokenOf::Br,
        LlvmTokenOf::Label => LlvmTokenOf::Label,
        LlvmTokenOf::Add => LlvmTokenOf::Add,
        LlvmTokenOf::Sub => LlvmTokenOf::Sub,
        LlvmTokenOf::Mul => LlvmTokenOf::Mul,
        LlvmTokenOf::Udiv => LlvmTokenOf::Udiv,
        LlvmTokenOf::Urem => LlvmTokenOf::Urem,
        LlvmTokenOf::Icmp => LlvmTokenOf::Icmp,
        LlvmTokenOf::Call => LlvmTokenOf::Call,
        LlvmTokenOf::Gep => LlvmTokenOf::Gep,
        LlvmTokenOf::Constant => LlvmTokenOf::Constant,
        LlvmTokenOf::Ult => LlvmTokenOf::Ult,
        LlvmTokenOf::Ptr => LlvmTokenOf::Ptr,
        LlvmTokenOf::I64 => LlvmTokenOf::I64,
        LlvmTokenOf::I32 => LlvmTokenOf::I32,
        LlvmTokenOf::I8 => LlvmTokenOf::I8,
        LlvmTokenOf::I1 => LlvmTokenOf::I1,
        LlvmTokenOf::Void => LlvmTokenOf::Void,
        LlvmTokenOf::At => LlvmTokenOf::At,
        LlvmTokenOf::Percent => LlvmTokenOf::Percent,
        LlvmTokenOf::LParen => LlvmTokenOf::LParen,
        LlvmTokenOf::RParen => LlvmTokenOf::RParen,
        LlvmTokenOf::LBrace => LlvmTokenOf::LBrace,
        LlvmTokenOf::RBrace => LlvmTokenOf::RBrace,
        LlvmTokenOf::LBracket => LlvmTokenOf::LBracket,
        LlvmTokenOf::RBracket => LlvmTokenOf::RBracket,
        LlvmTokenOf::Comma => LlvmTokenOf::Comma,
        LlvmTokenOf::Minus => LlvmTokenOf::Minus,
        LlvmTokenOf::Assign => LlvmTokenOf::Assign,
        LlvmTokenOf::Colon => LlvmTokenOf::Colon,
        LlvmTokenOf::CString(value) => LlvmTokenOf::CString(string_clone(value)),
        LlvmTokenOf::Identifier(value) => LlvmTokenOf::Identifier(string_clone(value)),
        LlvmTokenOf::Integer(value) => LlvmTokenOf::Integer(*value),
        LlvmTokenOf::Eof => LlvmTokenOf::Eof,
    }
}

} // verus!
