//! The lexer of the bootstrapped core: like `lexer`, but it rejects unknown
//! characters and unterminated string literals, and accepts Unicode letters.
use vstd::prelude::*;
use crate::lexer::{digits_end, digits_value, line_end, quote_end, lemma_digits_end, lemma_digits_value_mono, lemma_line_end, lemma_quote_end};
use crate::token::SpecToken;
use crate::wrapper::{
    OptionChar, OptionToken, Token, VecChar, VecToken, char_is_alphabetic, char_is_alphanumeric,
    char_is_digit, char_is_whitespace, str_eq, string_as_str, string_from_str, string_new,
    string_push, unicode_alphabetic, unicode_numeric, vec_char_from_str, vec_char_get,
    vec_char_len, vec_token_get, vec_token_new, vec_token_push,
};

verus! {

/// Why lexing stopped.
#[derive(Debug, PartialEq, Eq, Structural, Clone, Copy)]
pub enum LexError {
    /// A string literal has no closing quote.
    UnterminatedString,
    /// A character that starts no token.
    UnexpectedCharacter,
    /// The input ended where a character was needed.
    UnexpectedEnd,
}

impl LexError {
    /// The message that reports this error.
    pub fn message(&self) -> (r: &'static str)
        ensures
            *self == LexError::UnterminatedString ==> r@ == "unterminated string literal"@,
            *self == LexError::UnexpectedCharacter ==> r@ == "unexpected character"@,
            *self == LexError::UnexpectedEnd ==> r@ == "unexpected end of input"@,
    {
        match self {
            LexError::UnterminatedString => "unterminated string literal",
            LexError::UnexpectedCharacter => "unexpected character",
            LexError::UnexpectedEnd => "unexpected end of input",
        }
    }
}

/// What scanning at one position gives: a token, or nothing (a comment).
enum LexResult {
    Token(Token),
    Skip,
}

/// `r` is what the grammar says scanning gives.
spec fn scan_outcome(
    r: Result<(LexResult, usize), LexError>,
    g: Result<(Option<SpecToken>, int), LexError>,
) -> bool {
    match g {
        Ok((t, j)) => match r {
            Ok((lr, k)) => k == j && match t {
                Some(tok) => match lr {
                    LexResult::Token(v) => v@ == tok,
                    LexResult::Skip => false,
                },
                None => lr is Skip,
            },
            Err(_) => false,
        },
        Err(e) => r == Err::<(LexResult, usize), LexError>(e),
    }
}

// ------------------------------------------------------------------
// The token grammar.
// ------------------------------------------------------------------

pub open spec fn core_is_whitespace(c: char) -> bool {
    c == ' ' || c == '\t' || c == '\n' || c == '\x0C' || c == '\r'
}

pub open spec fn core_is_digit(c: char) -> bool {
    '0' <= c && c <= '9'
}

pub open spec fn core_ident_char(c: char) -> bool {
    unicode_alphabetic(c) || unicode_numeric(c) || c == '_'
}

/// The end of the run of identifier characters that starts at `i`.
pub open spec fn core_ident_end(s: Seq<char>, i: int) -> int
    decreases s.len() - i,
{
    if 0 <= i < s.len() && core_ident_char(s[i]) {
        core_ident_end(s, i + 1)
    } else {
        i
    }
}

pub open spec fn core_keyword_or_identifier(w: Seq<char>) -> SpecToken {
    if w == "fn"@ {
        SpecToken::Fn
    } else if w == "let"@ {
        SpecToken::Let
    } else if w == "if"@ {
        SpecToken::If
    } else if w == "while"@ {
        SpecToken::While
    } else if w == "return"@ {
        SpecToken::Return
    } else if w == "enum"@ {
        SpecToken::Enum
    } else if w == "match"@ {
        SpecToken::Match
    } else {
        SpecToken::Identifier(w)
    }
}

/// Reserved words are keywords: every keyword's spelling lexes to that
/// keyword and never to an identifier, and a word lexes to a keyword only when
/// it is that keyword's spelling; every other word is an identifier of itself.
pub proof fn law_reserved_words(t: SpecToken, w: Seq<char>)
    ensures
        crate::token::keyword_spelling(t) == Some(w) ==> core_keyword_or_identifier(w) == t,
        core_keyword_or_identifier(w) is Identifier ==> core_keyword_or_identifier(w) == SpecToken::Identifier(w),
        !(core_keyword_or_identifier(w) is Identifier) ==> crate::token::keyword_spelling(core_keyword_or_identifier(w)) == Some(w),
{
    reveal_strlit("fn");
    reveal_strlit("let");
    reveal_strlit("if");
    reveal_strlit("while");
    reveal_strlit("return");
    reveal_strlit("enum");
    reveal_strlit("match");
    assert("fn"@.len() == 2 && "fn"@[0] == 'f' && "fn"@[1] == 'n');
    assert("let"@.len() == 3 && "let"@[0] == 'l' && "let"@[1] == 'e');
    assert("if"@.len() == 2 && "if"@[0] == 'i' && "if"@[1] == 'f');
    assert("while"@.len() == 5 && "while"@[0] == 'w' && "while"@[1] == 'h');
    assert("return"@.len() == 6 && "return"@[0] == 'r' && "return"@[1] == 'e');
    assert("enum"@.len() == 4 && "enum"@[0] == 'e' && "enum"@[1] == 'n');
    assert("match"@.len() == 5 && "match"@[0] == 'm' && "match"@[1] == 'a');
}

/// The symbol at `i`, with the index after it.
pub open spec fn core_symbol(s: Seq<char>, i: int) -> Result<(SpecToken, int), LexError> {
    let c = s[i];
    if c == '{' {
        Ok((SpecToken::LBrace, i + 1))
    } else if c == '}' {
        Ok((SpecToken::RBrace, i + 1))
    } else if c == '(' {
        Ok((SpecToken::LParen, i + 1))
    } else if c == ')' {
        Ok((SpecToken::RParen, i + 1))
    } else if c == ':' {
        Ok((SpecToken::Colon, i + 1))
    } else if c == ';' {
        Ok((SpecToken::SemiColon, i + 1))
    } else if c == ',' {
        Ok((SpecToken::Comma, i + 1))
    } else if c == '+' {
        Ok((SpecToken::Plus, i + 1))
    } else if c == '*' {
        Ok((SpecToken::Star, i + 1))
    } else if c == '-' {
        if i + 1 < s.len() && s[i + 1] == '>' {
            Ok((SpecToken::Arrow, i + 2))
        } else {
            Ok((SpecToken::Minus, i + 1))
        }
    } else if c == '=' {
        if i + 1 < s.len() && s[i + 1] == '=' {
            Ok((SpecToken::Eq, i + 2))
        } else {
            Ok((SpecToken::Assign, i + 1))
        }
    } else {
        Err(LexError::UnexpectedCharacter)
    }
}

/// What scanning the non-whitespace character at `i` gives: a token (or
/// nothing, for a comment) and the index where lexing goes on.
pub open spec fn core_scan(s: Seq<char>, i: int) -> Result<(Option<SpecToken>, int), LexError> {
    let c = s[i];
    if c == '/' {
        if i + 1 < s.len() && s[i + 1] == '/' {
            Ok((None, line_end(s, i + 2)))
        } else {
            Ok((Some(SpecToken::Slash), i + 1))
        }
    } else if core_is_digit(c) {
        let j = digits_end(s, i);
        Ok((Some(SpecToken::Integer(digits_value(s, i, j) as u64)), j))
    } else if unicode_alphabetic(c) || c == '_' {
        let j = core_ident_end(s, i);
        Ok((Some(core_keyword_or_identifier(s.subrange(i, j))), j))
    } else if c == '"' {
        let k = quote_end(s, i + 1);
        if k < s.len() {
            Ok((Some(SpecToken::StringLiteral(s.subrange(i + 1, k))), k + 1))
        } else {
            Err(LexError::UnterminatedString)
        }
    } else {
        match core_symbol(s, i) {
            Ok((t, j)) => Ok((Some(t), j)),
            Err(e) => Err(e),
        }
    }
}

/// The integer literal scanned at `i`, if any, fits in 64 bits.
pub open spec fn core_literal_fits_at(s: Seq<char>, i: int) -> bool {
    (0 <= i < s.len() && core_is_digit(s[i])) ==> digits_value(s, i, digits_end(s, i))
        <= u64::MAX
}

/// The tokens of `s` from `i` on, ending with `Eof`, or the first error.
pub open spec fn core_lex_from(s: Seq<char>, i: int) -> Result<Seq<SpecToken>, LexError>
    decreases s.len() - i,
{
    if i < 0 || i >= s.len() {
        Ok(seq![SpecToken::EOF])
    } else if core_is_whitespace(s[i]) {
        core_lex_from(s, i + 1)
    } else {
        proof {
            lemma_core_scan_bounds(s, i);
        }
        match core_scan(s, i) {
            Err(e) => Err(e),
            Ok((t, j)) => match core_lex_from(s, j) {
                Err(e) => Err(e),
                Ok(rest) => match t {
                    Some(tok) => Ok(seq![tok] + rest),
                    None => Ok(rest),
                },
            },
        }
    }
}

/// Every integer literal met from `i` on fits in 64 bits.
pub open spec fn core_literals_fit_from(s: Seq<char>, i: int) -> bool
    decreases s.len() - i,
{
    if i < 0 || i >= s.len() {
        true
    } else if core_is_whitespace(s[i]) {
        core_literals_fit_from(s, i + 1)
    } else {
        proof {
            lemma_core_scan_bounds(s, i);
        }
        core_literal_fits_at(s, i) && match core_scan(s, i) {
            Err(_) => true,
            Ok((_, j)) => core_literals_fit_from(s, j),
        }
    }
}

pub proof fn lemma_core_ident_end(s: Seq<char>, i: int)
    requires
        0 <= i,
    ensures
        i <= core_ident_end(s, i),
        i <= s.len() ==> core_ident_end(s, i) <= s.len(),
    decreases s.len() - i,
{
    if i < s.len() && core_ident_char(s[i]) {
        lemma_core_ident_end(s, i + 1);
    }
}

/// Scanning moves forward and stays within the text.
pub proof fn lemma_core_scan_bounds(s: Seq<char>, i: int)
    requires
        0 <= i < s.len(),
    ensures
        core_scan(s, i) matches Ok((_, j)) ==> i < j <= s.len(),
{
    let c = s[i];
    if c == '/' {
        if i + 1 < s.len() && s[i + 1] == '/' {
            lemma_line_end(s, i + 2);
        }
    } else if core_is_digit(c) {
        assert(digits_end(s, i) == digits_end(s, i + 1));
        lemma_digits_end(s, i + 1);
    } else if unicode_alphabetic(c) || c == '_' {
        assert(core_ident_end(s, i) == core_ident_end(s, i + 1));
        lemma_core_ident_end(s, i + 1);
    } else if c == '"' {
        lemma_quote_end(s, i + 1);
    }
}

// ------------------------------------------------------------------
// The lexer.
// ------------------------------------------------------------------

/// Lexes `source` into tokens ending with `Eof`, or reports the first error.
pub fn lex(source: &str) -> (r: Result<VecToken, LexError>)
    requires
        core_literals_fit_from(source@, 0),
    ensures
        match core_lex_from(source@, 0) {
            Ok(toks) => r matches Ok(v) && v@ == toks,
            Err(e) => r == Err::<VecToken, LexError>(e),
        },
{
    let ghost s = source@;
    let chars: VecChar = vec_char_from_str(source);
    let mut tokens: VecToken = vec_token_new();
    let mut i: usize = 0;
    let len: usize = vec_char_len(&chars);

    while i < len
        invariant
            chars@ == s,
            s == source@,
            len == s.len(),
            i <= len,
            core_literals_fit_from(s, i as int),
            match core_lex_from(s, 0) {
                Ok(all) => core_lex_from(s, i as int) matches Ok(rest) && all == tokens@ + rest,
                Err(e) => core_lex_from(s, i as int) == Err::<Seq<SpecToken>, LexError>(e),
            },
        decreases len - i,
    {
        let c_opt: OptionChar = vec_char_get(&chars, i);
        match c_opt {
            OptionChar::Value(c) => {
                if char_is_whitespace(c) {
                    i = i + 1;
                } else {
                    proof {
                        lemma_core_scan_bounds(s, i as int);
                    }
                    let result = scan_token(&chars, i, len);
                    match result {
                        Err(e) => {
                            assert(core_lex_from(s, i as int) == Err::<Seq<SpecToken>, LexError>(
                                e,
                            ));
                            proof {
                                match core_lex_from(s, 0) {
                                    Ok(all) => {
                                        assert(false);
                                    },
                                    Err(e0) => {
                                        assert(e0 == e);
                                    },
                                }
                            }
                            return Err(e);
                        },
                        Ok((LexResult::Token(t), next_i)) => {
                            let ghost tv = t@;
                            let ghost old_tokens = tokens@;
                            vec_token_push(&mut tokens, t);
                            i = next_i;
                            proof {
                                if let Ok(all) = core_lex_from(s, 0) {
                                    let rest = core_lex_from(s, i as int)->Ok_0;
                                    assert(all == old_tokens + (seq![tv] + rest));
                                    assert(all =~= tokens@ + rest);
                                }
                            }
                        },
                        Ok((LexResult::Skip, next_i)) => {
                            i = next_i;
                        },
                    }
                }
            },
            OptionChar::Nothing => {
                i = i + 1;
            },
        }
    }

    vec_token_push(&mut tokens, Token::Eof);
    proof {
        if let Ok(all) = core_lex_from(s, 0) {
            assert(all =~= tokens@);
        }
    }
    Ok(tokens)
}

/// Scans the token at `i`, which is not whitespace.
fn scan_token(chars: &VecChar, i: usize, len: usize) -> (r: Result<(LexResult, usize), LexError>)
    requires
        len == chars@.len(),
        i < len,
        !core_is_whitespace(chars@[i as int]),
        core_literal_fits_at(chars@, i as int),
    ensures
        scan_outcome(r, core_scan(chars@, i as int)),
{
    let c: char = unwrap_char(vec_char_get(chars, i));

    if c == '/' {
        return scan_slash_or_comment(chars, i, len);
    }
    if char_is_digit(c) {
        return Ok(scan_integer(chars, i, len));
    }
    if char_is_alphabetic(c) {
        return Ok(scan_identifier(chars, i, len));
    }
    if c == '_' {
        return Ok(scan_identifier(chars, i, len));
    }
    if c == '"' {
        return scan_string(chars, i, len);
    }
    scan_symbol(chars, i)
}

/// Scans '/' or a line comment.
fn scan_slash_or_comment(chars: &VecChar, i: usize, len: usize) -> (r: Result<
    (LexResult, usize),
    LexError,
>)
    requires
        len == chars@.len(),
        i < len,
        chars@[i as int] == '/',
    ensures
        scan_outcome(r, core_scan(chars@, i as int)),
{
    proof {
        chars.lemma_len_fits();
    }
    let next_opt: OptionChar = vec_char_get(chars, i + 1);
    match next_opt {
        OptionChar::Value(next) => {
            if next == '/' {
                let end: usize = skip_line_comment(chars, i + 2, len);
                return Ok((LexResult::Skip, end));
            }
            Ok((LexResult::Token(Token::Slash), i + 1))
        },
        OptionChar::Nothing => Ok((LexResult::Token(Token::Slash), i + 1)),
    }
}

/// The index of the next newline at or after `start`, or the end.
fn skip_line_comment(chars: &VecChar, start: usize, len: usize) -> (r: usize)
    requires
        len == chars@.len(),
    ensures
        r == line_end(chars@, start as int),
{
    let mut i: usize = start;
    while i < len
        invariant
            len == chars@.len(),
            start <= i,
            line_end(chars@, i as int) == line_end(chars@, start as int),
        decreases len - i,
    {
        let c_opt: OptionChar = vec_char_get(chars, i);
        match c_opt {
            OptionChar::Value(c) => {
                if c == '\n' {
                    return i;
                }
                i = i + 1;
            },
            OptionChar::Nothing => {
                return i;
            },
        }
    }
    i
}

/// Scans an integer literal.
fn scan_integer(chars: &VecChar, start: usize, len: usize) -> (r: (LexResult, usize))
    requires
        len == chars@.len(),
        start < len,
        core_is_digit(chars@[start as int]),
        core_literal_fits_at(chars@, start as int),
    ensures
        r.1 == digits_end(chars@, start as int),
        r.0 matches LexResult::Token(v) && v@ == SpecToken::Integer(
            digits_value(chars@, start as int, r.1 as int) as u64,
        ),
{
    let ghost s = chars@;
    let ghost end = digits_end(s, start as int);
    proof {
        lemma_digits_end(s, start as int);
    }
    let mut val: u64 = 0;
    let mut i: usize = start;

    while i < len
        invariant
            s == chars@,
            len == s.len(),
            start <= i <= end,
            end == digits_end(s, start as int),
            end <= len,
            digits_end(s, i as int) == end,
            val == digits_value(s, start as int, i as int),
            digits_value(s, start as int, end) <= u64::MAX,
            forall|k: int| start <= k < end ==> crate::lexer::spec_is_digit(#[trigger] s[k]),
        decreases len - i,
    {
        let c_opt: OptionChar = vec_char_get(chars, i);
        match c_opt {
            OptionChar::Value(c) => {
                if char_is_digit(c) {
                    proof {
                        assert(digits_end(s, i as int) == digits_end(s, i + 1));
                        lemma_digits_end(s, i + 1);
                        lemma_digits_value_mono(s, start as int, i + 1, end);
                    }
                    val = val * 10 + char_digit_to_u64(c);
                    i = i + 1;
                } else {
                    return (LexResult::Token(Token::Integer(val)), i);
                }
            },
            OptionChar::Nothing => {
                return (LexResult::Token(Token::Integer(val)), i);
            },
        }
    }
    (LexResult::Token(Token::Integer(val)), i)
}

/// The value of a decimal digit character.
fn char_digit_to_u64(c: char) -> (r: u64)
    requires
        '0' <= c <= '9',
    ensures
        r == c as int - '0' as int,
{
    let c_val: u64 = c as u64;
    let zero_val: u64 = '0' as u64;
    c_val - zero_val
}

/// Scans an identifier or keyword.
fn scan_identifier(chars: &VecChar, start: usize, len: usize) -> (r: (LexResult, usize))
    requires
        len == chars@.len(),
        start < len,
    ensures
        r.1 == core_ident_end(chars@, start as int),
        r.0 matches LexResult::Token(v) && v@ == core_keyword_or_identifier(
            chars@.subrange(start as int, r.1 as int),
        ),
{
    let ghost s = chars@;
    let mut word: String = string_new();
    let mut i: usize = start;

    while i < len
        invariant
            s == chars@,
            len == s.len(),
            start <= i <= len,
            core_ident_end(s, i as int) == core_ident_end(s, start as int),
            word@ == s.subrange(start as int, i as int),
        decreases len - i,
    {
        let c_opt: OptionChar = vec_char_get(chars, i);
        match c_opt {
            OptionChar::Value(c) => {
                if char_is_alphanumeric(c) {
                    string_push(&mut word, c);
                    i = i + 1;
                    assert(word@ =~= s.subrange(start as int, i as int));
                } else if c == '_' {
                    string_push(&mut word, c);
                    i = i + 1;
                    assert(word@ =~= s.subrange(start as int, i as int));
                } else {
                    return (LexResult::Token(keyword_or_identifier(word)), i);
                }
            },
            OptionChar::Nothing => {
                return (LexResult::Token(keyword_or_identifier(word)), i);
            },
        }
    }
    (LexResult::Token(keyword_or_identifier(word)), i)
}

/// The keyword token for a word, or an identifier.
fn keyword_or_identifier(s: String) -> (r: Token)
    ensures
        r@ == core_keyword_or_identifier(s@),
{
    let text: &str = string_as_str(&s);

    if str_eq(text, "fn") {
        return Token::Fn;
    }
    if str_eq(text, "let") {
        return Token::Let;
    }
    if str_eq(text, "if") {
        return Token::If;
    }
    if str_eq(text, "while") {
        return Token::While;
    }
    if str_eq(text, "return") {
        return Token::Return;
    }
    if str_eq(text, "enum") {
        return Token::Enum;
    }
    if str_eq(text, "match") {
        return Token::Match;
    }
    Token::Identifier(s)
}

/// Scans a string literal; fails if it is not closed.
fn scan_string(chars: &VecChar, start: usize, len: usize) -> (r: Result<(LexResult, usize), LexError>)
    requires
        len == chars@.len(),
        start < len,
        chars@[start as int] == '"',
        !unicode_alphabetic(chars@[start as int]),
    ensures
        scan_outcome(r, core_scan(chars@, start as int)),
{
    proof {
        chars.lemma_len_fits();
    }
    let ghost s = chars@;
    let mut text: String = string_new();
    let mut i: usize = start + 1;

    while i < len
        invariant
            s == chars@,
            len == s.len(),
            start + 1 <= i <= len,
            s[start as int] == '"',
            !unicode_alphabetic(s[start as int]),
            quote_end(s, i as int) == quote_end(s, start + 1),
            text@ == s.subrange(start + 1, i as int),
        decreases len - i,
    {
        let c_opt: OptionChar = vec_char_get(chars, i);
        match c_opt {
            OptionChar::Value(c) => {
                if c == '"' {
                    assert(quote_end(s, i as int) == i);
                    return Ok((LexResult::Token(Token::StringLiteral(text)), i + 1));
                }
                string_push(&mut text, c);
                i = i + 1;
                assert(text@ =~= s.subrange(start + 1, i as int));
            },
            OptionChar::Nothing => {
                return Err(LexError::UnterminatedString);
            },
        }
    }
    Err(LexError::UnterminatedString)
}

/// Scans a symbol; fails on a character that starts no token.
fn scan_symbol(chars: &VecChar, i: usize) -> (r: Result<(LexResult, usize), LexError>)
    requires
        i < chars@.len(),
        chars@[i as int] != '/',
        !core_is_digit(chars@[i as int]),
        !unicode_alphabetic(chars@[i as int]),
        chars@[i as int] != '_',
        chars@[i as int] != '"',
    ensures
        scan_outcome(r, core_scan(chars@, i as int)),
{
    proof {
        chars.lemma_len_fits();
    }
    let c: char = unwrap_char(vec_char_get(chars, i));

    match c {
        '{' => Ok((LexResult::Token(Token::LBrace), i + 1)),
        '}' => Ok((LexResult::Token(Token::RBrace), i + 1)),
        '(' => Ok((LexResult::Token(Token::LParen), i + 1)),
        ')' => Ok((LexResult::Token(Token::RParen), i + 1)),
        ':' => Ok((LexResult::Token(Token::Colon), i + 1)),
        ';' => Ok((LexResult::Token(Token::SemiColon), i + 1)),
        ',' => Ok((LexResult::Token(Token::Comma), i + 1)),
        '+' => Ok((LexResult::Token(Token::Plus), i + 1)),
        '*' => Ok((LexResult::Token(Token::Star), i + 1)),
        '-' => Ok(scan_minus_or_arrow(chars, i)),
        '=' => Ok(scan_assign_or_eq(chars, i)),
        _ => Err(LexError::UnexpectedCharacter),
    }
}

/// Scans '-' or '->'.
fn scan_minus_or_arrow(chars: &VecChar, i: usize) -> (r: (LexResult, usize))
    requires
        i < chars@.len(),
        chars@[i as int] != '/',
        !core_is_digit(chars@[i as int]),
        !unicode_alphabetic(chars@[i as int]),
        chars@[i as int] != '_',
        chars@[i as int] != '"',
        chars@[i as int] == '-',
    ensures
        scan_outcome(Ok(r), core_scan(chars@, i as int)),
{
    proof {
        chars.lemma_len_fits();
    }
    let next_opt: OptionChar = vec_char_get(chars, i + 1);
    match next_opt {
        OptionChar::Value(next) => {
            if next == '>' {
                return (LexResult::Token(Token::Arrow), i + 2);
            }
            (LexResult::Token(Token::Minus), i + 1)
        },
        OptionChar::Nothing => (LexResult::Token(Token::Minus), i + 1),
    }
}

/// Scans '=' or '=='.
fn scan_assign_or_eq(chars: &VecChar, i: usize) -> (r: (LexResult, usize))
    requires
        i < chars@.len(),
        chars@[i as int] != '/',
        !core_is_digit(chars@[i as int]),
        !unicode_alphabetic(chars@[i as int]),
        chars@[i as int] != '_',
        chars@[i as int] != '"',
        chars@[i as int] == '=',
    ensures
        scan_outcome(Ok(r), core_scan(chars@, i as int)),
{
    proof {
        chars.lemma_len_fits();
    }
    let next_opt: OptionChar = vec_char_get(chars, i + 1);
    match next_opt {
        OptionChar::Value(next) => {
            if next == '=' {
                return (LexResult::Token(Token::Eq), i + 2);
            }
            (LexResult::Token(Token::Assign), i + 1)
        },
        OptionChar::Nothing => (LexResult::Token(Token::Assign), i + 1),
    }
}

/// The character inside `opt`, which must hold one.
fn unwrap_char(opt: OptionChar) -> (r: char)
    requires
        opt is Value,
    ensures
        opt == OptionChar::Value(r),
{
    match opt {
        OptionChar::Value(c) => c,
        OptionChar::Nothing => unreached(),
    }
}

/// The token at index `i`, which must exist.
pub fn get_token(tokens: &VecToken, i: usize) -> (r: Token)
    requires
        i < tokens@.len(),
    ensures
        r@ == tokens@[i as int],
{
    let opt: OptionToken = vec_token_get(tokens, i);
    match opt {
        OptionToken::Value(t) => t,
        OptionToken::Nothing => unreached(),
    }
}

/// A string with the text of `s`.
pub fn make_string(s: &str) -> (r: String)
    ensures
        r@ == s@,
{
    string_from_str(s)
}

} // verus!
