//! A small stand-alone lexer: turns a source text into a list of tokens.
use vstd::prelude::*;
use crate::runtime::{CharList, OptionChar, OptionToken, TokenList};
use crate::token::{SpecToken, Token};
use crate::wrapper::string_push;

verus! {

// ------------------------------------------------------------------
// The token grammar, as functions on the sequence of characters.
// ------------------------------------------------------------------

pub open spec fn spec_is_whitespace(c: char) -> bool {
    c == ' ' || c == '\n' || c == '\t' || c == '\r'
}

pub open spec fn spec_is_digit(c: char) -> bool {
    '0' <= c && c <= '9'
}

pub open spec fn spec_is_alphabetic(c: char) -> bool {
    ('a' <= c && c <= 'z') || ('A' <= c && c <= 'Z') || c == '_'
}

pub open spec fn spec_is_alphanumeric(c: char) -> bool {
    spec_is_alphabetic(c) || spec_is_digit(c)
}

/// The first index at or after `i` that holds a newline, or `i` when `i` is past the end.
pub open spec fn line_end(s: Seq<char>, i: int) -> int
    decreases s.len() - i,
{
    if i >= s.len() {
        i
    } else if s[i] == '\n' {
        i
    } else {
        line_end(s, i + 1)
    }
}

/// The end of the run of decimal digits that starts at `i`.
pub open spec fn digits_end(s: Seq<char>, i: int) -> int
    decreases s.len() - i,
{
    if 0 <= i < s.len() && spec_is_digit(s[i]) {
        digits_end(s, i + 1)
    } else {
        i
    }
}

/// The end of the run of identifier characters that starts at `i`.
pub open spec fn ident_end(s: Seq<char>, i: int) -> int
    decreases s.len() - i,
{
    if 0 <= i < s.len() && spec_is_alphanumeric(s[i]) {
        ident_end(s, i + 1)
    } else {
        i
    }
}

/// The first index at or after `i` that holds a double quote, or the length.
pub open spec fn quote_end(s: Seq<char>, i: int) -> int
    decreases s.len() - i,
{
    if i >= s.len() {
        i
    } else if s[i] == '"' {
        i
    } else {
        quote_end(s, i + 1)
    }
}

/// The decimal value of the digits `s[i..j]`.
pub open spec fn digits_value(s: Seq<char>, i: int, j: int) -> nat
    decreases j - i,
{
    if j <= i {
        0
    } else {
        digits_value(s, i, j - 1) * 10 + ((s[j - 1] as int - '0' as int) as nat)
    }
}

/// The token for a word: a keyword, or else an identifier.
pub open spec fn spec_keyword_or_id(w: Seq<char>) -> SpecToken {
    if w == "fn"@ {
        SpecToken::Fn
    } else if w == "let"@ {
        SpecToken::Let
    } else if w == "if"@ {
        SpecToken::If
    } else if w == "while"@ {
        SpecToken::While
    } else if w == "return"@ {
        SpecToken::Return
    } else if w == "enum"@ {
        SpecToken::Enum
    } else if w == "match"@ {
        SpecToken::Match
    } else {
        SpecToken::Identifier(w)
    }
}

/// Reserved words are keywords: every keyword's spelling lexes to that
/// keyword and never to an identifier, and a word lexes to a keyword only when
/// it is that keyword's spelling; every other word is an identifier of itself.
pub proof fn law_keywords_are_reserved(t: SpecToken, w: Seq<char>)
    ensures
        crate::token::keyword_spelling(t) == Some(w) ==> spec_keyword_or_id(w) == t,
        spec_keyword_or_id(w) is Identifier ==> spec_keyword_or_id(w) == SpecToken::Identifier(w),
        !(spec_keyword_or_id(w) is Identifier) ==> crate::token::keyword_spelling(spec_keyword_or_id(w)) == Some(w),
{
    reveal_strlit("fn");
    reveal_strlit("let");
    reveal_strlit("if");
    reveal_strlit("while");
    reveal_strlit("return");
    reveal_strlit("enum");
    reveal_strlit("match");
    assert("fn"@.len() == 2 && "fn"@[0] == 'f' && "fn"@[1] == 'n');
    assert("let"@.len() == 3 && "let"@[0] == 'l' && "let"@[1] == 'e');
    assert("if"@.len() == 2 && "if"@[0] == 'i' && "if"@[1] == 'f');
    assert("while"@.len() == 5 && "while"@[0] == 'w' && "while"@[1] == 'h');
    assert("return"@.len() == 6 && "return"@[0] == 'r' && "return"@[1] == 'e');
    assert("enum"@.len() == 4 && "enum"@[0] == 'e' && "enum"@[1] == 'n');
    assert("match"@.len() == 5 && "match"@[0] == 'm' && "match"@[1] == 'a');
}

/// The symbol token at `i` and the index after it; unknown characters give no token.
pub open spec fn spec_symbol(s: Seq<char>, i: int) -> (Option<SpecToken>, int) {
    let c = s[i];
    if c == '{' {
        (Some(SpecToken::LBrace), i + 1)
    } else if c == '}' {
        (Some(SpecToken::RBrace), i + 1)
    } else if c == '(' {
        (Some(SpecToken::LParen), i + 1)
    } else if c == ')' {
        (Some(SpecToken::RParen), i + 1)
    } else if c == ':' {
        (Some(SpecToken::Colon), i + 1)
    } else if c == ';' {
        (Some(SpecToken::SemiColon), i + 1)
    } else if c == ',' {
        (Some(SpecToken::Comma), i + 1)
    } else if c == '+' {
        (Some(SpecToken::Plus), i + 1)
    } else if c == '*' {
        (Some(SpecToken::Star), i + 1)
    } else if c == '-' {
        if i + 1 < s.len() && s[i + 1] == '>' {
            (Some(SpecToken::Arrow), i + 2)
        } else {
            (Some(SpecToken::Minus), i + 1)
        }
    } else if c == '=' {
        if i + 1 < s.len() && s[i + 1] == '=' {
            (Some(SpecToken::Eq), i + 2)
        } else {
            (Some(SpecToken::Assign), i + 1)
        }
    } else {
        (None, i + 1)
    }
}

/// A symbol always moves the scan forward: by two characters exactly for `->`
/// and `==`, which give an arrow and an equality, and by one otherwise.
pub proof fn law_symbol_progress(s: Seq<char>, i: int)
    requires
        0 <= i < s.len(),
    ensures
        ({
            let (t, j) = spec_symbol(s, i);
            let two = i + 1 < s.len() && ((s[i] == '-' && s[i + 1] == '>') || (s[i] == '=' && s[i
                + 1] == '='));
            &&& (j == i + 2) == two
            &&& !two ==> j == i + 1
            &&& (two && s[i] == '-') ==> t == Some(SpecToken::Arrow)
            &&& (two && s[i] == '=') ==> t == Some(SpecToken::Eq)
        }),
{
}

/// The token (if any) that starts at `i`, and the index where scanning goes on.
/// Whitespace, comments and unknown characters give no token.
pub open spec fn spec_next_token(s: Seq<char>, i: int) -> (Option<SpecToken>, int) {
    if i < 0 || i >= s.len() {
        (None, i + 1)
    } else {
        let c = s[i];
        if spec_is_whitespace(c) {
            (None, i + 1)
        } else if c == '/' {
            if i + 1 < s.len() && s[i + 1] == '/' {
                (None, line_end(s, i + 2))
            } else {
                (Some(SpecToken::Slash), i + 1)
            }
        } else if spec_is_digit(c) {
            let j = digits_end(s, i);
            (Some(SpecToken::Integer(digits_value(s, i, j) as u64)), j)
        } else if spec_is_alphabetic(c) {
            let j = ident_end(s, i);
            (Some(spec_keyword_or_id(s.subrange(i, j))), j)
        } else if c == '"' {
            let k = quote_end(s, i + 1);
            if k < s.len() {
                (Some(SpecToken::StringLiteral(s.subrange(i + 1, k))), k + 1)
            } else {
                (Some(SpecToken::StringLiteral(s.subrange(i + 1, k))), k)
            }
        } else {
            spec_symbol(s, i)
        }
    }
}

/// The integer literal that starts at `i` (if one does) fits in 64 bits.
pub open spec fn literal_fits_at(s: Seq<char>, i: int) -> bool {
    (0 <= i < s.len() && spec_is_digit(s[i])) ==> digits_value(s, i, digits_end(s, i))
        <= u64::MAX
}

/// The tokens of `s` from index `i` on, ending with `EOF`.
pub open spec fn lex_from(s: Seq<char>, i: int) -> Seq<SpecToken>
    recommends
        0 <= i,
    decreases s.len() - i,
{
    if i < 0 || i >= s.len() {
        seq![SpecToken::EOF]
    } else {
        proof {
            lemma_next_token_bounds(s, i);
        }
        let (t, j) = spec_next_token(s, i);
        match t {
            Some(tok) => seq![tok] + lex_from(s, j),
            None => lex_from(s, j),
        }
    }
}

/// Every integer literal that the lexer meets from `i` on fits in 64 bits.
pub open spec fn literals_fit_from(s: Seq<char>, i: int) -> bool
    decreases s.len() - i,
{
    if i < 0 || i >= s.len() {
        true
    } else {
        proof {
            lemma_next_token_bounds(s, i);
        }
        literal_fits_at(s, i) && literals_fit_from(s, spec_next_token(s, i).1)
    }
}

/// The token sequence of a whole source text.
pub open spec fn spec_lex(s: Seq<char>) -> Seq<SpecToken> {
    lex_from(s, 0)
}

// ------------------------------------------------------------------
// Lemmas about the grammar.
// ------------------------------------------------------------------

pub proof fn lemma_line_end(s: Seq<char>, i: int)
    requires
        0 <= i,
    ensures
        i <= line_end(s, i),
        i <= s.len() ==> line_end(s, i) <= s.len(),
        line_end(s, i) < s.len() ==> s[line_end(s, i)] == '\n',
        forall|k: int| i <= k < line_end(s, i) ==> s[k] != '\n',
    decreases s.len() - i,
{
    if i < s.len() && s[i] != '\n' {
        lemma_line_end(s, i + 1);
    }
}

pub proof fn lemma_quote_end(s: Seq<char>, i: int)
    requires
        0 <= i,
    ensures
        i <= quote_end(s, i),
        i <= s.len() ==> quote_end(s, i) <= s.len(),
        quote_end(s, i) < s.len() ==> s[quote_end(s, i)] == '"',
        forall|k: int| i <= k < quote_end(s, i) ==> s[k] != '"',
    decreases s.len() - i,
{
    if i < s.len() && s[i] != '"' {
        lemma_quote_end(s, i + 1);
    }
}

pub proof fn lemma_digits_end(s: Seq<char>, i: int)
    requires
        0 <= i,
    ensures
        i <= digits_end(s, i),
        i <= s.len() ==> digits_end(s, i) <= s.len(),
        digits_end(s, i) < s.len() ==> !spec_is_digit(s[digits_end(s, i)]),
        forall|k: int| i <= k < digits_end(s, i) ==> spec_is_digit(#[trigger] s[k]),
    decreases s.len() - i,
{
    if i < s.len() && spec_is_digit(s[i]) {
        lemma_digits_end(s, i + 1);
    }
}

pub proof fn lemma_ident_end(s: Seq<char>, i: int)
    requires
        0 <= i,
    ensures
        i <= ident_end(s, i),
        i <= s.len() ==> ident_end(s, i) <= s.len(),
        ident_end(s, i) < s.len() ==> !spec_is_alphanumeric(s[ident_end(s, i)]),
        forall|k: int| i <= k < ident_end(s, i) ==> spec_is_alphanumeric(#[trigger] s[k]),
    decreases s.len() - i,
{
    if i < s.len() && spec_is_alphanumeric(s[i]) {
        lemma_ident_end(s, i + 1);
    }
}

/// A digit prefix is never worth more than a longer one.
pub proof fn lemma_digits_value_mono(s: Seq<char>, i: int, j: int, k: int)
    requires
        i <= j <= k,
        forall|m: int| i <= m < k ==> spec_is_digit(#[trigger] s[m]),
    ensures
        digits_value(s, i, j) <= digits_value(s, i, k),
    decreases k - j,
{
    if j < k {
        lemma_digits_value_mono(s, i, j, k - 1);
    }
}

/// Scanning from a position inside the text always moves forward and never past the end.
pub proof fn lemma_next_token_bounds(s: Seq<char>, i: int)
    requires
        0 <= i < s.len(),
    ensures
        i < spec_next_token(s, i).1 <= s.len(),
{
    let c = s[i];
    if spec_is_whitespace(c) {
    } else if c == '/' {
        if i + 1 < s.len() && s[i + 1] == '/' {
            lemma_line_end(s, i + 2);
        }
    } else if spec_is_digit(c) {
        lemma_digits_end(s, i);
        assert(digits_end(s, i) == digits_end(s, i + 1));
        lemma_digits_end(s, i + 1);
    } else if spec_is_alphabetic(c) {
        assert(ident_end(s, i) == ident_end(s, i + 1));
        lemma_ident_end(s, i + 1);
    } else if c == '"' {
        lemma_quote_end(s, i + 1);
    }
}

// ------------------------------------------------------------------
// The lexer.
// ------------------------------------------------------------------

fn is_whitespace(c: char) -> (r: bool)
    ensures
        r == spec_is_whitespace(c),
{
    c == ' ' || c == '\n' || c == '\t' || c == '\r'
}

fn is_digit(c: char) -> (r: bool)
    ensures
        r == spec_is_digit(c),
{
    c >= '0' && c <= '9'
}

fn is_alphabetic(c: char) -> (r: bool)
    ensures
        r == spec_is_alphabetic(c),
{
    (c >= 'a' && c <= 'z') || (c >= 'A' && c <= 'Z') || c == '_'
}

fn is_alphanumeric(c: char) -> (r: bool)
    ensures
        r == spec_is_alphanumeric(c),
{
    is_alphabetic(c) || is_digit(c)
}

/// Lexes `source` into tokens, ending with `EOF`.
pub fn lex(source: String) -> (tokens: TokenList)
    requires
        literals_fit_from(source@, 0),
    ensures
        tokens@ == spec_lex(source@),
{
    let ghost s = source@;
    let chars: CharList = CharList::from_string(source);
    let mut tokens: TokenList = TokenList::new();
    let mut i: usize = 0;
    let len: usize = chars.len();

    while i < len
        invariant
            chars@ == s,
            len == s.len(),
            i <= len,
            tokens@ + lex_from(s, i as int) == lex_from(s, 0),
            literals_fit_from(s, i as int),
        decreases len - i,
    {
        let (token_opt, next_i): (OptionToken, usize) = next_token(&chars, i);
        proof {
            lemma_next_token_bounds(s, i as int);
        }
        let ghost old_tokens = tokens@;
        // Ensure progress
        if next_i <= i {
            i = i + 1;
        } else {
            i = next_i;
        }
        match token_opt {
            OptionToken::Value(t) => {
                let ghost tv = t@;
                tokens.push(t);
                assert(tokens@ + lex_from(s, i as int) =~= old_tokens + (seq![tv] + lex_from(
                    s,
                    i as int,
                )));
            },
            OptionToken::Nothing => {},
        }
    }
    tokens.push(Token::EOF);
    proof {
        assert(lex_from(s, i as int) == seq![SpecToken::EOF]);
    }
    tokens
}

fn next_token(chars: &CharList, i: usize) -> (r: (OptionToken, usize))
    requires
        i < usize::MAX,
        literal_fits_at(chars@, i as int),
    ensures
        ({
            let (t, j) = spec_next_token(chars@, i as int);
            &&& r.1 == j
            &&& match t {
                Some(tok) => r.0 matches OptionToken::Value(v) && v@ == tok,
                None => r.0 is Nothing,
            }
        }),
{
    proof {
        chars.lemma_len_fits();
    }
    let c_opt: OptionChar = chars.get(i);
    match c_opt {
        OptionChar::Value(c) => {
            if is_whitespace(c) {
                return (OptionToken::Nothing, i + 1);
            }
            if c == '/' {
                return scan_slash_or_comment(chars, i);
            }
            if is_digit(c) {
                return scan_integer(chars, i);
            }
            if is_alphabetic(c) {
                return scan_identifier(chars, i);
            }
            if c == '"' {
                return scan_string(chars, i);
            }
            scan_symbol(c, chars, i)
        },
        OptionChar::Nothing => (OptionToken::Nothing, i + 1),
    }
}

fn scan_slash_or_comment(chars: &CharList, i: usize) -> (r: (OptionToken, usize))
    requires
        i < chars@.len(),
        chars@[i as int] == '/',
    ensures
        ({
            let (t, j) = spec_next_token(chars@, i as int);
            &&& r.1 == j
            &&& match t {
                Some(tok) => r.0 matches OptionToken::Value(v) && v@ == tok,
                None => r.0 is Nothing,
            }
        }),
{
    proof {
        chars.lemma_len_fits();
    }
    let next_i: usize = i + 1;
    let next: OptionChar = chars.get(next_i);
    match next {
        OptionChar::Value(nc) => {
            if nc == '/' {
                let end_comment_i: usize = skip_line_comment(chars, next_i + 1);
                return (OptionToken::Nothing, end_comment_i);
            } else {
                return (OptionToken::Value(Token::Slash), next_i);
            }
        },
        OptionChar::Nothing => (OptionToken::Value(Token::Slash), next_i),
    }
}

fn skip_line_comment(chars: &CharList, i_start: usize) -> (r: usize)
    ensures
        r == line_end(chars@, i_start as int),
{
    let mut i: usize = i_start;
    let ghost start = i;
    let len: usize = chars.len();
    while i < len
        invariant
            len == chars@.len(),
            start <= i,
            start == i_start,
            line_end(chars@, i as int) == line_end(chars@, start as int),
        decreases len - i,
    {
        let c_opt: OptionChar = chars.get(i);
        match c_opt {
            OptionChar::Value(c) => {
                if c == '\n' {
                    assert(line_end(chars@, i as int) == i);
                    return i;
                }
                i = i + 1;
            },
            OptionChar::Nothing => return i,
        }
    }
    i
}

fn scan_integer(chars: &CharList, start_i: usize) -> (r: (OptionToken, usize))
    requires
        start_i < chars@.len(),
        spec_is_digit(chars@[start_i as int]),
        literal_fits_at(chars@, start_i as int),
    ensures
        r.1 == digits_end(chars@, start_i as int),
        r.0 matches OptionToken::Value(v) && v@ == SpecToken::Integer(
            digits_value(chars@, start_i as int, r.1 as int) as u64,
        ),
{
    let ghost s = chars@;
    let ghost end = digits_end(s, start_i as int);
    proof {
        lemma_digits_end(s, start_i as int);
    }
    let mut val: u64 = 0;
    let mut i: usize = start_i;
    let len: usize = chars.len();

    while i < len
        invariant
            s == chars@,
            len == s.len(),
            start_i <= i <= end,
            end == digits_end(s, start_i as int),
            end <= len,
            digits_end(s, i as int) == end,
            val == digits_value(s, start_i as int, i as int),
            digits_value(s, start_i as int, end) <= u64::MAX,
            forall|k: int| start_i <= k < end ==> spec_is_digit(#[trigger] s[k]),
        decreases len - i,
    {
        let digit_opt: OptionChar = chars.get(i);
        match digit_opt {
            OptionChar::Value(digit) => {
                if is_digit(digit) {
                    proof {
                        assert(digits_end(s, i as int) == digits_end(s, i + 1));
                        lemma_digits_end(s, i + 1);
                        lemma_digits_value_mono(s, start_i as int, i + 1, end);
                    }
                    val = val * 10 + (digit as u64 - '0' as u64);
                    i = i + 1;
                } else {
                    return (OptionToken::Value(Token::Integer(val)), i);
                }
            },
            OptionChar::Nothing => {
                return (OptionToken::Value(Token::Integer(val)), i);
            },
        }
    }
    (OptionToken::Value(Token::Integer(val)), i)
}

fn scan_identifier(chars: &CharList, start_i: usize) -> (r: (OptionToken, usize))
    requires
        start_i < chars@.len(),
    ensures
        r.1 == ident_end(chars@, start_i as int),
        r.0 matches OptionToken::Value(v) && v@ == spec_keyword_or_id(
            chars@.subrange(start_i as int, r.1 as int),
        ),
{
    let ghost s = chars@;
    let mut word: String = String::new();
    let mut i: usize = start_i;
    let len: usize = chars.len();

    while i < len
        invariant
            s == chars@,
            len == s.len(),
            start_i <= i <= len,
            ident_end(s, i as int) == ident_end(s, start_i as int),
            word@ == s.subrange(start_i as int, i as int),
        decreases len - i,
    {
        let ch_opt: OptionChar = chars.get(i);
        match ch_opt {
            OptionChar::Value(ch) => {
                if is_alphanumeric(ch) {
                    string_push(&mut word, ch);
                    i = i + 1;
                    assert(word@ =~= s.subrange(start_i as int, i as int));
                } else {
                    return (OptionToken::Value(keyword_or_id(word)), i);
                }
            },
            OptionChar::Nothing => {
                return (OptionToken::Value(keyword_or_id(word)), i);
            },
        }
    }
    (OptionToken::Value(keyword_or_id(word)), i)
}

fn keyword_or_id(s: String) -> (r: Token)
    ensures
        r@ == spec_keyword_or_id(s@),
{
    if crate::wrapper::str_eq(s.as_str(), "fn") {
        return Token::Fn;
    }
    if crate::wrapper::str_eq(s.as_str(), "let") {
        return Token::Let;
    }
    if crate::wrapper::str_eq(s.as_str(), "if") {
        return Token::If;
    }
    if crate::wrapper::str_eq(s.as_str(), "while") {
        return Token::While;
    }
    if crate::wrapper::str_eq(s.as_str(), "return") {
        return Token::Return;
    }
    if crate::wrapper::str_eq(s.as_str(), "enum") {
        return Token::Enum;
    }
    if crate::wrapper::str_eq(s.as_str(), "match") {
        return Token::Match;
    }
    Token::Identifier(s)
}

fn scan_string(chars: &CharList, start_i: usize) -> (r: (OptionToken, usize))
    requires
        start_i < chars@.len(),
        chars@[start_i as int] == '"',
    ensures
        ({
            let (t, j) = spec_next_token(chars@, start_i as int);
            &&& r.1 == j
            &&& t matches Some(tok) && r.0 matches OptionToken::Value(v) && v@ == tok
        }),
{
    proof {
        chars.lemma_len_fits();
    }
    let ghost s = chars@;
    let mut i: usize = start_i + 1;
    let mut text: String = String::new();
    let len: usize = chars.len();

    while i < len
        invariant
            s == chars@,
            len == s.len(),
            start_i + 1 <= i <= len,
            s[start_i as int] == '"',
            quote_end(s, i as int) == quote_end(s, start_i + 1),
            text@ == s.subrange(start_i + 1, i as int),
        decreases len - i,
    {
        let ch_opt: OptionChar = chars.get(i);
        match ch_opt {
            OptionChar::Value(ch) => {
                if ch == '"' {
                    assert(quote_end(s, i as int) == i);
                    return (OptionToken::Value(Token::StringLiteral(text)), i + 1);
                }
                string_push(&mut text, ch);
                i = i + 1;
                assert(text@ =~= s.subrange(start_i + 1, i as int));
            },
            OptionChar::Nothing => {
                return (OptionToken::Value(Token::StringLiteral(text)), i);
            },
        }
    }
    (OptionToken::Value(Token::StringLiteral(text)), i)
}

fn scan_symbol(c: char, chars: &CharList, i: usize) -> (r: (OptionToken, usize))
    requires
        i < chars@.len(),
        chars@[i as int] == c,
    ensures
        ({
            let (t, j) = spec_symbol(chars@, i as int);
            &&& r.1 == j
            &&& match t {
                Some(tok) => r.0 matches OptionToken::Value(v) && v@ == tok,
                None => r.0 is Nothing,
            }
        }),
{
    proof {
        chars.lemma_len_fits();
    }
    if c == '{' {
        return (OptionToken::Value(Token::LBrace), i + 1);
    }
    if c == '}' {
        return (OptionToken::Value(Token::RBrace), i + 1);
    }
    if c == '(' {
        return (OptionToken::Value(Token::LParen), i + 1);
    }
    if c == ')' {
        return (OptionToken::Value(Token::RParen), i + 1);
    }
    if c == ':' {
        return (OptionToken::Value(Token::Colon), i + 1);
    }
    if c == ';' {
        return (OptionToken::Value(Token::SemiColon), i + 1);
    }
    if c == ',' {
        return (OptionToken::Value(Token::Comma), i + 1);
    }
    if c == '+' {
        return (OptionToken::Value(Token::Plus), i + 1);
    }
    if c == '*' {
        return (OptionToken::Value(Token::Star), i + 1);
    }
    if c == '-' {
        // Check for ->
        let next_i: usize = i + 1;
        match chars.get(next_i) {
            OptionChar::Value('>') => return (OptionToken::Value(Token::Arrow), next_i + 1),
            _ => return (OptionToken::Value(Token::Minus), next_i),
        }
    }
    if c == '=' {
        // Check for ==
        let next_i: usize = i + 1;
        match chars.get(next_i) {
            OptionChar::Value('=') => return (OptionToken::Value(Token::Eq), next_i + 1),
            _ => return (OptionToken::Value(Token::Assign), next_i),
        }
    }
    // Unknown character
    (OptionToken::Nothing, i + 1)
}

} // verus!
