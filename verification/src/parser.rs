//! Recursive-descent parser and type checker of the Rust subset; it emits
//! LLVM-IR while it parses.
use vstd::prelude::*;
use vstd::string::StringSliceAdditionalSpecFns;
use crate::codegen::{Context, context_new, ctx_counter};
use crate::rust_lexer::{
    CompileError, ErrorKind, Lexer, Token, TokenOf, error_at, lemma_next_token, lexer_current_token,
    lexer_error, lexer_new, lexer_next_token, lexer_wf, lx_sf, lx_token, sf_rest, sf_text,
    spec_next_token, token_eq,
};
use crate::rust_types::{
    RAstType, RAstTypeOf, RAstTypeV, is_numeric_type, rAstType_clone, type_eq, type_get_cast_operation,
    type_is_numeric,
};
use crate::symtable::{SymTable, SymTableV, symTable_new};
use crate::text::{ByteString, string_clone, string_from_str, string_new};
use crate::parser_spec::{
    ExprResult, PState, PatternV, StateResult, pattern_v_type, TypeResult, pattern_view, pstate, s_expect, s_ident,
    s_next, s_try, spec_arithmetic, spec_arms, spec_assignment, spec_binding, spec_block,
    spec_block_items, spec_call, spec_call_arguments, spec_cast, spec_cast_tail, spec_comparison,
    spec_expression, spec_factor, spec_if, spec_literal, spec_match, spec_more_arms, spec_pattern,
    spec_subpatterns, spec_term, spec_type, spec_unary, spec_variable, spec_while, spec_variant,
    spec_more_types, spec_more_variants, spec_enum, spec_parameters, spec_more_parameters,
    spec_return_type, spec_function, spec_language, spec_compile, s_initial,
};

verus! {

/// The parser: lexer, LLVM-IR written so far, symbol table, return type of the
/// current function, and the register context.
#[derive(Debug)]
pub enum Parser {
    Parser(Lexer, ByteString, SymTable, RAstType, Context),
}

pub open spec fn p_lexer(p: Parser) -> Lexer {
    let Parser::Parser(l, _, _, _, _) = p;
    l
}

pub open spec fn p_llvm(p: Parser) -> Seq<u8> {
    let Parser::Parser(_, code, _, _, _) = p;
    code@
}

pub open spec fn p_symtable(p: Parser) -> SymTable {
    let Parser::Parser(_, _, s, _, _) = p;
    s
}

pub open spec fn p_return_type(p: Parser) -> RAstType {
    let Parser::Parser(_, _, _, t, _) = p;
    t
}

pub open spec fn p_counter(p: Parser) -> usize {
    let Parser::Parser(_, _, _, _, c) = p;
    ctx_counter(c)
}

/// The current token.
pub open spec fn p_token(p: Parser) -> Token {
    lx_token(p_lexer(p))
}

/// The length of the source text.
pub open spec fn p_text_len(p: Parser) -> int {
    sf_text(lx_sf(p_lexer(p))).len() as int
}

/// How much input is left: the text after the lexer's position, and one more
/// while the current token is not the end.
pub open spec fn p_measure(p: Parser) -> int {
    sf_rest(lx_sf(p_lexer(p))) + if p_token(p) is Eof {
        0int
    } else {
        1int
    }
}

/// The parser's position is representable, and every register handed out has
/// been paid for by input read: registers plus input left never exceed the
/// input there was.
pub open spec fn parser_wf(p: Parser) -> bool {
    &&& lexer_wf(p_lexer(p))
    &&& p_text_len(p) + 2 < usize::MAX
    &&& p_counter(p) + p_measure(p) <= p_text_len(p) + 3
}

/// `b` follows `a` in the same input: no input was unread, registers were only
/// handed out for input read, and output was only appended.
pub open spec fn parser_moved(a: Parser, b: Parser) -> bool {
    &&& parser_wf(b)
    &&& sf_text(lx_sf(p_lexer(b))) == sf_text(lx_sf(p_lexer(a)))
    &&& p_measure(b) <= p_measure(a)
    &&& p_counter(b) + p_measure(b) <= p_counter(a) + p_measure(a)
    &&& p_llvm(a).is_prefix_of(p_llvm(b))
}

/// `b` follows `a` within one expression: as `parser_moved`, and the globals,
/// the number of scopes and the function's return type are unchanged.
pub open spec fn expr_moved(a: Parser, b: Parser) -> bool {
    &&& parser_moved(a, b)
    &&& p_symtable(b)@.globals == p_symtable(a)@.globals
    &&& p_symtable(b)@.scopes.len() == p_symtable(a)@.scopes.len()
    &&& p_return_type(b) == p_return_type(a)
}

/// The parser `p` after its lexer read the next token, when that succeeds.
pub open spec fn p_advanced(p: Parser, q: Parser) -> bool {
    let (res, sf) = spec_next_token(lx_sf(p_lexer(p)));
    &&& res is Ok
    &&& lx_sf(p_lexer(q)) == sf
    &&& p_token(q)@ == res->Ok_0
    &&& p_llvm(q) == p_llvm(p)
    &&& p_symtable(q) == p_symtable(p)
    &&& p_return_type(q) == p_return_type(p)
    &&& p_counter(q) == p_counter(p)
}

/// Reading a token keeps the text and never adds input; it removes input when
/// the current token was not the end.
pub proof fn lemma_advance(p: Parser, q: Parser)
    requires
        parser_wf(p),
        p_advanced(p, q),
    ensures
        parser_moved(p, q),
        !(p_token(p) is Eof) ==> p_measure(q) < p_measure(p),
        p_symtable(q) == p_symtable(p),
        p_return_type(q) == p_return_type(p),
{
    lemma_next_token(lx_sf(p_lexer(p)));
    assert(p_llvm(p).is_prefix_of(p_llvm(q))) by {
        assert(p_llvm(q) =~= p_llvm(p));
    }
}

/// A parser over `source`: its first token is read.
pub fn parser_new(source: ByteString) -> (r: Result<Parser, CompileError>)
    requires
        source@.len() + 2 < usize::MAX,
    ensures
        ({
            let (res, sf) = spec_next_token(
                crate::rust_lexer::SourceFile::SourceFile(
                    source,
                    0,
                    crate::rust_lexer::SourceLocation::Coords(1, 1),
                ),
            );
            match res {
                Ok(t) => r matches Ok(p) && lx_sf(p_lexer(p)) == sf && p_token(p)@ == t && p_llvm(p)
                    == Seq::<u8>::empty() && p_symtable(p)@.globals.len() == 0 && p_symtable(
                    p,
                )@.scopes.len() == 0 && p_return_type(p) is Unit && p_counter(p) == 0
                    && parser_wf(p),
                Err(e) => r == Err::<Parser, CompileError>(e),
            }
        }),
        r is Ok ==> sf_text(lx_sf(p_lexer(r->Ok_0))) == source@,
        s_initial(
            crate::rust_lexer::SourceFile::SourceFile(
                source,
                0,
                crate::rust_lexer::SourceLocation::Coords(1, 1),
            ),
        ) == match r {
            Ok(p) => Ok::<PState, CompileError>(pstate(p)),
            Err(e) => Err(e),
        },
{
    let lexer: Lexer = match lexer_new(source) {
        Ok(l) => l,
        Err(e) => return Err(e),
    };
    proof {
        lemma_next_token(
            crate::rust_lexer::SourceFile::SourceFile(
                source,
                0,
                crate::rust_lexer::SourceLocation::Coords(1, 1),
            ),
        );
    }
    Ok(Parser::Parser(lexer, string_new(), symTable_new(), RAstTypeOf::Unit, context_new()))
}

/// A parser over the bytes of `source`.
pub fn parser_from_str(source: &str) -> (r: Result<Parser, CompileError>)
    requires
        source.spec_bytes().len() + 2 < usize::MAX,
    ensures
        r is Ok ==> parser_wf(r->Ok_0) && p_llvm(r->Ok_0) == Seq::<u8>::empty() && p_counter(
            r->Ok_0,
        ) == 0 && sf_text(lx_sf(p_lexer(r->Ok_0))) == source.spec_bytes(),
        exists|b: ByteString|
            #![trigger b@]
            b@ == source.spec_bytes() && s_initial(
                crate::rust_lexer::SourceFile::SourceFile(
                    b,
                    0,
                    crate::rust_lexer::SourceLocation::Coords(1, 1),
                ),
            ) == match r {
                Ok(p) => Ok::<PState, CompileError>(pstate(p)),
                Err(e) => Err(e),
            },
{
    let bytes: ByteString = string_from_str(source);
    let ghost b = bytes;
    let r = parser_new(bytes);
    assert(b@ == source.spec_bytes());
    r
}


/// Output that only grows keeps growing.
pub proof fn lemma_prefix_trans(a: Seq<u8>, b: Seq<u8>, c: Seq<u8>)
    requires
        a.is_prefix_of(b),
        b.is_prefix_of(c),
    ensures
        a.is_prefix_of(c),
{
    assert(a =~= c.subrange(0, a.len() as int)) by {
        assert forall|i: int| 0 <= i < a.len() implies a[i] == c[i] by {
            assert(a[i] == b[i]);
            assert(b[i] == c[i]);
        }
    }
}

/// Appending to the output keeps what was there.
pub proof fn lemma_prefix_append(a: Seq<u8>, x: Seq<u8>)
    ensures
        a.is_prefix_of(a + x),
{
    assert(a =~= (a + x).subrange(0, a.len() as int));
}

/// Following is transitive.
pub proof fn lemma_moved_trans(a: Parser, b: Parser, c: Parser)
    requires
        parser_moved(a, b),
        parser_moved(b, c),
    ensures
        parser_moved(a, c),
{
    lemma_prefix_trans(p_llvm(a), p_llvm(b), p_llvm(c));
}

/// Following within an expression is transitive.
pub proof fn lemma_expr_moved_trans(a: Parser, b: Parser, c: Parser)
    requires
        expr_moved(a, b),
        expr_moved(b, c),
    ensures
        expr_moved(a, c),
{
    lemma_moved_trans(a, b, c);
}

/// The parser read its current token: `b` is `a` after the lexer read the next
/// token.
pub open spec fn p_stepped(a: Parser, b: Parser) -> bool {
    &&& p_advanced(a, b)
    &&& expr_moved(a, b)
    &&& p_symtable(b) == p_symtable(a)
    &&& (!(p_token(a) is Eof) ==> p_measure(b) < p_measure(a))
}

/// The error `kind` at the parser's current position.
pub open spec fn p_error(p: Parser, kind: ErrorKind) -> CompileError {
    error_at(lx_sf(p_lexer(p)), kind)
}

/// The error `kind` at the parser's current position.
pub fn parser_error(parser: &Parser, kind: ErrorKind) -> (r: CompileError)
    ensures
        r == p_error(*parser, kind),
{
    let Parser::Parser(lexer, _, _, _, _) = parser;
    lexer_error(lexer, kind)
}

/// Get immutable access to the parser lexer.
pub fn parser_lexer(parser: &Parser) -> (r: &Lexer)
    ensures
        *r == p_lexer(*parser),
{
    let Parser::Parser(lexer, _, _, _, _) = parser;
    lexer
}

/// Get immutable access to the LLVM-IR written so far.
pub fn parser_llvm(parser: &Parser) -> (r: &ByteString)
    ensures
        r@ == p_llvm(*parser),
{
    let Parser::Parser(_, llvm, _, _, _) = parser;
    llvm
}

/// Get immutable access to the symbol table.
pub fn parser_symtable(parser: &Parser) -> (r: &SymTable)
    ensures
        *r == p_symtable(*parser),
{
    let Parser::Parser(_, _, symtable, _, _) = parser;
    symtable
}

/// The return type of the function being parsed.
pub fn parser_current_fn_return_type(parser: &Parser) -> (r: &RAstType)
    ensures
        *r == p_return_type(*parser),
{
    let Parser::Parser(_, _, _, return_type, _) = parser;
    return_type
}

/// Set the return type of the function being parsed.
pub fn parser_set_current_fn_return_type(parser: &mut Parser, ty: RAstType)
    ensures
        p_lexer(*final(parser)) == p_lexer(*old(parser)),
        p_llvm(*final(parser)) == p_llvm(*old(parser)),
        p_symtable(*final(parser)) == p_symtable(*old(parser)),
        p_counter(*final(parser)) == p_counter(*old(parser)),
        p_return_type(*final(parser)) == ty,
{
    let Parser::Parser(_, _, _, return_type, _) = parser;
    *return_type = ty;
}

/// The current token.
pub fn parser_current_token(parser: &Parser) -> (r: &Token)
    ensures
        *r == p_token(*parser),
{
    lexer_current_token(parser_lexer(parser))
}

/// Read the next token; it becomes the current token.
pub fn parser_next_token(parser: &mut Parser) -> (r: Result<Token, CompileError>)
    requires
        parser_wf(*old(parser)),
    ensures
        r matches Ok(t) ==> p_stepped(*old(parser), *final(parser)) && t@ == p_token(*final(parser))@,
        r matches Err(e) ==> spec_next_token(lx_sf(p_lexer(*old(parser)))).0 == Err::<
            crate::rust_lexer::TokenV,
            CompileError,
        >(e),
        s_next(pstate(*old(parser))) == match r {
            Ok(_) => Ok::<PState, CompileError>(pstate(*final(parser))),
            Err(e) => Err(e),
        },
{
    let ghost p0 = *parser;
    let Parser::Parser(lexer, _, _, _, _) = parser;
    let r = lexer_next_token(lexer);
    proof {
        if r is Ok {
            lemma_advance(p0, *parser);
        }
    }
    r
}

/// Check whether the current token equals `token`.
pub fn parser_current_token_eq(parser: &Parser, token: &Token) -> (r: bool)
    ensures
        r == (p_token(*parser)@ == token@),
{
    token_eq(parser_current_token(parser), token)
}

/// Read the current token when it is `token`, and tell whether it was.
pub fn parser_try_consume(parser: &mut Parser, token: &Token) -> (r: Result<bool, CompileError>)
    requires
        parser_wf(*old(parser)),
    ensures
        p_token(*old(parser))@ != token@ ==> r == Ok::<bool, CompileError>(false) && *final(parser)
            == *old(parser),
        p_token(*old(parser))@ == token@ ==> match r {
            Ok(b) => b && p_stepped(*old(parser), *final(parser)),
            Err(e) => spec_next_token(lx_sf(p_lexer(*old(parser)))).0 == Err::<
                crate::rust_lexer::TokenV,
                CompileError,
            >(e),
        },
        s_try(pstate(*old(parser)), token@) == match r {
            Ok(b) => Ok::<(bool, PState), CompileError>((b, pstate(*final(parser)))),
            Err(e) => Err(e),
        },
{
    if parser_current_token_eq(parser, token) {
        match parser_next_token(parser) {
            Ok(_) => Ok(true),
            Err(e) => Err(e),
        }
    } else {
        Ok(false)
    }
}

/// Read the current token, which must be `token`.
pub fn parser_expect_token(parser: &mut Parser, token: &Token) -> (r: Result<(), CompileError>)
    requires
        parser_wf(*old(parser)),
    ensures
        p_token(*old(parser))@ != token@ ==> r == Err::<(), CompileError>(
            p_error(*old(parser), ErrorKind::UnexpectedToken),
        ),
        p_token(*old(parser))@ == token@ ==> match r {
            Ok(_) => p_stepped(*old(parser), *final(parser)),
            Err(e) => spec_next_token(lx_sf(p_lexer(*old(parser)))).0 == Err::<
                crate::rust_lexer::TokenV,
                CompileError,
            >(e),
        },
        s_expect(pstate(*old(parser)), token@) == match r {
            Ok(_) => Ok::<PState, CompileError>(pstate(*final(parser))),
            Err(e) => Err(e),
        },
{
    match parser_try_consume(parser, token) {
        Ok(true) => Ok(()),
        Ok(false) => Err(parser_error(parser, ErrorKind::UnexpectedToken)),
        Err(e) => Err(e),
    }
}

/// Both types must be equal.
pub fn parser_expect_same_type(parser: &Parser, left: &RAstType, right: &RAstType) -> (r: Result<
    (),
    CompileError,
>)
    ensures
        r == if left@ == right@ {
            Ok::<(), CompileError>(())
        } else {
            Err(p_error(*parser, ErrorKind::TypeMismatch))
        },
{
    if type_eq(left, right) {
        Ok(())
    } else {
        Err(parser_error(parser, ErrorKind::TypeMismatch))
    }
}

/// The type must be numeric.
pub fn parser_expect_numeric_type(parser: &Parser, ty: &RAstType) -> (r: Result<(), CompileError>)
    ensures
        r == if is_numeric_type(ty@) {
            Ok::<(), CompileError>(())
        } else {
            Err(p_error(*parser, ErrorKind::ExpectedNumericType))
        },
{
    if type_is_numeric(ty) {
        Ok(())
    } else {
        Err(parser_error(parser, ErrorKind::ExpectedNumericType))
    }
}

/// The type must be `bool`.
pub fn parser_expect_bool_type(parser: &Parser, ty: &RAstType) -> (r: Result<(), CompileError>)
    ensures
        r == if ty@ is Bool {
            Ok::<(), CompileError>(())
        } else {
            Err(p_error(*parser, ErrorKind::ExpectedBoolType))
        },
{
    if type_eq(ty, &RAstTypeOf::Bool) {
        Ok(())
    } else {
        Err(parser_error(parser, ErrorKind::ExpectedBoolType))
    }
}

/// Read the current token, which must be an identifier, and return its name.
pub fn parser_expect_identifier(parser: &mut Parser) -> (r: Result<ByteString, CompileError>)
    requires
        parser_wf(*old(parser)),
    ensures
        !(p_token(*old(parser)) is Identifier) ==> r == Err::<ByteString, CompileError>(
            p_error(*old(parser), ErrorKind::ExpectedIdentifier),
        ),
        p_token(*old(parser)) is Identifier ==> match r {
            Ok(name) => name@ == p_token(*old(parser))->Identifier_0@ && p_stepped(
                *old(parser),
                *final(parser),
            ),
            Err(e) => spec_next_token(lx_sf(p_lexer(*old(parser)))).0 == Err::<
                crate::rust_lexer::TokenV,
                CompileError,
            >(e),
        },
        s_ident(pstate(*old(parser))) == match r {
            Ok(n) => Ok::<(Seq<u8>, PState), CompileError>((n@, pstate(*final(parser)))),
            Err(e) => Err(e),
        },
{
    match parser_current_token(parser) {
        TokenOf::Identifier(name) => {
            let name: ByteString = string_clone(name);
            match parser_next_token(parser) {
                Ok(_) => Ok(name),
                Err(e) => Err(e),
            }
        },
        _ => Err(parser_error(parser, ErrorKind::ExpectedIdentifier)),
    }
}

/// The result of parsing an expression: the register (or literal text) that
/// holds its value, and its type.
#[derive(Debug)]
pub enum STPair {
    ST(ByteString, RAstType),
}

/// The type of an expression result.
pub fn stPair_get_type(pair: STPair) -> (r: RAstType)
    ensures
        ({
            let STPair::ST(_, t) = pair;
            r == t
        }),
{
    let STPair::ST(_, ty) = pair;
    ty
}

/// What an expression parse gave, as a spec result.
pub open spec fn expr_result(r: Result<STPair, CompileError>, p: Parser) -> ExprResult {
    match r {
        Ok(STPair::ST(n, t)) => Ok(((n@, t@), pstate(p))),
        Err(e) => Err(e),
    }
}

/// What a parse with a type gave, as a spec result.
pub open spec fn type_result(r: Result<RAstType, CompileError>, p: Parser) -> TypeResult {
    match r {
        Ok(t) => Ok((t@, pstate(p))),
        Err(e) => Err(e),
    }
}

/// What a parse without a value gave, as a spec result.
pub open spec fn state_result(r: Result<(), CompileError>, p: Parser) -> StateResult {
    match r {
        Ok(_) => Ok(pstate(p)),
        Err(e) => Err(e),
    }
}

// ------------------------------------------------------------------
// Types, patterns and literals
// ------------------------------------------------------------------

/// `b` follows `a` after reading at least one token, and nothing but tokens
/// was read: output, symbols, return type and registers are unchanged.
pub open spec fn p_read(a: Parser, b: Parser) -> bool {
    &&& expr_moved(a, b)
    &&& p_symtable(b) == p_symtable(a)
    &&& p_llvm(b) == p_llvm(a)
    &&& p_counter(b) == p_counter(a)
    &&& p_measure(b) < p_measure(a)
}

proof fn lemma_read_trans(a: Parser, b: Parser, c: Parser)
    requires
        p_read(a, b),
        p_read(b, c),
    ensures
        p_read(a, c),
{
    lemma_expr_moved_trans(a, b, c);
}

/// Parse a type: `u8`, `usize`, `char`, `bool`, `&T`, `&mut T`, `&str`,
/// `*mut T` or the name of an enum.
#[verifier::rlimit(100)]
#[verifier::spinoff_prover]
pub fn parse_type(parser: &mut Parser) -> (r: Result<RAstType, CompileError>)
    requires
        parser_wf(*old(parser)),
    ensures
        r is Ok ==> p_read(*old(parser), *final(parser)),
        spec_type(pstate(*old(parser))) == match r {
            Ok(t) => Ok::<(RAstTypeV, PState), CompileError>((t@, pstate(*final(parser)))),
            Err(e) => Err(e),
        },
    decreases p_measure(*old(parser)),
{
    let ghost p0 = *parser;
    match parser_current_token(parser) {
        TokenOf::U8 => {
            match parser_next_token(parser) {
                Ok(_) => Ok(RAstTypeOf::U8),
                Err(e) => Err(e),
            }
        },
        TokenOf::Usize => {
            match parser_next_token(parser) {
                Ok(_) => Ok(RAstTypeOf::Usize),
                Err(e) => Err(e),
            }
        },
        TokenOf::Char => {
            match parser_next_token(parser) {
                Ok(_) => Ok(RAstTypeOf::Char),
                Err(e) => Err(e),
            }
        },
        TokenOf::Bool => {
            match parser_next_token(parser) {
                Ok(_) => Ok(RAstTypeOf::Bool),
                Err(e) => Err(e),
            }
        },
        TokenOf::LParen => {
            // the current token is `(`, so this reports an unexpected token
            match parser_expect_token(parser, &TokenOf::RParen) {
                Ok(_) => Ok(RAstTypeOf::Unit),
                Err(e) => Err(e),
            }
        },
        TokenOf::Ampersand => {
            match parser_next_token(parser) {
                Ok(_) => {},
                Err(e) => return Err(e),
            }
            let ghost p1 = *parser;
            let is_mut: bool = match parser_try_consume(parser, &TokenOf::Mut) {
                Ok(b) => b,
                Err(e) => return Err(e),
            };
            if is_mut {
                let ghost p2 = *parser;
                let inner: RAstType = match parse_type(parser) {
                    Ok(t) => t,
                    Err(e) => return Err(e),
                };
                proof {
                    lemma_read_trans(p0, p1, p2);
                    lemma_read_trans(p0, p2, *parser);
                }
                Ok(RAstTypeOf::Reference(Box::new(inner), true))
            } else {
                let is_str: bool = match parser_try_consume(parser, &TokenOf::Str) {
                    Ok(b) => b,
                    Err(e) => return Err(e),
                };
                if is_str {
                    proof {
                        lemma_read_trans(p0, p1, *parser);
                    }
                    Ok(crate::rust_types::str_ref())
                } else {
                    let inner: RAstType = match parse_type(parser) {
                        Ok(t) => t,
                        Err(e) => return Err(e),
                    };
                    proof {
                        lemma_read_trans(p0, p1, *parser);
                    }
                    Ok(RAstTypeOf::Reference(Box::new(inner), false))
                }
            }
        },
        TokenOf::Star => {
            match parser_next_token(parser) {
                Ok(_) => {},
                Err(e) => return Err(e),
            }
            let ghost p1 = *parser;
            match parser_expect_token(parser, &TokenOf::Mut) {
                Ok(_) => {},
                Err(e) => return Err(e),
            }
            let ghost p2 = *parser;
            let inner: RAstType = match parse_type(parser) {
                Ok(t) => t,
                Err(e) => return Err(e),
            };
            proof {
                lemma_read_trans(p0, p1, p2);
                lemma_read_trans(p0, p2, *parser);
            }
            Ok(RAstTypeOf::RawPointerMut(Box::new(inner)))
        },
        TokenOf::Identifier(_) => {
            match parser_expect_identifier(parser) {
                Ok(name) => Ok(RAstTypeOf::Custom(name)),
                Err(e) => Err(e),
            }
        },
        _ => Err(parser_error(parser, ErrorKind::ExpectedType)),
    }
}

/// Pattern forms supported by the parser.
#[derive(Debug)]
pub enum Pattern {
    Literal(RAstType),
    Identifier(ByteString),
    /// type name, variant name
    EnumVariant(ByteString, ByteString),
    Wildcard,
}

/// Derive the type a match pattern requires of the matched expression.
pub fn pattern_type_for_expression(pattern: &Pattern, expression_type: &RAstType) -> (r: RAstType)
    ensures
        r@ == pattern_v_type(pattern_view(*pattern), expression_type@),
{
    match pattern {
        Pattern::Literal(ty) => rAstType_clone(ty),
        Pattern::Identifier(_) => rAstType_clone(expression_type),
        Pattern::EnumVariant(enum_name, _) => RAstTypeOf::Custom(string_clone(enum_name)),
        Pattern::Wildcard => rAstType_clone(expression_type),
    }
}

/// Parse a pattern: a literal, `_`, a name, or `Enum::Variant` with optional
/// sub-patterns in parentheses.
#[verifier::rlimit(100)]
#[verifier::spinoff_prover]
pub fn parse_pattern(parser: &mut Parser) -> (r: Result<Pattern, CompileError>)
    requires
        parser_wf(*old(parser)),
    ensures
        r is Ok ==> p_read(*old(parser), *final(parser)),
        spec_pattern(pstate(*old(parser))) == match r {
            Ok(p) => Ok::<(PatternV, PState), CompileError>((pattern_view(p), pstate(*final(parser)))),
            Err(e) => Err(e),
        },
    decreases p_measure(*old(parser)),
{
    let ghost p0 = *parser;
    match parser_current_token(parser) {
        TokenOf::Literal(literal) => {
            let current_literal: crate::rust_lexer::Literal = crate::rust_lexer::literalToken_clone(
                literal,
            );
            match parser_next_token(parser) {
                Ok(_) => {},
                Err(e) => return Err(e),
            }
            match current_literal {
                crate::rust_lexer::LiteralOf::Int(_) => Ok(Pattern::Literal(RAstTypeOf::Usize)),
                crate::rust_lexer::LiteralOf::Char(_) => Ok(Pattern::Literal(RAstTypeOf::Char)),
                crate::rust_lexer::LiteralOf::String(_) => Ok(
                    Pattern::Literal(crate::rust_types::str_ref()),
                ),
                crate::rust_lexer::LiteralOf::Bool(_) => Ok(Pattern::Literal(RAstTypeOf::Bool)),
            }
        },
        TokenOf::Identifier(_) => {
            let identifier: ByteString = match parser_expect_identifier(parser) {
                Ok(name) => name,
                Err(e) => return Err(e),
            };
            if crate::text::string_eq(&identifier, &string_from_str("_")) {
                return Ok(Pattern::Wildcard);
            }
            let ghost p1 = *parser;
            let is_path: bool = match parser_try_consume(parser, &TokenOf::DoubleColon) {
                Ok(b) => b,
                Err(e) => return Err(e),
            };
            if !is_path {
                return Ok(Pattern::Identifier(identifier));
            }
            proof {
                lemma_read_trans(p0, p1, *parser);
            }
            let variant_name: ByteString = match parser_expect_identifier(parser) {
                Ok(name) => name,
                Err(e) => return Err(e),
            };
            let ghost p2 = *parser;
            proof {
                lemma_read_trans(p0, p1, p2);
            }
            let has_fields: bool = match parser_try_consume(parser, &TokenOf::LParen) {
                Ok(b) => b,
                Err(e) => return Err(e),
            };
            if has_fields {
                proof {
                    lemma_read_trans(p0, p2, *parser);
                }
                match parse_pattern(parser) {
                    Ok(_) => {},
                    Err(e) => return Err(e),
                }
                let ghost p_first = *parser;
                loop
                    invariant
                        parser_wf(*parser),
                        p0 == *old(parser),
                        p_token(p0) is Identifier,
                        p_read(p0, *parser),
                        spec_subpatterns(pstate(*parser)) == spec_subpatterns(pstate(p_first)),
                        spec_pattern(pstate(*old(parser))) == match spec_subpatterns(pstate(p_first)) {
                            Err(e) => Err(e),
                            Ok(s6) => match s_expect(s6, TokenOf::RParen) {
                                Err(e) => Err(e),
                                Ok(s7) => Ok((PatternV::EnumVariant(identifier@, variant_name@), s7)),
                            },
                        },
                    ensures
                        spec_subpatterns(pstate(p_first)) == Ok::<PState, CompileError>(pstate(*parser)),
                    decreases p_measure(*parser),
                {
                    let ghost p3 = *parser;
                    let more: bool = match parser_try_consume(parser, &TokenOf::Comma) {
                        Ok(b) => b,
                        Err(e) => return Err(e),
                    };
                    if !more {
                        assert(spec_subpatterns(pstate(p3)) == Ok::<PState, CompileError>(pstate(*parser)));
                        break;
                    }
                    proof {
                        lemma_read_trans(p0, p3, *parser);
                    }
                    let ghost p4 = *parser;
                    match parse_pattern(parser) {
                        Ok(_) => {},
                        Err(e) => return Err(e),
                    }
                    proof {
                        lemma_read_trans(p0, p4, *parser);
                    }
                }
                let ghost p5 = *parser;
                match parser_expect_token(parser, &TokenOf::RParen) {
                    Ok(_) => {},
                    Err(e) => return Err(e),
                }
                proof {
                    lemma_read_trans(p0, p5, *parser);
                }
            }
            Ok(Pattern::EnumVariant(identifier, variant_name))
        },
        _ => Err(parser_error(parser, ErrorKind::ExpectedPattern)),
    }
}

/// A declared variable: pattern, type, is mutable.
#[derive(Debug)]
pub enum VariableDecl {
    Var(Pattern, RAstType, bool),
}

/// Parse `mut? pattern : type`.
pub fn parse_variable(parser: &mut Parser) -> (r: Result<VariableDecl, CompileError>)
    requires
        parser_wf(*old(parser)),
    ensures
        r is Ok ==> p_read(*old(parser), *final(parser)),
        r matches Ok(VariableDecl::Var(_, _, m)) ==> m == (p_token(*old(parser)) is Mut),
        spec_variable(pstate(*old(parser))) == match r {
            Ok(VariableDecl::Var(pat, t, m)) => Ok::<((PatternV, RAstTypeV, bool), PState), CompileError>(
                ((pattern_view(pat), t@, m), pstate(*final(parser))),
            ),
            Err(e) => Err(e),
        },
{
    let ghost p0 = *parser;
    let mutable: bool = match parser_try_consume(parser, &TokenOf::Mut) {
        Ok(b) => b,
        Err(e) => return Err(e),
    };
    let ghost p1 = *parser;
    let pattern: Pattern = match parse_pattern(parser) {
        Ok(p) => p,
        Err(e) => return Err(e),
    };
    let ghost p2 = *parser;
    match parser_expect_token(parser, &TokenOf::Colon) {
        Ok(_) => {},
        Err(e) => return Err(e),
    }
    let ghost p3 = *parser;
    let ty: RAstType = match parse_type(parser) {
        Ok(t) => t,
        Err(e) => return Err(e),
    };
    proof {
        if mutable {
            lemma_read_trans(p0, p1, p2);
        }
        lemma_read_trans(p2, p3, *parser);
        if mutable {
            lemma_read_trans(p0, p2, *parser);
        }
    }
    Ok(VariableDecl::Var(pattern, ty, mutable))
}

// ------------------------------------------------------------------
// Expressions
// ------------------------------------------------------------------

/// Output emitted after input was read from `p0` to `pk` keeps `pe` following
/// `p0`, as long as the registers handed out were paid for by that input.
proof fn lemma_emit_after(p0: Parser, pk: Parser, pe: Parser, code: Seq<u8>, n: nat)
    requires
        parser_wf(p0),
        expr_moved(p0, pk),
        p_counter(pk) + n + p_measure(pk) <= p_counter(p0) + p_measure(p0),
        crate::codegen::emitted(pk, pe, code, n),
    ensures
        expr_moved(p0, pe),
{
    lemma_prefix_append(p_llvm(pk), code);
    lemma_prefix_trans(p_llvm(p0), p_llvm(pk), p_llvm(pe));
}

/// Parse a literal: its value as text, and its type.
pub fn parse_literal(parser: &mut Parser) -> (r: Result<STPair, CompileError>)
    requires
        parser_wf(*old(parser)),
    ensures
        r is Ok ==> p_read(*old(parser), *final(parser)),
        spec_literal(pstate(*old(parser))) == match r {
            Ok(STPair::ST(text, ty)) => Ok::<((Seq<u8>, RAstTypeV), PState), CompileError>(
                ((text@, ty@), pstate(*final(parser))),
            ),
            Err(e) => Err(e),
        },
{
    match parser_current_token(parser) {
        TokenOf::Literal(literal) => {
            let current_literal: crate::rust_lexer::Literal = crate::rust_lexer::literalToken_clone(
                literal,
            );
            match parser_next_token(parser) {
                Ok(_) => {},
                Err(e) => return Err(e),
            }
            match current_literal {
                crate::rust_lexer::LiteralOf::Int(value) => Ok(
                    STPair::ST(crate::text::integer_to_string(value), RAstTypeOf::Usize),
                ),
                crate::rust_lexer::LiteralOf::Char(value) => {
                    let code: u32 = value as u32;
                    Ok(STPair::ST(crate::text::integer_to_string(code as usize), RAstTypeOf::Char))
                },
                crate::rust_lexer::LiteralOf::Bool(value) => {
                    let number: usize = if value {
                        1
                    } else {
                        0
                    };
                    Ok(STPair::ST(crate::text::integer_to_string(number), RAstTypeOf::Bool))
                },
                crate::rust_lexer::LiteralOf::String(_) => Ok(
                    STPair::ST(string_new(), crate::rust_types::str_ref()),
                ),
            }
        },
        _ => Err(parser_error(parser, ErrorKind::ExpectedLiteral)),
    }
}

/// Parse an expression, `return` with an optional value included. The value
/// of `return e` must have the function's return type.
pub fn parse_expression(parser: &mut Parser) -> (r: Result<STPair, CompileError>)
    requires
        parser_wf(*old(parser)),
    ensures
        r is Ok ==> expr_moved(*old(parser), *final(parser)),
        spec_expression(pstate(*old(parser))) == expr_result(r, *final(parser)),
    decreases p_measure(*old(parser)), 9int,
{
    proof {
        reveal(spec_expression);
        reveal(spec_assignment);
    }
    let ghost p0 = *parser;
    match parser_current_token(parser) {
        TokenOf::Return => {
            match parser_next_token(parser) {
                Ok(_) => {},
                Err(e) => return Err(e),
            }
            let ghost p1 = *parser;
            match parser_current_token(parser) {
                TokenOf::SemiColon | TokenOf::RBrace => Ok(STPair::ST(string_new(), RAstTypeOf::Unit)),
                _ => {
                    let STPair::ST(name, ty) = match parse_expression(parser) {
                        Ok(pair) => pair,
                        Err(e) => return Err(e),
                    };
                    match parser_expect_same_type(parser, &ty, parser_current_fn_return_type(parser)) {
                        Ok(_) => {},
                        Err(e) => return Err(e),
                    }
                    proof {
                        lemma_expr_moved_trans(p0, p1, *parser);
                    }
                    Ok(STPair::ST(name, ty))
                },
            }
        },
        _ => parse_assignment(parser),
    }
}

/// Parse `comparison (= assignment)?`; an assignment has type `()`.
#[verifier::rlimit(100)]
#[verifier::spinoff_prover]
pub fn parse_assignment(parser: &mut Parser) -> (r: Result<STPair, CompileError>)
    requires
        parser_wf(*old(parser)),
    ensures
        r is Ok ==> expr_moved(*old(parser), *final(parser)),
        spec_assignment(pstate(*old(parser))) == expr_result(r, *final(parser)),
    decreases p_measure(*old(parser)), 8int,
{
    proof {
        reveal(spec_assignment);
        reveal(spec_comparison);
    }
    let ghost p0 = *parser;
    let STPair::ST(left_name, left_type) = match parse_comparison(parser) {
        Ok(pair) => pair,
        Err(e) => return Err(e),
    };
    let ghost p1 = *parser;
    let assigns: bool = match parser_try_consume(parser, &TokenOf::Assign) {
        Ok(b) => b,
        Err(e) => return Err(e),
    };
    if assigns {
        let ghost p2 = *parser;
        let STPair::ST(right_name, right_type) = match parse_assignment(parser) {
            Ok(pair) => pair,
            Err(e) => return Err(e),
        };
        match parser_expect_same_type(parser, &left_type, &right_type) {
            Ok(_) => {},
            Err(e) => return Err(e),
        }
        let ghost p3 = *parser;
        let Parser::Parser(_, code, _, _, _) = parser;
        crate::codegen::llvm_emit_line(code, "  ; assignment");
        proof {
            lemma_expr_moved_trans(p0, p1, p2);
            lemma_expr_moved_trans(p0, p2, p3);
            assert(p_llvm(*parser) =~= p_llvm(p3) + ("  ; assignment".spec_bytes() + "\n".spec_bytes()));
            lemma_emit_after(p0, p3, *parser, "  ; assignment".spec_bytes() + "\n".spec_bytes(), 0);
        }
        Ok(STPair::ST(right_name, RAstTypeOf::Unit))
    } else {
        Ok(STPair::ST(left_name, left_type))
    }
}

/// Parse `arithmetic (cmp arithmetic)?`; both sides must have the same
/// numeric or `char` type, and the result is a `bool`.
#[verifier::rlimit(100)]
#[verifier::spinoff_prover]
pub fn parse_comparison(parser: &mut Parser) -> (r: Result<STPair, CompileError>)
    requires
        parser_wf(*old(parser)),
    ensures
        r is Ok ==> expr_moved(*old(parser), *final(parser)),
        spec_comparison(pstate(*old(parser))) == expr_result(r, *final(parser)),
    decreases p_measure(*old(parser)), 7int,
{
    proof {
        reveal(spec_comparison);
        reveal(spec_arithmetic);
    }
    let ghost p0 = *parser;
    let STPair::ST(left_name, left_type) = match parse_arithmetic(parser) {
        Ok(pair) => pair,
        Err(e) => return Err(e),
    };
    let ghost p1 = *parser;
    match parser_current_token(parser) {
        TokenOf::Cmp(operator) => {
            let operator: crate::rust_lexer::Comparison = crate::rust_lexer::comparison_clone(operator);
            match parser_next_token(parser) {
                Ok(_) => {},
                Err(e) => return Err(e),
            }
            let ghost p2 = *parser;
            let STPair::ST(right_name, rtype) = match parse_arithmetic(parser) {
                Ok(pair) => pair,
                Err(e) => return Err(e),
            };
            match parser_expect_same_type(parser, &left_type, &rtype) {
                Ok(_) => {},
                Err(e) => return Err(e),
            }
            if !(type_is_numeric(&left_type) || type_eq(&left_type, &RAstTypeOf::Char)) {
                return Err(parser_error(parser, ErrorKind::CannotCompareNonIntegerValues));
            }
            let ghost p3 = *parser;
            proof {
                lemma_expr_moved_trans(p0, p1, p2);
                lemma_expr_moved_trans(p0, p2, p3);
            }
            let op: &str = match operator {
                crate::rust_lexer::Comparison::Eq => "eq",
                crate::rust_lexer::Comparison::Neq => "ne",
                crate::rust_lexer::Comparison::Gt => "ugt",
                crate::rust_lexer::Comparison::Lt => "ult",
                crate::rust_lexer::Comparison::Geq => "uge",
                crate::rust_lexer::Comparison::Leq => "ule",
            };
            let name: ByteString = crate::codegen::llvm_emit_icmp(
                parser,
                op,
                &rtype,
                &left_name,
                &right_name,
            );
            proof {
                lemma_emit_after(
                    p0,
                    p3,
                    *parser,
                    crate::codegen::binary_text(
                        name@,
                        "icmp ".spec_bytes() + op.spec_bytes(),
                        crate::rust_types::llvm_type_name(rtype@),
                        left_name@,
                        right_name@,
                    ),
                    1,
                );
            }
            Ok(STPair::ST(name, RAstTypeOf::Bool))
        },
        _ => Ok(STPair::ST(left_name, left_type)),
    }
}

/// Parse `term ((+|-) arithmetic)?`; both sides must have the same numeric type.
pub fn parse_arithmetic(parser: &mut Parser) -> (r: Result<STPair, CompileError>)
    requires
        parser_wf(*old(parser)),
    ensures
        r is Ok ==> expr_moved(*old(parser), *final(parser)),
        spec_arithmetic(pstate(*old(parser))) == expr_result(r, *final(parser)),
    decreases p_measure(*old(parser)), 6int,
{
    proof {
        reveal(spec_arithmetic);
        reveal(spec_term);
    }
    let ghost p0 = *parser;
    let STPair::ST(left_name, left_type) = match parse_term(parser) {
        Ok(pair) => pair,
        Err(e) => return Err(e),
    };
    let ghost p1 = *parser;
    let is_plus: bool = match parser_current_token(parser) {
        TokenOf::Plus => true,
        TokenOf::Minus => false,
        _ => return Ok(STPair::ST(left_name, left_type)),
    };
    match parser_next_token(parser) {
        Ok(_) => {},
        Err(e) => return Err(e),
    }
    let ghost p2 = *parser;
    let STPair::ST(right_name, right_type) = match parse_arithmetic(parser) {
        Ok(pair) => pair,
        Err(e) => return Err(e),
    };
    match parser_expect_same_type(parser, &left_type, &right_type) {
        Ok(_) => {},
        Err(e) => return Err(e),
    }
    match parser_expect_numeric_type(parser, &left_type) {
        Ok(_) => {},
        Err(e) => return Err(e),
    }
    let ghost p3 = *parser;
    proof {
        lemma_expr_moved_trans(p0, p1, p2);
        lemma_expr_moved_trans(p0, p2, p3);
    }
    let name: ByteString = if is_plus {
        crate::codegen::llvm_emit_add(parser, &right_type, &left_name, &right_name)
    } else {
        crate::codegen::llvm_emit_sub(parser, &right_type, &left_name, &right_name)
    };
    proof {
        let op = if is_plus {
            "add".spec_bytes()
        } else {
            "sub".spec_bytes()
        };
        lemma_emit_after(
            p0,
            p3,
            *parser,
            crate::codegen::binary_text(
                name@,
                op,
                crate::rust_types::llvm_type_name(right_type@),
                left_name@,
                right_name@,
            ),
            1,
        );
    }
    Ok(STPair::ST(name, left_type))
}

/// Parse `cast ((*|/|%) term)?`; both sides must have the same numeric type.
#[verifier::rlimit(100)]
#[verifier::spinoff_prover]
pub fn parse_term(parser: &mut Parser) -> (r: Result<STPair, CompileError>)
    requires
        parser_wf(*old(parser)),
    ensures
        r is Ok ==> expr_moved(*old(parser), *final(parser)),
        spec_term(pstate(*old(parser))) == expr_result(r, *final(parser)),
    decreases p_measure(*old(parser)), 5int,
{
    proof {
        reveal(spec_term);
        reveal(spec_cast);
    }
    let ghost p0 = *parser;
    let STPair::ST(left_name, left_type) = match parse_cast(parser) {
        Ok(pair) => pair,
        Err(e) => return Err(e),
    };
    let ghost p1 = *parser;
    let which: u8 = match parser_current_token(parser) {
        TokenOf::Star => 0,
        TokenOf::Slash => 1,
        TokenOf::Remainder => 2,
        _ => return Ok(STPair::ST(left_name, left_type)),
    };
    match parser_next_token(parser) {
        Ok(_) => {},
        Err(e) => return Err(e),
    }
    let ghost p2 = *parser;
    let STPair::ST(right_name, right_type) = match parse_term(parser) {
        Ok(pair) => pair,
        Err(e) => return Err(e),
    };
    match parser_expect_same_type(parser, &left_type, &right_type) {
        Ok(_) => {},
        Err(e) => return Err(e),
    }
    match parser_expect_numeric_type(parser, &left_type) {
        Ok(_) => {},
        Err(e) => return Err(e),
    }
    let ghost p3 = *parser;
    proof {
        lemma_expr_moved_trans(p0, p1, p2);
        lemma_expr_moved_trans(p0, p2, p3);
    }
    let name: ByteString = if which == 0 {
        crate::codegen::llvm_emit_mul(parser, &right_type, &left_name, &right_name)
    } else if which == 1 {
        crate::codegen::llvm_emit_udiv(parser, &right_type, &left_name, &right_name)
    } else {
        crate::codegen::llvm_emit_urem(parser, &right_type, &left_name, &right_name)
    };
    proof {
        let op = if which == 0 {
            "mul".spec_bytes()
        } else if which == 1 {
            "udiv".spec_bytes()
        } else {
            "urem".spec_bytes()
        };
        lemma_emit_after(
            p0,
            p3,
            *parser,
            crate::codegen::binary_text(
                name@,
                op,
                crate::rust_types::llvm_type_name(right_type@),
                left_name@,
                right_name@,
            ),
            1,
        );
    }
    Ok(STPair::ST(name, left_type))
}

/// Parse `unary (as type)*`; each cast must be valid, and a cast that changes
/// the bit width emits a `zext` or `trunc`.
#[verifier::rlimit(100)]
#[verifier::spinoff_prover]
pub fn parse_cast(parser: &mut Parser) -> (r: Result<STPair, CompileError>)
    requires
        parser_wf(*old(parser)),
    ensures
        r is Ok ==> expr_moved(*old(parser), *final(parser)),
        spec_cast(pstate(*old(parser))) == expr_result(r, *final(parser)),
    decreases p_measure(*old(parser)), 4int,
{
    proof {
        reveal(spec_cast);
    }
    let ghost p0 = *parser;
    let STPair::ST(first_name, first_type) = match parse_unary(parser) {
        Ok(pair) => pair,
        Err(e) => return Err(e),
    };
    let ghost p_first = *parser;
    let ghost tail = spec_cast_tail(pstate(p_first), first_name@, first_type@);
    let mut name: ByteString = first_name;
    let mut ty: RAstType = first_type;
    loop
        invariant
            p0 == *old(parser),
            parser_wf(p0),
            parser_wf(*parser),
            expr_moved(p0, *parser),
            spec_cast(pstate(p0)) == tail,
            spec_cast_tail(pstate(*parser), name@, ty@) == tail,
        ensures
            tail == Ok::<((Seq<u8>, RAstTypeV), PState), CompileError>(((name@, ty@), pstate(*parser))),
        decreases p_measure(*parser),
    {
        proof {
            reveal(spec_cast_tail);
        }
        let ghost p1 = *parser;
        let is_cast: bool = match parser_try_consume(parser, &TokenOf::As) {
            Ok(b) => b,
            Err(e) => return Err(e),
        };
        if !is_cast {
            break;
        }
        let ghost p2 = *parser;
        let cast_type: RAstType = match parse_type(parser) {
            Ok(t) => t,
            Err(e) => return Err(e),
        };
        let ghost p3 = *parser;
        proof {
            lemma_expr_moved_trans(p0, p1, p2);
            lemma_expr_moved_trans(p0, p2, p3);
        }
        match type_get_cast_operation(&ty, &cast_type) {
            crate::rust_types::CastOperation::ZeroExtend => {
                let casted_name: ByteString = crate::codegen::llvm_emit_zext(
                    parser,
                    &ty,
                    &cast_type,
                    &name,
                );
                proof {
                    lemma_emit_after(
                        p0,
                        p3,
                        *parser,
                        crate::codegen::cast_text(
                            casted_name@,
                            "zext".spec_bytes(),
                            crate::rust_types::llvm_type_name(ty@),
                            name@,
                            crate::rust_types::llvm_type_name(cast_type@),
                        ),
                        1,
                    );
                }
                name = casted_name;
                ty = cast_type;
            },
            crate::rust_types::CastOperation::Truncate => {
                let casted_name: ByteString = crate::codegen::llvm_emit_trunc(
                    parser,
                    &ty,
                    &cast_type,
                    &name,
                );
                proof {
                    lemma_emit_after(
                        p0,
                        p3,
                        *parser,
                        crate::codegen::cast_text(
                            casted_name@,
                            "trunc".spec_bytes(),
                            crate::rust_types::llvm_type_name(ty@),
                            name@,
                            crate::rust_types::llvm_type_name(cast_type@),
                        ),
                        1,
                    );
                }
                name = casted_name;
                ty = cast_type;
            },
            crate::rust_types::CastOperation::NoOp => {},
            crate::rust_types::CastOperation::Invalid => {
                return Err(parser_error(parser, ErrorKind::InvalidCast));
            },
        }
    }
    Ok(STPair::ST(name, ty))
}

/// Parse `&mut? unary`, `*unary` or a factor. Taking a reference stores the
/// value in a fresh stack slot; dereferencing loads through a reference or
/// raw pointer.
#[verifier::rlimit(100)]
#[verifier::spinoff_prover]
pub fn parse_unary(parser: &mut Parser) -> (r: Result<STPair, CompileError>)
    requires
        parser_wf(*old(parser)),
    ensures
        r is Ok ==> expr_moved(*old(parser), *final(parser)),
        spec_unary(pstate(*old(parser))) == expr_result(r, *final(parser)),
    decreases p_measure(*old(parser)), 3int,
{
    proof {
        reveal(spec_unary);
        reveal(spec_factor);
    }
    let ghost p0 = *parser;
    match parser_current_token(parser) {
        TokenOf::Ampersand => {
            match parser_next_token(parser) {
                Ok(_) => {},
                Err(e) => return Err(e),
            }
            let ghost p1 = *parser;
            let mutable: bool = match parser_try_consume(parser, &TokenOf::Mut) {
                Ok(b) => b,
                Err(e) => return Err(e),
            };
            let ghost p2 = *parser;
            let STPair::ST(name, ty) = match parse_unary(parser) {
                Ok(pair) => pair,
                Err(e) => return Err(e),
            };
            let ghost p3 = *parser;
            proof {
                lemma_expr_moved_trans(p0, p1, p2);
                lemma_expr_moved_trans(p0, p2, p3);
            }
            let reference: ByteString = crate::codegen::llvm_emit_alloca(parser, &ty, 1);
            let ghost p4 = *parser;
            proof {
                lemma_emit_after(
                    p0,
                    p3,
                    p4,
                    "  ".spec_bytes() + reference@ + " = alloca ".spec_bytes()
                        + crate::rust_types::llvm_type_name(ty@) + ", i64 ".spec_bytes()
                        + crate::text::decimal(1nat) + "\n".spec_bytes(),
                    1,
                );
            }
            crate::codegen::llvm_emit_store(parser, &ty, &name, &reference);
            proof {
                lemma_emit_after(
                    p0,
                    p4,
                    *parser,
                    "  store ".spec_bytes() + crate::rust_types::llvm_type_name(ty@)
                        + " ".spec_bytes() + name@ + ",".spec_bytes() + " ptr ".spec_bytes()
                        + reference@ + "\n".spec_bytes(),
                    0,
                );
            }
            Ok(STPair::ST(reference, RAstTypeOf::Reference(Box::new(ty), mutable)))
        },
        TokenOf::Star => {
            match parser_next_token(parser) {
                Ok(_) => {},
                Err(e) => return Err(e),
            }
            let ghost p1 = *parser;
            let STPair::ST(name, ty) = match parse_unary(parser) {
                Ok(pair) => pair,
                Err(e) => return Err(e),
            };
            let inner_type: RAstType = match ty {
                RAstTypeOf::Reference(pointed, _) => rAstType_clone(&*pointed),
                RAstTypeOf::RawPointerMut(pointed) => rAstType_clone(&*pointed),
                _ => return Err(parser_error(parser, ErrorKind::CannotDereference)),
            };
            let ghost p2 = *parser;
            proof {
                lemma_expr_moved_trans(p0, p1, p2);
            }
            let dereferenced: ByteString = crate::codegen::llvm_emit_load(parser, &inner_type, &name);
            proof {
                lemma_emit_after(
                    p0,
                    p2,
                    *parser,
                    "  ".spec_bytes() + dereferenced@ + " = load ".spec_bytes()
                        + crate::rust_types::llvm_type_name(inner_type@) + ",".spec_bytes()
                        + " ptr ".spec_bytes() + name@ + "\n".spec_bytes(),
                    1,
                );
            }
            Ok(STPair::ST(dereferenced, inner_type))
        },
        _ => parse_factor(parser),
    }
}

/// Parse a factor: a literal, a variable, a call, a parenthesized expression,
/// a block (also `unsafe`), `if`, `while` or `match`.
#[verifier::rlimit(100)]
#[verifier::spinoff_prover]
pub fn parse_factor(parser: &mut Parser) -> (r: Result<STPair, CompileError>)
    requires
        parser_wf(*old(parser)),
    ensures
        r is Ok ==> expr_moved(*old(parser), *final(parser)),
        spec_factor(pstate(*old(parser))) == expr_result(r, *final(parser)),
    decreases p_measure(*old(parser)), 2int,
{
    proof {
        reveal(spec_factor);
        reveal(spec_call);
        reveal(spec_expression);
        reveal(spec_block);
        reveal(spec_if);
        reveal(spec_while);
        reveal(spec_match);
    }
    let ghost p0 = *parser;
    match parser_current_token(parser) {
        TokenOf::Literal(_) => {
            let r = parse_literal(parser);
            r
        },
        TokenOf::Identifier(_) => {
            let name: ByteString = match parser_expect_identifier(parser) {
                Ok(n) => n,
                Err(e) => return Err(e),
            };
            let ghost p1 = *parser;
            if parser_current_token_eq(parser, &TokenOf::LParen) {
                let ty: RAstType = match parse_call(parser, name) {
                    Ok(t) => t,
                    Err(e) => return Err(e),
                };
                proof {
                    lemma_expr_moved_trans(p0, p1, *parser);
                }
                Ok(STPair::ST(string_new(), ty))
            } else {
                match crate::symtable::symTable_lookup_variable_type(parser_symtable(parser), &name) {
                    Some(ty) => Ok(STPair::ST(string_new(), ty)),
                    None => Err(parser_error(parser, ErrorKind::UndefinedVariable)),
                }
            }
        },
        TokenOf::LParen => {
            match parser_next_token(parser) {
                Ok(_) => {},
                Err(e) => return Err(e),
            }
            let ghost p1 = *parser;
            let STPair::ST(name, ty) = match parse_expression(parser) {
                Ok(pair) => pair,
                Err(e) => return Err(e),
            };
            let ghost p2 = *parser;
            match parser_expect_token(parser, &TokenOf::RParen) {
                Ok(_) => {},
                Err(e) => return Err(e),
            }
            proof {
                lemma_expr_moved_trans(p0, p1, p2);
                lemma_expr_moved_trans(p0, p2, *parser);
            }
            Ok(STPair::ST(name, ty))
        },
        TokenOf::Unsafe => {
            match parser_next_token(parser) {
                Ok(_) => {},
                Err(e) => return Err(e),
            }
            let ghost p1 = *parser;
            let r = parse_block(parser);
            proof {
                if r is Ok {
                    lemma_expr_moved_trans(p0, p1, *parser);
                }
            }
            r
        },
        TokenOf::LBrace => parse_block(parser),
        TokenOf::If => match parse_if(parser) {
            Ok(ty) => Ok(STPair::ST(string_new(), ty)),
            Err(e) => Err(e),
        },
        TokenOf::While => match parse_while(parser) {
            Ok(ty) => Ok(STPair::ST(string_new(), ty)),
            Err(e) => Err(e),
        },
        TokenOf::Match => match parse_match(parser) {
            Ok(ty) => Ok(STPair::ST(string_new(), ty)),
            Err(e) => Err(e),
        },
        _ => Err(parser_error(parser, ErrorKind::UnexpectedTokenInFactor)),
    }
}

/// Parse `{ (let-binding; | expression;)* expression? }` in a scope of its
/// own. The value of the block is that of its last expression when it has no
/// semicolon, else `()`.
#[verifier::rlimit(100)]
#[verifier::spinoff_prover]
pub fn parse_block(parser: &mut Parser) -> (r: Result<STPair, CompileError>)
    requires
        parser_wf(*old(parser)),
    ensures
        r is Ok ==> expr_moved(*old(parser), *final(parser)),
        spec_block(pstate(*old(parser))) == expr_result(r, *final(parser)),
    decreases p_measure(*old(parser)), 1int,
{
    proof {
        reveal(spec_block);
        reveal(spec_block_items);
    }
    let ghost p0 = *parser;
    match parser_expect_token(parser, &TokenOf::LBrace) {
        Ok(_) => {},
        Err(e) => return Err(e),
    }
    let ghost p1 = *parser;
    {
        let Parser::Parser(_, _, symtable, _, _) = parser;
        crate::symtable::symTable_enter_scope(symtable);
    }
    proof {
        lemma_prefix_append(p_llvm(p1), Seq::empty());
        assert(p_llvm(p1) + Seq::<u8>::empty() =~= p_llvm(p1));
        lemma_moved_trans(p0, p1, *parser);
        assert(pstate(*parser) == crate::parser_spec::s_with_sym(
            pstate(p1),
            crate::parser_spec::sym_enter(pstate(p1).sym),
        ));
    }
    let ghost items = spec_block_items(pstate(*parser));
    while !parser_current_token_eq(parser, &TokenOf::RBrace)
        invariant
            p0 == *old(parser),
            parser_wf(p0),
            parser_wf(*parser),
            parser_moved(p0, *parser),
            p_measure(*parser) < p_measure(p0),
            p_symtable(*parser)@.globals == p_symtable(p0)@.globals,
            p_symtable(*parser)@.scopes.len() == p_symtable(p0)@.scopes.len() + 1,
            p_return_type(*parser) == p_return_type(p0),
            spec_block(pstate(p0)) == items,
            spec_block_items(pstate(*parser)) == items,
        decreases p_measure(*parser),
    {
        proof {
            reveal(spec_block_items);
            reveal(spec_binding);
            reveal(spec_expression);
        }
        let ghost p2 = *parser;
        let is_let: bool = match parser_current_token(parser) {
            TokenOf::Let => true,
            _ => false,
        };
        if is_let {
            match parse_binding(parser) {
                Ok(_) => {},
                Err(e) => return Err(e),
            }
            let ghost p3 = *parser;
            match parser_expect_token(parser, &TokenOf::SemiColon) {
                Ok(_) => {},
                Err(e) => return Err(e),
            }
            proof {
                lemma_moved_trans(p0, p2, p3);
                lemma_moved_trans(p0, p3, *parser);
            }
        } else {
            let STPair::ST(name, ty) = match parse_expression(parser) {
                Ok(pair) => pair,
                Err(e) => return Err(e),
            };
            let ghost p3 = *parser;
            proof {
                lemma_moved_trans(p0, p2, p3);
            }
            let has_semicolon: bool = match parser_try_consume(parser, &TokenOf::SemiColon) {
                Ok(b) => b,
                Err(e) => return Err(e),
            };
            let ghost p4 = *parser;
            proof {
                lemma_moved_trans(p0, p3, p4);
            }
            if has_semicolon {
                let Parser::Parser(_, code, _, _, _) = parser;
                crate::codegen::llvm_emit_line(code, "");
                proof {
                    assert(p_llvm(*parser) =~= p_llvm(p4) + ("".spec_bytes() + "\n".spec_bytes()));
                    lemma_prefix_append(p_llvm(p4), "".spec_bytes() + "\n".spec_bytes());
                    lemma_prefix_trans(p_llvm(p0), p_llvm(p4), p_llvm(*parser));
                }
            } else {
                match parser_expect_token(parser, &TokenOf::RBrace) {
                    Ok(_) => {},
                    Err(e) => return Err(e),
                }
                let ghost p5 = *parser;
                {
                    let Parser::Parser(_, _, symtable, _, _) = parser;
                    crate::symtable::symTable_leave_scope(symtable);
                }
                proof {
                    lemma_moved_trans(p0, p4, p5);
                    lemma_prefix_append(p_llvm(p5), Seq::empty());
                    assert(p_llvm(p5) + Seq::<u8>::empty() =~= p_llvm(p5));
                    lemma_moved_trans(p0, p5, *parser);
                }
                return Ok(STPair::ST(name, ty));
            }
        }
    }
    let ghost p6 = *parser;
    match parser_expect_token(parser, &TokenOf::RBrace) {
        Ok(_) => {},
        Err(e) => return Err(e),
    }
    let ghost p7 = *parser;
    {
        let Parser::Parser(_, _, symtable, _, _) = parser;
        crate::symtable::symTable_leave_scope(symtable);
    }
    proof {
        lemma_moved_trans(p0, p6, p7);
        lemma_prefix_append(p_llvm(p7), Seq::empty());
        assert(p_llvm(p7) + Seq::<u8>::empty() =~= p_llvm(p7));
        lemma_moved_trans(p0, p7, *parser);
    }
    Ok(STPair::ST(string_new(), RAstTypeOf::Unit))
}

/// Parse `let variable = expression`; the value must have the declared type,
/// and a named variable enters the current scope.
#[verifier::rlimit(100)]
#[verifier::spinoff_prover]
pub fn parse_binding(parser: &mut Parser) -> (r: Result<(), CompileError>)
    requires
        parser_wf(*old(parser)),
    ensures
        r is Ok ==> expr_moved(*old(parser), *final(parser)),
        spec_binding(pstate(*old(parser))) == state_result(r, *final(parser)),
    decreases p_measure(*old(parser)), 0int,
{
    proof {
        reveal(spec_binding);
        reveal(spec_expression);
    }
    let ghost p0 = *parser;
    match parser_expect_token(parser, &TokenOf::Let) {
        Ok(_) => {},
        Err(e) => return Err(e),
    }
    let ghost p1 = *parser;
    let VariableDecl::Var(pattern, binding_type, mutable) = match parse_variable(parser) {
        Ok(v) => v,
        Err(e) => return Err(e),
    };
    let ghost p2 = *parser;
    match parser_expect_token(parser, &TokenOf::Assign) {
        Ok(_) => {},
        Err(e) => return Err(e),
    }
    let ghost p3 = *parser;
    proof {
        lemma_read_trans(p0, p1, p2);
        lemma_read_trans(p0, p2, p3);
    }
    let STPair::ST(_, value_type) = match parse_expression(parser) {
        Ok(pair) => pair,
        Err(e) => return Err(e),
    };
    match parser_expect_same_type(parser, &binding_type, &value_type) {
        Ok(_) => {},
        Err(e) => return Err(e),
    }
    let ghost p4 = *parser;
    proof {
        lemma_expr_moved_trans(p0, p3, p4);
    }
    match pattern {
        Pattern::Identifier(name) => {
            let binding_type_name: ByteString = crate::rust_types::type_to_llvm_name(&binding_type);
            {
                let Parser::Parser(_, _, symtable, _, _) = parser;
                crate::symtable::symTable_insert_variable(
                    symtable,
                    string_clone(&name),
                    rAstType_clone(&binding_type),
                    mutable,
                );
            }
            let ghost p5 = *parser;
            let Parser::Parser(_, code, _, _, _) = parser;
            crate::codegen::llvm_emit_let_comment(code, &name, &binding_type_name, mutable);
            proof {
                lemma_prefix_append(p_llvm(p5), Seq::empty());
                assert(p_llvm(p5) + Seq::<u8>::empty() =~= p_llvm(p5));
                lemma_prefix_trans(p_llvm(p0), p_llvm(p4), p_llvm(p5));
                lemma_prefix_append(
                    p_llvm(p5),
                    crate::codegen::let_comment_text(name@, binding_type_name@, mutable),
                );
                lemma_prefix_trans(p_llvm(p0), p_llvm(p5), p_llvm(*parser));
            }
        },
        _ => {
            let Parser::Parser(_, code, _, _, _) = parser;
            crate::codegen::llvm_emit_line(code, "  ; let pattern");
            proof {
                assert(p_llvm(*parser) =~= p_llvm(p4) + ("  ; let pattern".spec_bytes() + "\n".spec_bytes()));
                lemma_prefix_append(p_llvm(p4), "  ; let pattern".spec_bytes() + "\n".spec_bytes());
                lemma_prefix_trans(p_llvm(p0), p_llvm(p4), p_llvm(*parser));
            }
        },
    }
    Ok(())
}

/// Parse `if expression block (else (if ... | block))?`. The condition must be
/// a `bool`; with an `else` both branches must have the same type, which is
/// the type of the whole; without one the type is `()`.
#[verifier::rlimit(100)]
#[verifier::spinoff_prover]
pub fn parse_if(parser: &mut Parser) -> (r: Result<RAstType, CompileError>)
    requires
        parser_wf(*old(parser)),
    ensures
        r is Ok ==> expr_moved(*old(parser), *final(parser)),
        spec_if(pstate(*old(parser))) == type_result(r, *final(parser)),
    decreases p_measure(*old(parser)), 1int,
{
    proof {
        reveal(spec_if);
        reveal(spec_expression);
        reveal(spec_block);
    }
    let ghost p0 = *parser;
    match parser_expect_token(parser, &TokenOf::If) {
        Ok(_) => {},
        Err(e) => return Err(e),
    }
    let ghost p1 = *parser;
    let STPair::ST(_, condition_type) = match parse_expression(parser) {
        Ok(pair) => pair,
        Err(e) => return Err(e),
    };
    match parser_expect_bool_type(parser, &condition_type) {
        Ok(_) => {},
        Err(e) => return Err(e),
    }
    let ghost p2 = *parser;
    let STPair::ST(_, then_type) = match parse_block(parser) {
        Ok(pair) => pair,
        Err(e) => return Err(e),
    };
    let ghost p3 = *parser;
    proof {
        lemma_expr_moved_trans(p0, p1, p2);
        lemma_expr_moved_trans(p0, p2, p3);
    }
    let has_else: bool = match parser_try_consume(parser, &TokenOf::Else) {
        Ok(b) => b,
        Err(e) => return Err(e),
    };
    if has_else {
        let ghost p4 = *parser;
        let else_type: RAstType = if parser_current_token_eq(parser, &TokenOf::If) {
            match parse_if(parser) {
                Ok(t) => t,
                Err(e) => return Err(e),
            }
        } else {
            match parse_block(parser) {
                Ok(pair) => stPair_get_type(pair),
                Err(e) => return Err(e),
            }
        };
        match parser_expect_same_type(parser, &then_type, &else_type) {
            Ok(_) => {},
            Err(e) => return Err(e),
        }
        proof {
            lemma_expr_moved_trans(p0, p3, p4);
            lemma_expr_moved_trans(p0, p4, *parser);
        }
        Ok(then_type)
    } else {
        Ok(RAstTypeOf::Unit)
    }
}

/// Parse `while expression block`; the condition must be a `bool`, and the
/// loop has type `()`.
#[verifier::rlimit(100)]
#[verifier::spinoff_prover]
pub fn parse_while(parser: &mut Parser) -> (r: Result<RAstType, CompileError>)
    requires
        parser_wf(*old(parser)),
    ensures
        r is Ok ==> expr_moved(*old(parser), *final(parser)),
        r matches Ok(t) ==> t@ is Unit,
        spec_while(pstate(*old(parser))) == type_result(r, *final(parser)),
    decreases p_measure(*old(parser)), 1int,
{
    proof {
        reveal(spec_while);
        reveal(spec_expression);
        reveal(spec_block);
    }
    let ghost p0 = *parser;
    match parser_expect_token(parser, &TokenOf::While) {
        Ok(_) => {},
        Err(e) => return Err(e),
    }
    let ghost p1 = *parser;
    let STPair::ST(_, condition_type) = match parse_expression(parser) {
        Ok(pair) => pair,
        Err(e) => return Err(e),
    };
    match parser_expect_bool_type(parser, &condition_type) {
        Ok(_) => {},
        Err(e) => return Err(e),
    }
    let ghost p2 = *parser;
    match parse_block(parser) {
        Ok(_) => {},
        Err(e) => return Err(e),
    }
    proof {
        lemma_expr_moved_trans(p0, p1, p2);
        lemma_expr_moved_trans(p0, p2, *parser);
    }
    Ok(RAstTypeOf::Unit)
}

/// Parse `match expression { arms }`; its type is that of the arms.
#[verifier::rlimit(100)]
#[verifier::spinoff_prover]
pub fn parse_match(parser: &mut Parser) -> (r: Result<RAstType, CompileError>)
    requires
        parser_wf(*old(parser)),
    ensures
        r is Ok ==> expr_moved(*old(parser), *final(parser)),
        spec_match(pstate(*old(parser))) == type_result(r, *final(parser)),
    decreases p_measure(*old(parser)), 1int,
{
    proof {
        reveal(spec_match);
        reveal(spec_expression);
        reveal(spec_arms);
    }
    let ghost p0 = *parser;
    match parser_expect_token(parser, &TokenOf::Match) {
        Ok(_) => {},
        Err(e) => return Err(e),
    }
    let ghost p1 = *parser;
    let STPair::ST(_, expression_type) = match parse_expression(parser) {
        Ok(pair) => pair,
        Err(e) => return Err(e),
    };
    let ghost p2 = *parser;
    match parser_expect_token(parser, &TokenOf::LBrace) {
        Ok(_) => {},
        Err(e) => return Err(e),
    }
    let ghost p3 = *parser;
    proof {
        lemma_expr_moved_trans(p0, p1, p2);
        lemma_expr_moved_trans(p0, p2, p3);
    }
    let return_type: RAstType = match parse_arms(parser, &expression_type) {
        Ok(t) => t,
        Err(e) => return Err(e),
    };
    let ghost p4 = *parser;
    match parser_expect_token(parser, &TokenOf::RBrace) {
        Ok(_) => {},
        Err(e) => return Err(e),
    }
    proof {
        lemma_expr_moved_trans(p0, p3, p4);
        lemma_expr_moved_trans(p0, p4, *parser);
    }
    Ok(return_type)
}

/// Parse the arms `pattern => expression,` of a match (at least one). Each
/// pattern must fit the matched type, and all arms must have the type of the
/// first, which is returned.
#[verifier::rlimit(100)]
#[verifier::spinoff_prover]
pub fn parse_arms(parser: &mut Parser, matched_type: &RAstType) -> (r: Result<RAstType, CompileError>)
    requires
        parser_wf(*old(parser)),
    ensures
        r is Ok ==> expr_moved(*old(parser), *final(parser)),
        spec_arms(pstate(*old(parser)), matched_type@) == type_result(r, *final(parser)),
    decreases p_measure(*old(parser)), 0int,
{
    proof {
        reveal(spec_arms);
        reveal(spec_more_arms);
        reveal(spec_expression);
    }
    let ghost p0 = *parser;
    let first_pattern: Pattern = match parse_pattern(parser) {
        Ok(p) => p,
        Err(e) => return Err(e),
    };
    let first_pattern_type: RAstType = pattern_type_for_expression(&first_pattern, matched_type);
    match parser_expect_same_type(parser, &first_pattern_type, matched_type) {
        Ok(_) => {},
        Err(e) => return Err(e),
    }
    let ghost p1 = *parser;
    match parser_expect_token(parser, &TokenOf::ArmArrow) {
        Ok(_) => {},
        Err(e) => return Err(e),
    }
    let ghost p2 = *parser;
    proof {
        lemma_read_trans(p0, p1, p2);
    }
    let return_type: RAstType = match parse_expression(parser) {
        Ok(pair) => stPair_get_type(pair),
        Err(e) => return Err(e),
    };
    let ghost p3 = *parser;
    match parser_expect_token(parser, &TokenOf::Comma) {
        Ok(_) => {},
        Err(e) => return Err(e),
    }
    proof {
        lemma_expr_moved_trans(p0, p2, p3);
        lemma_expr_moved_trans(p0, p3, *parser);
    }
    let ghost arms = spec_more_arms(pstate(*parser), matched_type@, return_type@);
    while !parser_current_token_eq(parser, &TokenOf::RBrace)
        invariant
            p0 == *old(parser),
            parser_wf(p0),
            parser_wf(*parser),
            expr_moved(p0, *parser),
            p_measure(*parser) < p_measure(p0),
            spec_arms(pstate(p0), matched_type@) == arms,
            spec_more_arms(pstate(*parser), matched_type@, return_type@) == arms,
        decreases p_measure(*parser),
    {
        proof {
            reveal(spec_more_arms);
            reveal(spec_expression);
        }
        let ghost p4 = *parser;
        let pattern: Pattern = match parse_pattern(parser) {
            Ok(p) => p,
            Err(e) => return Err(e),
        };
        let pattern_type: RAstType = pattern_type_for_expression(&pattern, matched_type);
        match parser_expect_same_type(parser, &pattern_type, matched_type) {
            Ok(_) => {},
            Err(e) => return Err(e),
        }
        let ghost p5 = *parser;
        match parser_expect_token(parser, &TokenOf::ArmArrow) {
            Ok(_) => {},
            Err(e) => return Err(e),
        }
        let ghost p6 = *parser;
        proof {
            lemma_read_trans(p4, p5, p6);
            lemma_expr_moved_trans(p0, p4, p6);
        }
        let arm_type: RAstType = match parse_expression(parser) {
            Ok(pair) => stPair_get_type(pair),
            Err(e) => return Err(e),
        };
        match parser_expect_same_type(parser, &return_type, &arm_type) {
            Ok(_) => {},
            Err(e) => return Err(e),
        }
        let ghost p7 = *parser;
        match parser_expect_token(parser, &TokenOf::Comma) {
            Ok(_) => {},
            Err(e) => return Err(e),
        }
        proof {
            lemma_expr_moved_trans(p0, p6, p7);
            lemma_expr_moved_trans(p0, p7, *parser);
        }
    }
    Ok(return_type)
}

/// What comparing two type lists with `type_eq` item by item says of their
/// views.
proof fn lemma_types_view_eq(
    left: crate::collections::List<RAstType>,
    right: crate::collections::List<RAstType>,
    same: bool,
)
    requires
        same ==> left@.len() == right@.len() && forall|i: int|
            0 <= i < left@.len() ==> call_ensures(type_eq, (&left@[i], &right@[i]), true),
        !same ==> left@.len() != right@.len() || exists|i: int|
            0 <= i < left@.len() && i < right@.len() && call_ensures(
                type_eq,
                (&left@[i], &right@[i]),
                false,
            ),
    ensures
        same == (crate::symtable::types_view(left) == crate::symtable::types_view(right)),
{
    let lv = crate::symtable::types_view(left);
    let rv = crate::symtable::types_view(right);
    if same {
        assert forall|i: int| 0 <= i < lv.len() implies lv[i] == rv[i] by {
            assert(call_ensures(type_eq, (&left@[i], &right@[i]), true));
        }
        assert(lv =~= rv);
    } else {
        if left@.len() == right@.len() {
            let i = choose|i: int|
                0 <= i < left@.len() && i < right@.len() && call_ensures(
                    type_eq,
                    (&left@[i], &right@[i]),
                    false,
                );
            assert(lv[i] != rv[i]);
        } else {
            assert(lv.len() != rv.len());
        }
    }
}

/// Parse the arguments `(e, ...)` of a call to `function_name`. The function
/// must be defined, and the argument types must be its parameter types; the
/// call has its return type.
#[verifier::rlimit(100)]
#[verifier::spinoff_prover]
pub fn parse_call(parser: &mut Parser, function_name: ByteString) -> (r: Result<RAstType, CompileError>)
    requires
        parser_wf(*old(parser)),
    ensures
        r is Ok ==> expr_moved(*old(parser), *final(parser)),
        r matches Ok(t) ==> crate::symtable::find_function(
            p_symtable(*old(parser))@.globals,
            function_name@,
        ) matches Some(signature) && signature.1 == t@,
        spec_call(pstate(*old(parser)), function_name@) == type_result(r, *final(parser)),
    decreases p_measure(*old(parser)), 0int,
{
    proof {
        reveal(spec_call);
        reveal(spec_call_arguments);
        reveal(spec_expression);
    }
    let ghost p0 = *parser;
    match parser_expect_token(parser, &TokenOf::LParen) {
        Ok(_) => {},
        Err(e) => return Err(e),
    }
    let ghost p1 = *parser;
    let mut argument_types: crate::collections::List<RAstType> = crate::collections::list_new::<
        RAstType,
    >();
    proof {
        assert(crate::symtable::types_view(argument_types) =~= Seq::<RAstTypeV>::empty());
    }
    if !parser_current_token_eq(parser, &TokenOf::RParen) {
        let first_argument_type: RAstType = match parse_expression(parser) {
            Ok(pair) => stPair_get_type(pair),
            Err(e) => return Err(e),
        };
        let ghost first_view = first_argument_type@;
        crate::collections::list_append::<RAstType>(&mut argument_types, first_argument_type);
        proof {
            lemma_expr_moved_trans(p0, p1, *parser);
            assert(crate::symtable::types_view(argument_types) =~= seq![first_view]);
        }
        let ghost arguments = spec_call_arguments(pstate(*parser), seq![first_view]);
        loop
            invariant
                p0 == *old(parser),
                parser_wf(p0),
                parser_wf(*parser),
                expr_moved(p0, *parser),
                p_measure(*parser) < p_measure(p0),
                spec_call_arguments(pstate(*parser), crate::symtable::types_view(argument_types))
                    == arguments,
                arguments matches Err(e) ==> spec_call(pstate(p0), function_name@) == Err::<
                    (RAstTypeV, PState),
                    CompileError,
                >(e),
            ensures
                arguments == Ok::<(Seq<RAstTypeV>, PState), CompileError>(
                    (crate::symtable::types_view(argument_types), pstate(*parser)),
                ),
            decreases p_measure(*parser),
        {
            proof {
                reveal(spec_call_arguments);
                reveal(spec_expression);
            }
            let ghost p2 = *parser;
            let more: bool = match parser_try_consume(parser, &TokenOf::Comma) {
                Ok(b) => b,
                Err(e) => return Err(e),
            };
            if !(more && !parser_current_token_eq(parser, &TokenOf::RParen)) {
                proof {
                    if more {
                        lemma_expr_moved_trans(p0, p2, *parser);
                    }
                }
                break;
            }
            let ghost p3 = *parser;
            let argument_type: RAstType = match parse_expression(parser) {
                Ok(pair) => stPair_get_type(pair),
                Err(e) => return Err(e),
            };
            let ghost argument_view = argument_type@;
            let ghost before = crate::symtable::types_view(argument_types);
            crate::collections::list_append::<RAstType>(&mut argument_types, argument_type);
            proof {
                assert(crate::symtable::types_view(argument_types) =~= before.push(argument_view));
                lemma_expr_moved_trans(p0, p2, p3);
                lemma_expr_moved_trans(p0, p3, *parser);
            }
        }
    }
    let ghost p4 = *parser;
    match parser_expect_token(parser, &TokenOf::RParen) {
        Ok(_) => {},
        Err(e) => return Err(e),
    }
    let ghost p5 = *parser;
    proof {
        lemma_expr_moved_trans(p0, p4, p5);
    }
    match crate::symtable::symTable_lookup_function_signature(parser_symtable(parser), &function_name) {
        Some(crate::symtable::FnSignature::Fn(parameter_types, return_type)) => {
            let same: bool = crate::collections::list_eq::<RAstType>(
                &parameter_types,
                &argument_types,
                type_eq,
            );
            proof {
                lemma_types_view_eq(parameter_types, argument_types, same);
            }
            if !same {
                return Err(parser_error(parser, ErrorKind::CallDoesNotMatchSignature));
            }
            let Parser::Parser(_, code, _, _, _) = parser;
            crate::codegen::llvm_emit_call_comment(code, &function_name);
            proof {
                lemma_prefix_append(
                    p_llvm(p5),
                    "  ; call ".spec_bytes() + function_name@ + "\n".spec_bytes(),
                );
                assert(p_llvm(*parser) == p_llvm(p5) + ("  ; call ".spec_bytes() + function_name@
                    + "\n".spec_bytes()));
                lemma_prefix_trans(p_llvm(p0), p_llvm(p5), p_llvm(*parser));
            }
            Ok(return_type)
        },
        None => Err(parser_error(parser, ErrorKind::CallToUndefinedFunction)),
    }
}

// ------------------------------------------------------------------
// Items
// ------------------------------------------------------------------

/// Appending output to a parser that is well formed keeps it following.
proof fn lemma_code_appended(a: Parser, b: Parser, x: Seq<u8>)
    requires
        parser_wf(a),
        p_lexer(b) == p_lexer(a),
        p_counter(b) == p_counter(a),
        p_llvm(b) == p_llvm(a) + x,
    ensures
        parser_moved(a, b),
        p_measure(b) == p_measure(a),
{
    lemma_prefix_append(p_llvm(a), x);
}

/// Parse an enum variant `Name` or `Name(type, ...)`; its type is the
/// variant's name.
pub fn parse_variant(parser: &mut Parser) -> (r: Result<RAstType, CompileError>)
    requires
        parser_wf(*old(parser)),
    ensures
        r is Ok ==> p_read(*old(parser), *final(parser)),
        r matches Ok(t) ==> p_token(*old(parser)) is Identifier && t@ == RAstTypeOf::Custom(
            p_token(*old(parser))->Identifier_0@,
        ),
        spec_variant(pstate(*old(parser))) == type_result(r, *final(parser)),
{
    let ghost p0 = *parser;
    let variant_name: ByteString = match parser_expect_identifier(parser) {
        Ok(name) => name,
        Err(e) => return Err(e),
    };
    let ghost p1 = *parser;
    let has_fields: bool = match parser_try_consume(parser, &TokenOf::LParen) {
        Ok(b) => b,
        Err(e) => return Err(e),
    };
    if has_fields {
        proof {
            lemma_read_trans(p0, p1, *parser);
        }
        match parse_type(parser) {
            Ok(_) => {},
            Err(e) => return Err(e),
        }
        let ghost p_first = *parser;
        loop
            invariant
                parser_wf(*parser),
                p_read(p0, *parser),
                p0 == *old(parser),
                spec_more_types(pstate(*parser)) == spec_more_types(pstate(p_first)),
                spec_variant(pstate(p0)) == match spec_more_types(pstate(p_first)) {
                    Err(e) => Err(e),
                    Ok(s4) => match s_expect(s4, TokenOf::RParen) {
                        Err(e) => Err(e),
                        Ok(s5) => Ok((RAstTypeOf::Custom(variant_name@), s5)),
                    },
                },
            ensures
                spec_more_types(pstate(p_first)) == Ok::<PState, CompileError>(pstate(*parser)),
            decreases p_measure(*parser),
        {
            let ghost p2 = *parser;
            let more: bool = match parser_try_consume(parser, &TokenOf::Comma) {
                Ok(b) => b,
                Err(e) => return Err(e),
            };
            if !more {
                assert(spec_more_types(pstate(p2)) == Ok::<PState, CompileError>(pstate(*parser)));
                break;
            }
            let ghost p3 = *parser;
            match parse_type(parser) {
                Ok(_) => {},
                Err(e) => return Err(e),
            }
            proof {
                lemma_read_trans(p0, p2, p3);
                lemma_read_trans(p0, p3, *parser);
            }
        }
        let ghost p4 = *parser;
        match parser_expect_token(parser, &TokenOf::RParen) {
            Ok(_) => {},
            Err(e) => return Err(e),
        }
        proof {
            lemma_read_trans(p0, p4, *parser);
        }
    }
    Ok(RAstTypeOf::Custom(variant_name))
}

/// Parse `enum Name { Variant, ... }` (at least one variant, each followed by
/// a comma); the enum's name must not be taken by a global.
#[verifier::rlimit(100)]
#[verifier::spinoff_prover]
pub fn parse_enum(parser: &mut Parser) -> (r: Result<(), CompileError>)
    requires
        parser_wf(*old(parser)),
    ensures
        r is Ok ==> parser_moved(*old(parser), *final(parser)),
        r is Ok ==> p_measure(*final(parser)) < p_measure(*old(parser)),
        r is Ok ==> p_symtable(*final(parser))@.scopes == p_symtable(*old(parser))@.scopes,
        r is Ok ==> p_return_type(*final(parser)) == p_return_type(*old(parser)),
        spec_enum(pstate(*old(parser))) == state_result(r, *final(parser)),
{
    proof {
        reveal(spec_enum);
    }
    let ghost p0 = *parser;
    match parser_expect_token(parser, &TokenOf::Enum) {
        Ok(_) => {},
        Err(e) => return Err(e),
    }
    let ghost p1 = *parser;
    let enum_name: ByteString = match parser_expect_identifier(parser) {
        Ok(name) => name,
        Err(e) => return Err(e),
    };
    let ghost p2 = *parser;
    match parser_expect_token(parser, &TokenOf::LBrace) {
        Ok(_) => {},
        Err(e) => return Err(e),
    }
    let ghost p3 = *parser;
    let mut variants: crate::collections::List<RAstType> = crate::collections::list_new::<RAstType>();
    let first_variant_type: RAstType = match parse_variant(parser) {
        Ok(t) => t,
        Err(e) => return Err(e),
    };
    let ghost first_view = first_variant_type@;
    proof {
        assert(crate::symtable::types_view(variants) =~= Seq::<RAstTypeV>::empty());
    }
    crate::collections::list_append::<RAstType>(&mut variants, first_variant_type);
    proof {
        assert(crate::symtable::types_view(variants) =~= seq![first_view]);
    }
    let ghost p4 = *parser;
    match parser_expect_token(parser, &TokenOf::Comma) {
        Ok(_) => {},
        Err(e) => return Err(e),
    }
    proof {
        lemma_read_trans(p0, p1, p2);
        lemma_read_trans(p0, p2, p3);
        lemma_read_trans(p0, p3, p4);
        lemma_read_trans(p0, p4, *parser);
    }
    let ghost more = spec_more_variants(pstate(*parser), seq![first_view]);
    while !parser_current_token_eq(parser, &TokenOf::RBrace)
        invariant
            parser_wf(*parser),
            p_read(p0, *parser),
            p0 == *old(parser),
            spec_more_variants(pstate(*parser), crate::symtable::types_view(variants)) == more,
            more matches Err(e) ==> spec_enum(pstate(p0)) == Err::<PState, CompileError>(e),
        decreases p_measure(*parser),
    {
        let ghost p5 = *parser;
        let variant_type: RAstType = match parse_variant(parser) {
            Ok(t) => t,
            Err(e) => return Err(e),
        };
        let ghost variant_view = variant_type@;
        let ghost before = crate::symtable::types_view(variants);
        crate::collections::list_append::<RAstType>(&mut variants, variant_type);
        proof {
            assert(crate::symtable::types_view(variants) =~= before.push(variant_view));
        }
        let ghost p6 = *parser;
        match parser_expect_token(parser, &TokenOf::Comma) {
            Ok(_) => {},
            Err(e) => return Err(e),
        }
        proof {
            lemma_read_trans(p0, p5, p6);
            lemma_read_trans(p0, p6, *parser);
        }
    }
    let ghost p7 = *parser;
    match parser_expect_token(parser, &TokenOf::RBrace) {
        Ok(_) => {},
        Err(e) => return Err(e),
    }
    let ghost p8 = *parser;
    proof {
        lemma_read_trans(p0, p7, p8);
    }
    {
        let Parser::Parser(_, code, _, _, _) = parser;
        crate::codegen::llvm_emit_enum_comment(code, &enum_name);
    }
    let ghost p9 = *parser;
    proof {
        assert(p_llvm(p9) =~= p_llvm(p8) + ("; enum ".spec_bytes() + enum_name@ + "\n".spec_bytes()));
        lemma_code_appended(p8, p9, "; enum ".spec_bytes() + enum_name@ + "\n".spec_bytes());
        lemma_moved_trans(p0, p8, p9);
    }
    let inserted: bool = {
        let Parser::Parser(_, _, symtable, _, _) = parser;
        crate::symtable::symTable_insert_enum(symtable, enum_name, variants)
    };
    if !inserted {
        return Err(parser_error(parser, ErrorKind::DuplicateEnumName));
    }
    Ok(())
}

/// The state after a parameter was declared: a named one is written as a
/// comment and enters the innermost scope.
proof fn lemma_declared(p: Parser, q: Parser, pattern: Pattern, t: RAstType, m: bool)
    requires
        parser_wf(p),
        p_lexer(q) == p_lexer(p),
        p_counter(q) == p_counter(p),
        p_return_type(q) == p_return_type(p),
        pstate(q) == crate::parser_spec::s_declare_parameter(pstate(p), pattern_view(pattern), t@, m),
    ensures
        parser_moved(p, q),
        p_measure(q) == p_measure(p),
        p_symtable(q)@.globals == p_symtable(p)@.globals,
        p_symtable(q)@.scopes.len() == p_symtable(p)@.scopes.len(),
{
    match pattern {
        Pattern::Identifier(name) => {
            lemma_code_appended(
                p,
                q,
                crate::codegen::let_comment_text(name@, crate::rust_types::llvm_type_name(t@), m),
            );
        },
        _ => {
            lemma_code_appended(p, q, Seq::empty());
            assert(p_llvm(p) + Seq::<u8>::empty() =~= p_llvm(p));
        },
    }
}

/// Declare a parameter that was read: a named one is written as a comment and
/// enters the innermost scope. Tells whether its name was already used in that
/// scope (false for other patterns).
fn declare_parameter(parser: &mut Parser, pattern: Pattern, param_type: RAstType, is_mutable: bool) -> (r:
    bool)
    requires
        parser_wf(*old(parser)),
    ensures
        p_lexer(*final(parser)) == p_lexer(*old(parser)),
        p_counter(*final(parser)) == p_counter(*old(parser)),
        p_return_type(*final(parser)) == p_return_type(*old(parser)),
        pstate(*final(parser)) == crate::parser_spec::s_declare_parameter(
            pstate(*old(parser)),
            pattern_view(pattern),
            param_type@,
            is_mutable,
        ),
        r == match pattern_view(pattern) {
            PatternV::Identifier(name) => crate::parser_spec::sym_variable_answer(
                p_symtable(*old(parser))@,
                name,
            ),
            _ => false,
        },
{
    match pattern {
        Pattern::Identifier(name) => {
            let type_name_text: ByteString = crate::rust_types::type_to_llvm_name(&param_type);
            {
                let Parser::Parser(_, code, _, _, _) = parser;
                crate::codegen::llvm_emit_let_comment(code, &name, &type_name_text, is_mutable);
            }
            let Parser::Parser(_, _, symtable, _, _) = parser;
            crate::symtable::symTable_insert_variable(symtable, name, param_type, is_mutable)
        },
        _ => false,
    }
}

/// Parse the parameters of a function up to (not including) the `)`, and
/// return their types. A named parameter after the first whose name is
/// already in the innermost scope is refused as a duplicate.
fn parse_parameters(parser: &mut Parser) -> (r: Result<crate::collections::List<RAstType>, CompileError>)
    requires
        parser_wf(*old(parser)),
    ensures
        r is Ok ==> parser_moved(*old(parser), *final(parser)),
        r is Ok ==> p_symtable(*final(parser))@.globals == p_symtable(*old(parser))@.globals,
        r is Ok ==> p_symtable(*final(parser))@.scopes.len() == p_symtable(*old(parser))@.scopes.len(),
        r is Ok ==> p_return_type(*final(parser)) == p_return_type(*old(parser)),
        spec_parameters(pstate(*old(parser))) == match r {
            Ok(l) => Ok::<(Seq<RAstTypeV>, PState), CompileError>(
                (crate::symtable::types_view(l), pstate(*final(parser))),
            ),
            Err(e) => Err(e),
        },
{
    let ghost p0 = *parser;
    let mut parameter_types: crate::collections::List<RAstType> = crate::collections::list_new::<
        RAstType,
    >();
    proof {
        assert(crate::symtable::types_view(parameter_types) =~= Seq::<RAstTypeV>::empty());
        lemma_code_appended(p0, p0, Seq::empty());
        assert(p_llvm(p0) + Seq::<u8>::empty() =~= p_llvm(p0));
    }
    if parser_current_token_eq(parser, &TokenOf::RParen) {
        return Ok(parameter_types);
    }
    let VariableDecl::Var(pattern, param_type, is_mutable) = match parse_variable(parser) {
        Ok(v) => v,
        Err(e) => return Err(e),
    };
    let ghost p1 = *parser;
    let ghost first_view = param_type@;
    crate::collections::list_append::<RAstType>(&mut parameter_types, rAstType_clone(&param_type));
    proof {
        assert(crate::symtable::types_view(parameter_types) =~= seq![first_view]);
    }
    declare_parameter(parser, pattern, param_type, is_mutable);
    proof {
        lemma_declared(p1, *parser, pattern, param_type, is_mutable);
        lemma_moved_trans(p0, p1, *parser);
    }
    let ghost more = spec_more_parameters(pstate(*parser), seq![first_view]);
    loop
        invariant
            p0 == *old(parser),
            parser_wf(p0),
            parser_wf(*parser),
            parser_moved(p0, *parser),
            p_symtable(*parser)@.globals == p_symtable(p0)@.globals,
            p_symtable(*parser)@.scopes.len() == p_symtable(p0)@.scopes.len(),
            p_return_type(*parser) == p_return_type(p0),
            spec_parameters(pstate(p0)) == more,
            spec_more_parameters(pstate(*parser), crate::symtable::types_view(parameter_types)) == more,
        ensures
            more == Ok::<(Seq<RAstTypeV>, PState), CompileError>(
                (crate::symtable::types_view(parameter_types), pstate(*parser)),
            ),
        decreases p_measure(*parser),
    {
        let ghost q0 = *parser;
        let more_parameters: bool = match parser_try_consume(parser, &TokenOf::Comma) {
            Ok(b) => b,
            Err(e) => return Err(e),
        };
        if !(more_parameters && !parser_current_token_eq(parser, &TokenOf::RParen)) {
            proof {
                if more_parameters {
                    lemma_moved_trans(p0, q0, *parser);
                }
            }
            break;
        }
        let ghost q1 = *parser;
        let VariableDecl::Var(pattern, param_type, is_mutable) = match parse_variable(parser) {
            Ok(v) => v,
            Err(e) => return Err(e),
        };
        let ghost q2 = *parser;
        proof {
            lemma_moved_trans(p0, q0, q1);
            lemma_moved_trans(p0, q1, q2);
        }
        let ghost param_view = param_type@;
        let ghost before = crate::symtable::types_view(parameter_types);
        crate::collections::list_append::<RAstType>(&mut parameter_types, rAstType_clone(&param_type));
        proof {
            assert(crate::symtable::types_view(parameter_types) =~= before.push(param_view));
        }
        let answer: bool = declare_parameter(parser, pattern, param_type, is_mutable);
        proof {
            lemma_declared(q2, *parser, pattern, param_type, is_mutable);
            lemma_moved_trans(p0, q2, *parser);
        }
        if answer {
            return Err(parser_error(parser, ErrorKind::DuplicateParameterName));
        }
    }
    Ok(parameter_types)
}

/// Parse a function definition `unsafe? fn name(parameters) (-> type)? block`.
/// The parameters are variables of the function's scope; the block's type
/// must be the return type; the name must not be taken by a global. Emits the
/// function's definition.
#[verifier::rlimit(100)]
#[verifier::spinoff_prover]
pub fn parse_function(parser: &mut Parser) -> (r: Result<(), CompileError>)
    requires
        parser_wf(*old(parser)),
    ensures
        r is Ok ==> parser_moved(*old(parser), *final(parser)),
        r is Ok ==> p_measure(*final(parser)) < p_measure(*old(parser)),
        r is Ok ==> p_symtable(*final(parser))@.scopes.len() == p_symtable(
            *old(parser),
        )@.scopes.len(),
        r is Ok ==> p_return_type(*final(parser))@ is Unit,
        spec_function(pstate(*old(parser))) == state_result(r, *final(parser)),
{
    proof {
        reveal(spec_function);
    }
    let ghost p0 = *parser;
    match parser_try_consume(parser, &TokenOf::Unsafe) {
        Ok(_) => {},
        Err(e) => return Err(e),
    }
    let ghost p1 = *parser;
    match parser_expect_token(parser, &TokenOf::Fn) {
        Ok(_) => {},
        Err(e) => return Err(e),
    }
    let ghost p2 = *parser;
    let function_name: ByteString = match parser_expect_identifier(parser) {
        Ok(name) => name,
        Err(e) => return Err(e),
    };
    let ghost p3 = *parser;
    proof {
        if p1 != p0 {
            lemma_read_trans(p0, p1, p2);
            lemma_read_trans(p0, p2, p3);
        } else {
            lemma_read_trans(p1, p2, p3);
        }
    }
    {
        let Parser::Parser(_, _, symtable, _, _) = parser;
        crate::symtable::symTable_enter_scope(symtable);
    }
    let ghost p4 = *parser;
    proof {
        lemma_code_appended(p3, p4, Seq::empty());
        assert(p_llvm(p3) + Seq::<u8>::empty() =~= p_llvm(p3));
        lemma_moved_trans(p0, p3, p4);
        assert(pstate(p4) == crate::parser_spec::s_with_sym(
            pstate(p3),
            crate::parser_spec::sym_enter(pstate(p3).sym),
        ));
    }
    match parser_expect_token(parser, &TokenOf::LParen) {
        Ok(_) => {},
        Err(e) => return Err(e),
    }
    let ghost p5 = *parser;
    proof {
        lemma_moved_trans(p0, p4, p5);
    }
    let parameter_types: crate::collections::List<RAstType> = match parse_parameters(parser) {
        Ok(l) => l,
        Err(e) => return Err(e),
    };
    let ghost p8 = *parser;
    proof {
        lemma_moved_trans(p0, p5, p8);
    }
    match parser_expect_token(parser, &TokenOf::RParen) {
        Ok(_) => {},
        Err(e) => return Err(e),
    }
    let ghost p9 = *parser;
    proof {
        lemma_moved_trans(p0, p8, p9);
    }
    let has_arrow: bool = match parser_try_consume(parser, &TokenOf::TypeArrow) {
        Ok(b) => b,
        Err(e) => return Err(e),
    };
    let ghost p10 = *parser;
    proof {
        if has_arrow {
            lemma_moved_trans(p0, p9, p10);
        }
    }
    let function_return_type: RAstType = if has_arrow {
        match parse_type(parser) {
            Ok(t) => t,
            Err(e) => return Err(e),
        }
    } else {
        RAstTypeOf::Unit
    };
    let ghost p11 = *parser;
    proof {
        if has_arrow {
            lemma_moved_trans(p0, p10, p11);
        }
        assert(spec_return_type(pstate(p9)) == Ok::<(RAstTypeV, PState), CompileError>(
            (function_return_type@, pstate(p11)),
        ));
    }
    parser_set_current_fn_return_type(parser, rAstType_clone(&function_return_type));
    let llvm_return_type_name: ByteString = crate::rust_types::type_to_llvm_name(&function_return_type);
    {
        let Parser::Parser(_, code, _, _, _) = parser;
        crate::codegen::llvm_emit_function_header(code, &function_name, &llvm_return_type_name);
    }
    let ghost p12 = *parser;
    proof {
        lemma_code_appended(
            p11,
            p12,
            crate::codegen::function_header_text(function_name@, llvm_return_type_name@),
        );
        lemma_moved_trans(p0, p11, p12);
    }
    let inserted: bool = {
        let Parser::Parser(_, _, symtable, _, _) = parser;
        crate::symtable::symTable_insert_function(
            symtable,
            function_name,
            parameter_types,
            rAstType_clone(&function_return_type),
        )
    };
    if !inserted {
        return Err(parser_error(parser, ErrorKind::DuplicateFunctionName));
    }
    let ghost p13 = *parser;
    proof {
        lemma_code_appended(p12, p13, Seq::empty());
        assert(p_llvm(p12) + Seq::<u8>::empty() =~= p_llvm(p12));
        lemma_moved_trans(p0, p12, p13);
    }
    let STPair::ST(name, block_type) = match parse_block(parser) {
        Ok(pair) => pair,
        Err(e) => return Err(e),
    };
    match parser_expect_same_type(parser, &block_type, &function_return_type) {
        Ok(_) => {},
        Err(e) => return Err(e),
    }
    let ghost p14 = *parser;
    proof {
        lemma_moved_trans(p0, p13, p14);
    }
    match function_return_type {
        RAstTypeOf::Unit => {
            crate::codegen::llvm_emit_ret_void(parser);
            proof {
                lemma_code_appended(p14, *parser, "  ret void\n".spec_bytes());
            }
        },
        _ => {
            crate::codegen::llvm_emit_ret_value(parser, &block_type, &name);
            proof {
                lemma_code_appended(
                    p14,
                    *parser,
                    "  ".spec_bytes() + "ret ".spec_bytes() + crate::rust_types::llvm_type_name(
                        block_type@,
                    ) + " ".spec_bytes() + name@ + "\n".spec_bytes(),
                );
            }
        },
    }
    let ghost p15 = *parser;
    proof {
        lemma_moved_trans(p0, p14, p15);
    }
    {
        let Parser::Parser(_, code, _, _, _) = parser;
        crate::codegen::llvm_emit_line(code, "}");
    }
    let ghost p16 = *parser;
    proof {
        assert(p_llvm(p16) =~= p_llvm(p15) + ("}".spec_bytes() + "\n".spec_bytes()));
        lemma_code_appended(p15, p16, "}".spec_bytes() + "\n".spec_bytes());
        lemma_moved_trans(p0, p15, p16);
    }
    {
        let Parser::Parser(_, _, symtable, _, _) = parser;
        crate::symtable::symTable_leave_scope(symtable);
    }
    let ghost p17 = *parser;
    proof {
        lemma_code_appended(p16, p17, Seq::empty());
        assert(p_llvm(p16) + Seq::<u8>::empty() =~= p_llvm(p16));
        lemma_moved_trans(p0, p16, p17);
    }
    parser_set_current_fn_return_type(parser, RAstTypeOf::Unit);
    proof {
        lemma_code_appended(p17, *parser, Seq::empty());
        assert(p_llvm(p17) + Seq::<u8>::empty() =~= p_llvm(p17));
        lemma_moved_trans(p0, p17, *parser);
    }
    Ok(())
}

/// Parse a whole program: function and enum definitions up to the end of the
/// input.
pub fn parse_language(parser: &mut Parser) -> (r: Result<(), CompileError>)
    requires
        parser_wf(*old(parser)),
    ensures
        r is Ok ==> parser_moved(*old(parser), *final(parser)) && p_token(*final(parser)) is Eof,
        p_token(*old(parser)) is Eof ==> r is Ok && *final(parser) == *old(parser),
        !(p_token(*old(parser)) is Eof || p_token(*old(parser)) is Fn || p_token(*old(parser)) is Unsafe
            || p_token(*old(parser)) is Enum) ==> r == Err::<(), CompileError>(
            p_error(*old(parser), ErrorKind::ExpectedTopLevelItem),
        ),
        spec_language(pstate(*old(parser))) == state_result(r, *final(parser)),
{
    let ghost p0 = *parser;
    proof {
        lemma_code_appended(p0, p0, Seq::empty());
        assert(p_llvm(p0) + Seq::<u8>::empty() =~= p_llvm(p0));
    }
    loop
        invariant
            p0 == *old(parser),
            parser_wf(*parser),
            parser_moved(p0, *parser),
            !(p_token(p0) is Eof || p_token(p0) is Fn || p_token(p0) is Unsafe || p_token(p0) is Enum)
                ==> *parser == p0,
            p_token(p0) is Eof ==> *parser == p0,
            spec_language(pstate(*parser)) == spec_language(pstate(p0)),
        decreases p_measure(*parser),
    {
        let ghost q0 = *parser;
        let kind: u8 = match parser_current_token(parser) {
            TokenOf::Fn => 0,
            TokenOf::Unsafe => 0,
            TokenOf::Enum => 1,
            TokenOf::Eof => return Ok(()),
            _ => return Err(parser_error(parser, ErrorKind::ExpectedTopLevelItem)),
        };
        if kind == 0 {
            match parse_function(parser) {
                Ok(_) => {},
                Err(e) => return Err(e),
            }
        } else {
            match parse_enum(parser) {
                Ok(_) => {},
                Err(e) => return Err(e),
            }
        }
        proof {
            lemma_moved_trans(p0, q0, *parser);
        }
    }
}

/// The result of compiling a source text, as a spec result.
pub open spec fn compile_result(r: Result<ByteString, CompileError>) -> Result<Seq<u8>, CompileError> {
    match r {
        Ok(code) => Ok(code@),
        Err(e) => Err(e),
    }
}

/// Compile a program to LLVM-IR: the output of parsing the whole source from
/// its start, or the first error.
pub fn parse_to_llvm(source: &str) -> (r: Result<ByteString, CompileError>)
    requires
        source.spec_bytes().len() + 2 < usize::MAX,
    ensures
        exists|b: ByteString|
            #![trigger b@]
            b@ == source.spec_bytes() && spec_compile(
                crate::rust_lexer::SourceFile::SourceFile(
                    b,
                    0,
                    crate::rust_lexer::SourceLocation::Coords(1, 1),
                ),
            ) == compile_result(r),
{
    let result = parser_from_str(source);
    let ghost b = choose|b: ByteString|
        #![trigger b@]
        b@ == source.spec_bytes() && s_initial(
            crate::rust_lexer::SourceFile::SourceFile(
                b,
                0,
                crate::rust_lexer::SourceLocation::Coords(1, 1),
            ),
        ) == match result {
            Ok(p) => Ok::<PState, CompileError>(pstate(p)),
            Err(e) => Err(e),
        };
    let mut parser: Parser = match result {
        Ok(p) => p,
        Err(e) => {
            assert(b@ == source.spec_bytes());
            return Err(e);
        },
    };
    match parse_language(&mut parser) {
        Ok(_) => {},
        Err(e) => {
            assert(b@ == source.spec_bytes());
            return Err(e);
        },
    }
    let code = string_clone(parser_llvm(&parser));
    assert(b@ == source.spec_bytes());
    Ok(code)
}
} // verus!
