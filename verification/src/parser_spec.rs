//! What the parser computes, as functions on parser states: the result of
//! each parsing function and the state it leaves, with errors at their
//! positions.
use vstd::prelude::*;
use vstd::string::StringSliceAdditionalSpecFns;
use crate::codegen::{binary_text, cast_text, function_header_text, let_comment_text, temporary_name};
use crate::parser::{Parser, Pattern, p_counter, p_lexer, p_llvm, p_return_type, p_symtable, p_token};
use crate::rust_lexer::{
    Comparison, CompileError, ErrorKind, LiteralOf, LiteralV, SourceFile, TokenOf, TokenV, error_at,
    lx_sf, sf_rest, spec_next_token,
};
use crate::rust_types::{
    bit_width, is_primitive, CastOperation, RAstTypeOf, RAstTypeV, cast_operation, is_numeric_type, llvm_type_name,
    str_ref_type,
};
use crate::symtable::{
    EntryV, SymTableV, entries_contain, find_function, scopes_find_variable,
};
use crate::text::decimal;

verus! {

/// The state of the parser: the source position, the current token, the
/// output so far, the symbols, the current function's return type and the
/// number of registers handed out.
pub struct PState {
    pub sf: SourceFile,
    pub tok: TokenV,
    pub code: Seq<u8>,
    pub sym: SymTableV,
    pub ret: RAstTypeV,
    pub counter: nat,
}

/// The state of a parser.
pub open spec fn pstate(p: Parser) -> PState {
    PState {
        sf: lx_sf(p_lexer(p)),
        tok: p_token(p)@,
        code: p_llvm(p),
        sym: p_symtable(p)@,
        ret: p_return_type(p)@,
        counter: p_counter(p) as nat,
    }
}

/// How much input is left.
pub open spec fn s_measure(s: PState) -> nat {
    (if sf_rest(s.sf) >= 0 {
        sf_rest(s.sf) as nat
    } else {
        0nat
    }) + if s.tok is Eof {
        0nat
    } else {
        1nat
    }
}

/// The error `kind` at the state's position.
pub open spec fn s_err(s: PState, kind: ErrorKind) -> CompileError {
    error_at(s.sf, kind)
}

/// The state after reading the next token.
pub open spec fn s_next(s: PState) -> Result<PState, CompileError> {
    let (r, sf2) = spec_next_token(s.sf);
    match r {
        Ok(t) => Ok(PState { sf: sf2, tok: t, code: s.code, sym: s.sym, ret: s.ret, counter: s.counter }),
        Err(e) => Err(e),
    }
}

/// Read the current token when it is `t`.
pub open spec fn s_try(s: PState, t: TokenV) -> Result<(bool, PState), CompileError> {
    if s.tok == t {
        match s_next(s) {
            Ok(s2) => Ok((true, s2)),
            Err(e) => Err(e),
        }
    } else {
        Ok((false, s))
    }
}

/// Read the current token, which must be `t`.
pub open spec fn s_expect(s: PState, t: TokenV) -> Result<PState, CompileError> {
    if s.tok == t {
        s_next(s)
    } else {
        Err(s_err(s, ErrorKind::UnexpectedToken))
    }
}

/// Read an identifier.
pub open spec fn s_ident(s: PState) -> Result<(Seq<u8>, PState), CompileError> {
    match s.tok {
        TokenOf::Identifier(n) => match s_next(s) {
            Ok(s2) => Ok((n, s2)),
            Err(e) => Err(e),
        },
        _ => Err(s_err(s, ErrorKind::ExpectedIdentifier)),
    }
}

/// The state with `text` appended to the output and `n` more registers.
pub open spec fn s_emit(s: PState, text: Seq<u8>, n: nat) -> PState {
    PState {
        sf: s.sf,
        tok: s.tok,
        code: s.code + text,
        sym: s.sym,
        ret: s.ret,
        counter: s.counter + n,
    }
}

/// The state with other symbols.
pub open spec fn s_with_sym(s: PState, sym: SymTableV) -> PState {
    PState { sf: s.sf, tok: s.tok, code: s.code, sym, ret: s.ret, counter: s.counter }
}

/// Symbols with a new innermost scope.
pub open spec fn sym_enter(y: SymTableV) -> SymTableV {
    SymTableV { globals: y.globals, scopes: seq![Seq::<EntryV>::empty()] + y.scopes }
}

/// Symbols without their innermost scope.
pub open spec fn sym_leave(y: SymTableV) -> SymTableV {
    if y.scopes.len() > 0 {
        SymTableV { globals: y.globals, scopes: y.scopes.drop_first() }
    } else {
        y
    }
}

/// Symbols with a variable in the innermost scope (none without a scope).
pub open spec fn sym_insert_variable(y: SymTableV, name: Seq<u8>, t: RAstTypeV, m: bool) -> SymTableV {
    if y.scopes.len() == 0 {
        y
    } else {
        SymTableV {
            globals: y.globals,
            scopes: y.scopes.update(0, seq![EntryV::Variable(name, t, m)] + y.scopes[0]),
        }
    }
}

/// What inserting a variable answers: whether the name was used in the
/// innermost scope (true without a scope).
pub open spec fn sym_variable_answer(y: SymTableV, name: Seq<u8>) -> bool {
    if y.scopes.len() == 0 {
        true
    } else {
        entries_contain(y.scopes[0], name)
    }
}

/// The value of a pattern.
pub enum PatternV {
    Literal(RAstTypeV),
    Identifier(Seq<u8>),
    EnumVariant(Seq<u8>, Seq<u8>),
    Wildcard,
}

pub open spec fn pattern_view(p: Pattern) -> PatternV {
    match p {
        Pattern::Literal(t) => PatternV::Literal(t@),
        Pattern::Identifier(n) => PatternV::Identifier(n@),
        Pattern::EnumVariant(a, b) => PatternV::EnumVariant(a@, b@),
        Pattern::Wildcard => PatternV::Wildcard,
    }
}

/// The type a pattern requires of the matched expression.
pub open spec fn pattern_v_type(p: PatternV, expression_type: RAstTypeV) -> RAstTypeV {
    match p {
        PatternV::Literal(t) => t,
        PatternV::Identifier(_) => expression_type,
        PatternV::EnumVariant(enum_name, _) => RAstTypeOf::Custom(enum_name),
        PatternV::Wildcard => expression_type,
    }
}

/// The type of a literal pattern.
pub open spec fn literal_type(l: LiteralV) -> RAstTypeV {
    match l {
        LiteralOf::Int(_) => RAstTypeOf::Usize,
        LiteralOf::Char(_) => RAstTypeOf::Char,
        LiteralOf::String(_) => str_ref_type(),
        LiteralOf::Bool(_) => RAstTypeOf::Bool,
    }
}

/// The text of a literal and its type.
pub open spec fn literal_value(l: LiteralV) -> (Seq<u8>, RAstTypeV) {
    match l {
        LiteralOf::Int(v) => (decimal(v as nat), RAstTypeOf::Usize),
        LiteralOf::Char(c) => (decimal(c as nat), RAstTypeOf::Char),
        LiteralOf::Bool(b) => (
            decimal(
                if b {
                    1nat
                } else {
                    0nat
                },
            ),
            RAstTypeOf::Bool,
        ),
        LiteralOf::String(_) => (Seq::empty(), str_ref_type()),
    }
}

// ------------------------------------------------------------------
// Types, patterns, variables and literals
// ------------------------------------------------------------------

/// A type.
pub open spec fn spec_type(s: PState) -> Result<(RAstTypeV, PState), CompileError>
    decreases s_measure(s),
{
    match s.tok {
        TokenOf::U8 => match s_next(s) {
            Ok(s2) => Ok((RAstTypeOf::U8, s2)),
            Err(e) => Err(e),
        },
        TokenOf::Usize => match s_next(s) {
            Ok(s2) => Ok((RAstTypeOf::Usize, s2)),
            Err(e) => Err(e),
        },
        TokenOf::Char => match s_next(s) {
            Ok(s2) => Ok((RAstTypeOf::Char, s2)),
            Err(e) => Err(e),
        },
        TokenOf::Bool => match s_next(s) {
            Ok(s2) => Ok((RAstTypeOf::Bool, s2)),
            Err(e) => Err(e),
        },
        TokenOf::LParen => match s_expect(s, TokenOf::RParen) {
            Ok(s2) => Ok((RAstTypeOf::Unit, s2)),
            Err(e) => Err(e),
        },
        TokenOf::Ampersand => match s_next(s) {
            Err(e) => Err(e),
            Ok(s1) => match s_try(s1, TokenOf::Mut) {
                Err(e) => Err(e),
                Ok((true, s2)) => if s_measure(s2) < s_measure(s) {
                    match spec_type(s2) {
                        Ok((inner, s3)) => Ok((RAstTypeOf::Reference(Box::new(inner), true), s3)),
                        Err(e) => Err(e),
                    }
                } else {
                    Err(s_err(s, ErrorKind::ExpectedType))
                },
                Ok((false, s2)) => match s_try(s2, TokenOf::Str) {
                    Err(e) => Err(e),
                    Ok((true, s3)) => Ok((str_ref_type(), s3)),
                    Ok((false, s3)) => if s_measure(s3) < s_measure(s) {
                        match spec_type(s3) {
                            Ok((inner, s4)) => Ok(
                                (RAstTypeOf::Reference(Box::new(inner), false), s4),
                            ),
                            Err(e) => Err(e),
                        }
                    } else {
                        Err(s_err(s, ErrorKind::ExpectedType))
                    },
                },
            },
        },
        TokenOf::Star => match s_next(s) {
            Err(e) => Err(e),
            Ok(s1) => match s_expect(s1, TokenOf::Mut) {
                Err(e) => Err(e),
                Ok(s2) => if s_measure(s2) < s_measure(s) {
                    match spec_type(s2) {
                        Ok((inner, s3)) => Ok((RAstTypeOf::RawPointerMut(Box::new(inner)), s3)),
                        Err(e) => Err(e),
                    }
                } else {
                    Err(s_err(s, ErrorKind::ExpectedType))
                },
            },
        },
        TokenOf::Identifier(_) => match s_ident(s) {
            Ok((name, s2)) => Ok((RAstTypeOf::Custom(name), s2)),
            Err(e) => Err(e),
        },
        _ => Err(s_err(s, ErrorKind::ExpectedType)),
    }
}

/// A pattern.
#[verifier::rlimit(50)]
pub open spec fn spec_pattern(s: PState) -> Result<(PatternV, PState), CompileError>
    decreases s_measure(s), 1nat,
{
    match s.tok {
        TokenOf::Literal(l) => match s_next(s) {
            Ok(s2) => Ok((PatternV::Literal(literal_type(l)), s2)),
            Err(e) => Err(e),
        },
        TokenOf::Identifier(_) => match s_ident(s) {
            Err(e) => Err(e),
            Ok((id, s1)) => if id == "_".spec_bytes() {
                Ok((PatternV::Wildcard, s1))
            } else {
                match s_try(s1, TokenOf::DoubleColon) {
                    Err(e) => Err(e),
                    Ok((false, s2)) => Ok((PatternV::Identifier(id), s2)),
                    Ok((true, s2)) => match s_ident(s2) {
                        Err(e) => Err(e),
                        Ok((variant, s3)) => match s_try(s3, TokenOf::LParen) {
                            Err(e) => Err(e),
                            Ok((false, s4)) => Ok((PatternV::EnumVariant(id, variant), s4)),
                            Ok((true, s4)) => if s_measure(s4) < s_measure(s) {
                                match spec_pattern(s4) {
                                    Err(e) => Err(e),
                                    Ok((_, s5)) => if s_measure(s5) < s_measure(s) {
                                        match spec_subpatterns(s5) {
                                            Err(e) => Err(e),
                                            Ok(s6) => match s_expect(s6, TokenOf::RParen) {
                                                Err(e) => Err(e),
                                                Ok(s7) => Ok((PatternV::EnumVariant(id, variant), s7)),
                                            },
                                        }
                                    } else {
                                        Err(s_err(s, ErrorKind::ExpectedPattern))
                                    },
                                }
                            } else {
                                Err(s_err(s, ErrorKind::ExpectedPattern))
                            },
                        },
                    },
                }
            },
        },
        _ => Err(s_err(s, ErrorKind::ExpectedPattern)),
    }
}

/// Further sub-patterns `, pattern` of an enum variant pattern.
pub open spec fn spec_subpatterns(s: PState) -> Result<PState, CompileError>
    decreases s_measure(s), 0nat,
{
    match s_try(s, TokenOf::Comma) {
        Err(e) => Err(e),
        Ok((false, s2)) => Ok(s2),
        Ok((true, s2)) => if s_measure(s2) < s_measure(s) {
            match spec_pattern(s2) {
                Err(e) => Err(e),
                Ok((_, s3)) => if s_measure(s3) < s_measure(s) {
                    spec_subpatterns(s3)
                } else {
                    Err(s_err(s, ErrorKind::ExpectedPattern))
                },
            }
        } else {
            Err(s_err(s, ErrorKind::ExpectedPattern))
        },
    }
}

/// A declared variable `mut? pattern : type`.
pub open spec fn spec_variable(s: PState) -> Result<((PatternV, RAstTypeV, bool), PState), CompileError> {
    match s_try(s, TokenOf::Mut) {
        Err(e) => Err(e),
        Ok((m, s1)) => match spec_pattern(s1) {
            Err(e) => Err(e),
            Ok((pat, s2)) => match s_expect(s2, TokenOf::Colon) {
                Err(e) => Err(e),
                Ok(s3) => match spec_type(s3) {
                    Err(e) => Err(e),
                    Ok((t, s4)) => Ok(((pat, t, m), s4)),
                },
            },
        },
    }
}

/// A literal.
pub open spec fn spec_literal(s: PState) -> Result<((Seq<u8>, RAstTypeV), PState), CompileError> {
    match s.tok {
        TokenOf::Literal(l) => match s_next(s) {
            Ok(s2) => Ok((literal_value(l), s2)),
            Err(e) => Err(e),
        },
        _ => Err(s_err(s, ErrorKind::ExpectedLiteral)),
    }
}

// ------------------------------------------------------------------
// Expressions
// ------------------------------------------------------------------

/// What parsing an expression gives: the register (or literal text) that
/// holds its value and its type, with the state after it.
pub type ExprResult = Result<((Seq<u8>, RAstTypeV), PState), CompileError>;

/// What parsing a construct with a type gives.
pub type TypeResult = Result<(RAstTypeV, PState), CompileError>;

/// What parsing a construct without a value gives.
pub type StateResult = Result<PState, CompileError>;

/// The next temporary register.
pub open spec fn s_temp(s: PState) -> Seq<u8> {
    "%.t".spec_bytes() + decimal(s.counter)
}

/// The predicate that an `icmp` uses for a comparison operator.
pub open spec fn comparison_op_name(c: Comparison) -> Seq<u8> {
    match c {
        Comparison::Eq => "eq".spec_bytes(),
        Comparison::Neq => "ne".spec_bytes(),
        Comparison::Gt => "ugt".spec_bytes(),
        Comparison::Lt => "ult".spec_bytes(),
        Comparison::Geq => "uge".spec_bytes(),
        Comparison::Leq => "ule".spec_bytes(),
    }
}

/// What an `icmp` predicate of LLVM-IR means on two unsigned values.
pub open spec fn predicate_holds(predicate: Seq<u8>, l: nat, r: nat) -> bool {
    if predicate == "eq".spec_bytes() {
        l == r
    } else if predicate == "ne".spec_bytes() {
        l != r
    } else if predicate == "ugt".spec_bytes() {
        l > r
    } else if predicate == "ult".spec_bytes() {
        l < r
    } else if predicate == "uge".spec_bytes() {
        l >= r
    } else if predicate == "ule".spec_bytes() {
        l <= r
    } else {
        false
    }
}

/// What a comparison operator of the language means on two values.
pub open spec fn comparison_holds(c: Comparison, l: nat, r: nat) -> bool {
    match c {
        Comparison::Eq => l == r,
        Comparison::Neq => l != r,
        Comparison::Gt => l > r,
        Comparison::Lt => l < r,
        Comparison::Geq => l >= r,
        Comparison::Leq => l <= r,
    }
}

/// A comparison compiles to the `icmp` predicate with the same meaning: on
/// every pair of values the emitted `icmp` holds exactly when the comparison
/// does (so `>` is strict and equal values compare false).
pub proof fn law_comparison_predicate(c: Comparison, l: nat, r: nat)
    ensures
        predicate_holds(comparison_op_name(c), l, r) == comparison_holds(c, l, r),
{
    reveal_strlit("eq");
    reveal_strlit("ne");
    reveal_strlit("ugt");
    reveal_strlit("ult");
    reveal_strlit("uge");
    reveal_strlit("ule");
    crate::text::lemma_ascii_bytes("eq");
    crate::text::lemma_ascii_bytes("ne");
    crate::text::lemma_ascii_bytes("ugt");
    crate::text::lemma_ascii_bytes("ult");
    crate::text::lemma_ascii_bytes("uge");
    crate::text::lemma_ascii_bytes("ule");
    let eq = "eq".spec_bytes();
    let ne = "ne".spec_bytes();
    let ugt = "ugt".spec_bytes();
    let ult = "ult".spec_bytes();
    let uge = "uge".spec_bytes();
    let ule = "ule".spec_bytes();
    assert(eq[0] != ne[0]);
    assert(ugt[1] != ult[1] && ugt[2] != uge[2] && ugt[1] != ule[1]);
    assert(ult[2] != uge[2] && ult[2] != ule[2]);
    assert(uge[1] != ule[1]);
}

/// What a comparison compiles to means what the comparison means: when
/// `left op right` parses, the output ends with an `icmp` whose predicate holds
/// on two values exactly when `op` does.
#[verifier::rlimit(100)]
#[verifier::spinoff_prover]
pub proof fn law_comparison_emits_its_meaning(s: PState)
    requires
        spec_arithmetic(s) matches Ok((_, s1)) && s1.tok is Cmp,
        spec_comparison(s) is Ok,
    ensures
        ({
            let op = spec_arithmetic(s)->Ok_0.1.tok->Cmp_0;
            let out = spec_comparison(s)->Ok_0.1;
            exists|prefix: Seq<u8>, name: Seq<u8>, predicate: Seq<u8>, ty: Seq<u8>, l: Seq<u8>, r: Seq<u8>|
                #![trigger binary_text(name, "icmp ".spec_bytes() + predicate, ty, l, r), prefix + binary_text(name, "icmp ".spec_bytes() + predicate, ty, l, r)]
                out.code == prefix + binary_text(name, "icmp ".spec_bytes() + predicate, ty, l, r)
                    && forall|a: nat, b: nat| predicate_holds(predicate, a, b) == comparison_holds(op, a, b)
        }),
{
    reveal(spec_comparison);
    reveal(spec_arithmetic);
    let (v1, s1) = spec_arithmetic(s)->Ok_0;
    let op = s1.tok->Cmp_0;
    let s2 = s_next(s1)->Ok_0;
    let (v3, s3) = spec_arithmetic(s2)->Ok_0;
    let name = s_temp(s3);
    let predicate = comparison_op_name(op);
    let text = binary_text(name, "icmp ".spec_bytes() + predicate, llvm_type_name(v3.1), v1.0, v3.0);
    assert forall|a: nat, b: nat| predicate_holds(predicate, a, b) == comparison_holds(op, a, b) by {
        law_comparison_predicate(op, a, b);
    }
    assert(spec_comparison(s)->Ok_0.1.code == s3.code + text);
}

/// What an `icmp` predicate means on two machine words.
pub open spec fn word_predicate_holds(predicate: Seq<u8>, l: usize, r: usize) -> bool {
    predicate_holds(predicate, l as nat, r as nat)
}

/// `+` and `-` compile to the LLVM-IR operations that read back as `add` and
/// `sub`: when `left + right` or `left - right` parses, the output ends with a
/// binary instruction whose operation is that keyword.
#[verifier::rlimit(100)]
#[verifier::spinoff_prover]
pub proof fn law_arithmetic_emits_its_operation(s: PState)
    requires
        spec_term(s) matches Ok((_, s1)) && (s1.tok is Plus || s1.tok is Minus),
        spec_arithmetic(s) is Ok,
    ensures
        ({
            let plus = spec_term(s)->Ok_0.1.tok is Plus;
            let out = spec_arithmetic(s)->Ok_0.1;
            exists|prefix: Seq<u8>, name: Seq<u8>, op: Seq<u8>, ty: Seq<u8>, l: Seq<u8>, r: Seq<u8>|
                #![trigger prefix + binary_text(name, op, ty, l, r)]
                out.code == prefix + binary_text(name, op, ty, l, r)
                    && crate::llvm_lexer::spec_llvm_keyword(op) == if plus {
                    crate::llvm_lexer::LlvmTokenOf::<Seq<u8>>::Add
                } else {
                    crate::llvm_lexer::LlvmTokenOf::<Seq<u8>>::Sub
                }
        }),
{
    reveal(spec_arithmetic);
    reveal(spec_term);
    crate::llvm_lexer::law_llvm_reserved_words(crate::llvm_lexer::LlvmTokenOf::Add, "add".spec_bytes());
    crate::llvm_lexer::law_llvm_reserved_words(crate::llvm_lexer::LlvmTokenOf::Sub, "sub".spec_bytes());
    let (v1, s1) = spec_term(s)->Ok_0;
    let op = if s1.tok is Plus {
        "add".spec_bytes()
    } else {
        "sub".spec_bytes()
    };
    let s2 = s_next(s1)->Ok_0;
    let (v3, s3) = spec_arithmetic(s2)->Ok_0;
    let text = binary_text(s_temp(s3), op, llvm_type_name(v3.1), v1.0, v3.0);
    assert(spec_arithmetic(s)->Ok_0.1.code == s3.code + text);
}

/// `*`, `/` and `%` compile to the LLVM-IR operations that read back as
/// `mul`, `udiv` and `urem`.
#[verifier::rlimit(100)]
#[verifier::spinoff_prover]
pub proof fn law_term_emits_its_operation(s: PState)
    requires
        spec_cast(s) matches Ok((_, s1)) && (s1.tok is Star || s1.tok is Slash || s1.tok is Remainder),
        spec_term(s) is Ok,
    ensures
        ({
            let t = spec_cast(s)->Ok_0.1.tok;
            let out = spec_term(s)->Ok_0.1;
            exists|prefix: Seq<u8>, name: Seq<u8>, op: Seq<u8>, ty: Seq<u8>, l: Seq<u8>, r: Seq<u8>|
                #![trigger prefix + binary_text(name, op, ty, l, r)]
                out.code == prefix + binary_text(name, op, ty, l, r)
                    && crate::llvm_lexer::spec_llvm_keyword(op) == if t is Star {
                    crate::llvm_lexer::LlvmTokenOf::<Seq<u8>>::Mul
                } else if t is Slash {
                    crate::llvm_lexer::LlvmTokenOf::<Seq<u8>>::Udiv
                } else {
                    crate::llvm_lexer::LlvmTokenOf::<Seq<u8>>::Urem
                }
        }),
{
    reveal(spec_term);
    reveal(spec_cast);
    crate::llvm_lexer::law_llvm_reserved_words(crate::llvm_lexer::LlvmTokenOf::Mul, "mul".spec_bytes());
    crate::llvm_lexer::law_llvm_reserved_words(crate::llvm_lexer::LlvmTokenOf::Udiv, "udiv".spec_bytes());
    crate::llvm_lexer::law_llvm_reserved_words(crate::llvm_lexer::LlvmTokenOf::Urem, "urem".spec_bytes());
    let (v1, s1) = spec_cast(s)->Ok_0;
    let op = if s1.tok is Star {
        "mul".spec_bytes()
    } else if s1.tok is Slash {
        "udiv".spec_bytes()
    } else {
        "urem".spec_bytes()
    };
    let s2 = s_next(s1)->Ok_0;
    let (v3, s3) = spec_term(s2)->Ok_0;
    let text = binary_text(s_temp(s3), op, llvm_type_name(v3.1), v1.0, v3.0);
    assert(spec_term(s)->Ok_0.1.code == s3.code + text);
}

/// Reading a type writes nothing.
pub proof fn lemma_type_keeps_code(s: PState)
    requires
        spec_type(s) is Ok,
    ensures
        spec_type(s)->Ok_0.1.code == s.code,
    decreases s_measure(s),
{
    if let Ok(s1) = s_next(s) {
        if let Ok((b, s2)) = s_try(s1, TokenOf::Mut) {
            if b {
                if s_measure(s2) < s_measure(s) && spec_type(s2) is Ok {
                    lemma_type_keeps_code(s2);
                }
            } else if let Ok((false, s3)) = s_try(s2, TokenOf::Str) {
                if s_measure(s3) < s_measure(s) && spec_type(s3) is Ok {
                    lemma_type_keeps_code(s3);
                }
            }
        }
        if let Ok(s2) = s_expect(s1, TokenOf::Mut) {
            if s_measure(s2) < s_measure(s) && spec_type(s2) is Ok {
                lemma_type_keeps_code(s2);
            }
        }
    }
}

/// The casts after a value only add output.
#[verifier::rlimit(100)]
#[verifier::spinoff_prover]
pub proof fn lemma_cast_tail_appends(s: PState, n: Seq<u8>, t: RAstTypeV)
    requires
        spec_cast_tail(s, n, t) is Ok,
    ensures
        s.code.is_prefix_of(spec_cast_tail(s, n, t)->Ok_0.1.code),
    decreases s_measure(s),
{
    reveal(spec_cast_tail);
    if let Ok((true, s2)) = s_try(s, TokenOf::As) {
        if let Ok((ct, s3)) = spec_type(s2) {
            lemma_type_keeps_code(s2);
            assert(s3.code == s.code);
            if s_measure(s3) < s_measure(s) {
                let name = s_temp(s3);
                match cast_operation(t, ct) {
                    CastOperation::ZeroExtend => {
                        let text = cast_text(name, "zext".spec_bytes(), llvm_type_name(t), n, llvm_type_name(ct));
                        lemma_cast_tail_appends(s_emit(s3, text, 1), name, ct);
                        assert(s.code.is_prefix_of(s3.code + text));
                    },
                    CastOperation::Truncate => {
                        let text = cast_text(name, "trunc".spec_bytes(), llvm_type_name(t), n, llvm_type_name(ct));
                        lemma_cast_tail_appends(s_emit(s3, text, 1), name, ct);
                        assert(s.code.is_prefix_of(s3.code + text));
                    },
                    CastOperation::NoOp => {
                        lemma_cast_tail_appends(s3, n, t);
                    },
                    CastOperation::Invalid => {},
                }
            }
        }
    }
}

/// A cast compiles to the instruction its widths call for: from a narrower to
/// a wider type a `zext`, from a wider to a narrower one a `trunc`, and
/// nothing between equal types.
pub proof fn law_cast_emits_by_width(s: PState, n: Seq<u8>, t: RAstTypeV)
    requires
        spec_cast_tail(s, n, t) is Ok,
        s_try(s, TokenOf::As) matches Ok((true, s2)) && spec_type(s2) matches Ok((ct, _))
            && is_primitive(t) && is_primitive(ct),
    ensures
        ({
            let s2 = s_try(s, TokenOf::As)->Ok_0.1;
            let (ct, s3) = spec_type(s2)->Ok_0;
            let out = spec_cast_tail(s, n, t)->Ok_0.1;
            &&& bit_width(t) < bit_width(ct) ==> (s3.code + cast_text(
                s_temp(s3),
                "zext".spec_bytes(),
                llvm_type_name(t),
                n,
                llvm_type_name(ct),
            )).is_prefix_of(out.code)
            &&& bit_width(t) > bit_width(ct) ==> (s3.code + cast_text(
                s_temp(s3),
                "trunc".spec_bytes(),
                llvm_type_name(t),
                n,
                llvm_type_name(ct),
            )).is_prefix_of(out.code)
            &&& t == ct ==> out == spec_cast_tail(s3, n, t)->Ok_0.1
        }),
{
    reveal(spec_cast_tail);
    let s2 = s_try(s, TokenOf::As)->Ok_0.1;
    let (ct, s3) = spec_type(s2)->Ok_0;
    if s_measure(s3) < s_measure(s) {
        let name = s_temp(s3);
        if cast_operation(t, ct) != CastOperation::Invalid {
            crate::rust_types::law_cast_follows_widths(t, ct);
        }
        match cast_operation(t, ct) {
            CastOperation::ZeroExtend => {
                let text = cast_text(name, "zext".spec_bytes(), llvm_type_name(t), n, llvm_type_name(ct));
                lemma_cast_tail_appends(s_emit(s3, text, 1), name, ct);
            },
            CastOperation::Truncate => {
                let text = cast_text(name, "trunc".spec_bytes(), llvm_type_name(t), n, llvm_type_name(ct));
                lemma_cast_tail_appends(s_emit(s3, text, 1), name, ct);
            },
            _ => {},
        }
    }
}

/// The `ult` predicate holds exactly when the left value is the smaller.
pub proof fn lemma_ult_predicate(l: usize, r: usize)
    ensures
        word_predicate_holds("ult".spec_bytes(), l, r) == (l < r),
{
    law_comparison_predicate(Comparison::Lt, l as nat, r as nat);
}


/// `name = alloca ty, i64 1`.
pub open spec fn alloca_text(name: Seq<u8>, t: RAstTypeV) -> Seq<u8> {
    "  ".spec_bytes() + name + " = alloca ".spec_bytes() + llvm_type_name(t) + ", i64 ".spec_bytes()
        + decimal(1nat) + "\n".spec_bytes()
}

/// `store ty value, ptr reference`.
pub open spec fn store_text(t: RAstTypeV, value: Seq<u8>, reference: Seq<u8>) -> Seq<u8> {
    "  store ".spec_bytes() + llvm_type_name(t) + " ".spec_bytes() + value + ",".spec_bytes()
        + " ptr ".spec_bytes() + reference + "\n".spec_bytes()
}

/// `name = load ty, ptr reference`.
pub open spec fn load_text(name: Seq<u8>, t: RAstTypeV, reference: Seq<u8>) -> Seq<u8> {
    "  ".spec_bytes() + name + " = load ".spec_bytes() + llvm_type_name(t) + ",".spec_bytes()
        + " ptr ".spec_bytes() + reference + "\n".spec_bytes()
}

/// An expression: `return` with an optional value of the function's return
/// type, or an assignment.
#[verifier::opaque]
pub open spec fn spec_expression(s: PState) -> ExprResult
    decreases s_measure(s), 9nat,
{
    match s.tok {
        TokenOf::Return => match s_next(s) {
            Err(e) => Err(e),
            Ok(s1) => match s1.tok {
                TokenOf::SemiColon | TokenOf::RBrace => Ok(((Seq::empty(), RAstTypeOf::Unit), s1)),
                _ => if s_measure(s1) < s_measure(s) {
                    match spec_expression(s1) {
                        Err(e) => Err(e),
                        Ok(((name, t), s2)) => if t == s2.ret {
                            Ok(((name, t), s2))
                        } else {
                            Err(s_err(s2, ErrorKind::TypeMismatch))
                        },
                    }
                } else {
                    Err(s_err(s, ErrorKind::UnexpectedTokenInFactor))
                },
            },
        },
        _ => spec_assignment(s),
    }
}

/// `comparison (= assignment)?`; both sides have one type, and an assignment
/// has type `()` and the register of its right side.
#[verifier::opaque]
pub open spec fn spec_assignment(s: PState) -> ExprResult
    decreases s_measure(s), 8nat,
{
    match spec_comparison(s) {
        Err(e) => Err(e),
        Ok(((ln, lt), s1)) => match s_try(s1, TokenOf::Assign) {
            Err(e) => Err(e),
            Ok((false, s2)) => Ok(((ln, lt), s2)),
            Ok((true, s2)) => if s_measure(s2) < s_measure(s) {
                match spec_assignment(s2) {
                    Err(e) => Err(e),
                    Ok(((rn, rt), s3)) => if lt == rt {
                        Ok(
                            (
                                (rn, RAstTypeOf::Unit),
                                s_emit(s3, "  ; assignment".spec_bytes() + "\n".spec_bytes(), 0),
                            ),
                        )
                    } else {
                        Err(s_err(s3, ErrorKind::TypeMismatch))
                    },
                }
            } else {
                Err(s_err(s, ErrorKind::UnexpectedTokenInFactor))
            },
        },
    }
}

/// `arithmetic (op arithmetic)?`; the sides have one numeric or `char` type,
/// and an `icmp` into a new register gives a `bool`.
#[verifier::opaque]
pub open spec fn spec_comparison(s: PState) -> ExprResult
    decreases s_measure(s), 7nat,
{
    match spec_arithmetic(s) {
        Err(e) => Err(e),
        Ok(((ln, lt), s1)) => match s1.tok {
            TokenOf::Cmp(op) => match s_next(s1) {
                Err(e) => Err(e),
                Ok(s2) => if s_measure(s2) < s_measure(s) {
                    match spec_arithmetic(s2) {
                        Err(e) => Err(e),
                        Ok(((rn, rt), s3)) => if lt != rt {
                            Err(s_err(s3, ErrorKind::TypeMismatch))
                        } else if !(is_numeric_type(lt) || lt is Char) {
                            Err(s_err(s3, ErrorKind::CannotCompareNonIntegerValues))
                        } else {
                            let name = s_temp(s3);
                            Ok(
                                (
                                    (name, RAstTypeOf::Bool),
                                    s_emit(
                                        s3,
                                        binary_text(
                                            name,
                                            "icmp ".spec_bytes() + comparison_op_name(op),
                                            llvm_type_name(rt),
                                            ln,
                                            rn,
                                        ),
                                        1,
                                    ),
                                ),
                            )
                        },
                    }
                } else {
                    Err(s_err(s, ErrorKind::UnexpectedTokenInFactor))
                },
            },
            _ => Ok(((ln, lt), s1)),
        },
    }
}

/// `term ((+|-) arithmetic)?`, grouped to the right; the sides have one
/// numeric type, and an `add` or `sub` into a new register gives it.
#[verifier::opaque]
pub open spec fn spec_arithmetic(s: PState) -> ExprResult
    decreases s_measure(s), 6nat,
{
    match spec_term(s) {
        Err(e) => Err(e),
        Ok(((ln, lt), s1)) => if s1.tok is Plus || s1.tok is Minus {
            let op = if s1.tok is Plus {
                "add".spec_bytes()
            } else {
                "sub".spec_bytes()
            };
            match s_next(s1) {
                Err(e) => Err(e),
                Ok(s2) => if s_measure(s2) < s_measure(s) {
                    match spec_arithmetic(s2) {
                        Err(e) => Err(e),
                        Ok(((rn, rt), s3)) => if lt != rt {
                            Err(s_err(s3, ErrorKind::TypeMismatch))
                        } else if !is_numeric_type(lt) {
                            Err(s_err(s3, ErrorKind::ExpectedNumericType))
                        } else {
                            let name = s_temp(s3);
                            Ok(
                                (
                                    (name, lt),
                                    s_emit(s3, binary_text(name, op, llvm_type_name(rt), ln, rn), 1),
                                ),
                            )
                        },
                    }
                } else {
                    Err(s_err(s, ErrorKind::UnexpectedTokenInFactor))
                },
            }
        } else {
            Ok(((ln, lt), s1))
        },
    }
}

/// `cast ((*|/|%) term)?`, grouped to the right; the sides have one numeric
/// type, and a `mul`, `udiv` or `urem` into a new register gives it.
#[verifier::opaque]
pub open spec fn spec_term(s: PState) -> ExprResult
    decreases s_measure(s), 5nat,
{
    match spec_cast(s) {
        Err(e) => Err(e),
        Ok(((ln, lt), s1)) => if s1.tok is Star || s1.tok is Slash || s1.tok is Remainder {
            let op = if s1.tok is Star {
                "mul".spec_bytes()
            } else if s1.tok is Slash {
                "udiv".spec_bytes()
            } else {
                "urem".spec_bytes()
            };
            match s_next(s1) {
                Err(e) => Err(e),
                Ok(s2) => if s_measure(s2) < s_measure(s) {
                    match spec_term(s2) {
                        Err(e) => Err(e),
                        Ok(((rn, rt), s3)) => if lt != rt {
                            Err(s_err(s3, ErrorKind::TypeMismatch))
                        } else if !is_numeric_type(lt) {
                            Err(s_err(s3, ErrorKind::ExpectedNumericType))
                        } else {
                            let name = s_temp(s3);
                            Ok(
                                (
                                    (name, lt),
                                    s_emit(s3, binary_text(name, op, llvm_type_name(rt), ln, rn), 1),
                                ),
                            )
                        },
                    }
                } else {
                    Err(s_err(s, ErrorKind::UnexpectedTokenInFactor))
                },
            }
        } else {
            Ok(((ln, lt), s1))
        },
    }
}

/// `unary (as type)*`.
#[verifier::opaque]
pub open spec fn spec_cast(s: PState) -> ExprResult
    decreases s_measure(s), 4nat,
{
    match spec_unary(s) {
        Err(e) => Err(e),
        Ok(((n, t), s1)) => spec_cast_tail(s1, n, t),
    }
}

/// The casts `(as type)*` applied to the value `n` of type `t`: each must be
/// valid; one that widens emits a `zext`, one that narrows a `trunc`.
#[verifier::opaque]
pub open spec fn spec_cast_tail(s: PState, n: Seq<u8>, t: RAstTypeV) -> ExprResult
    decreases s_measure(s),
{
    match s_try(s, TokenOf::As) {
        Err(e) => Err(e),
        Ok((false, s2)) => Ok(((n, t), s2)),
        Ok((true, s2)) => match spec_type(s2) {
            Err(e) => Err(e),
            Ok((ct, s3)) => if s_measure(s3) < s_measure(s) {
                match cast_operation(t, ct) {
                    CastOperation::ZeroExtend => {
                        let name = s_temp(s3);
                        spec_cast_tail(
                            s_emit(
                                s3,
                                cast_text(name, "zext".spec_bytes(), llvm_type_name(t), n, llvm_type_name(ct)),
                                1,
                            ),
                            name,
                            ct,
                        )
                    },
                    CastOperation::Truncate => {
                        let name = s_temp(s3);
                        spec_cast_tail(
                            s_emit(
                                s3,
                                cast_text(name, "trunc".spec_bytes(), llvm_type_name(t), n, llvm_type_name(ct)),
                                1,
                            ),
                            name,
                            ct,
                        )
                    },
                    CastOperation::NoOp => spec_cast_tail(s3, n, t),
                    CastOperation::Invalid => Err(s_err(s3, ErrorKind::InvalidCast)),
                }
            } else {
                Err(s_err(s, ErrorKind::InvalidCast))
            },
        },
    }
}

/// `&mut? unary` (the value stored in a new stack slot, whose address is a
/// reference), `*unary` (a load through a reference or raw pointer), or a
/// factor.
#[verifier::opaque]
pub open spec fn spec_unary(s: PState) -> ExprResult
    decreases s_measure(s), 3nat,
{
    match s.tok {
        TokenOf::Ampersand => match s_next(s) {
            Err(e) => Err(e),
            Ok(s1) => match s_try(s1, TokenOf::Mut) {
                Err(e) => Err(e),
                Ok((m, s2)) => if s_measure(s2) < s_measure(s) {
                    match spec_unary(s2) {
                        Err(e) => Err(e),
                        Ok(((n, t), s3)) => {
                            let reference = s_temp(s3);
                            let s4 = s_emit(s3, alloca_text(reference, t), 1);
                            Ok(
                                (
                                    (reference, RAstTypeOf::Reference(Box::new(t), m)),
                                    s_emit(s4, store_text(t, n, reference), 0),
                                ),
                            )
                        },
                    }
                } else {
                    Err(s_err(s, ErrorKind::UnexpectedTokenInFactor))
                },
            },
        },
        TokenOf::Star => match s_next(s) {
            Err(e) => Err(e),
            Ok(s1) => if s_measure(s1) < s_measure(s) {
                match spec_unary(s1) {
                    Err(e) => Err(e),
                    Ok(((n, t), s2)) => match t {
                        RAstTypeOf::Reference(pointed, _) => {
                            let name = s_temp(s2);
                            Ok(((name, *pointed), s_emit(s2, load_text(name, *pointed, n), 1)))
                        },
                        RAstTypeOf::RawPointerMut(pointed) => {
                            let name = s_temp(s2);
                            Ok(((name, *pointed), s_emit(s2, load_text(name, *pointed, n), 1)))
                        },
                        _ => Err(s_err(s2, ErrorKind::CannotDereference)),
                    },
                }
            } else {
                Err(s_err(s, ErrorKind::UnexpectedTokenInFactor))
            },
        },
        _ => spec_factor(s),
    }
}

/// A factor: a literal; a call; a variable in scope (its type, no register);
/// a parenthesized expression; a block, also after `unsafe`; `if`, `while`
/// or `match` (their type, no register).
#[verifier::opaque]
pub open spec fn spec_factor(s: PState) -> ExprResult
    decreases s_measure(s), 2nat,
{
    match s.tok {
        TokenOf::Literal(_) => spec_literal(s),
        TokenOf::Identifier(_) => match s_ident(s) {
            Err(e) => Err(e),
            Ok((name, s1)) => if s1.tok is LParen {
                if s_measure(s1) < s_measure(s) {
                    match spec_call(s1, name) {
                        Err(e) => Err(e),
                        Ok((t, s2)) => Ok(((Seq::empty(), t), s2)),
                    }
                } else {
                    Err(s_err(s, ErrorKind::UnexpectedTokenInFactor))
                }
            } else {
                match scopes_find_variable(s1.sym.scopes, name) {
                    Some(v) => Ok(((Seq::empty(), v.0), s1)),
                    None => Err(s_err(s1, ErrorKind::UndefinedVariable)),
                }
            },
        },
        TokenOf::LParen => match s_next(s) {
            Err(e) => Err(e),
            Ok(s1) => if s_measure(s1) < s_measure(s) {
                match spec_expression(s1) {
                    Err(e) => Err(e),
                    Ok((v, s2)) => match s_expect(s2, TokenOf::RParen) {
                        Err(e) => Err(e),
                        Ok(s3) => Ok((v, s3)),
                    },
                }
            } else {
                Err(s_err(s, ErrorKind::UnexpectedTokenInFactor))
            },
        },
        TokenOf::Unsafe => match s_next(s) {
            Err(e) => Err(e),
            Ok(s1) => if s_measure(s1) < s_measure(s) {
                spec_block(s1)
            } else {
                Err(s_err(s, ErrorKind::UnexpectedTokenInFactor))
            },
        },
        TokenOf::LBrace => spec_block(s),
        TokenOf::If => match spec_if(s) {
            Err(e) => Err(e),
            Ok((t, s1)) => Ok(((Seq::empty(), t), s1)),
        },
        TokenOf::While => match spec_while(s) {
            Err(e) => Err(e),
            Ok((t, s1)) => Ok(((Seq::empty(), t), s1)),
        },
        TokenOf::Match => match spec_match(s) {
            Err(e) => Err(e),
            Ok((t, s1)) => Ok(((Seq::empty(), t), s1)),
        },
        _ => Err(s_err(s, ErrorKind::UnexpectedTokenInFactor)),
    }
}

/// `{ ... }` in a scope of its own.
#[verifier::opaque]
pub open spec fn spec_block(s: PState) -> ExprResult
    decreases s_measure(s), 1nat,
{
    match s_expect(s, TokenOf::LBrace) {
        Err(e) => Err(e),
        Ok(s1) => if s_measure(s1) < s_measure(s) {
            spec_block_items(s_with_sym(s1, sym_enter(s1.sym)))
        } else {
            Err(s_err(s, ErrorKind::UnexpectedTokenInFactor))
        },
    }
}

/// The items of a block up to its `}`, which leaves the scope: `let`
/// bindings and expressions, each with `;` (an expression's `;` writes an
/// empty line), and a last expression without `;` that gives the block its
/// value; with none the block has type `()`.
#[verifier::opaque]
pub open spec fn spec_block_items(s: PState) -> ExprResult
    decreases s_measure(s), 10nat,
{
    if s.tok is RBrace {
        match s_expect(s, TokenOf::RBrace) {
            Err(e) => Err(e),
            Ok(s1) => Ok(((Seq::empty(), RAstTypeOf::Unit), s_with_sym(s1, sym_leave(s1.sym)))),
        }
    } else if s.tok is Let {
        match spec_binding(s) {
            Err(e) => Err(e),
            Ok(s1) => match s_expect(s1, TokenOf::SemiColon) {
                Err(e) => Err(e),
                Ok(s2) => if s_measure(s2) < s_measure(s) {
                    spec_block_items(s2)
                } else {
                    Err(s_err(s, ErrorKind::UnexpectedTokenInFactor))
                },
            },
        }
    } else {
        match spec_expression(s) {
            Err(e) => Err(e),
            Ok((v, s1)) => match s_try(s1, TokenOf::SemiColon) {
                Err(e) => Err(e),
                Ok((true, s2)) => if s_measure(s2) < s_measure(s) {
                    spec_block_items(s_emit(s2, "".spec_bytes() + "\n".spec_bytes(), 0))
                } else {
                    Err(s_err(s, ErrorKind::UnexpectedTokenInFactor))
                },
                Ok((false, s2)) => match s_expect(s2, TokenOf::RBrace) {
                    Err(e) => Err(e),
                    Ok(s3) => Ok((v, s_with_sym(s3, sym_leave(s3.sym)))),
                },
            },
        }
    }
}

/// `let variable = expression`: the value has the declared type; a named
/// variable enters the innermost scope and is written as a comment, another
/// pattern writes a comment line.
#[verifier::opaque]
pub open spec fn spec_binding(s: PState) -> StateResult
    decreases s_measure(s), 0nat,
{
    match s_expect(s, TokenOf::Let) {
        Err(e) => Err(e),
        Ok(s1) => match spec_variable(s1) {
            Err(e) => Err(e),
            Ok(((pat, bt, m), s2)) => match s_expect(s2, TokenOf::Assign) {
                Err(e) => Err(e),
                Ok(s3) => if s_measure(s3) < s_measure(s) {
                    match spec_expression(s3) {
                        Err(e) => Err(e),
                        Ok(((_, vt), s4)) => if bt != vt {
                            Err(s_err(s4, ErrorKind::TypeMismatch))
                        } else {
                            match pat {
                                PatternV::Identifier(name) => {
                                    let s5 = s_with_sym(s4, sym_insert_variable(s4.sym, name, bt, m));
                                    Ok(s_emit(s5, let_comment_text(name, llvm_type_name(bt), m), 0))
                                },
                                _ => Ok(
                                    s_emit(s4, "  ; let pattern".spec_bytes() + "\n".spec_bytes(), 0),
                                ),
                            }
                        },
                    }
                } else {
                    Err(s_err(s, ErrorKind::UnexpectedTokenInFactor))
                },
            },
        },
    }
}

/// `if expression block (else (if ... | block))?`: the condition is a `bool`;
/// with an `else` both branches have one type, which is the type of the
/// whole; without one the type is `()`.
#[verifier::opaque]
pub open spec fn spec_if(s: PState) -> TypeResult
    decreases s_measure(s), 1nat,
{
    match s_expect(s, TokenOf::If) {
        Err(e) => Err(e),
        Ok(s1) => if s_measure(s1) < s_measure(s) {
            match spec_expression(s1) {
                Err(e) => Err(e),
                Ok(((_, ct), s2)) => if !(ct is Bool) {
                    Err(s_err(s2, ErrorKind::ExpectedBoolType))
                } else if s_measure(s2) < s_measure(s) {
                    match spec_block(s2) {
                        Err(e) => Err(e),
                        Ok(((_, tt), s3)) => match s_try(s3, TokenOf::Else) {
                            Err(e) => Err(e),
                            Ok((false, s4)) => Ok((RAstTypeOf::Unit, s4)),
                            Ok((true, s4)) => if s_measure(s4) < s_measure(s) {
                                let else_result = if s4.tok is If {
                                    spec_if(s4)
                                } else {
                                    match spec_block(s4) {
                                        Err(e) => Err(e),
                                        Ok(((_, t), s5)) => Ok((t, s5)),
                                    }
                                };
                                match else_result {
                                    Err(e) => Err(e),
                                    Ok((et, s5)) => if tt == et {
                                        Ok((tt, s5))
                                    } else {
                                        Err(s_err(s5, ErrorKind::TypeMismatch))
                                    },
                                }
                            } else {
                                Err(s_err(s, ErrorKind::UnexpectedTokenInFactor))
                            },
                        },
                    }
                } else {
                    Err(s_err(s, ErrorKind::UnexpectedTokenInFactor))
                },
            }
        } else {
            Err(s_err(s, ErrorKind::UnexpectedTokenInFactor))
        },
    }
}

/// `while expression block`: the condition is a `bool`; the type is `()`.
#[verifier::opaque]
pub open spec fn spec_while(s: PState) -> TypeResult
    decreases s_measure(s), 1nat,
{
    match s_expect(s, TokenOf::While) {
        Err(e) => Err(e),
        Ok(s1) => if s_measure(s1) < s_measure(s) {
            match spec_expression(s1) {
                Err(e) => Err(e),
                Ok(((_, ct), s2)) => if !(ct is Bool) {
                    Err(s_err(s2, ErrorKind::ExpectedBoolType))
                } else if s_measure(s2) < s_measure(s) {
                    match spec_block(s2) {
                        Err(e) => Err(e),
                        Ok((_, s3)) => Ok((RAstTypeOf::Unit, s3)),
                    }
                } else {
                    Err(s_err(s, ErrorKind::UnexpectedTokenInFactor))
                },
            }
        } else {
            Err(s_err(s, ErrorKind::UnexpectedTokenInFactor))
        },
    }
}

/// `match expression { arms }`: the type of the arms.
#[verifier::opaque]
pub open spec fn spec_match(s: PState) -> TypeResult
    decreases s_measure(s), 1nat,
{
    match s_expect(s, TokenOf::Match) {
        Err(e) => Err(e),
        Ok(s1) => if s_measure(s1) < s_measure(s) {
            match spec_expression(s1) {
                Err(e) => Err(e),
                Ok(((_, et), s2)) => match s_expect(s2, TokenOf::LBrace) {
                    Err(e) => Err(e),
                    Ok(s3) => if s_measure(s3) < s_measure(s) {
                        match spec_arms(s3, et) {
                            Err(e) => Err(e),
                            Ok((rt, s4)) => match s_expect(s4, TokenOf::RBrace) {
                                Err(e) => Err(e),
                                Ok(s5) => Ok((rt, s5)),
                            },
                        }
                    } else {
                        Err(s_err(s, ErrorKind::UnexpectedTokenInFactor))
                    },
                },
            }
        } else {
            Err(s_err(s, ErrorKind::UnexpectedTokenInFactor))
        },
    }
}

/// The arms `pattern => expression,` of a match on a value of type `mt` (at
/// least one): each pattern fits `mt`, and every arm has the type of the
/// first, which is the result.
#[verifier::opaque]
pub open spec fn spec_arms(s: PState, mt: RAstTypeV) -> TypeResult
    decreases s_measure(s), 0nat,
{
    match spec_pattern(s) {
        Err(e) => Err(e),
        Ok((p, s1)) => if pattern_v_type(p, mt) != mt {
            Err(s_err(s1, ErrorKind::TypeMismatch))
        } else {
            match s_expect(s1, TokenOf::ArmArrow) {
                Err(e) => Err(e),
                Ok(s2) => if s_measure(s2) < s_measure(s) {
                    match spec_expression(s2) {
                        Err(e) => Err(e),
                        Ok(((_, rt), s3)) => match s_expect(s3, TokenOf::Comma) {
                            Err(e) => Err(e),
                            Ok(s4) => if s_measure(s4) < s_measure(s) {
                                spec_more_arms(s4, mt, rt)
                            } else {
                                Err(s_err(s, ErrorKind::UnexpectedTokenInFactor))
                            },
                        },
                    }
                } else {
                    Err(s_err(s, ErrorKind::UnexpectedTokenInFactor))
                },
            }
        },
    }
}

/// The arms after the first, up to (not including) the `}`; each has type `rt`.
#[verifier::opaque]
pub open spec fn spec_more_arms(s: PState, mt: RAstTypeV, rt: RAstTypeV) -> TypeResult
    decreases s_measure(s), 0nat,
{
    if s.tok is RBrace {
        Ok((rt, s))
    } else {
        match spec_pattern(s) {
            Err(e) => Err(e),
            Ok((p, s1)) => if pattern_v_type(p, mt) != mt {
                Err(s_err(s1, ErrorKind::TypeMismatch))
            } else {
                match s_expect(s1, TokenOf::ArmArrow) {
                    Err(e) => Err(e),
                    Ok(s2) => if s_measure(s2) < s_measure(s) {
                        match spec_expression(s2) {
                            Err(e) => Err(e),
                            Ok(((_, at), s3)) => if rt != at {
                                Err(s_err(s3, ErrorKind::TypeMismatch))
                            } else {
                                match s_expect(s3, TokenOf::Comma) {
                                    Err(e) => Err(e),
                                    Ok(s4) => if s_measure(s4) < s_measure(s) {
                                        spec_more_arms(s4, mt, rt)
                                    } else {
                                        Err(s_err(s, ErrorKind::UnexpectedTokenInFactor))
                                    },
                                }
                            },
                        }
                    } else {
                        Err(s_err(s, ErrorKind::UnexpectedTokenInFactor))
                    },
                }
            },
        }
    }
}

/// The arguments `(e, ...)` of a call to `fname` (a trailing comma allowed):
/// the function is defined among the globals and the argument types are its
/// parameter types; the call is written as a comment and has the function's
/// return type.
#[verifier::opaque]
pub open spec fn spec_call(s: PState, fname: Seq<u8>) -> TypeResult
    decreases s_measure(s), 0nat,
{
    match s_expect(s, TokenOf::LParen) {
        Err(e) => Err(e),
        Ok(s1) => {
            let arguments: Result<(Seq<RAstTypeV>, PState), CompileError> = if s1.tok is RParen {
                Ok((Seq::empty(), s1))
            } else if s_measure(s1) < s_measure(s) {
                match spec_expression(s1) {
                    Err(e) => Err(e),
                    Ok(((_, t), s2)) => if s_measure(s2) < s_measure(s) {
                        spec_call_arguments(s2, seq![t])
                    } else {
                        Err(s_err(s, ErrorKind::UnexpectedTokenInFactor))
                    },
                }
            } else {
                Err(s_err(s, ErrorKind::UnexpectedTokenInFactor))
            };
            match arguments {
                Err(e) => Err(e),
                Ok((args, s3)) => match s_expect(s3, TokenOf::RParen) {
                    Err(e) => Err(e),
                    Ok(s4) => match find_function(s4.sym.globals, fname) {
                        Some((params, ret)) => if params != args {
                            Err(s_err(s4, ErrorKind::CallDoesNotMatchSignature))
                        } else {
                            Ok(
                                (
                                    ret,
                                    s_emit(s4, "  ; call ".spec_bytes() + fname + "\n".spec_bytes(), 0),
                                ),
                            )
                        },
                        None => Err(s_err(s4, ErrorKind::CallToUndefinedFunction)),
                    },
                },
            }
        },
    }
}

/// The arguments after the first, with the types `args` read so far.
#[verifier::opaque]
pub open spec fn spec_call_arguments(s: PState, args: Seq<RAstTypeV>) -> Result<
    (Seq<RAstTypeV>, PState),
    CompileError,
>
    decreases s_measure(s), 0nat,
{
    match s_try(s, TokenOf::Comma) {
        Err(e) => Err(e),
        Ok((false, s2)) => Ok((args, s2)),
        Ok((true, s2)) => if s2.tok is RParen {
            Ok((args, s2))
        } else if s_measure(s2) < s_measure(s) {
            match spec_expression(s2) {
                Err(e) => Err(e),
                Ok(((_, t), s3)) => if s_measure(s3) < s_measure(s) {
                    spec_call_arguments(s3, args.push(t))
                } else {
                    Err(s_err(s, ErrorKind::UnexpectedTokenInFactor))
                },
            }
        } else {
            Err(s_err(s, ErrorKind::UnexpectedTokenInFactor))
        },
    }
}

// ------------------------------------------------------------------
// Items
// ------------------------------------------------------------------

/// The state with another return type for the current function.
pub open spec fn s_with_ret(s: PState, ret: RAstTypeV) -> PState {
    PState { sf: s.sf, tok: s.tok, code: s.code, sym: s.sym, ret, counter: s.counter }
}

/// Symbols with a global entry in front.
pub open spec fn sym_add_global(y: SymTableV, e: EntryV) -> SymTableV {
    SymTableV { globals: seq![e] + y.globals, scopes: y.scopes }
}

/// An enum variant `Name` or `Name(type, ...)`; its type is the variant's name.
pub open spec fn spec_variant(s: PState) -> TypeResult {
    match s_ident(s) {
        Err(e) => Err(e),
        Ok((name, s1)) => match s_try(s1, TokenOf::LParen) {
            Err(e) => Err(e),
            Ok((false, s2)) => Ok((RAstTypeOf::Custom(name), s2)),
            Ok((true, s2)) => match spec_type(s2) {
                Err(e) => Err(e),
                Ok((_, s3)) => match spec_more_types(s3) {
                    Err(e) => Err(e),
                    Ok(s4) => match s_expect(s4, TokenOf::RParen) {
                        Err(e) => Err(e),
                        Ok(s5) => Ok((RAstTypeOf::Custom(name), s5)),
                    },
                },
            },
        },
    }
}

/// More types `, type` of a variant's fields.
pub open spec fn spec_more_types(s: PState) -> StateResult
    decreases s_measure(s),
{
    match s_try(s, TokenOf::Comma) {
        Err(e) => Err(e),
        Ok((false, s2)) => Ok(s2),
        Ok((true, s2)) => match spec_type(s2) {
            Err(e) => Err(e),
            Ok((_, s3)) => if s_measure(s3) < s_measure(s) {
                spec_more_types(s3)
            } else {
                Err(s_err(s, ErrorKind::UnexpectedToken))
            },
        },
    }
}

/// The variants `Variant,` after the first, up to (not including) the `}`,
/// with the types `vs` read so far.
pub open spec fn spec_more_variants(s: PState, vs: Seq<RAstTypeV>) -> Result<
    (Seq<RAstTypeV>, PState),
    CompileError,
>
    decreases s_measure(s),
{
    if s.tok is RBrace {
        Ok((vs, s))
    } else {
        match spec_variant(s) {
            Err(e) => Err(e),
            Ok((t, s1)) => match s_expect(s1, TokenOf::Comma) {
                Err(e) => Err(e),
                Ok(s2) => if s_measure(s2) < s_measure(s) {
                    spec_more_variants(s2, vs.push(t))
                } else {
                    Err(s_err(s, ErrorKind::UnexpectedToken))
                },
            },
        }
    }
}

/// `enum Name { Variant, ... }` (at least one variant, each with a comma): a
/// comment line, and the enum among the globals; its name must not be taken
/// by a global.
#[verifier::opaque]
pub open spec fn spec_enum(s: PState) -> StateResult {
    match s_expect(s, TokenOf::Enum) {
        Err(e) => Err(e),
        Ok(s1) => match s_ident(s1) {
            Err(e) => Err(e),
            Ok((name, s2)) => match s_expect(s2, TokenOf::LBrace) {
                Err(e) => Err(e),
                Ok(s3) => match spec_variant(s3) {
                    Err(e) => Err(e),
                    Ok((t, s4)) => match s_expect(s4, TokenOf::Comma) {
                        Err(e) => Err(e),
                        Ok(s5) => match spec_more_variants(s5, seq![t]) {
                            Err(e) => Err(e),
                            Ok((vs, s6)) => match s_expect(s6, TokenOf::RBrace) {
                                Err(e) => Err(e),
                                Ok(s7) => {
                                    let s8 = s_emit(
                                        s7,
                                        "; enum ".spec_bytes() + name + "\n".spec_bytes(),
                                        0,
                                    );
                                    if entries_contain(s8.sym.globals, name) {
                                        Err(s_err(s8, ErrorKind::DuplicateEnumName))
                                    } else {
                                        Ok(s_with_sym(s8, sym_add_global(s8.sym, EntryV::Enum(name, vs))))
                                    }
                                },
                            },
                        },
                    },
                },
            },
        },
    }
}

/// A parameter `mut? pattern : type` after its declaration was read (state
/// `s`): a named one is written as a comment and enters the innermost scope.
pub open spec fn s_declare_parameter(s: PState, pat: PatternV, t: RAstTypeV, m: bool) -> PState {
    match pat {
        PatternV::Identifier(name) => {
            let s1 = s_emit(s, let_comment_text(name, llvm_type_name(t), m), 0);
            s_with_sym(s1, sym_insert_variable(s1.sym, name, t, m))
        },
        _ => s,
    }
}

/// The parameters up to (not including) the `)`, with their types. A named
/// parameter after the first whose name is already in the innermost scope is
/// refused as a duplicate, after it was declared.
pub open spec fn spec_parameters(s: PState) -> Result<(Seq<RAstTypeV>, PState), CompileError> {
    if s.tok is RParen {
        Ok((Seq::empty(), s))
    } else {
        match spec_variable(s) {
            Err(e) => Err(e),
            Ok(((pat, t, m), s1)) => spec_more_parameters(s_declare_parameter(s1, pat, t, m), seq![t]),
        }
    }
}

/// The parameters `, parameter` after the first (a trailing comma allowed),
/// with the types `ps` read so far.
pub open spec fn spec_more_parameters(s: PState, ps: Seq<RAstTypeV>) -> Result<
    (Seq<RAstTypeV>, PState),
    CompileError,
>
    decreases s_measure(s),
{
    match s_try(s, TokenOf::Comma) {
        Err(e) => Err(e),
        Ok((false, s2)) => Ok((ps, s2)),
        Ok((true, s2)) => if s2.tok is RParen {
            Ok((ps, s2))
        } else {
            match spec_variable(s2) {
                Err(e) => Err(e),
                Ok(((pat, t, m), s3)) => if s_measure(s3) < s_measure(s) {
                    let s4 = s_declare_parameter(s3, pat, t, m);
                    match pat {
                        PatternV::Identifier(name) => if sym_variable_answer(s3.sym, name) {
                            Err(s_err(s4, ErrorKind::DuplicateParameterName))
                        } else {
                            spec_more_parameters(s4, ps.push(t))
                        },
                        _ => spec_more_parameters(s4, ps.push(t)),
                    }
                } else {
                    Err(s_err(s, ErrorKind::UnexpectedToken))
                },
            }
        },
    }
}

/// `ret ty value` or `ret void` at the end of a function.
pub open spec fn return_text(rt: RAstTypeV, bt: RAstTypeV, name: Seq<u8>) -> Seq<u8> {
    if rt is Unit {
        "  ret void\n".spec_bytes()
    } else {
        "  ".spec_bytes() + "ret ".spec_bytes() + llvm_type_name(bt) + " ".spec_bytes() + name
            + "\n".spec_bytes()
    }
}

/// The return type after `)`: `-> type`, or `()`.
pub open spec fn spec_return_type(s: PState) -> TypeResult {
    match s_try(s, TokenOf::TypeArrow) {
        Err(e) => Err(e),
        Ok((false, s1)) => Ok((RAstTypeOf::Unit, s1)),
        Ok((true, s1)) => spec_type(s1),
    }
}

/// A function definition `unsafe? fn name(parameters) (-> type)? block` in a
/// scope of its own: its header is written, the function enters the globals
/// (its name must not be taken by a global) before its body is read, the
/// body's type must be the return type, and a `ret` and `}` close it.
#[verifier::opaque]
pub open spec fn spec_function(s: PState) -> StateResult {
    match s_try(s, TokenOf::Unsafe) {
        Err(e) => Err(e),
        Ok((_, s1)) => match s_expect(s1, TokenOf::Fn) {
            Err(e) => Err(e),
            Ok(s2) => match s_ident(s2) {
                Err(e) => Err(e),
                Ok((fname, s3)) => match s_expect(s_with_sym(s3, sym_enter(s3.sym)), TokenOf::LParen) {
                    Err(e) => Err(e),
                    Ok(s5) => match spec_parameters(s5) {
                        Err(e) => Err(e),
                        Ok((ps, s6)) => match s_expect(s6, TokenOf::RParen) {
                            Err(e) => Err(e),
                            Ok(s7) => match spec_return_type(s7) {
                                Err(e) => Err(e),
                                Ok((rt, s8)) => {
                                    let s9 = s_emit(
                                        s_with_ret(s8, rt),
                                        function_header_text(fname, llvm_type_name(rt)),
                                        0,
                                    );
                                    if entries_contain(s9.sym.globals, fname) {
                                        Err(s_err(s9, ErrorKind::DuplicateFunctionName))
                                    } else {
                                        let s10 = s_with_sym(
                                            s9,
                                            sym_add_global(s9.sym, EntryV::Function(fname, ps, rt)),
                                        );
                                        match spec_block(s10) {
                                            Err(e) => Err(e),
                                            Ok(((name, bt), s11)) => if bt != rt {
                                                Err(s_err(s11, ErrorKind::TypeMismatch))
                                            } else {
                                                let s12 = s_emit(
                                                    s_emit(s11, return_text(rt, bt, name), 0),
                                                    "}".spec_bytes() + "\n".spec_bytes(),
                                                    0,
                                                );
                                                Ok(
                                                    s_with_ret(
                                                        s_with_sym(s12, sym_leave(s12.sym)),
                                                        RAstTypeOf::Unit,
                                                    ),
                                                )
                                            },
                                        }
                                    }
                                },
                            },
                        },
                    },
                },
            },
        },
    }
}

/// A program: function and enum definitions up to the end of the input.
pub open spec fn spec_language(s: PState) -> StateResult
    decreases s_measure(s),
{
    match s.tok {
        TokenOf::Fn | TokenOf::Unsafe => match spec_function(s) {
            Err(e) => Err(e),
            Ok(s1) => if s_measure(s1) < s_measure(s) {
                spec_language(s1)
            } else {
                Err(s_err(s, ErrorKind::ExpectedTopLevelItem))
            },
        },
        TokenOf::Enum => match spec_enum(s) {
            Err(e) => Err(e),
            Ok(s1) => if s_measure(s1) < s_measure(s) {
                spec_language(s1)
            } else {
                Err(s_err(s, ErrorKind::ExpectedTopLevelItem))
            },
        },
        TokenOf::Eof => Ok(s),
        _ => Err(s_err(s, ErrorKind::ExpectedTopLevelItem)),
    }
}

/// A program is accepted only as a whole: when the items parse, the input is
/// read up to its end.
pub proof fn law_language_reads_to_end(s: PState)
    requires
        spec_language(s) is Ok,
    ensures
        spec_language(s)->Ok_0.tok is Eof,
        s_measure(spec_language(s)->Ok_0) <= s_measure(s),
    decreases s_measure(s),
{
    let item = match s.tok {
        TokenOf::Fn | TokenOf::Unsafe => spec_function(s),
        TokenOf::Enum => spec_enum(s),
        _ => Ok(s),
    };
    if !(s.tok is Eof) {
        if let Ok(s1) = item {
            if s_measure(s1) < s_measure(s) {
                law_language_reads_to_end(s1);
            }
        }
    }
}

/// The state before the first token of the source file `sf` is read.
pub open spec fn s_initial(sf: SourceFile) -> StateResult {
    let (r, sf1) = spec_next_token(sf);
    match r {
        Err(e) => Err(e),
        Ok(t) => Ok(
            PState {
                sf: sf1,
                tok: t,
                code: Seq::empty(),
                sym: SymTableV { globals: Seq::empty(), scopes: Seq::empty() },
                ret: RAstTypeOf::Unit,
                counter: 0,
            },
        ),
    }
}

/// The LLVM-IR of the program in `sf` (read from its start), or the first
/// error.
pub open spec fn spec_compile(sf: SourceFile) -> Result<Seq<u8>, CompileError> {
    match s_initial(sf) {
        Err(e) => Err(e),
        Ok(s0) => match spec_language(s0) {
            Err(e) => Err(e),
            Ok(s) => Ok(s.code),
        },
    }
}

} // verus!
