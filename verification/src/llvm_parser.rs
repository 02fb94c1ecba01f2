//! Parser of human-readable LLVM-IR into its syntax tree.
use vstd::prelude::*;
use vstd::string::StringSliceAdditionalSpecFns;
use crate::llvm_ast::{
    AssignInstruction, AssignOp, BinaryOp, Branch, Instruction, InstructionBlock, InstructionBlockList,
    InstructionList, LlvmFunction, LlvmLocalSymTable, LlvmParameter, LlvmSymTable, LlvmType,
    LlvmTypedValue, LlvmValue, TerminatorInstruction, block_seq, entry_label, instruction_seq, llvmLocalSymTable_clear,
    llvmLocalSymTable_insert_register, llvmLocalSymTable_new, llvmSymTable_insert_function,
    llvmSymTable_insert_string, llvmSymTable_new, st_functions, st_strings, st_wf,
};
use crate::llvm_lexer::{
    LlvmLexer, LlvmToken, LlvmTokenOf, LlvmTokenV, lemma_llvm_next_token, ll_sf, ll_token,
    llvmLexer_current_token, llvmLexer_new, llvmLexer_next_token, llvmToken_eq, spec_llvm_next_token,
};
use crate::rust_lexer::{
    CompileError, ErrorKind, SourceFile, SourceLocation, error_at, sf_rest, sf_text, sf_wf,
};
use crate::text::{ByteString, string_clone, string_eq, string_from_str};
use crate::llvm_ast::{
    BlockV, FunctionV, InstructionV, LValueV, block_view, blocks_view, instruction_view, instructions_view,
    parameters_view, register_names, st_function_views, st_string_views, terminator_view, typed_seq_view,
    typed_view, value_view, assign_op_view,
};
use crate::llvm_parser_spec::{
    LState, l_assignment, l_binary, l_block, l_blocks, l_branch, l_call, l_expect, l_function, l_global,
    l_icmp, l_ident, l_initial, l_instruction, l_instructions, l_language, l_more_arguments,
    l_more_blocks, l_more_indexes, l_more_parameters, l_next, l_number_literal, l_number_token,
    l_parameters, l_program, l_register, l_return, l_string, l_try, l_type, l_typed, l_value, l_gep,
};

verus! {

/// The LLVM parser: lexer, the table of functions and strings, and the
/// registers of the function being parsed.
#[derive(Debug)]
pub enum LlvmParser {
    Parser(LlvmLexer, LlvmSymTable, LlvmLocalSymTable),
}

pub open spec fn lp_lexer(p: LlvmParser) -> LlvmLexer {
    let LlvmParser::Parser(l, _, _) = p;
    l
}

pub open spec fn lp_symtable(p: LlvmParser) -> LlvmSymTable {
    let LlvmParser::Parser(_, s, _) = p;
    s
}

pub open spec fn lp_local(p: LlvmParser) -> LlvmLocalSymTable {
    let LlvmParser::Parser(_, _, l) = p;
    l
}

pub open spec fn lp_token(p: LlvmParser) -> LlvmToken {
    ll_token(lp_lexer(p))
}

/// The state of a parser.
pub open spec fn lstate(p: LlvmParser) -> LState {
    LState {
        sf: ll_sf(lp_lexer(p)),
        tok: lp_token(p)@,
        funcs: st_function_views(lp_symtable(p)),
        strings: st_string_views(lp_symtable(p)),
        regs: register_names(lp_local(p)),
    }
}

/// How much input is left, counting one more while the current token is not
/// the end.
pub open spec fn lp_measure(p: LlvmParser) -> int {
    sf_rest(ll_sf(lp_lexer(p))) + if lp_token(p) is Eof {
        0int
    } else {
        1int
    }
}

/// The position is representable and the tables are well formed.
pub open spec fn lp_wf(p: LlvmParser) -> bool {
    &&& sf_wf(ll_sf(lp_lexer(p)))
    &&& st_wf(lp_symtable(p))
}

/// `b` follows `a` in the same input, with no input unread.
pub open spec fn lp_moved(a: LlvmParser, b: LlvmParser) -> bool {
    &&& lp_wf(b)
    &&& sf_text(ll_sf(lp_lexer(b))) == sf_text(ll_sf(lp_lexer(a)))
    &&& lp_measure(b) <= lp_measure(a)
}

/// `b` follows `a` after at least one token was read, and only tokens were read.
pub open spec fn lp_read(a: LlvmParser, b: LlvmParser) -> bool {
    &&& lp_moved(a, b)
    &&& lp_measure(b) < lp_measure(a)
    &&& lp_symtable(b) == lp_symtable(a)
    &&& lp_local(b) == lp_local(a)
}

/// `b` is `a` after its lexer read the next token.
pub open spec fn lp_stepped(a: LlvmParser, b: LlvmParser) -> bool {
    &&& lp_moved(a, b)
    &&& lp_symtable(b) == lp_symtable(a)
    &&& lp_local(b) == lp_local(a)
    &&& (!(lp_token(a) is Eof) ==> lp_measure(b) < lp_measure(a))
}

proof fn lemma_lp_read_trans(a: LlvmParser, b: LlvmParser, c: LlvmParser)
    requires
        lp_read(a, b),
        lp_read(b, c),
    ensures
        lp_read(a, c),
{
}

/// The error `kind` at the parser's position.
pub open spec fn lp_error(p: LlvmParser, kind: ErrorKind) -> CompileError {
    error_at(ll_sf(lp_lexer(p)), kind)
}

/// The error `kind` at the parser's current position.
pub fn llvmParser_error(parser: &LlvmParser, kind: ErrorKind) -> (r: CompileError)
    ensures
        r == lp_error(*parser, kind),
{
    let LlvmParser::Parser(LlvmLexer::Lexer(file, _), _, _) = parser;
    CompileError {
        kind,
        line: crate::rust_lexer::sourceFile_current_line(file),
        column: crate::rust_lexer::sourceFile_current_column(file),
        line_start: crate::rust_lexer::sourceFile_current_line_start(file),
    }
}

/// Get the parser's lexer.
pub fn llvmParser_lexer(parser: &LlvmParser) -> (r: &LlvmLexer)
    ensures
        *r == lp_lexer(*parser),
{
    let LlvmParser::Parser(lexer, _, _) = parser;
    lexer
}

/// Get the table of functions and strings.
pub fn llvmParser_ast(parser: &LlvmParser) -> (r: &LlvmSymTable)
    ensures
        *r == lp_symtable(*parser),
{
    let LlvmParser::Parser(_, ast, _) = parser;
    ast
}

/// Get the registers of the function being parsed.
pub fn llvmParser_local(parser: &LlvmParser) -> (r: &LlvmLocalSymTable)
    ensures
        *r == lp_local(*parser),
{
    let LlvmParser::Parser(_, _, local) = parser;
    local
}

/// The current token.
pub fn llvmParser_current_token(parser: &LlvmParser) -> (r: &LlvmToken)
    ensures
        *r == lp_token(*parser),
{
    llvmLexer_current_token(llvmParser_lexer(parser))
}

/// Read the next token.
pub fn llvmParser_next_token(parser: &mut LlvmParser) -> (r: Result<LlvmToken, CompileError>)
    requires
        lp_wf(*old(parser)),
    ensures
        l_next(lstate(*old(parser))) == match r {
            Ok(_) => Ok::<LState, CompileError>(lstate(*final(parser))),
            Err(e) => Err(e),
        },
        r matches Ok(t) ==> lp_stepped(*old(parser), *final(parser)) && t@ == lp_token(
            *final(parser),
        )@,
        r is Ok ==> spec_llvm_next_token(ll_sf(lp_lexer(*old(parser)))).0 == Ok::<
            LlvmTokenV,
            CompileError,
        >(lp_token(*final(parser))@) && ll_sf(lp_lexer(*final(parser))) == spec_llvm_next_token(
            ll_sf(lp_lexer(*old(parser))),
        ).1,
        r matches Err(e) ==> spec_llvm_next_token(ll_sf(lp_lexer(*old(parser)))).0 == Err::<
            LlvmTokenV,
            CompileError,
        >(e),
{
    proof {
        lemma_llvm_next_token(ll_sf(lp_lexer(*parser)));
    }
    let LlvmParser::Parser(lexer, _, _) = parser;
    llvmLexer_next_token(lexer)
}

/// Whether the current token equals `token`.
pub fn llvmParser_current_token_eq(parser: &LlvmParser, token: &LlvmToken) -> (r: bool)
    ensures
        r == (lp_token(*parser)@ == token@),
{
    llvmToken_eq(llvmParser_current_token(parser), token)
}

/// Read the current token when it is `token`, and tell whether it was.
pub fn llvmParser_try_consume(parser: &mut LlvmParser, token: &LlvmToken) -> (r: Result<bool, CompileError>)
    requires
        lp_wf(*old(parser)),
    ensures
        l_try(lstate(*old(parser)), token@) == match r {
            Ok(b) => Ok::<(bool, LState), CompileError>((b, lstate(*final(parser)))),
            Err(e) => Err(e),
        },
        lp_token(*old(parser))@ != token@ ==> r == Ok::<bool, CompileError>(false) && *final(parser)
            == *old(parser),
        lp_token(*old(parser))@ == token@ ==> (r matches Ok(b) ==> b && lp_stepped(
            *old(parser),
            *final(parser),
        )),
{
    if llvmParser_current_token_eq(parser, token) {
        match llvmParser_next_token(parser) {
            Ok(_) => Ok(true),
            Err(e) => Err(e),
        }
    } else {
        Ok(false)
    }
}

/// Read the current token, which must be `token`.
pub fn llvmParser_expect_token(parser: &mut LlvmParser, token: &LlvmToken) -> (r: Result<(), CompileError>)
    requires
        lp_wf(*old(parser)),
    ensures
        l_expect(lstate(*old(parser)), token@) == match r {
            Ok(_) => Ok::<LState, CompileError>(lstate(*final(parser))),
            Err(e) => Err(e),
        },
        lp_token(*old(parser))@ != token@ ==> r == Err::<(), CompileError>(
            lp_error(*old(parser), ErrorKind::UnexpectedLlvmToken),
        ),
        r is Ok ==> lp_token(*old(parser))@ == token@ && lp_stepped(*old(parser), *final(parser)),
{
    match llvmParser_try_consume(parser, token) {
        Ok(true) => Ok(()),
        Ok(false) => Err(llvmParser_error(parser, ErrorKind::UnexpectedLlvmToken)),
        Err(e) => Err(e),
    }
}

/// Read the current token, which must be an identifier, and return its name.
pub fn llvmParser_expect_identifier(parser: &mut LlvmParser) -> (r: Result<ByteString, CompileError>)
    requires
        lp_wf(*old(parser)),
    ensures
        l_ident(lstate(*old(parser))) == match r {
            Ok(n) => Ok::<(Seq<u8>, LState), CompileError>((n@, lstate(*final(parser)))),
            Err(e) => Err(e),
        },
        !(lp_token(*old(parser)) is Identifier) ==> r == Err::<ByteString, CompileError>(
            lp_error(*old(parser), ErrorKind::ExpectedLlvmIdentifier),
        ),
        r matches Ok(name) ==> lp_token(*old(parser)) is Identifier && name@ == lp_token(
            *old(parser),
        )->Identifier_0@ && lp_read(*old(parser), *final(parser)),
{
    match llvmParser_current_token(parser) {
        LlvmTokenOf::Identifier(identifier) => {
            let value: ByteString = string_clone(identifier);
            match llvmParser_next_token(parser) {
                Ok(_) => Ok(value),
                Err(e) => Err(e),
            }
        },
        _ => Err(llvmParser_error(parser, ErrorKind::ExpectedLlvmIdentifier)),
    }
}

// ------------------------------------------------------------------
// Types and values
// ------------------------------------------------------------------

/// Parse a type: `i1`, `i8`, `i32`, `i64`, `void`, `ptr` or `[n x type]`.
pub fn llvmParser_parse_type(parser: &mut LlvmParser) -> (r: Result<LlvmType, CompileError>)
    requires
        lp_wf(*old(parser)),
    ensures
        l_type(lstate(*old(parser))) == match r {
            Ok(t) => Ok::<(LlvmType, LState), CompileError>((t, lstate(*final(parser)))),
            Err(e) => Err(e),
        },
        r is Ok ==> lp_read(*old(parser), *final(parser)),
        lp_token(*old(parser)) is I1 ==> (r matches Ok(t) ==> t == LlvmType::I1),
        lp_token(*old(parser)) is I8 ==> (r matches Ok(t) ==> t == LlvmType::I8),
        lp_token(*old(parser)) is I32 ==> (r matches Ok(t) ==> t == LlvmType::I32),
        lp_token(*old(parser)) is I64 ==> (r matches Ok(t) ==> t == LlvmType::I64),
        lp_token(*old(parser)) is Void ==> (r matches Ok(t) ==> t == LlvmType::Void),
        lp_token(*old(parser)) is Ptr ==> (r matches Ok(t) ==> t == LlvmType::Ptr),
        lp_token(*old(parser)) is LBracket ==> (r matches Ok(t) ==> t is Array),
        !(lp_token(*old(parser)) is I1 || lp_token(*old(parser)) is I8 || lp_token(*old(parser)) is I32
            || lp_token(*old(parser)) is I64 || lp_token(*old(parser)) is Void || lp_token(
            *old(parser),
        ) is Ptr || lp_token(*old(parser)) is LBracket) ==> r == Err::<LlvmType, CompileError>(
            lp_error(*old(parser), ErrorKind::ExpectedLlvmType),
        ),
    decreases lp_measure(*old(parser)),
{
    let ghost p0 = *parser;
    let simple: Option<LlvmType> = match llvmParser_current_token(parser) {
        LlvmTokenOf::I1 => Some(LlvmType::I1),
        LlvmTokenOf::I8 => Some(LlvmType::I8),
        LlvmTokenOf::I32 => Some(LlvmType::I32),
        LlvmTokenOf::I64 => Some(LlvmType::I64),
        LlvmTokenOf::Void => Some(LlvmType::Void),
        LlvmTokenOf::Ptr => Some(LlvmType::Ptr),
        LlvmTokenOf::LBracket => None,
        _ => return Err(llvmParser_error(parser, ErrorKind::ExpectedLlvmType)),
    };
    match llvmParser_next_token(parser) {
        Ok(_) => {},
        Err(e) => return Err(e),
    }
    match simple {
        Some(t) => return Ok(t),
        None => {},
    }
    let ghost p1 = *parser;
    let len: usize = match llvmParser_parse_non_negative_number(parser) {
        Ok(n) => n,
        Err(e) => return Err(e),
    };
    let ghost p2 = *parser;
    let is_x: bool = match llvmParser_current_token(parser) {
        LlvmTokenOf::Identifier(separator) => string_eq(separator, &string_from_str("x")),
        _ => false,
    };
    if !is_x {
        return Err(llvmParser_error(parser, ErrorKind::ExpectedArrayTypeSeparator));
    }
    match llvmParser_next_token(parser) {
        Ok(_) => {},
        Err(e) => return Err(e),
    }
    let ghost p3 = *parser;
    proof {
        lemma_lp_read_trans(p0, p1, p2);
        lemma_lp_read_trans(p0, p2, p3);
    }
    let inner: LlvmType = match llvmParser_parse_type(parser) {
        Ok(t) => t,
        Err(e) => return Err(e),
    };
    let ghost p4 = *parser;
    match llvmParser_expect_token(parser, &LlvmTokenOf::RBracket) {
        Ok(_) => {},
        Err(e) => return Err(e),
    }
    proof {
        lemma_lp_read_trans(p0, p3, p4);
        lemma_lp_read_trans(p0, p4, *parser);
    }
    Ok(LlvmType::Array(len, Box::new(inner)))
}

/// Parse a register reference `%name`, and return the name.
pub fn llvmParser_parse_register(parser: &mut LlvmParser) -> (r: Result<ByteString, CompileError>)
    requires
        lp_wf(*old(parser)),
    ensures
        l_register(lstate(*old(parser))) == match r {
            Ok(n) => Ok::<(Seq<u8>, LState), CompileError>((n@, lstate(*final(parser)))),
            Err(e) => Err(e),
        },
        r is Ok ==> lp_read(*old(parser), *final(parser)),
        !(lp_token(*old(parser)) is Percent) ==> r == Err::<ByteString, CompileError>(
            lp_error(*old(parser), ErrorKind::UnexpectedLlvmToken),
        ),
{
    let ghost p0 = *parser;
    match llvmParser_expect_token(parser, &LlvmTokenOf::Percent) {
        Ok(_) => {},
        Err(e) => return Err(e),
    }
    let ghost p1 = *parser;
    let r = llvmParser_expect_identifier(parser);
    proof {
        if r is Ok {
            lemma_lp_read_trans(p0, p1, *parser);
        }
    }
    r
}

/// Parse a global name `@name`, and return the name.
pub fn llvmParser_parse_global_name(parser: &mut LlvmParser) -> (r: Result<ByteString, CompileError>)
    requires
        lp_wf(*old(parser)),
    ensures
        l_global(lstate(*old(parser))) == match r {
            Ok(n) => Ok::<(Seq<u8>, LState), CompileError>((n@, lstate(*final(parser)))),
            Err(e) => Err(e),
        },
        r is Ok ==> lp_read(*old(parser), *final(parser)),
        !(lp_token(*old(parser)) is At) ==> r == Err::<ByteString, CompileError>(
            lp_error(*old(parser), ErrorKind::UnexpectedLlvmToken),
        ),
{
    let ghost p0 = *parser;
    match llvmParser_expect_token(parser, &LlvmTokenOf::At) {
        Ok(_) => {},
        Err(e) => return Err(e),
    }
    let ghost p1 = *parser;
    let r = llvmParser_expect_identifier(parser);
    proof {
        if r is Ok {
            lemma_lp_read_trans(p0, p1, *parser);
        }
    }
    r
}

/// Parse a non-negative number.
pub fn llvmParser_parse_non_negative_number(parser: &mut LlvmParser) -> (r: Result<usize, CompileError>)
    requires
        lp_wf(*old(parser)),
    ensures
        l_number_token(lstate(*old(parser))) == match r {
            Ok(n) => Ok::<(usize, LState), CompileError>((n, lstate(*final(parser)))),
            Err(e) => Err(e),
        },
        r is Ok ==> lp_read(*old(parser), *final(parser)),
        r matches Ok(n) ==> lp_token(*old(parser)) == LlvmTokenOf::<ByteString>::Integer(n),
        !(lp_token(*old(parser)) is Integer) ==> r == Err::<usize, CompileError>(
            lp_error(*old(parser), ErrorKind::ExpectedLlvmNumber),
        ),
{
    match llvmParser_current_token(parser) {
        LlvmTokenOf::Integer(value) => {
            let result: usize = *value;
            match llvmParser_next_token(parser) {
                Ok(_) => Ok(result),
                Err(e) => Err(e),
            }
        },
        _ => Err(llvmParser_error(parser, ErrorKind::ExpectedLlvmNumber)),
    }
}

/// Parse an integer literal, `-` allowed: a negative one is taken modulo
/// 2^64 (two's complement).
pub fn llvmParser_parse_number_literal(parser: &mut LlvmParser) -> (r: Result<usize, CompileError>)
    requires
        lp_wf(*old(parser)),
    ensures
        l_number_literal(lstate(*old(parser))) == match r {
            Ok(n) => Ok::<(usize, LState), CompileError>((n, lstate(*final(parser)))),
            Err(e) => Err(e),
        },
        r is Ok ==> lp_read(*old(parser), *final(parser)),
        lp_token(*old(parser)) matches LlvmTokenOf::Integer(n) ==> (r matches Ok(v) ==> v == n),
{
    let ghost p0 = *parser;
    let negative: bool = match llvmParser_try_consume(parser, &LlvmTokenOf::Minus) {
        Ok(b) => b,
        Err(e) => return Err(e),
    };
    let ghost p1 = *parser;
    match llvmParser_current_token(parser) {
        LlvmTokenOf::Integer(value) => {
            let magnitude: usize = *value;
            match llvmParser_next_token(parser) {
                Ok(_) => {},
                Err(e) => return Err(e),
            }
            proof {
                if negative {
                    lemma_lp_read_trans(p0, p1, *parser);
                }
            }
            if negative {
                Ok(0usize.wrapping_sub(magnitude))
            } else {
                Ok(magnitude)
            }
        },
        _ => Err(llvmParser_error(parser, ErrorKind::ExpectedLlvmIntegerLiteral)),
    }
}

/// Parse a value: a register, a global or an integer literal.
pub fn llvmParser_parse_value(parser: &mut LlvmParser) -> (r: Result<LlvmValue, CompileError>)
    requires
        lp_wf(*old(parser)),
    ensures
        l_value(lstate(*old(parser))) == match r {
            Ok(v) => Ok::<(LValueV, LState), CompileError>((value_view(v), lstate(*final(parser)))),
            Err(e) => Err(e),
        },
        r is Ok ==> lp_read(*old(parser), *final(parser)),
        r matches Ok(v) ==> (lp_token(*old(parser)) is Percent <==> v is Register) && (lp_token(
            *old(parser),
        ) is At <==> v is Global),
        !(lp_token(*old(parser)) is Percent || lp_token(*old(parser)) is At || lp_token(
            *old(parser),
        ) is Minus || lp_token(*old(parser)) is Integer) ==> r == Err::<LlvmValue, CompileError>(
            lp_error(*old(parser), ErrorKind::ExpectedLlvmValue),
        ),
{
    match llvmParser_current_token(parser) {
        LlvmTokenOf::Percent => match llvmParser_parse_register(parser) {
            Ok(name) => Ok(LlvmValue::Register(name)),
            Err(e) => Err(e),
        },
        LlvmTokenOf::At => match llvmParser_parse_global_name(parser) {
            Ok(name) => Ok(LlvmValue::Global(name)),
            Err(e) => Err(e),
        },
        LlvmTokenOf::Minus | LlvmTokenOf::Integer(_) => match llvmParser_parse_number_literal(parser) {
            Ok(n) => Ok(LlvmValue::Literal(n)),
            Err(e) => Err(e),
        },
        _ => Err(llvmParser_error(parser, ErrorKind::ExpectedLlvmValue)),
    }
}

/// Parse a typed value `type value`.
pub fn llvmParser_parse_typed_value(parser: &mut LlvmParser) -> (r: Result<LlvmTypedValue, CompileError>)
    requires
        lp_wf(*old(parser)),
    ensures
        l_typed(lstate(*old(parser))) == match r {
            Ok(v) => Ok::<((LlvmType, LValueV), LState), CompileError>(
                (typed_view(v), lstate(*final(parser))),
            ),
            Err(e) => Err(e),
        },
        r is Ok ==> lp_read(*old(parser), *final(parser)),
{
    let ghost p0 = *parser;
    let ty: LlvmType = match llvmParser_parse_type(parser) {
        Ok(t) => t,
        Err(e) => return Err(e),
    };
    let ghost p1 = *parser;
    let value: LlvmValue = match llvmParser_parse_value(parser) {
        Ok(v) => v,
        Err(e) => return Err(e),
    };
    proof {
        lemma_lp_read_trans(p0, p1, *parser);
    }
    Ok(LlvmTypedValue::Pair(ty, value))
}


// ------------------------------------------------------------------
// Instructions and blocks
// ------------------------------------------------------------------

/// A block's instructions end with a terminator, and it is the only one.
pub open spec fn terminated(s: Seq<Instruction>) -> bool {
    &&& s.len() > 0
    &&& s.last() is Terminator
    &&& forall|i: int| 0 <= i < s.len() - 1 ==> #[trigger] s[i] is Assignment
}

/// Every block of the list is terminated.
pub open spec fn blocks_terminated(s: Seq<InstructionBlock>) -> bool {
    forall|i: int|
        0 <= i < s.len() ==> (#[trigger] s[i] matches InstructionBlock::Block(_, instructions)
            && terminated(instruction_seq(instructions)))
}

/// Every block of every function of the table is terminated.
pub open spec fn functions_terminated(functions: Map<Seq<u8>, LlvmFunction>) -> bool {
    forall|name: Seq<u8>|
        #[trigger] functions.contains_key(name) ==> ((functions[name] matches LlvmFunction::Function(
            _,
            _,
            blocks,
        ) && blocks_terminated(block_seq(blocks))))
}

/// The list of the instructions of a vector, in the same order.
fn instructions_from_vec(v: Vec<Instruction>) -> (r: InstructionList)
    ensures
        instruction_seq(r) == v@,
{
    let ghost items = v@;
    let mut v = v;
    let mut list: InstructionList = InstructionList::Nil;
    while v.len() > 0
        invariant
            v@ + instruction_seq(list) == items,
        decreases v.len(),
    {
        let ghost before = v@;
        let x: Instruction = match v.pop() {
            Some(x) => x,
            None => unreached(),
        };
        let ghost rest = instruction_seq(list);
        list = InstructionList::Cons(x, Box::new(list));
        assert(v@ + instruction_seq(list) =~= before.drop_last() + (seq![x] + rest));
        assert(before =~= before.drop_last().push(x));
        assert(v@ + instruction_seq(list) =~= before + rest);
    }
    assert(v@ + instruction_seq(list) =~= instruction_seq(list));
    list
}

/// The list of the blocks of a vector, in the same order.
fn blocks_from_vec(v: Vec<InstructionBlock>) -> (r: InstructionBlockList)
    ensures
        block_seq(r) == v@,
{
    let ghost items = v@;
    let mut v = v;
    let mut list: InstructionBlockList = InstructionBlockList::Nil;
    while v.len() > 0
        invariant
            v@ + block_seq(list) == items,
        decreases v.len(),
    {
        let ghost before = v@;
        let x: InstructionBlock = match v.pop() {
            Some(x) => x,
            None => unreached(),
        };
        let ghost rest = block_seq(list);
        list = InstructionBlockList::Cons(x, Box::new(list));
        assert(v@ + block_seq(list) =~= before.drop_last() + (seq![x] + rest));
        assert(before =~= before.drop_last().push(x));
        assert(v@ + block_seq(list) =~= before + rest);
    }
    assert(v@ + block_seq(list) =~= block_seq(list));
    list
}

/// `b` follows `a` after at least one token was read; registers may have been
/// defined.
pub open spec fn lp_advanced_local(a: LlvmParser, b: LlvmParser) -> bool {
    &&& lp_moved(a, b)
    &&& lp_measure(b) < lp_measure(a)
    &&& lp_symtable(b) == lp_symtable(a)
}

proof fn lemma_local_trans(a: LlvmParser, b: LlvmParser, c: LlvmParser)
    requires
        lp_advanced_local(a, b) || lp_read(a, b),
        lp_advanced_local(b, c) || lp_read(b, c),
    ensures
        lp_advanced_local(a, c),
{
}

/// Parse `ret void` or `ret type value`.
pub fn llvmParser_parse_return(parser: &mut LlvmParser) -> (r: Result<TerminatorInstruction, CompileError>)
    requires
        lp_wf(*old(parser)),
    ensures
        l_return(lstate(*old(parser))) == match r {
            Ok(t) => Ok::<(crate::llvm_ast::TerminatorV, LState), CompileError>(
                (terminator_view(t), lstate(*final(parser))),
            ),
            Err(e) => Err(e),
        },
        r is Ok ==> lp_read(*old(parser), *final(parser)),
{
    proof {
        reveal(l_return);
    }
    let ghost p0 = *parser;
    match llvmParser_expect_token(parser, &LlvmTokenOf::Ret) {
        Ok(_) => {},
        Err(e) => return Err(e),
    }
    let ghost p1 = *parser;
    let is_void: bool = match llvmParser_try_consume(parser, &LlvmTokenOf::Void) {
        Ok(b) => b,
        Err(e) => return Err(e),
    };
    if is_void {
        proof {
            lemma_lp_read_trans(p0, p1, *parser);
        }
        return Ok(TerminatorInstruction::RetVoid);
    }
    let returned_type: LlvmType = match llvmParser_parse_type(parser) {
        Ok(t) => t,
        Err(e) => return Err(e),
    };
    let ghost p2 = *parser;
    let returned_value: LlvmValue = match llvmParser_parse_value(parser) {
        Ok(v) => v,
        Err(e) => return Err(e),
    };
    proof {
        lemma_lp_read_trans(p0, p1, p2);
        lemma_lp_read_trans(p0, p2, *parser);
    }
    Ok(TerminatorInstruction::Ret(returned_type, returned_value))
}

/// Parse `br label %l` or `br i1 value, label %then, label %else`.
#[verifier::rlimit(100)]
#[verifier::spinoff_prover]
pub fn llvmParser_parse_branch(parser: &mut LlvmParser) -> (r: Result<TerminatorInstruction, CompileError>)
    requires
        lp_wf(*old(parser)),
    ensures
        l_branch(lstate(*old(parser))) == match r {
            Ok(t) => Ok::<(crate::llvm_ast::TerminatorV, LState), CompileError>(
                (terminator_view(t), lstate(*final(parser))),
            ),
            Err(e) => Err(e),
        },
        r is Ok ==> lp_read(*old(parser), *final(parser)),
        r matches Ok(t) ==> t is Br,
{
    proof {
        reveal(l_branch);
    }
    let ghost p0 = *parser;
    match llvmParser_expect_token(parser, &LlvmTokenOf::Br) {
        Ok(_) => {},
        Err(e) => return Err(e),
    }
    let ghost p1 = *parser;
    let unconditional: bool = match llvmParser_try_consume(parser, &LlvmTokenOf::Label) {
        Ok(b) => b,
        Err(e) => return Err(e),
    };
    if unconditional {
        let ghost p2 = *parser;
        let target_label: ByteString = match llvmParser_parse_register(parser) {
            Ok(l) => l,
            Err(e) => return Err(e),
        };
        proof {
            lemma_lp_read_trans(p0, p1, p2);
            lemma_lp_read_trans(p0, p2, *parser);
        }
        return Ok(TerminatorInstruction::Br(Branch::Unconditional(target_label)));
    }
    match llvmParser_expect_token(parser, &LlvmTokenOf::I1) {
        Ok(_) => {},
        Err(e) => return Err(e),
    }
    let ghost q1 = *parser;
    let condition: LlvmValue = match llvmParser_parse_value(parser) {
        Ok(v) => v,
        Err(e) => return Err(e),
    };
    let ghost q2 = *parser;
    match llvmParser_expect_token(parser, &LlvmTokenOf::Comma) {
        Ok(_) => {},
        Err(e) => return Err(e),
    }
    let ghost q3 = *parser;
    match llvmParser_expect_token(parser, &LlvmTokenOf::Label) {
        Ok(_) => {},
        Err(e) => return Err(e),
    }
    let ghost q4 = *parser;
    let then_label: ByteString = match llvmParser_parse_register(parser) {
        Ok(l) => l,
        Err(e) => return Err(e),
    };
    let ghost q5 = *parser;
    match llvmParser_expect_token(parser, &LlvmTokenOf::Comma) {
        Ok(_) => {},
        Err(e) => return Err(e),
    }
    let ghost q6 = *parser;
    match llvmParser_expect_token(parser, &LlvmTokenOf::Label) {
        Ok(_) => {},
        Err(e) => return Err(e),
    }
    let ghost q7 = *parser;
    let else_label: ByteString = match llvmParser_parse_register(parser) {
        Ok(l) => l,
        Err(e) => return Err(e),
    };
    proof {
        lemma_lp_read_trans(p0, p1, q1);
        lemma_lp_read_trans(p0, q1, q2);
        lemma_lp_read_trans(p0, q2, q3);
        lemma_lp_read_trans(p0, q3, q4);
        lemma_lp_read_trans(p0, q4, q5);
        lemma_lp_read_trans(p0, q5, q6);
        lemma_lp_read_trans(p0, q6, q7);
        lemma_lp_read_trans(p0, q7, *parser);
    }
    Ok(TerminatorInstruction::Br(Branch::Conditional(condition, then_label, else_label)))
}

/// Parse `op type left, right` for a binary operation whose token is
/// `operator_token`.
#[verifier::rlimit(100)]
#[verifier::spinoff_prover]
pub fn llvmParser_parse_binary_assign(
    parser: &mut LlvmParser,
    operator_token: LlvmToken,
    operator: BinaryOp,
) -> (r: Result<AssignOp, CompileError>)
    requires
        lp_wf(*old(parser)),
        !(operator_token is Eof),
    ensures
        l_binary(lstate(*old(parser)), operator_token@, operator) == match r {
            Ok(op) => Ok::<(crate::llvm_ast::AssignOpV, LState), CompileError>(
                (assign_op_view(op), lstate(*final(parser))),
            ),
            Err(e) => Err(e),
        },
        r is Ok ==> lp_read(*old(parser), *final(parser)),
        r matches Ok(op) ==> op matches AssignOp::Binary(o, _, _, _) && o == operator,
{
    proof {
        reveal(l_binary);
    }
    let ghost p0 = *parser;
    match llvmParser_expect_token(parser, &operator_token) {
        Ok(_) => {},
        Err(e) => return Err(e),
    }
    let ghost p1 = *parser;
    let ty: LlvmType = match llvmParser_parse_type(parser) {
        Ok(t) => t,
        Err(e) => return Err(e),
    };
    let ghost p2 = *parser;
    let left: LlvmValue = match llvmParser_parse_value(parser) {
        Ok(v) => v,
        Err(e) => return Err(e),
    };
    let ghost p3 = *parser;
    match llvmParser_expect_token(parser, &LlvmTokenOf::Comma) {
        Ok(_) => {},
        Err(e) => return Err(e),
    }
    let ghost p4 = *parser;
    let right: LlvmValue = match llvmParser_parse_value(parser) {
        Ok(v) => v,
        Err(e) => return Err(e),
    };
    proof {
        lemma_lp_read_trans(p0, p1, p2);
        lemma_lp_read_trans(p0, p2, p3);
        lemma_lp_read_trans(p0, p3, p4);
        lemma_lp_read_trans(p0, p4, *parser);
    }
    Ok(AssignOp::Binary(operator, ty, left, right))
}

/// Parse `icmp ult type left, right`.
#[verifier::rlimit(100)]
#[verifier::spinoff_prover]
pub fn llvmParser_parse_icmp_assign(parser: &mut LlvmParser) -> (r: Result<AssignOp, CompileError>)
    requires
        lp_wf(*old(parser)),
    ensures
        l_icmp(lstate(*old(parser))) == match r {
            Ok(op) => Ok::<(crate::llvm_ast::AssignOpV, LState), CompileError>(
                (assign_op_view(op), lstate(*final(parser))),
            ),
            Err(e) => Err(e),
        },
        r is Ok ==> lp_read(*old(parser), *final(parser)),
        r matches Ok(op) ==> op matches AssignOp::Binary(o, _, _, _) && o == BinaryOp::IcmpUlt,
{
    proof {
        reveal(l_icmp);
    }
    let ghost p0 = *parser;
    match llvmParser_expect_token(parser, &LlvmTokenOf::Icmp) {
        Ok(_) => {},
        Err(e) => return Err(e),
    }
    let ghost p1 = *parser;
    match llvmParser_expect_token(parser, &LlvmTokenOf::Ult) {
        Ok(_) => {},
        Err(e) => return Err(e),
    }
    let ghost p2 = *parser;
    let ty: LlvmType = match llvmParser_parse_type(parser) {
        Ok(t) => t,
        Err(e) => return Err(e),
    };
    let ghost p3 = *parser;
    let left: LlvmValue = match llvmParser_parse_value(parser) {
        Ok(v) => v,
        Err(e) => return Err(e),
    };
    let ghost p4 = *parser;
    match llvmParser_expect_token(parser, &LlvmTokenOf::Comma) {
        Ok(_) => {},
        Err(e) => return Err(e),
    }
    let ghost p5 = *parser;
    let right: LlvmValue = match llvmParser_parse_value(parser) {
        Ok(v) => v,
        Err(e) => return Err(e),
    };
    proof {
        lemma_lp_read_trans(p0, p1, p2);
        lemma_lp_read_trans(p0, p2, p3);
        lemma_lp_read_trans(p0, p3, p4);
        lemma_lp_read_trans(p0, p4, p5);
        lemma_lp_read_trans(p0, p5, *parser);
    }
    Ok(AssignOp::Binary(BinaryOp::IcmpUlt, ty, left, right))
}

/// Parse `call type @callee(type value, ...)`.
#[verifier::rlimit(100)]
#[verifier::spinoff_prover]
pub fn llvmParser_parse_call_assign(parser: &mut LlvmParser) -> (r: Result<AssignOp, CompileError>)
    requires
        lp_wf(*old(parser)),
    ensures
        l_call(lstate(*old(parser))) == match r {
            Ok(op) => Ok::<(crate::llvm_ast::AssignOpV, LState), CompileError>(
                (assign_op_view(op), lstate(*final(parser))),
            ),
            Err(e) => Err(e),
        },
        r is Ok ==> lp_read(*old(parser), *final(parser)),
        r matches Ok(op) ==> op is Call,
{
    proof {
        reveal(l_call);
    }
    let ghost p0 = *parser;
    match llvmParser_expect_token(parser, &LlvmTokenOf::Call) {
        Ok(_) => {},
        Err(e) => return Err(e),
    }
    let ghost p1 = *parser;
    let return_type: LlvmType = match llvmParser_parse_type(parser) {
        Ok(t) => t,
        Err(e) => return Err(e),
    };
    let ghost p2 = *parser;
    let callee: ByteString = match llvmParser_parse_global_name(parser) {
        Ok(n) => n,
        Err(e) => return Err(e),
    };
    let ghost p3 = *parser;
    let mut arguments: Vec<LlvmTypedValue> = Vec::new();
    match llvmParser_expect_token(parser, &LlvmTokenOf::LParen) {
        Ok(_) => {},
        Err(e) => return Err(e),
    }
    proof {
        lemma_lp_read_trans(p0, p1, p2);
        lemma_lp_read_trans(p0, p2, p3);
        lemma_lp_read_trans(p0, p3, *parser);
    }
    proof {
        assert(typed_seq_view(arguments@) =~= Seq::<(LlvmType, LValueV)>::empty());
    }
    if !llvmParser_current_token_eq(parser, &LlvmTokenOf::RParen) {
        let ghost q0 = *parser;
        let argument: LlvmTypedValue = match llvmParser_parse_typed_value(parser) {
            Ok(a) => a,
            Err(e) => return Err(e),
        };
        let ghost first = typed_view(argument);
        arguments.push(argument);
        proof {
            lemma_lp_read_trans(p0, q0, *parser);
            assert(typed_seq_view(arguments@) =~= seq![first]);
        }
        let ghost more = l_more_arguments(lstate(*parser), seq![first]);
        while llvmParser_current_token_eq(parser, &LlvmTokenOf::Comma)
            invariant
                lp_wf(*parser),
                lp_read(p0, *parser),
                p0 == *old(parser),
                l_more_arguments(lstate(*parser), typed_seq_view(arguments@)) == more,
                more matches Err(e) ==> l_call(lstate(p0)) == Err::<
                    (crate::llvm_ast::AssignOpV, LState),
                    CompileError,
                >(e),
            decreases lp_measure(*parser),
        {
            let ghost q1 = *parser;
            match llvmParser_next_token(parser) {
                Ok(_) => {},
                Err(e) => return Err(e),
            }
            let ghost q2 = *parser;
            let argument: LlvmTypedValue = match llvmParser_parse_typed_value(parser) {
                Ok(a) => a,
                Err(e) => return Err(e),
            };
            let ghost before = typed_seq_view(arguments@);
            let ghost argument_view = typed_view(argument);
            arguments.push(argument);
            proof {
                assert(typed_seq_view(arguments@) =~= before.push(argument_view));
                lemma_lp_read_trans(p0, q1, q2);
                lemma_lp_read_trans(p0, q2, *parser);
            }
        }
    }
    let ghost p4 = *parser;
    match llvmParser_expect_token(parser, &LlvmTokenOf::RParen) {
        Ok(_) => {},
        Err(e) => return Err(e),
    }
    proof {
        lemma_lp_read_trans(p0, p4, *parser);
    }
    Ok(AssignOp::Call(return_type, callee, arguments))
}

/// Parse `getelementptr type, ptr value, type index, ...`.
#[verifier::rlimit(100)]
#[verifier::spinoff_prover]
pub fn llvmParser_parse_gep_assign(parser: &mut LlvmParser) -> (r: Result<AssignOp, CompileError>)
    requires
        lp_wf(*old(parser)),
    ensures
        l_gep(lstate(*old(parser))) == match r {
            Ok(op) => Ok::<(crate::llvm_ast::AssignOpV, LState), CompileError>(
                (assign_op_view(op), lstate(*final(parser))),
            ),
            Err(e) => Err(e),
        },
        r is Ok ==> lp_read(*old(parser), *final(parser)),
        r matches Ok(op) ==> op is Gep,
{
    proof {
        reveal(l_gep);
    }
    let ghost p0 = *parser;
    match llvmParser_expect_token(parser, &LlvmTokenOf::Gep) {
        Ok(_) => {},
        Err(e) => return Err(e),
    }
    let ghost p1 = *parser;
    let base_type: LlvmType = match llvmParser_parse_type(parser) {
        Ok(t) => t,
        Err(e) => return Err(e),
    };
    let ghost p2 = *parser;
    match llvmParser_expect_token(parser, &LlvmTokenOf::Comma) {
        Ok(_) => {},
        Err(e) => return Err(e),
    }
    let ghost p3 = *parser;
    match llvmParser_expect_token(parser, &LlvmTokenOf::Ptr) {
        Ok(_) => {},
        Err(e) => return Err(e),
    }
    let ghost p4 = *parser;
    let pointer_value: LlvmValue = match llvmParser_parse_value(parser) {
        Ok(v) => v,
        Err(e) => return Err(e),
    };
    let ghost p5 = *parser;
    match llvmParser_expect_token(parser, &LlvmTokenOf::Comma) {
        Ok(_) => {},
        Err(e) => return Err(e),
    }
    let ghost p6 = *parser;
    let mut indexes: Vec<LlvmTypedValue> = Vec::new();
    let first_index: LlvmTypedValue = match llvmParser_parse_typed_value(parser) {
        Ok(a) => a,
        Err(e) => return Err(e),
    };
    let ghost first = typed_view(first_index);
    indexes.push(first_index);
    proof {
        lemma_lp_read_trans(p0, p1, p2);
        lemma_lp_read_trans(p0, p2, p3);
        lemma_lp_read_trans(p0, p3, p4);
        lemma_lp_read_trans(p0, p4, p5);
        lemma_lp_read_trans(p0, p5, p6);
        lemma_lp_read_trans(p0, p6, *parser);
        assert(typed_seq_view(indexes@) =~= seq![first]);
    }
    let ghost all = l_more_indexes(lstate(*parser), seq![first]);
    loop
        invariant
            lp_wf(*parser),
            lp_read(p0, *parser),
            p0 == *old(parser),
            l_more_indexes(lstate(*parser), typed_seq_view(indexes@)) == all,
            all matches Err(e) ==> l_gep(lstate(p0)) == Err::<
                (crate::llvm_ast::AssignOpV, LState),
                CompileError,
            >(e),
        ensures
            all == Ok::<(Seq<(LlvmType, LValueV)>, LState), CompileError>(
                (typed_seq_view(indexes@), lstate(*parser)),
            ),
        decreases lp_measure(*parser),
    {
        let ghost q1 = *parser;
        let more: bool = match llvmParser_try_consume(parser, &LlvmTokenOf::Comma) {
            Ok(b) => b,
            Err(e) => return Err(e),
        };
        if !more {
            break;
        }
        let ghost q2 = *parser;
        let index: LlvmTypedValue = match llvmParser_parse_typed_value(parser) {
            Ok(a) => a,
            Err(e) => return Err(e),
        };
        let ghost before = typed_seq_view(indexes@);
        let ghost index_view = typed_view(index);
        indexes.push(index);
        proof {
            assert(typed_seq_view(indexes@) =~= before.push(index_view));
        }
        proof {
            lemma_lp_read_trans(p0, q1, q2);
            lemma_lp_read_trans(p0, q2, *parser);
        }
    }
    Ok(AssignOp::Gep(base_type, pointer_value, indexes))
}

/// Parse `%target = operation`; the target register must not be defined yet
/// in the function (single assignment).
#[verifier::rlimit(100)]
#[verifier::spinoff_prover]
pub fn llvmParser_parse_assignment(parser: &mut LlvmParser) -> (r: Result<AssignInstruction, CompileError>)
    requires
        lp_wf(*old(parser)),
    ensures
        l_assignment(lstate(*old(parser))) == match r {
            Ok(AssignInstruction::Assign(target, op)) => Ok::<
                ((Seq<u8>, crate::llvm_ast::AssignOpV), LState),
                CompileError,
            >(((target@, assign_op_view(op)), lstate(*final(parser)))),
            Err(e) => Err(e),
        },
        r is Ok ==> lp_advanced_local(*old(parser), *final(parser)),
        r matches Ok(AssignInstruction::Assign(target, _)) ==> !crate::llvm_ast::register_names(
            lp_local(*old(parser)),
        ).contains(target@) && crate::llvm_ast::register_names(lp_local(*final(parser)))
            == crate::llvm_ast::register_names(lp_local(*old(parser))).push(target@),
{
    proof {
        reveal(l_assignment);
    }
    let ghost p0 = *parser;
    let target_register: ByteString = match llvmParser_parse_register(parser) {
        Ok(n) => n,
        Err(e) => return Err(e),
    };
    let ghost p1 = *parser;
    let inserted: bool = {
        let LlvmParser::Parser(_, _, local) = parser;
        llvmLocalSymTable_insert_register(local, string_clone(&target_register), 0)
    };
    if !inserted {
        return Err(llvmParser_error(parser, ErrorKind::DuplicateRegisterAssignment));
    }
    let ghost p2 = *parser;
    match llvmParser_expect_token(parser, &LlvmTokenOf::Assign) {
        Ok(_) => {},
        Err(e) => return Err(e),
    }
    let ghost p3 = *parser;
    let operation_result: Result<AssignOp, CompileError> = match llvmParser_current_token(parser) {
        LlvmTokenOf::Add => llvmParser_parse_binary_assign(parser, LlvmTokenOf::Add, BinaryOp::Add),
        LlvmTokenOf::Sub => llvmParser_parse_binary_assign(parser, LlvmTokenOf::Sub, BinaryOp::Sub),
        LlvmTokenOf::Mul => llvmParser_parse_binary_assign(parser, LlvmTokenOf::Mul, BinaryOp::Mul),
        LlvmTokenOf::Udiv => llvmParser_parse_binary_assign(parser, LlvmTokenOf::Udiv, BinaryOp::Udiv),
        LlvmTokenOf::Urem => llvmParser_parse_binary_assign(parser, LlvmTokenOf::Urem, BinaryOp::Urem),
        LlvmTokenOf::Icmp => llvmParser_parse_icmp_assign(parser),
        LlvmTokenOf::Call => llvmParser_parse_call_assign(parser),
        LlvmTokenOf::Gep => llvmParser_parse_gep_assign(parser),
        _ => Err(llvmParser_error(parser, ErrorKind::ExpectedLlvmAssignOperation)),
    };
    let operation: AssignOp = match operation_result {
        Ok(op) => op,
        Err(e) => return Err(e),
    };
    proof {
        lemma_lp_read_trans(p2, p3, *parser);
        assert(lp_advanced_local(p0, *parser));
    }
    Ok(AssignInstruction::Assign(target_register, operation))
}

/// Parse one instruction: `ret`, `br` or an assignment.
pub fn llvmParser_parse_instruction(parser: &mut LlvmParser) -> (r: Result<Instruction, CompileError>)
    requires
        lp_wf(*old(parser)),
    ensures
        l_instruction(lstate(*old(parser))) == match r {
            Ok(i) => Ok::<(InstructionV, LState), CompileError>((instruction_view(i), lstate(*final(parser)))),
            Err(e) => Err(e),
        },
        r is Ok ==> lp_advanced_local(*old(parser), *final(parser)),
        r matches Ok(i) ==> (i is Terminator <==> (lp_token(*old(parser)) is Ret || lp_token(
            *old(parser),
        ) is Br)),
        !(lp_token(*old(parser)) is Ret || lp_token(*old(parser)) is Br || lp_token(
            *old(parser),
        ) is Percent) ==> r == Err::<Instruction, CompileError>(
            lp_error(*old(parser), ErrorKind::ExpectedLlvmInstruction),
        ),
{
    proof {
        reveal(l_instruction);
    }
    match llvmParser_current_token(parser) {
        LlvmTokenOf::Ret => match llvmParser_parse_return(parser) {
            Ok(t) => Ok(Instruction::Terminator(t)),
            Err(e) => Err(e),
        },
        LlvmTokenOf::Br => match llvmParser_parse_branch(parser) {
            Ok(t) => Ok(Instruction::Terminator(t)),
            Err(e) => Err(e),
        },
        LlvmTokenOf::Percent => match llvmParser_parse_assignment(parser) {
            Ok(a) => Ok(Instruction::Assignment(a)),
            Err(e) => Err(e),
        },
        _ => Err(llvmParser_error(parser, ErrorKind::ExpectedLlvmInstruction)),
    }
}

/// Parse the instructions of a block labelled `label`, up to and including
/// its terminator.
#[verifier::rlimit(100)]
#[verifier::spinoff_prover]
pub fn llvmParser_parse_block_instructions(parser: &mut LlvmParser, label: ByteString) -> (r: Result<
    InstructionBlock,
    CompileError,
>)
    requires
        lp_wf(*old(parser)),
    ensures
        l_instructions(lstate(*old(parser)), Seq::empty()) == match r {
            Ok(InstructionBlock::Block(_, list)) => Ok::<(Seq<InstructionV>, LState), CompileError>(
                (instructions_view(instruction_seq(list)), lstate(*final(parser))),
            ),
            Err(e) => Err(e),
        },
        r is Ok ==> lp_advanced_local(*old(parser), *final(parser)),
        r matches Ok(InstructionBlock::Block(l, instructions)) ==> l == label && terminated(
            instruction_seq(instructions),
        ),
{
    let ghost p0 = *parser;
    let mut instructions: Vec<Instruction> = Vec::new();
    let mut is_terminator: bool = false;
    let ghost all = l_instructions(lstate(p0), Seq::empty());
    proof {
        assert(instructions_view(instructions@) =~= Seq::<InstructionV>::empty());
    }
    while !is_terminator
        invariant
            p0 == *old(parser),
            all == l_instructions(lstate(p0), Seq::empty()),
            !is_terminator ==> l_instructions(lstate(*parser), instructions_view(instructions@)) == all,
            is_terminator ==> all == Ok::<(Seq<InstructionV>, LState), CompileError>(
                (instructions_view(instructions@), lstate(*parser)),
            ),
            lp_wf(*parser),
            instructions@.len() == 0 ==> *parser == p0,
            instructions@.len() > 0 ==> lp_advanced_local(p0, *parser),
            is_terminator ==> terminated(instructions@),
            !is_terminator ==> forall|i: int|
                0 <= i < instructions@.len() ==> #[trigger] instructions@[i] is Assignment,
        decreases lp_measure(*parser), if is_terminator {
            0int
        } else {
            1int
        },
    {
        let ghost q0 = *parser;
        let instruction: Instruction = match llvmParser_parse_instruction(parser) {
            Ok(i) => i,
            Err(e) => return Err(e),
        };
        proof {
            if instructions@.len() > 0 {
                lemma_local_trans(p0, q0, *parser);
            }
        }
        is_terminator = match &instruction {
            Instruction::Terminator(_) => true,
            Instruction::Assignment(_) => false,
        };
        let ghost before = instructions_view(instructions@);
        let ghost instruction_value = instruction_view(instruction);
        instructions.push(instruction);
        proof {
            assert(instructions_view(instructions@) =~= before.push(instruction_value));
        }
    }
    let list: InstructionList = instructions_from_vec(instructions);
    Ok(InstructionBlock::Block(label, list))
}

/// Parse a block `label: instructions`.
pub fn llvmParser_parse_block(parser: &mut LlvmParser) -> (r: Result<InstructionBlock, CompileError>)
    requires
        lp_wf(*old(parser)),
    ensures
        l_block(lstate(*old(parser))) == match r {
            Ok(b) => Ok::<(BlockV, LState), CompileError>((block_view(b), lstate(*final(parser)))),
            Err(e) => Err(e),
        },
        r is Ok ==> lp_advanced_local(*old(parser), *final(parser)),
        r matches Ok(InstructionBlock::Block(_, instructions)) ==> terminated(
            instruction_seq(instructions),
        ),
{
    let ghost p0 = *parser;
    let label: ByteString = match llvmParser_expect_identifier(parser) {
        Ok(l) => l,
        Err(e) => return Err(e),
    };
    let ghost p1 = *parser;
    match llvmParser_expect_token(parser, &LlvmTokenOf::Colon) {
        Ok(_) => {},
        Err(e) => return Err(e),
    }
    let ghost p2 = *parser;
    proof {
        lemma_lp_read_trans(p0, p1, p2);
    }
    let r = llvmParser_parse_block_instructions(parser, label);
    proof {
        if r is Ok {
            lemma_local_trans(p0, p2, *parser);
        }
    }
    r
}

/// Parse the blocks of a function body up to its closing brace. When the
/// body does not start with a label, its first block is the entry block,
/// labelled `entry`.
#[verifier::rlimit(100)]
#[verifier::spinoff_prover]
pub fn llvmParser_parse_blocks(parser: &mut LlvmParser) -> (r: Result<InstructionBlockList, CompileError>)
    requires
        lp_wf(*old(parser)),
    ensures
        l_blocks(lstate(*old(parser))) == match r {
            Ok(list) => Ok::<(Seq<BlockV>, LState), CompileError>(
                (blocks_view(block_seq(list)), lstate(*final(parser))),
            ),
            Err(e) => Err(e),
        },
        r is Ok ==> lp_moved(*old(parser), *final(parser)) && lp_symtable(*final(parser))
            == lp_symtable(*old(parser)),
        r matches Ok(blocks) ==> blocks_terminated(block_seq(blocks)),
{
    proof {
        reveal(l_blocks);
    }
    let ghost p0 = *parser;
    let mut blocks: Vec<InstructionBlock> = Vec::new();
    proof {
        assert(blocks_view(blocks@) =~= Seq::<BlockV>::empty());
    }
    let implicit_entry: bool = match llvmParser_current_token(parser) {
        LlvmTokenOf::Identifier(_) | LlvmTokenOf::RBrace => false,
        _ => true,
    };
    if implicit_entry {
        let block: InstructionBlock = match llvmParser_parse_block_instructions(parser, entry_label()) {
            Ok(b) => b,
            Err(e) => return Err(e),
        };
        let ghost entry = block_view(block);
        blocks.push(block);
        proof {
            assert(blocks_view(blocks@) =~= seq![entry]);
        }
    }
    let ghost more = l_more_blocks(lstate(*parser), blocks_view(blocks@));
    while !llvmParser_current_token_eq(parser, &LlvmTokenOf::RBrace)
        invariant
            p0 == *old(parser),
            l_more_blocks(lstate(*parser), blocks_view(blocks@)) == more,
            more matches Err(e) ==> l_blocks(lstate(p0)) == Err::<(Seq<BlockV>, LState), CompileError>(e),
            lp_wf(*parser),
            lp_moved(p0, *parser),
            lp_symtable(*parser) == lp_symtable(p0),
            blocks_terminated(blocks@),
        decreases lp_measure(*parser),
    {
        let ghost q0 = *parser;
        let block: InstructionBlock = match llvmParser_parse_block(parser) {
            Ok(b) => b,
            Err(e) => return Err(e),
        };
        let ghost before = blocks@;
        let ghost block_value = block_view(block);
        blocks.push(block);
        proof {
            assert(blocks_view(blocks@) =~= blocks_view(before).push(block_value));
            assert forall|i: int| 0 <= i < blocks@.len() implies (#[trigger] blocks@[i] matches InstructionBlock::Block(
                _,
                instructions,
            ) && terminated(instruction_seq(instructions))) by {
                if i < blocks@.len() - 1 {
                    assert(blocks@[i] == before[i]);
                }
            }
        }
    }
    let list: InstructionBlockList = blocks_from_vec(blocks);
    Ok(list)
}


// ------------------------------------------------------------------
// Functions and programs
// ------------------------------------------------------------------

/// Parse a parameter list `(type %name, ...)`; each parameter becomes a
/// register, and two parameters must not share a name.
#[verifier::rlimit(100)]
#[verifier::spinoff_prover]
pub fn llvmParser_parse_parameters(parser: &mut LlvmParser) -> (r: Result<Vec<LlvmParameter>, CompileError>)
    requires
        lp_wf(*old(parser)),
    ensures
        l_parameters(lstate(*old(parser))) == match r {
            Ok(v) => Ok::<(Seq<(Seq<u8>, LlvmType)>, LState), CompileError>(
                (parameters_view(v@), lstate(*final(parser))),
            ),
            Err(e) => Err(e),
        },
        r is Ok ==> lp_advanced_local(*old(parser), *final(parser)),
{
    proof {
        reveal(l_parameters);
    }
    let ghost p0 = *parser;
    let mut parameters: Vec<LlvmParameter> = Vec::new();
    proof {
        assert(parameters_view(parameters@) =~= Seq::<(Seq<u8>, LlvmType)>::empty());
    }
    match llvmParser_expect_token(parser, &LlvmTokenOf::LParen) {
        Ok(_) => {},
        Err(e) => return Err(e),
    }
    if !llvmParser_current_token_eq(parser, &LlvmTokenOf::RParen) {
        let ghost q0 = *parser;
        let parameter_type: LlvmType = match llvmParser_parse_type(parser) {
            Ok(t) => t,
            Err(e) => return Err(e),
        };
        let ghost q1 = *parser;
        let param_name: ByteString = match llvmParser_parse_register(parser) {
            Ok(n) => n,
            Err(e) => return Err(e),
        };
        {
            let LlvmParser::Parser(_, _, local) = parser;
            llvmLocalSymTable_insert_register(local, string_clone(&param_name), 0);
        }
        let ghost first = (param_name@, parameter_type);
        parameters.push(LlvmParameter::Parameter(param_name, parameter_type));
        proof {
            lemma_local_trans(p0, q0, q1);
            assert(parameters_view(parameters@) =~= seq![first]);
        }
        let ghost more = l_more_parameters(lstate(*parser), seq![first]);
        while llvmParser_current_token_eq(parser, &LlvmTokenOf::Comma)
            invariant
                lp_wf(*parser),
                lp_advanced_local(p0, *parser),
                p0 == *old(parser),
                l_more_parameters(lstate(*parser), parameters_view(parameters@)) == more,
                more matches Err(e) ==> l_parameters(lstate(p0)) == Err::<
                    (Seq<(Seq<u8>, LlvmType)>, LState),
                    CompileError,
                >(e),
            decreases lp_measure(*parser),
        {
            let ghost q2 = *parser;
            match llvmParser_next_token(parser) {
                Ok(_) => {},
                Err(e) => return Err(e),
            }
            let ghost q3 = *parser;
            let parameter_type: LlvmType = match llvmParser_parse_type(parser) {
                Ok(t) => t,
                Err(e) => return Err(e),
            };
            let param_name: ByteString = match llvmParser_parse_register(parser) {
                Ok(n) => n,
                Err(e) => return Err(e),
            };
            let inserted: bool = {
                let LlvmParser::Parser(_, _, local) = parser;
                llvmLocalSymTable_insert_register(local, string_clone(&param_name), 0)
            };
            if !inserted {
                return Err(llvmParser_error(parser, ErrorKind::DuplicateLlvmParameters));
            }
            let ghost before = parameters_view(parameters@);
            let ghost parameter_value = (param_name@, parameter_type);
            parameters.push(LlvmParameter::Parameter(param_name, parameter_type));
            proof {
                assert(parameters_view(parameters@) =~= before.push(parameter_value));
            }
            proof {
                lemma_local_trans(p0, q2, q3);
            }
        }
    }
    match llvmParser_expect_token(parser, &LlvmTokenOf::RParen) {
        Ok(_) => {},
        Err(e) => return Err(e),
    }
    Ok(parameters)
}

/// Parse a function definition `define type @name(parameters) { blocks }`;
/// its name must not be taken by another function.
#[verifier::rlimit(100)]
#[verifier::spinoff_prover]
pub fn llvmParser_parse_function(parser: &mut LlvmParser) -> (r: Result<(), CompileError>)
    requires
        lp_wf(*old(parser)),
        functions_terminated(st_functions(lp_symtable(*old(parser)))),
    ensures
        l_function(lstate(*old(parser))) == match r {
            Ok(_) => Ok::<LState, CompileError>(lstate(*final(parser))),
            Err(e) => Err(e),
        },
        r is Ok ==> lp_moved(*old(parser), *final(parser)) && lp_measure(*final(parser)) < lp_measure(
            *old(parser),
        ),
        r is Ok ==> functions_terminated(st_functions(lp_symtable(*final(parser)))),
        r is Ok ==> st_functions(lp_symtable(*old(parser))).dom().subset_of(
            st_functions(lp_symtable(*final(parser))).dom(),
        ),
{
    proof {
        reveal(l_function);
    }
    let ghost p0 = *parser;
    match llvmParser_expect_token(parser, &LlvmTokenOf::Define) {
        Ok(_) => {},
        Err(e) => return Err(e),
    }
    let return_type: LlvmType = match llvmParser_parse_type(parser) {
        Ok(t) => t,
        Err(e) => return Err(e),
    };
    let function_name: ByteString = match llvmParser_parse_global_name(parser) {
        Ok(n) => n,
        Err(e) => return Err(e),
    };
    let ghost p1 = *parser;
    {
        let LlvmParser::Parser(_, _, local) = parser;
        llvmLocalSymTable_clear(local);
    }
    proof {
        assert(lstate(*parser) == crate::llvm_parser_spec::l_with_regs(lstate(p1), Seq::empty()));
    }
    let parameters: Vec<LlvmParameter> = match llvmParser_parse_parameters(parser) {
        Ok(p) => p,
        Err(e) => return Err(e),
    };
    match llvmParser_expect_token(parser, &LlvmTokenOf::LBrace) {
        Ok(_) => {},
        Err(e) => return Err(e),
    }
    let blocks: InstructionBlockList = match llvmParser_parse_blocks(parser) {
        Ok(b) => b,
        Err(e) => return Err(e),
    };
    match llvmParser_expect_token(parser, &LlvmTokenOf::RBrace) {
        Ok(_) => {},
        Err(e) => return Err(e),
    }
    let ghost p2 = *parser;
    let function: LlvmFunction = LlvmFunction::Function(return_type, parameters, blocks);
    let ghost function_value = crate::llvm_ast::function_view(function);
    let ghost function_name_view = function_name@;
    let inserted: bool = {
        let LlvmParser::Parser(_, ast, _) = parser;
        llvmSymTable_insert_function(ast, function_name, function)
    };
    if !inserted {
        return Err(llvmParser_error(parser, ErrorKind::DuplicateLlvmFunction));
    }
    proof {
        assert(st_function_views(lp_symtable(*parser)) =~= st_function_views(lp_symtable(p2)).insert(
            function_name_view,
            function_value,
        ));
        assert(st_string_views(lp_symtable(*parser)) =~= st_string_views(lp_symtable(p2)));
        let old_functions = st_functions(lp_symtable(p2));
        let new_functions = st_functions(lp_symtable(*parser));
        assert forall|name: Seq<u8>| #[trigger] new_functions.contains_key(name) implies ((
        new_functions[name] matches LlvmFunction::Function(_, _, b) && blocks_terminated(
            block_seq(b),
        ))) by {
            if old_functions.contains_key(name) && name != function_name@ {
                assert(new_functions[name] == old_functions[name]);
            }
        }
    }
    Ok(())
}

/// Parse a global string `@name = constant type c"..."` and record it.
#[verifier::rlimit(100)]
#[verifier::spinoff_prover]
pub fn llvmParser_parse_string(parser: &mut LlvmParser) -> (r: Result<(), CompileError>)
    requires
        lp_wf(*old(parser)),
    ensures
        l_string(lstate(*old(parser))) == match r {
            Ok(_) => Ok::<LState, CompileError>(lstate(*final(parser))),
            Err(e) => Err(e),
        },
        r is Ok ==> lp_moved(*old(parser), *final(parser)) && lp_measure(*final(parser)) < lp_measure(
            *old(parser),
        ),
        r is Ok ==> st_functions(lp_symtable(*final(parser))) == st_functions(
            lp_symtable(*old(parser)),
        ),
{
    proof {
        reveal(l_string);
    }
    let ghost p0 = *parser;
    let name: ByteString = match llvmParser_parse_global_name(parser) {
        Ok(n) => n,
        Err(e) => return Err(e),
    };
    let ghost p1 = *parser;
    match llvmParser_expect_token(parser, &LlvmTokenOf::Assign) {
        Ok(_) => {},
        Err(e) => return Err(e),
    }
    let ghost p2 = *parser;
    match llvmParser_expect_token(parser, &LlvmTokenOf::Constant) {
        Ok(_) => {},
        Err(e) => return Err(e),
    }
    let ghost p3 = *parser;
    match llvmParser_parse_type(parser) {
        Ok(_) => {},
        Err(e) => return Err(e),
    }
    let ghost p4 = *parser;
    let string_value: ByteString = match llvmParser_current_token(parser) {
        LlvmTokenOf::CString(value) => string_clone(value),
        _ => return Err(llvmParser_error(parser, ErrorKind::ExpectedCStringLiteral)),
    };
    match llvmParser_next_token(parser) {
        Ok(_) => {},
        Err(e) => return Err(e),
    }
    proof {
        lemma_lp_read_trans(p0, p1, p2);
        lemma_lp_read_trans(p0, p2, p3);
        lemma_lp_read_trans(p0, p3, p4);
    }
    let ghost p5 = *parser;
    let ghost name_view = name@;
    let ghost value_view_ = string_value@;
    {
        let LlvmParser::Parser(_, ast, _) = parser;
        llvmSymTable_insert_string(ast, name, string_value);
    }
    proof {
        assert(st_string_views(lp_symtable(*parser)) =~= st_string_views(lp_symtable(p5)).insert(
            name_view,
            value_view_,
        ));
        assert(st_function_views(lp_symtable(*parser)) =~= st_function_views(lp_symtable(p5)));
    }
    Ok(())
}

/// Parse a whole program: global strings and function definitions up to the
/// end of the input.
pub fn llvmParser_parse_language(parser: &mut LlvmParser) -> (r: Result<(), CompileError>)
    requires
        lp_wf(*old(parser)),
        functions_terminated(st_functions(lp_symtable(*old(parser)))),
    ensures
        l_language(lstate(*old(parser))) == match r {
            Ok(_) => Ok::<LState, CompileError>(lstate(*final(parser))),
            Err(e) => Err(e),
        },
        r is Ok ==> lp_moved(*old(parser), *final(parser)) && lp_token(*final(parser)) is Eof,
        r is Ok ==> functions_terminated(st_functions(lp_symtable(*final(parser)))),
{
    let ghost p0 = *parser;
    while !llvmParser_current_token_eq(parser, &LlvmTokenOf::Eof)
        invariant
            lp_wf(*parser),
            lp_moved(p0, *parser),
            functions_terminated(st_functions(lp_symtable(*parser))),
            p0 == *old(parser),
            l_language(lstate(*parser)) == l_language(lstate(p0)),
        decreases lp_measure(*parser),
    {
        let is_function: bool = match llvmParser_current_token(parser) {
            LlvmTokenOf::At => false,
            LlvmTokenOf::Define => true,
            _ => return Err(llvmParser_error(parser, ErrorKind::ExpectedLlvmTopLevelItem)),
        };
        if is_function {
            match llvmParser_parse_function(parser) {
                Ok(_) => {},
                Err(e) => return Err(e),
            }
        } else {
            match llvmParser_parse_string(parser) {
                Ok(_) => {},
                Err(e) => return Err(e),
            }
        }
    }
    Ok(())
}

/// A parser over `source`, with its first token read.
pub fn llvmParser_new(source: ByteString) -> (r: Result<LlvmParser, CompileError>)
    requires
        source@.len() + 2 < usize::MAX,
    ensures
        r matches Ok(p) ==> lp_wf(p) && sf_text(ll_sf(lp_lexer(p))) == source@ && st_functions(
            lp_symtable(p),
        ) == Map::<Seq<u8>, LlvmFunction>::empty() && st_strings(lp_symtable(p)) == Map::<
            Seq<u8>,
            ByteString,
        >::empty(),
        l_initial(SourceFile::SourceFile(source, 0, SourceLocation::Coords(1, 1))) == match r {
            Ok(p) => Ok::<LState, CompileError>(lstate(p)),
            Err(e) => Err(e),
        },
{
    let ghost sf = SourceFile::SourceFile(source, 0, SourceLocation::Coords(1, 1));
    proof {
        lemma_llvm_next_token(sf);
    }
    let lexer: LlvmLexer = match llvmLexer_new(source) {
        Ok(l) => l,
        Err(e) => return Err(e),
    };
    let ast: LlvmSymTable = llvmSymTable_new();
    let parser = LlvmParser::Parser(lexer, ast, llvmLocalSymTable_new());
    proof {
        reveal(spec_llvm_next_token);
        assert(st_function_views(lp_symtable(parser)) =~= Map::<Seq<u8>, FunctionV>::empty());
        assert(st_string_views(lp_symtable(parser)) =~= Map::<Seq<u8>, Seq<u8>>::empty());
    }
    Ok(parser)
}

/// A parser over the bytes of `source`.
pub fn llvmParser_from_str(source: &str) -> (r: Result<LlvmParser, CompileError>)
    requires
        source.spec_bytes().len() + 2 < usize::MAX,
    ensures
        r matches Ok(p) ==> lp_wf(p) && st_functions(lp_symtable(p)) == Map::<
            Seq<u8>,
            LlvmFunction,
        >::empty(),
        exists|b: ByteString|
            #![trigger b@]
            b@ == source.spec_bytes() && l_initial(
                SourceFile::SourceFile(b, 0, SourceLocation::Coords(1, 1)),
            ) == match r {
                Ok(p) => Ok::<LState, CompileError>(lstate(p)),
                Err(e) => Err(e),
            },
{
    let bytes: ByteString = string_from_str(source);
    let ghost b = bytes;
    let r = llvmParser_new(bytes);
    assert(b@ == source.spec_bytes());
    r
}

/// Parse LLVM-IR into the table of its functions and global strings. Every
/// block of every function ends with its only terminator instruction.
pub fn llvmParser_parse_to_ast(source: &str) -> (r: Result<LlvmSymTable, CompileError>)
    requires
        source.spec_bytes().len() + 2 < usize::MAX,
    ensures
        r matches Ok(t) ==> st_wf(t) && functions_terminated(st_functions(t)),
        exists|b: ByteString|
            #![trigger b@]
            b@ == source.spec_bytes() && l_program(
                SourceFile::SourceFile(b, 0, SourceLocation::Coords(1, 1)),
            ) == match r {
                Ok(t) => Ok::<(Map<Seq<u8>, FunctionV>, Map<Seq<u8>, Seq<u8>>), CompileError>(
                    (st_function_views(t), st_string_views(t)),
                ),
                Err(e) => Err(e),
            },
{
    let result = llvmParser_from_str(source);
    let ghost b = choose|b: ByteString|
        #![trigger b@]
        b@ == source.spec_bytes() && l_initial(
            SourceFile::SourceFile(b, 0, SourceLocation::Coords(1, 1)),
        ) == match result {
            Ok(p) => Ok::<LState, CompileError>(lstate(p)),
            Err(e) => Err(e),
        };
    let mut parser: LlvmParser = match result {
        Ok(p) => p,
        Err(e) => {
            assert(b@ == source.spec_bytes());
            return Err(e);
        },
    };
    match llvmParser_parse_language(&mut parser) {
        Ok(_) => {},
        Err(e) => {
            assert(b@ == source.spec_bytes());
            return Err(e);
        },
    }
    let LlvmParser::Parser(_, ast, _) = parser;
    assert(b@ == source.spec_bytes());
    Ok(ast)
}

} // verus!
