//! Generation of LLVM-IR text: the register counter, text emitters, and the
//! emitters of single instructions.
use vstd::prelude::*;
use vstd::string::StringSliceAdditionalSpecFns;
use crate::parser::{Parser, p_counter, p_lexer, p_llvm, p_return_type, p_symtable};
use crate::rust_types::{RAstType, llvm_type_name, type_to_llvm_name};
use crate::text::{
    ByteString, decimal, integer_to_string, string_from_str, string_push_str,
    string_push_string,
};

verus! {

// ------------------------------------------------------------------
// Context
// ------------------------------------------------------------------

/// Manages the context of the generated LLVM-IR: the number of virtual
/// registers handed out so far.
#[derive(Debug)]
pub enum Context {
    /// temporary counter
    Context(usize),
}

pub open spec fn ctx_counter(c: Context) -> usize {
    let Context::Context(n) = c;
    n
}

/// The name of the `n`-th temporary register; the '.' keeps it apart from the
/// names of variables.
pub open spec fn temporary_name(n: usize) -> Seq<u8> {
    "%.t".spec_bytes() + decimal(n as nat)
}

/// Registers handed out under different numbers have different names.
pub proof fn law_temporaries_distinct(n: usize, m: usize)
    requires
        n != m,
    ensures
        temporary_name(n) != temporary_name(m),
{
    crate::text::law_decimal_round_trip(n);
    crate::text::law_decimal_round_trip(m);
    let prefix = "%.t".spec_bytes();
    if temporary_name(n) == temporary_name(m) {
        assert((prefix + decimal(n as nat)).subrange(prefix.len() as int, temporary_name(n).len() as int)
            =~= decimal(n as nat));
        assert((prefix + decimal(m as nat)).subrange(prefix.len() as int, temporary_name(m).len() as int)
            =~= decimal(m as nat));
    }
}

/// A context with no register handed out.
pub fn context_new() -> (r: Context)
    ensures
        ctx_counter(r) == 0,
{
    Context::Context(0)
}

/// The number of registers handed out.
pub fn context_get_counter(context: &Context) -> (r: usize)
    ensures
        r == ctx_counter(*context),
{
    let Context::Context(counter) = context;
    *counter
}

/// Count one more register.
pub fn context_increment_counter(context: &mut Context)
    requires
        ctx_counter(*old(context)) < usize::MAX,
    ensures
        ctx_counter(*final(context)) == ctx_counter(*old(context)) + 1,
{
    let Context::Context(counter) = context;
    *counter = *counter + 1;
}

/// Hand out the next virtual register name.
pub fn context_next_temporary(context: &mut Context) -> (r: ByteString)
    requires
        ctx_counter(*old(context)) < usize::MAX,
    ensures
        ctx_counter(*final(context)) == ctx_counter(*old(context)) + 1,
        r@ == temporary_name(ctx_counter(*old(context))),
{
    let id: usize = context_get_counter(context);
    context_increment_counter(context);
    let mut name: ByteString = string_from_str("%.t");
    string_push_string(&mut name, &integer_to_string(id));
    name
}

// ------------------------------------------------------------------
// Text emitters
// ------------------------------------------------------------------

/// Append raw text to the LLVM-IR output buffer.
pub fn llvm_emit_str(llvm: &mut ByteString, s: &str)
    ensures
        final(llvm)@ == old(llvm)@ + s.spec_bytes(),
{
    string_push_str(llvm, s);
}

/// Append a string value to the LLVM-IR output buffer.
pub fn llvm_emit_string(llvm: &mut ByteString, string: &ByteString)
    ensures
        final(llvm)@ == old(llvm)@ + string@,
{
    string_push_string(llvm, string);
}

/// Append a single newline to the LLVM-IR output buffer.
pub fn llvm_emit_newline(llvm: &mut ByteString)
    ensures
        final(llvm)@ == old(llvm)@ + "\n".spec_bytes(),
{
    string_push_str(llvm, "\n");
}

/// Append one full line to the LLVM-IR output buffer.
pub fn llvm_emit_line(llvm: &mut ByteString, text: &str)
    ensures
        final(llvm)@ == old(llvm)@ + text.spec_bytes() + "\n".spec_bytes(),
{
    llvm_emit_str(llvm, text);
    llvm_emit_newline(llvm);
}

/// The header of a function definition, with its entry label.
pub open spec fn function_header_text(fn_name: Seq<u8>, return_type_name: Seq<u8>) -> Seq<u8> {
    "define ".spec_bytes() + return_type_name + " @".spec_bytes() + fn_name + "() {".spec_bytes()
        + "\n".spec_bytes() + "entry:".spec_bytes() + "\n".spec_bytes()
}

/// Emit a function header.
pub fn llvm_emit_function_header(llvm: &mut ByteString, fn_name: &ByteString, return_type_name: &ByteString)
    ensures
        final(llvm)@ == old(llvm)@ + function_header_text(fn_name@, return_type_name@),
{
    llvm_emit_str(llvm, "define ");
    llvm_emit_string(llvm, return_type_name);
    llvm_emit_str(llvm, " @");
    llvm_emit_string(llvm, fn_name);
    llvm_emit_line(llvm, "() {");
    llvm_emit_line(llvm, "entry:");
    assert(final(llvm)@ =~= old(llvm)@ + function_header_text(fn_name@, return_type_name@));
}

/// Emit an enum comment line.
pub fn llvm_emit_enum_comment(llvm: &mut ByteString, enum_name: &ByteString)
    ensures
        final(llvm)@ == old(llvm)@ + "; enum ".spec_bytes() + enum_name@ + "\n".spec_bytes(),
{
    llvm_emit_str(llvm, "; enum ");
    llvm_emit_string(llvm, enum_name);
    llvm_emit_newline(llvm);
}

/// The comment line that records a let binding.
pub open spec fn let_comment_text(variable_name: Seq<u8>, ty_name: Seq<u8>, is_mutable: bool) -> Seq<
    u8,
> {
    "  ; let ".spec_bytes() + (if is_mutable {
        "mut ".spec_bytes()
    } else {
        Seq::empty()
    }) + variable_name + ": ".spec_bytes() + ty_name + "\n".spec_bytes()
}

/// Emit a let-binding comment line.
pub fn llvm_emit_let_comment(
    llvm: &mut ByteString,
    variable_name: &ByteString,
    ty_name: &ByteString,
    is_mutable: bool,
)
    ensures
        final(llvm)@ == old(llvm)@ + let_comment_text(variable_name@, ty_name@, is_mutable),
{
    llvm_emit_str(llvm, "  ; let ");
    let ghost after_let = llvm@;
    if is_mutable {
        llvm_emit_str(llvm, "mut ");
    }
    llvm_emit_string(llvm, variable_name);
    llvm_emit_str(llvm, ": ");
    llvm_emit_string(llvm, ty_name);
    llvm_emit_newline(llvm);
    assert(final(llvm)@ =~= old(llvm)@ + let_comment_text(variable_name@, ty_name@, is_mutable));
}

/// Emit a function-call comment line.
pub fn llvm_emit_call_comment(llvm: &mut ByteString, function_name: &ByteString)
    ensures
        final(llvm)@ == old(llvm)@ + "  ; call ".spec_bytes() + function_name@ + "\n".spec_bytes(),
{
    llvm_emit_str(llvm, "  ; call ");
    llvm_emit_string(llvm, function_name);
    llvm_emit_newline(llvm);
}

// ------------------------------------------------------------------
// Instruction emitters
// ------------------------------------------------------------------

/// `b` is `a` with `code` appended to the output and `n` more registers
/// handed out.
pub open spec fn emitted(a: Parser, b: Parser, code: Seq<u8>, n: nat) -> bool {
    &&& p_lexer(b) == p_lexer(a)
    &&& p_symtable(b) == p_symtable(a)
    &&& p_return_type(b) == p_return_type(a)
    &&& p_llvm(b) == p_llvm(a) + code
    &&& p_counter(b) == p_counter(a) + n
}

/// The text of `name = op ty lhs,rhs`.
pub open spec fn binary_text(name: Seq<u8>, op: Seq<u8>, ty: Seq<u8>, lhs: Seq<u8>, rhs: Seq<u8>) -> Seq<
    u8,
> {
    "  ".spec_bytes() + name + " = ".spec_bytes() + op + " ".spec_bytes() + ty + " ".spec_bytes()
        + lhs + ",".spec_bytes() + rhs + "\n".spec_bytes()
}

/// Emit `name = op ty lhs,rhs` and return `name`, the next temporary register.
pub fn llvm_emit_binary(
    parser: &mut Parser,
    op: &str,
    ty: &RAstType,
    lhs: &ByteString,
    rhs: &ByteString,
) -> (r: ByteString)
    requires
        p_counter(*old(parser)) < usize::MAX,
    ensures
        r@ == temporary_name(p_counter(*old(parser))),
        emitted(
            *old(parser),
            *final(parser),
            binary_text(r@, op.spec_bytes(), llvm_type_name(ty@), lhs@, rhs@),
            1,
        ),
{
    let Parser::Parser(_, code, _, _, context) = parser;
    let name: ByteString = context_next_temporary(context);
    let ty_name: ByteString = type_to_llvm_name(ty);
    string_push_str(code, "  ");
    string_push_string(code, &name);
    string_push_str(code, " = ");
    string_push_str(code, op);
    string_push_str(code, " ");
    string_push_string(code, &ty_name);
    string_push_str(code, " ");
    string_push_string(code, lhs);
    string_push_str(code, ",");
    string_push_string(code, rhs);
    string_push_str(code, "\n");
    assert(p_llvm(*parser) =~= p_llvm(*old(parser)) + binary_text(
        name@,
        op.spec_bytes(),
        llvm_type_name(ty@),
        lhs@,
        rhs@,
    ));
    name
}

/// Emit `name = add ty lhs,rhs` and return `name`.
pub fn llvm_emit_add(parser: &mut Parser, ty: &RAstType, lhs: &ByteString, rhs: &ByteString) -> (r:
    ByteString)
    requires
        p_counter(*old(parser)) < usize::MAX,
    ensures
        r@ == temporary_name(p_counter(*old(parser))),
        emitted(
            *old(parser),
            *final(parser),
            binary_text(r@, "add".spec_bytes(), llvm_type_name(ty@), lhs@, rhs@),
            1,
        ),
{
    llvm_emit_binary(parser, "add", ty, lhs, rhs)
}

/// Emit `name = sub ty lhs,rhs` and return `name`.
pub fn llvm_emit_sub(parser: &mut Parser, ty: &RAstType, lhs: &ByteString, rhs: &ByteString) -> (r:
    ByteString)
    requires
        p_counter(*old(parser)) < usize::MAX,
    ensures
        r@ == temporary_name(p_counter(*old(parser))),
        emitted(
            *old(parser),
            *final(parser),
            binary_text(r@, "sub".spec_bytes(), llvm_type_name(ty@), lhs@, rhs@),
            1,
        ),
{
    llvm_emit_binary(parser, "sub", ty, lhs, rhs)
}

/// Emit `name = mul ty lhs,rhs` and return `name`.
pub fn llvm_emit_mul(parser: &mut Parser, ty: &RAstType, lhs: &ByteString, rhs: &ByteString) -> (r:
    ByteString)
    requires
        p_counter(*old(parser)) < usize::MAX,
    ensures
        r@ == temporary_name(p_counter(*old(parser))),
        emitted(
            *old(parser),
            *final(parser),
            binary_text(r@, "mul".spec_bytes(), llvm_type_name(ty@), lhs@, rhs@),
            1,
        ),
{
    llvm_emit_binary(parser, "mul", ty, lhs, rhs)
}

/// Emit `name = udiv ty lhs,rhs` and return `name`.
pub fn llvm_emit_udiv(parser: &mut Parser, ty: &RAstType, lhs: &ByteString, rhs: &ByteString) -> (r:
    ByteString)
    requires
        p_counter(*old(parser)) < usize::MAX,
    ensures
        r@ == temporary_name(p_counter(*old(parser))),
        emitted(
            *old(parser),
            *final(parser),
            binary_text(r@, "udiv".spec_bytes(), llvm_type_name(ty@), lhs@, rhs@),
            1,
        ),
{
    llvm_emit_binary(parser, "udiv", ty, lhs, rhs)
}

/// Emit `name = urem ty lhs,rhs` and return `name`.
pub fn llvm_emit_urem(parser: &mut Parser, ty: &RAstType, lhs: &ByteString, rhs: &ByteString) -> (r:
    ByteString)
    requires
        p_counter(*old(parser)) < usize::MAX,
    ensures
        r@ == temporary_name(p_counter(*old(parser))),
        emitted(
            *old(parser),
            *final(parser),
            binary_text(r@, "urem".spec_bytes(), llvm_type_name(ty@), lhs@, rhs@),
            1,
        ),
{
    llvm_emit_binary(parser, "urem", ty, lhs, rhs)
}

/// Emit `name = icmp op ty lhs,rhs` and return `name`.
pub fn llvm_emit_icmp(
    parser: &mut Parser,
    op: &str,
    ty: &RAstType,
    lhs: &ByteString,
    rhs: &ByteString,
) -> (r: ByteString)
    requires
        p_counter(*old(parser)) < usize::MAX,
    ensures
        r@ == temporary_name(p_counter(*old(parser))),
        emitted(
            *old(parser),
            *final(parser),
            binary_text(r@, "icmp ".spec_bytes() + op.spec_bytes(), llvm_type_name(ty@), lhs@, rhs@),
            1,
        ),
{
    let Parser::Parser(_, code, _, _, context) = parser;
    let name: ByteString = context_next_temporary(context);
    let ty_name: ByteString = type_to_llvm_name(ty);
    string_push_str(code, "  ");
    string_push_string(code, &name);
    string_push_str(code, " = ");
    string_push_str(code, "icmp ");
    string_push_str(code, op);
    string_push_str(code, " ");
    string_push_string(code, &ty_name);
    string_push_str(code, " ");
    string_push_string(code, lhs);
    string_push_str(code, ",");
    string_push_string(code, rhs);
    string_push_str(code, "\n");
    assert(p_llvm(*parser) =~= p_llvm(*old(parser)) + binary_text(
        name@,
        "icmp ".spec_bytes() + op.spec_bytes(),
        llvm_type_name(ty@),
        lhs@,
        rhs@,
    ));
    name
}

/// Emit `ret ty value`.
pub fn llvm_emit_ret_value(parser: &mut Parser, ty: &RAstType, value: &ByteString)
    ensures
        emitted(
            *old(parser),
            *final(parser),
            "  ".spec_bytes() + "ret ".spec_bytes() + llvm_type_name(ty@) + " ".spec_bytes()
                + value@ + "\n".spec_bytes(),
            0,
        ),
{
    let Parser::Parser(_, code, _, _, _) = parser;
    let ty_name: ByteString = type_to_llvm_name(ty);
    string_push_str(code, "  ");
    string_push_str(code, "ret ");
    string_push_string(code, &ty_name);
    string_push_str(code, " ");
    string_push_string(code, value);
    string_push_str(code, "\n");
    assert(p_llvm(*parser) =~= p_llvm(*old(parser)) + ("  ".spec_bytes() + "ret ".spec_bytes()
        + llvm_type_name(ty@) + " ".spec_bytes() + value@ + "\n".spec_bytes()));
}

/// Emit `ret void`.
pub fn llvm_emit_ret_void(parser: &mut Parser)
    ensures
        emitted(*old(parser), *final(parser), "  ret void\n".spec_bytes(), 0),
{
    let Parser::Parser(_, code, _, _, _) = parser;
    string_push_str(code, "  ret void\n");
}

/// The text of `name = cast_op from value to to`.
pub open spec fn cast_text(name: Seq<u8>, cast_op: Seq<u8>, from: Seq<u8>, value: Seq<u8>, to: Seq<u8>) -> Seq<
    u8,
> {
    "  ".spec_bytes() + name + " = ".spec_bytes() + cast_op + " ".spec_bytes() + from
        + " ".spec_bytes() + value + " to ".spec_bytes() + to + "\n".spec_bytes()
}

/// Emit `name = cast_op from_type value to to_type` and return `name`, the
/// next temporary register.
pub fn llvm_emit_cast(
    parser: &mut Parser,
    cast_op: &str,
    from_type: &RAstType,
    to_type: &RAstType,
    value: &ByteString,
) -> (r: ByteString)
    requires
        p_counter(*old(parser)) < usize::MAX,
    ensures
        r@ == temporary_name(p_counter(*old(parser))),
        emitted(
            *old(parser),
            *final(parser),
            cast_text(
                r@,
                cast_op.spec_bytes(),
                llvm_type_name(from_type@),
                value@,
                llvm_type_name(to_type@),
            ),
            1,
        ),
{
    let Parser::Parser(_, code, _, _, context) = parser;
    let name: ByteString = context_next_temporary(context);
    let from_name: ByteString = type_to_llvm_name(from_type);
    let to_name: ByteString = type_to_llvm_name(to_type);
    string_push_str(code, "  ");
    string_push_string(code, &name);
    string_push_str(code, " = ");
    string_push_str(code, cast_op);
    string_push_str(code, " ");
    string_push_string(code, &from_name);
    string_push_str(code, " ");
    string_push_string(code, value);
    string_push_str(code, " to ");
    string_push_string(code, &to_name);
    string_push_str(code, "\n");
    assert(p_llvm(*parser) =~= p_llvm(*old(parser)) + cast_text(
        name@,
        cast_op.spec_bytes(),
        llvm_type_name(from_type@),
        value@,
        llvm_type_name(to_type@),
    ));
    name
}

/// Emit `name = zext from_type value to to_type` and return `name`.
pub fn llvm_emit_zext(parser: &mut Parser, from_type: &RAstType, to_type: &RAstType, value: &ByteString) -> (r:
    ByteString)
    requires
        p_counter(*old(parser)) < usize::MAX,
    ensures
        r@ == temporary_name(p_counter(*old(parser))),
        emitted(
            *old(parser),
            *final(parser),
            cast_text(
                r@,
                "zext".spec_bytes(),
                llvm_type_name(from_type@),
                value@,
                llvm_type_name(to_type@),
            ),
            1,
        ),
{
    llvm_emit_cast(parser, "zext", from_type, to_type, value)
}

/// Emit `name = trunc from_type value to to_type` and return `name`.
pub fn llvm_emit_trunc(parser: &mut Parser, from_type: &RAstType, to_type: &RAstType, value: &ByteString) -> (r:
    ByteString)
    requires
        p_counter(*old(parser)) < usize::MAX,
    ensures
        r@ == temporary_name(p_counter(*old(parser))),
        emitted(
            *old(parser),
            *final(parser),
            cast_text(
                r@,
                "trunc".spec_bytes(),
                llvm_type_name(from_type@),
                value@,
                llvm_type_name(to_type@),
            ),
            1,
        ),
{
    llvm_emit_cast(parser, "trunc", from_type, to_type, value)
}

/// Emit `name = alloca ty, i64 num_elements` and return `name`.
pub fn llvm_emit_alloca(parser: &mut Parser, ty: &RAstType, num_elements: usize) -> (r: ByteString)
    requires
        p_counter(*old(parser)) < usize::MAX,
    ensures
        r@ == temporary_name(p_counter(*old(parser))),
        emitted(
            *old(parser),
            *final(parser),
            "  ".spec_bytes() + r@ + " = alloca ".spec_bytes() + llvm_type_name(ty@)
                + ", i64 ".spec_bytes() + decimal(num_elements as nat) + "\n".spec_bytes(),
            1,
        ),
{
    let Parser::Parser(_, code, _, _, context) = parser;
    let name: ByteString = context_next_temporary(context);
    let llvm_type: ByteString = type_to_llvm_name(ty);
    let count: ByteString = integer_to_string(num_elements);
    string_push_str(code, "  ");
    string_push_string(code, &name);
    string_push_str(code, " = alloca ");
    string_push_string(code, &llvm_type);
    string_push_str(code, ", i64 ");
    string_push_string(code, &count);
    string_push_str(code, "\n");
    assert(p_llvm(*parser) =~= p_llvm(*old(parser)) + ("  ".spec_bytes() + name@
        + " = alloca ".spec_bytes() + llvm_type_name(ty@) + ", i64 ".spec_bytes() + decimal(
        num_elements as nat,
    ) + "\n".spec_bytes()));
    name
}

/// Emit `store ty value, ptr pointer`.
pub fn llvm_emit_store(parser: &mut Parser, ty: &RAstType, value: &ByteString, pointer: &ByteString)
    ensures
        emitted(
            *old(parser),
            *final(parser),
            "  store ".spec_bytes() + llvm_type_name(ty@) + " ".spec_bytes() + value@
                + ",".spec_bytes() + " ptr ".spec_bytes() + pointer@ + "\n".spec_bytes(),
            0,
        ),
{
    let Parser::Parser(_, code, _, _, _) = parser;
    let ty_name: ByteString = type_to_llvm_name(ty);
    string_push_str(code, "  store ");
    string_push_string(code, &ty_name);
    string_push_str(code, " ");
    string_push_string(code, value);
    string_push_str(code, ",");
    string_push_str(code, " ptr ");
    string_push_string(code, pointer);
    string_push_str(code, "\n");
    assert(p_llvm(*parser) =~= p_llvm(*old(parser)) + ("  store ".spec_bytes() + llvm_type_name(
        ty@,
    ) + " ".spec_bytes() + value@ + ",".spec_bytes() + " ptr ".spec_bytes() + pointer@
        + "\n".spec_bytes()));
}

/// Emit `name = load ty, ptr pointer` and return `name`.
pub fn llvm_emit_load(parser: &mut Parser, ty: &RAstType, pointer: &ByteString) -> (r: ByteString)
    requires
        p_counter(*old(parser)) < usize::MAX,
    ensures
        r@ == temporary_name(p_counter(*old(parser))),
        emitted(
            *old(parser),
            *final(parser),
            "  ".spec_bytes() + r@ + " = load ".spec_bytes() + llvm_type_name(ty@)
                + ",".spec_bytes() + " ptr ".spec_bytes() + pointer@ + "\n".spec_bytes(),
            1,
        ),
{
    let Parser::Parser(_, code, _, _, context) = parser;
    let name: ByteString = context_next_temporary(context);
    let ty_name: ByteString = type_to_llvm_name(ty);
    string_push_str(code, "  ");
    string_push_string(code, &name);
    string_push_str(code, " = load ");
    string_push_string(code, &ty_name);
    string_push_str(code, ",");
    string_push_str(code, " ptr ");
    string_push_string(code, pointer);
    string_push_str(code, "\n");
    assert(p_llvm(*parser) =~= p_llvm(*old(parser)) + ("  ".spec_bytes() + name@
        + " = load ".spec_bytes() + llvm_type_name(ty@) + ",".spec_bytes() + " ptr ".spec_bytes()
        + pointer@ + "\n".spec_bytes()));
    name
}

} // verus!
