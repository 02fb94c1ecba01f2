//! What the LLVM-IR parser computes, as functions on parser states: the
//! syntax it reads and the tables it fills, with errors at their positions.
use vstd::prelude::*;
use vstd::string::StringSliceAdditionalSpecFns;
use vstd::wrapping::usize_specs::wrapping_sub;
use crate::llvm_ast::{AssignOpV, BinaryOp, BlockV, FunctionV, InstructionV, LValueV, LlvmType, TerminatorV};
use crate::llvm_lexer::{LlvmTokenOf, LlvmTokenV, spec_llvm_next_token};
use crate::rust_lexer::{CompileError, ErrorKind, SourceFile, error_at, sf_rest};

verus! {

/// The state of the LLVM parser: the source position, the current token, the
/// functions and global strings read so far, and the registers defined in the
/// current function, in order.
pub struct LState {
    pub sf: SourceFile,
    pub tok: LlvmTokenV,
    pub funcs: Map<Seq<u8>, FunctionV>,
    pub strings: Map<Seq<u8>, Seq<u8>>,
    pub regs: Seq<Seq<u8>>,
}

/// How much input is left.
pub open spec fn l_measure(s: LState) -> nat {
    (if sf_rest(s.sf) >= 0 {
        sf_rest(s.sf) as nat
    } else {
        0nat
    }) + if s.tok is Eof {
        0nat
    } else {
        1nat
    }
}

/// The error `kind` at the state's position.
pub open spec fn l_err(s: LState, kind: ErrorKind) -> CompileError {
    error_at(s.sf, kind)
}

/// The state after reading the next token.
pub open spec fn l_next(s: LState) -> Result<LState, CompileError> {
    let (r, sf2) = spec_llvm_next_token(s.sf);
    match r {
        Ok(t) => Ok(LState { sf: sf2, tok: t, funcs: s.funcs, strings: s.strings, regs: s.regs }),
        Err(e) => Err(e),
    }
}

/// Read the current token when it is `t`.
pub open spec fn l_try(s: LState, t: LlvmTokenV) -> Result<(bool, LState), CompileError> {
    if s.tok == t {
        match l_next(s) {
            Ok(s2) => Ok((true, s2)),
            Err(e) => Err(e),
        }
    } else {
        Ok((false, s))
    }
}

/// Read the current token, which must be `t`.
pub open spec fn l_expect(s: LState, t: LlvmTokenV) -> Result<LState, CompileError> {
    if s.tok == t {
        l_next(s)
    } else {
        Err(l_err(s, ErrorKind::UnexpectedLlvmToken))
    }
}

/// Read an identifier.
pub open spec fn l_ident(s: LState) -> Result<(Seq<u8>, LState), CompileError> {
    match s.tok {
        LlvmTokenOf::Identifier(n) => match l_next(s) {
            Ok(s2) => Ok((n, s2)),
            Err(e) => Err(e),
        },
        _ => Err(l_err(s, ErrorKind::ExpectedLlvmIdentifier)),
    }
}

/// The state with other registers.
pub open spec fn l_with_regs(s: LState, regs: Seq<Seq<u8>>) -> LState {
    LState { sf: s.sf, tok: s.tok, funcs: s.funcs, strings: s.strings, regs }
}

/// The state with `name` defined as a register, unless it already is.
pub open spec fn l_define(s: LState, name: Seq<u8>) -> LState {
    if s.regs.contains(name) {
        s
    } else {
        l_with_regs(s, s.regs.push(name))
    }
}

/// A type: `i1`, `i8`, `i32`, `i64`, `void`, `ptr` or `[n x type]`.
pub open spec fn l_type(s: LState) -> Result<(LlvmType, LState), CompileError>
    decreases l_measure(s),
{
    let simple: Option<LlvmType> = match s.tok {
        LlvmTokenOf::I1 => Some(LlvmType::I1),
        LlvmTokenOf::I8 => Some(LlvmType::I8),
        LlvmTokenOf::I32 => Some(LlvmType::I32),
        LlvmTokenOf::I64 => Some(LlvmType::I64),
        LlvmTokenOf::Void => Some(LlvmType::Void),
        LlvmTokenOf::Ptr => Some(LlvmType::Ptr),
        _ => None,
    };
    if !(simple is Some || s.tok is LBracket) {
        Err(l_err(s, ErrorKind::ExpectedLlvmType))
    } else {
        match l_next(s) {
            Err(e) => Err(e),
            Ok(s1) => match simple {
                Some(t) => Ok((t, s1)),
                None => match l_number_token(s1) {
                    Err(e) => Err(e),
                    Ok((n, s2)) => if s2.tok == LlvmTokenOf::<Seq<u8>>::Identifier("x".spec_bytes()) {
                        match l_next(s2) {
                            Err(e) => Err(e),
                            Ok(s3) => if l_measure(s3) < l_measure(s) {
                                match l_type(s3) {
                                    Err(e) => Err(e),
                                    Ok((inner, s4)) => match l_expect(s4, LlvmTokenOf::RBracket) {
                                        Err(e) => Err(e),
                                        Ok(s5) => Ok((LlvmType::Array(n, Box::new(inner)), s5)),
                                    },
                                }
                            } else {
                                Err(l_err(s, ErrorKind::ExpectedLlvmType))
                            },
                        }
                    } else {
                        Err(l_err(s2, ErrorKind::ExpectedArrayTypeSeparator))
                    },
                },
            },
        }
    }
}

/// A register reference `%name`.
pub open spec fn l_register(s: LState) -> Result<(Seq<u8>, LState), CompileError> {
    match l_expect(s, LlvmTokenOf::Percent) {
        Err(e) => Err(e),
        Ok(s1) => l_ident(s1),
    }
}

/// A global name `@name`.
pub open spec fn l_global(s: LState) -> Result<(Seq<u8>, LState), CompileError> {
    match l_expect(s, LlvmTokenOf::At) {
        Err(e) => Err(e),
        Ok(s1) => l_ident(s1),
    }
}

/// A non-negative number.
pub open spec fn l_number_token(s: LState) -> Result<(usize, LState), CompileError> {
    match s.tok {
        LlvmTokenOf::Integer(n) => match l_next(s) {
            Err(e) => Err(e),
            Ok(s1) => Ok((n, s1)),
        },
        _ => Err(l_err(s, ErrorKind::ExpectedLlvmNumber)),
    }
}

/// An integer literal, `-` allowed; a negative one is taken modulo the word
/// size.
pub open spec fn l_number_literal(s: LState) -> Result<(usize, LState), CompileError> {
    match l_try(s, LlvmTokenOf::Minus) {
        Err(e) => Err(e),
        Ok((negative, s1)) => match s1.tok {
            LlvmTokenOf::Integer(m) => match l_next(s1) {
                Err(e) => Err(e),
                Ok(s2) => Ok(
                    (
                        if negative {
                            wrapping_sub(0, m)
                        } else {
                            m
                        },
                        s2,
                    ),
                ),
            },
            _ => Err(l_err(s1, ErrorKind::ExpectedLlvmIntegerLiteral)),
        },
    }
}

/// A negative literal `-m` is the word that gives 0 when `m` is added to it
/// (two's complement); a literal without `-` is its own value.
pub proof fn law_negative_literals(s: LState)
    requires
        l_number_literal(s) is Ok,
    ensures
        ({
            let v = l_number_literal(s)->Ok_0.0;
            &&& s.tok is Minus ==> (l_next(s)->Ok_0.tok matches LlvmTokenOf::Integer(m)
                && vstd::wrapping::usize_specs::wrapping_add(v, m) == 0)
            &&& s.tok matches LlvmTokenOf::Integer(m) ==> v == m
        }),
{
}

/// A value: a register, a global or an integer literal.
pub open spec fn l_value(s: LState) -> Result<(LValueV, LState), CompileError> {
    match s.tok {
        LlvmTokenOf::Percent => match l_register(s) {
            Err(e) => Err(e),
            Ok((n, s1)) => Ok((LValueV::Register(n), s1)),
        },
        LlvmTokenOf::At => match l_global(s) {
            Err(e) => Err(e),
            Ok((n, s1)) => Ok((LValueV::Global(n), s1)),
        },
        LlvmTokenOf::Minus | LlvmTokenOf::Integer(_) => match l_number_literal(s) {
            Err(e) => Err(e),
            Ok((n, s1)) => Ok((LValueV::Literal(n), s1)),
        },
        _ => Err(l_err(s, ErrorKind::ExpectedLlvmValue)),
    }
}

/// A typed value `type value`.
pub open spec fn l_typed(s: LState) -> Result<((LlvmType, LValueV), LState), CompileError> {
    match l_type(s) {
        Err(e) => Err(e),
        Ok((t, s1)) => match l_value(s1) {
            Err(e) => Err(e),
            Ok((v, s2)) => Ok(((t, v), s2)),
        },
    }
}

/// `ret void` or `ret type value`.
#[verifier::opaque]
pub open spec fn l_return(s: LState) -> Result<(TerminatorV, LState), CompileError> {
    match l_expect(s, LlvmTokenOf::Ret) {
        Err(e) => Err(e),
        Ok(s1) => match l_try(s1, LlvmTokenOf::Void) {
            Err(e) => Err(e),
            Ok((true, s2)) => Ok((TerminatorV::RetVoid, s2)),
            Ok((false, s2)) => match l_type(s2) {
                Err(e) => Err(e),
                Ok((t, s3)) => match l_value(s3) {
                    Err(e) => Err(e),
                    Ok((v, s4)) => Ok((TerminatorV::Ret(t, v), s4)),
                },
            },
        },
    }
}

/// `br label %l` or `br i1 value, label %then, label %else`.
#[verifier::opaque]
pub open spec fn l_branch(s: LState) -> Result<(TerminatorV, LState), CompileError> {
    match l_expect(s, LlvmTokenOf::Br) {
        Err(e) => Err(e),
        Ok(s1) => match l_try(s1, LlvmTokenOf::Label) {
            Err(e) => Err(e),
            Ok((true, s2)) => match l_register(s2) {
                Err(e) => Err(e),
                Ok((l, s3)) => Ok((TerminatorV::Br(l), s3)),
            },
            Ok((false, s2)) => match l_expect(s2, LlvmTokenOf::I1) {
                Err(e) => Err(e),
                Ok(s3) => match l_value(s3) {
                    Err(e) => Err(e),
                    Ok((c, s4)) => match l_expect(s4, LlvmTokenOf::Comma) {
                        Err(e) => Err(e),
                        Ok(s5) => match l_expect(s5, LlvmTokenOf::Label) {
                            Err(e) => Err(e),
                            Ok(s6) => match l_register(s6) {
                                Err(e) => Err(e),
                                Ok((a, s7)) => match l_expect(s7, LlvmTokenOf::Comma) {
                                    Err(e) => Err(e),
                                    Ok(s8) => match l_expect(s8, LlvmTokenOf::Label) {
                                        Err(e) => Err(e),
                                        Ok(s9) => match l_register(s9) {
                                            Err(e) => Err(e),
                                            Ok((b, s10)) => Ok((TerminatorV::BrIf(c, a, b), s10)),
                                        },
                                    },
                                },
                            },
                        },
                    },
                },
            },
        },
    }
}

/// `type left, right`, the operands of a binary operation `op`.
pub open spec fn l_operands(s: LState, op: BinaryOp) -> Result<(AssignOpV, LState), CompileError> {
    match l_type(s) {
        Err(e) => Err(e),
        Ok((t, s1)) => match l_value(s1) {
            Err(e) => Err(e),
            Ok((l, s2)) => match l_expect(s2, LlvmTokenOf::Comma) {
                Err(e) => Err(e),
                Ok(s3) => match l_value(s3) {
                    Err(e) => Err(e),
                    Ok((r, s4)) => Ok((AssignOpV::Binary(op, t, l, r), s4)),
                },
            },
        },
    }
}

/// `op type left, right` for the operation `op` written as `op_token`.
#[verifier::opaque]
pub open spec fn l_binary(s: LState, op_token: LlvmTokenV, op: BinaryOp) -> Result<(AssignOpV, LState), CompileError> {
    match l_expect(s, op_token) {
        Err(e) => Err(e),
        Ok(s1) => l_operands(s1, op),
    }
}

/// `icmp ult type left, right`.
#[verifier::opaque]
pub open spec fn l_icmp(s: LState) -> Result<(AssignOpV, LState), CompileError> {
    match l_expect(s, LlvmTokenOf::Icmp) {
        Err(e) => Err(e),
        Ok(s1) => match l_expect(s1, LlvmTokenOf::Ult) {
            Err(e) => Err(e),
            Ok(s2) => l_operands(s2, BinaryOp::IcmpUlt),
        },
    }
}

/// The arguments `, type value` of a call after the first, with those read so
/// far.
pub open spec fn l_more_arguments(s: LState, args: Seq<(LlvmType, LValueV)>) -> Result<
    (Seq<(LlvmType, LValueV)>, LState),
    CompileError,
>
    decreases l_measure(s),
{
    if s.tok is Comma {
        match l_next(s) {
            Err(e) => Err(e),
            Ok(s1) => match l_typed(s1) {
                Err(e) => Err(e),
                Ok((a, s2)) => if l_measure(s2) < l_measure(s) {
                    l_more_arguments(s2, args.push(a))
                } else {
                    Err(l_err(s, ErrorKind::UnexpectedLlvmToken))
                },
            },
        }
    } else {
        Ok((args, s))
    }
}

/// No argument of a call is dropped or moved: the arguments read so far stay
/// in front, in order, and the typed value after a comma comes next.
pub proof fn law_call_arguments_in_order(s: LState, args: Seq<(LlvmType, LValueV)>)
    requires
        l_more_arguments(s, args) is Ok,
    ensures
        ({
            let out = l_more_arguments(s, args)->Ok_0.0;
            &&& out.len() >= args.len()
            &&& out.subrange(0, args.len() as int) == args
            &&& s.tok is Comma ==> (l_next(s) matches Ok(s1) ==> (l_typed(s1) matches Ok((a, _))
                ==> out.len() > args.len() && out[args.len() as int] == a))
        }),
    decreases l_measure(s),
{
    if s.tok is Comma {
        let s1 = l_next(s)->Ok_0;
        let (a, s2) = l_typed(s1)->Ok_0;
        law_call_arguments_in_order(s2, args.push(a));
        let out = l_more_arguments(s, args)->Ok_0.0;
        assert(out.subrange(0, args.len() + 1int).subrange(0, args.len() as int) =~= out.subrange(
            0,
            args.len() as int,
        ));
        assert(args.push(a).subrange(0, args.len() as int) =~= args);
        assert(out[args.len() as int] == out.subrange(0, args.len() + 1int)[args.len() as int]);
    } else {
        assert(args.subrange(0, args.len() as int) =~= args);
    }
}

/// The first argument of a call is the first typed value between its
/// parentheses, and the one after the first comma is the second.
pub proof fn law_call_first_arguments(
    s: LState,
    s4: LState,
    a: (LlvmType, LValueV),
    s5: LState,
)
    requires
        l_call(s) is Ok,
        l_expect(s, LlvmTokenOf::Call) matches Ok(s1) && l_type(s1) matches Ok((_, s2)) && l_global(
            s2,
        ) matches Ok((_, s3)) && l_expect(s3, LlvmTokenOf::LParen) == Ok::<LState, CompileError>(s4),
        !(s4.tok is RParen),
        l_typed(s4) == Ok::<((LlvmType, LValueV), LState), CompileError>((a, s5)),
    ensures
        l_call(s)->Ok_0.0 matches AssignOpV::Call(_, _, args) && args.len() >= 1 && args[0] == a,
        l_call(s)->Ok_0.0 matches AssignOpV::Call(_, _, args) ==> (s5.tok is Comma ==> (l_next(s5) matches Ok(
            s6,
        ) ==> (l_typed(s6) matches Ok((b, _)) ==> args.len() >= 2 && args[1] == b))),
{
    reveal(l_call);
    law_call_arguments_in_order(s5, seq![a]);
    let out = l_more_arguments(s5, seq![a])->Ok_0.0;
    assert(out[0] == out.subrange(0, 1)[0]);
    assert(out.subrange(0, 1)[0] == a);
}

/// `call type @callee(type value, ...)`.
#[verifier::opaque]
pub open spec fn l_call(s: LState) -> Result<(AssignOpV, LState), CompileError> {
    match l_expect(s, LlvmTokenOf::Call) {
        Err(e) => Err(e),
        Ok(s1) => match l_type(s1) {
            Err(e) => Err(e),
            Ok((t, s2)) => match l_global(s2) {
                Err(e) => Err(e),
                Ok((callee, s3)) => match l_expect(s3, LlvmTokenOf::LParen) {
                    Err(e) => Err(e),
                    Ok(s4) => {
                        let arguments: Result<(Seq<(LlvmType, LValueV)>, LState), CompileError> =
                            if s4.tok is RParen {
                            Ok((Seq::empty(), s4))
                        } else {
                            match l_typed(s4) {
                                Err(e) => Err(e),
                                Ok((a, s5)) => l_more_arguments(s5, seq![a]),
                            }
                        };
                        match arguments {
                            Err(e) => Err(e),
                            Ok((args, s6)) => match l_expect(s6, LlvmTokenOf::RParen) {
                                Err(e) => Err(e),
                                Ok(s7) => Ok((AssignOpV::Call(t, callee, args), s7)),
                            },
                        }
                    },
                },
            },
        },
    }
}

/// The indexes `, type value` of a `getelementptr` after the first, with those
/// read so far.
pub open spec fn l_more_indexes(s: LState, indexes: Seq<(LlvmType, LValueV)>) -> Result<
    (Seq<(LlvmType, LValueV)>, LState),
    CompileError,
>
    decreases l_measure(s),
{
    match l_try(s, LlvmTokenOf::Comma) {
        Err(e) => Err(e),
        Ok((false, s1)) => Ok((indexes, s1)),
        Ok((true, s1)) => match l_typed(s1) {
            Err(e) => Err(e),
            Ok((a, s2)) => if l_measure(s2) < l_measure(s) {
                l_more_indexes(s2, indexes.push(a))
            } else {
                Err(l_err(s, ErrorKind::UnexpectedLlvmToken))
            },
        },
    }
}

/// `getelementptr type, ptr value, type index, ...`.
#[verifier::opaque]
pub open spec fn l_gep(s: LState) -> Result<(AssignOpV, LState), CompileError> {
    match l_expect(s, LlvmTokenOf::Gep) {
        Err(e) => Err(e),
        Ok(s1) => match l_type(s1) {
            Err(e) => Err(e),
            Ok((t, s2)) => match l_expect(s2, LlvmTokenOf::Comma) {
                Err(e) => Err(e),
                Ok(s3) => match l_expect(s3, LlvmTokenOf::Ptr) {
                    Err(e) => Err(e),
                    Ok(s4) => match l_value(s4) {
                        Err(e) => Err(e),
                        Ok((pointer, s5)) => match l_expect(s5, LlvmTokenOf::Comma) {
                            Err(e) => Err(e),
                            Ok(s6) => match l_typed(s6) {
                                Err(e) => Err(e),
                                Ok((first, s7)) => match l_more_indexes(s7, seq![first]) {
                                    Err(e) => Err(e),
                                    Ok((indexes, s8)) => Ok((AssignOpV::Gep(t, pointer, indexes), s8)),
                                },
                            },
                        },
                    },
                },
            },
        },
    }
}

/// The operation of an assignment, chosen by its first token.
pub open spec fn l_operation(s: LState) -> Result<(AssignOpV, LState), CompileError> {
    match s.tok {
        LlvmTokenOf::Add => l_binary(s, LlvmTokenOf::Add, BinaryOp::Add),
        LlvmTokenOf::Sub => l_binary(s, LlvmTokenOf::Sub, BinaryOp::Sub),
        LlvmTokenOf::Mul => l_binary(s, LlvmTokenOf::Mul, BinaryOp::Mul),
        LlvmTokenOf::Udiv => l_binary(s, LlvmTokenOf::Udiv, BinaryOp::Udiv),
        LlvmTokenOf::Urem => l_binary(s, LlvmTokenOf::Urem, BinaryOp::Urem),
        LlvmTokenOf::Icmp => l_icmp(s),
        LlvmTokenOf::Call => l_call(s),
        LlvmTokenOf::Gep => l_gep(s),
        _ => Err(l_err(s, ErrorKind::ExpectedLlvmAssignOperation)),
    }
}

/// An operation keyword is read as that operation: `add`, `sub`, `mul`,
/// `udiv`, `urem` and `icmp ult` give the binary operation of the same name.
pub proof fn law_operation_matches_keyword(s: LState)
    requires
        l_operation(s) matches Ok((AssignOpV::Binary(_, _, _, _), _)),
    ensures
        l_operation(s)->Ok_0.0 matches AssignOpV::Binary(o, _, _, _) && match s.tok {
            LlvmTokenOf::Add => o == BinaryOp::Add,
            LlvmTokenOf::Sub => o == BinaryOp::Sub,
            LlvmTokenOf::Mul => o == BinaryOp::Mul,
            LlvmTokenOf::Udiv => o == BinaryOp::Udiv,
            LlvmTokenOf::Urem => o == BinaryOp::Urem,
            _ => s.tok is Icmp && o == BinaryOp::IcmpUlt,
        },
{
    reveal(l_binary);
    reveal(l_icmp);
    reveal(l_call);
    reveal(l_gep);
}

/// `%target = operation`: the target must not be a register of the function
/// yet, and becomes one.
#[verifier::opaque]
pub open spec fn l_assignment(s: LState) -> Result<((Seq<u8>, AssignOpV), LState), CompileError> {
    match l_register(s) {
        Err(e) => Err(e),
        Ok((target, s1)) => if s1.regs.contains(target) {
            Err(l_err(s1, ErrorKind::DuplicateRegisterAssignment))
        } else {
            match l_expect(l_with_regs(s1, s1.regs.push(target)), LlvmTokenOf::Assign) {
                Err(e) => Err(e),
                Ok(s3) => match l_operation(s3) {
                    Err(e) => Err(e),
                    Ok((op, s4)) => Ok(((target, op), s4)),
                },
            }
        },
    }
}

/// One instruction: `ret`, `br` or an assignment.
#[verifier::opaque]
pub open spec fn l_instruction(s: LState) -> Result<(InstructionV, LState), CompileError> {
    match s.tok {
        LlvmTokenOf::Ret => match l_return(s) {
            Err(e) => Err(e),
            Ok((t, s1)) => Ok((InstructionV::Terminator(t), s1)),
        },
        LlvmTokenOf::Br => match l_branch(s) {
            Err(e) => Err(e),
            Ok((t, s1)) => Ok((InstructionV::Terminator(t), s1)),
        },
        LlvmTokenOf::Percent => match l_assignment(s) {
            Err(e) => Err(e),
            Ok(((target, op), s1)) => Ok((InstructionV::Assign(target, op), s1)),
        },
        _ => Err(l_err(s, ErrorKind::ExpectedLlvmInstruction)),
    }
}

/// Instructions up to and including the first terminator, after those read so
/// far.
pub open spec fn l_instructions(s: LState, acc: Seq<InstructionV>) -> Result<
    (Seq<InstructionV>, LState),
    CompileError,
>
    decreases l_measure(s),
{
    match l_instruction(s) {
        Err(e) => Err(e),
        Ok((i, s1)) => if i is Terminator {
            Ok((acc.push(i), s1))
        } else if l_measure(s1) < l_measure(s) {
            l_instructions(s1, acc.push(i))
        } else {
            Err(l_err(s, ErrorKind::ExpectedLlvmInstruction))
        },
    }
}

/// A block `label: instructions`.
pub open spec fn l_block(s: LState) -> Result<(BlockV, LState), CompileError> {
    match l_ident(s) {
        Err(e) => Err(e),
        Ok((label, s1)) => match l_expect(s1, LlvmTokenOf::Colon) {
            Err(e) => Err(e),
            Ok(s2) => match l_instructions(s2, Seq::empty()) {
                Err(e) => Err(e),
                Ok((instructions, s3)) => Ok(((label, instructions), s3)),
            },
        },
    }
}

/// Blocks up to (not including) the `}` that closes the body, after those
/// read so far.
pub open spec fn l_more_blocks(s: LState, acc: Seq<BlockV>) -> Result<(Seq<BlockV>, LState), CompileError>
    decreases l_measure(s),
{
    if s.tok is RBrace {
        Ok((acc, s))
    } else {
        match l_block(s) {
            Err(e) => Err(e),
            Ok((b, s1)) => if l_measure(s1) < l_measure(s) {
                l_more_blocks(s1, acc.push(b))
            } else {
                Err(l_err(s, ErrorKind::ExpectedLlvmIdentifier))
            },
        }
    }
}

/// The blocks of a function body; when it does not start with a label, its
/// first block is the entry block, labelled `entry`.
#[verifier::opaque]
pub open spec fn l_blocks(s: LState) -> Result<(Seq<BlockV>, LState), CompileError> {
    if s.tok is Identifier || s.tok is RBrace {
        l_more_blocks(s, Seq::empty())
    } else {
        match l_instructions(s, Seq::empty()) {
            Err(e) => Err(e),
            Ok((instructions, s1)) => l_more_blocks(s1, seq![("entry".spec_bytes(), instructions)]),
        }
    }
}

/// The parameters `, type %name` after the first, with those read so far;
/// each becomes a register, and must not be one yet.
pub open spec fn l_more_parameters(s: LState, ps: Seq<(Seq<u8>, LlvmType)>) -> Result<
    (Seq<(Seq<u8>, LlvmType)>, LState),
    CompileError,
>
    decreases l_measure(s),
{
    if s.tok is Comma {
        match l_next(s) {
            Err(e) => Err(e),
            Ok(s1) => match l_type(s1) {
                Err(e) => Err(e),
                Ok((t, s2)) => match l_register(s2) {
                    Err(e) => Err(e),
                    Ok((n, s3)) => if s3.regs.contains(n) {
                        Err(l_err(s3, ErrorKind::DuplicateLlvmParameters))
                    } else if l_measure(s3) < l_measure(s) {
                        l_more_parameters(l_with_regs(s3, s3.regs.push(n)), ps.push((n, t)))
                    } else {
                        Err(l_err(s, ErrorKind::UnexpectedLlvmToken))
                    },
                },
            },
        }
    } else {
        Ok((ps, s))
    }
}

/// A parameter list `(type %name, ...)`.
#[verifier::opaque]
pub open spec fn l_parameters(s: LState) -> Result<(Seq<(Seq<u8>, LlvmType)>, LState), CompileError> {
    match l_expect(s, LlvmTokenOf::LParen) {
        Err(e) => Err(e),
        Ok(s1) => {
            let parameters: Result<(Seq<(Seq<u8>, LlvmType)>, LState), CompileError> = if s1.tok is RParen {
                Ok((Seq::empty(), s1))
            } else {
                match l_type(s1) {
                    Err(e) => Err(e),
                    Ok((t, s2)) => match l_register(s2) {
                        Err(e) => Err(e),
                        Ok((n, s3)) => l_more_parameters(l_define(s3, n), seq![(n, t)]),
                    },
                }
            };
            match parameters {
                Err(e) => Err(e),
                Ok((ps, s4)) => match l_expect(s4, LlvmTokenOf::RParen) {
                    Err(e) => Err(e),
                    Ok(s5) => Ok((ps, s5)),
                },
            }
        },
    }
}

/// A function definition `define type @name(parameters) { blocks }`: its
/// registers start empty, and it enters the functions unless one of its name
/// is there.
#[verifier::opaque]
pub open spec fn l_function(s: LState) -> Result<LState, CompileError> {
    match l_expect(s, LlvmTokenOf::Define) {
        Err(e) => Err(e),
        Ok(s1) => match l_type(s1) {
            Err(e) => Err(e),
            Ok((t, s2)) => match l_global(s2) {
                Err(e) => Err(e),
                Ok((name, s3)) => match l_parameters(l_with_regs(s3, Seq::empty())) {
                    Err(e) => Err(e),
                    Ok((ps, s4)) => match l_expect(s4, LlvmTokenOf::LBrace) {
                        Err(e) => Err(e),
                        Ok(s5) => match l_blocks(s5) {
                            Err(e) => Err(e),
                            Ok((bs, s6)) => match l_expect(s6, LlvmTokenOf::RBrace) {
                                Err(e) => Err(e),
                                Ok(s7) => if s7.funcs.contains_key(name) {
                                    Err(l_err(s7, ErrorKind::DuplicateLlvmFunction))
                                } else {
                                    Ok(
                                        LState {
                                            sf: s7.sf,
                                            tok: s7.tok,
                                            funcs: s7.funcs.insert(name, (t, ps, bs)),
                                            strings: s7.strings,
                                            regs: s7.regs,
                                        },
                                    )
                                },
                            },
                        },
                    },
                },
            },
        },
    }
}

/// A global string `@name = constant type c"..."`; a later one of the same
/// name replaces it.
#[verifier::opaque]
pub open spec fn l_string(s: LState) -> Result<LState, CompileError> {
    match l_global(s) {
        Err(e) => Err(e),
        Ok((name, s1)) => match l_expect(s1, LlvmTokenOf::Assign) {
            Err(e) => Err(e),
            Ok(s2) => match l_expect(s2, LlvmTokenOf::Constant) {
                Err(e) => Err(e),
                Ok(s3) => match l_type(s3) {
                    Err(e) => Err(e),
                    Ok((_, s4)) => match s4.tok {
                        LlvmTokenOf::CString(v) => match l_next(s4) {
                            Err(e) => Err(e),
                            Ok(s5) => Ok(
                                LState {
                                    sf: s5.sf,
                                    tok: s5.tok,
                                    funcs: s5.funcs,
                                    strings: s5.strings.insert(name, v),
                                    regs: s5.regs,
                                },
                            ),
                        },
                        _ => Err(l_err(s4, ErrorKind::ExpectedCStringLiteral)),
                    },
                },
            },
        },
    }
}

/// A program: global strings and function definitions up to the end.
pub open spec fn l_language(s: LState) -> Result<LState, CompileError>
    decreases l_measure(s),
{
    if s.tok is Eof {
        Ok(s)
    } else {
        let item = match s.tok {
            LlvmTokenOf::At => l_string(s),
            LlvmTokenOf::Define => l_function(s),
            _ => Err(l_err(s, ErrorKind::ExpectedLlvmTopLevelItem)),
        };
        match item {
            Err(e) => Err(e),
            Ok(s1) => if l_measure(s1) < l_measure(s) {
                l_language(s1)
            } else {
                Err(l_err(s, ErrorKind::ExpectedLlvmTopLevelItem))
            },
        }
    }
}

/// A program is accepted only as a whole: when its items parse, the input is
/// read up to its end.
pub proof fn law_llvm_language_reads_to_end(s: LState)
    requires
        l_language(s) is Ok,
    ensures
        l_language(s)->Ok_0.tok is Eof,
    decreases l_measure(s),
{
    if !(s.tok is Eof) {
        let item = match s.tok {
            LlvmTokenOf::At => l_string(s),
            LlvmTokenOf::Define => l_function(s),
            _ => Err(l_err(s, ErrorKind::ExpectedLlvmTopLevelItem)),
        };
        if let Ok(s1) = item {
            if l_measure(s1) < l_measure(s) {
                law_llvm_language_reads_to_end(s1);
            }
        }
    }
}

/// The state before the first token of `sf` is read.
pub open spec fn l_initial(sf: SourceFile) -> Result<LState, CompileError> {
    let (r, sf1) = spec_llvm_next_token(sf);
    match r {
        Err(e) => Err(e),
        Ok(t) => Ok(
            LState { sf: sf1, tok: t, funcs: Map::empty(), strings: Map::empty(), regs: Seq::empty() },
        ),
    }
}

/// The functions and global strings of the program in `sf` (read from its
/// start), or the first error.
pub open spec fn l_program(sf: SourceFile) -> Result<
    (Map<Seq<u8>, FunctionV>, Map<Seq<u8>, Seq<u8>>),
    CompileError,
> {
    match l_initial(sf) {
        Err(e) => Err(e),
        Ok(s0) => match l_language(s0) {
            Err(e) => Err(e),
            Ok(s) => Ok((s.funcs, s.strings)),
        },
    }
}

} // verus!
