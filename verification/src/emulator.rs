//! An emulator of parsed LLVM-IR programs: it runs `@main` and returns its
//! value. Arithmetic is on 64-bit (`usize`) values and wraps around; every
//! call and every jump costs one unit of fuel, so a run always ends.
use vstd::prelude::*;
use crate::collections::{StringMap, stringMap_get, stringMap_insert, stringMap_new};
use crate::llvm_ast::{
    AssignInstruction, AssignOp, BinaryOp, Branch, Instruction, InstructionBlock, InstructionBlockList,
    InstructionList, LlvmFunction, LlvmParameter, LlvmSymTable, LlvmTypedValue, LlvmValue,
    TerminatorInstruction, find_block, instructionBlock_fetch_instructions,
    llvmSymTable_find_function, st_functions, st_wf,
};
use crate::llvm_ast::instruction_seq;
use crate::llvm_parser::llvmParser_parse_to_ast;
use crate::rust_lexer::CompileError;
use crate::text::{ByteString, string_clone, string_from_str};
use vstd::wrapping::usize_specs::{wrapping_add, wrapping_mul, wrapping_sub};

verus! {

/// Why a program could not be run to the end.
#[derive(Debug, PartialEq, Eq, Structural, Clone, Copy)]
pub enum EmulationError {
    /// the program text is not valid LLVM-IR
    Parse(CompileError),
    UnknownFunction,
    ArgumentCountMismatch,
    EmptyFunctionBody,
    UnknownBlockLabel,
    BlockDidNotTerminate,
    UnknownRegister,
    UnknownGlobal,
    DivisionByZero,
    OutOfFuel,
}

/// The text of the message that reports an emulation error.
pub open spec fn emulation_error_message(e: EmulationError) -> Seq<char> {
    match e {
        EmulationError::Parse(c) => crate::rust_lexer::error_kind_message(c.kind),
        EmulationError::UnknownFunction => "unknown LLVM function"@,
        EmulationError::ArgumentCountMismatch => "LLVM call argument count mismatch"@,
        EmulationError::EmptyFunctionBody => "empty function body!"@,
        EmulationError::UnknownBlockLabel => "unknown LLVM block label"@,
        EmulationError::BlockDidNotTerminate => "LLVM block did not terminate"@,
        EmulationError::UnknownRegister => "unknown LLVM register"@,
        EmulationError::UnknownGlobal => "unknown LLVM global value"@,
        EmulationError::DivisionByZero => "division by zero"@,
        EmulationError::OutOfFuel => "execution did not finish"@,
    }
}

impl EmulationError {
    /// The message that reports this error.
    pub fn message(&self) -> (r: &'static str)
        ensures
            r@ == emulation_error_message(*self),
    {
        match self {
            EmulationError::Parse(e) => e.kind.message(),
            EmulationError::UnknownFunction => "unknown LLVM function",
            EmulationError::ArgumentCountMismatch => "LLVM call argument count mismatch",
            EmulationError::EmptyFunctionBody => "empty function body!",
            EmulationError::UnknownBlockLabel => "unknown LLVM block label",
            EmulationError::BlockDidNotTerminate => "LLVM block did not terminate",
            EmulationError::UnknownRegister => "unknown LLVM register",
            EmulationError::UnknownGlobal => "unknown LLVM global value",
            EmulationError::DivisionByZero => "division by zero",
            EmulationError::OutOfFuel => "execution did not finish",
        }
    }
}

/// What happens after an instruction.
#[derive(Debug)]
pub enum LlvmExecFlow {
    Continue,
    /// label
    Jump(ByteString),
    /// return value
    Return(usize),
}

/// The value of an execution flow.
pub enum Flow {
    Continue,
    Jump(Seq<u8>),
    Return(usize),
}

pub open spec fn flow_view(f: LlvmExecFlow) -> Flow {
    match f {
        LlvmExecFlow::Continue => Flow::Continue,
        LlvmExecFlow::Jump(l) => Flow::Jump(l@),
        LlvmExecFlow::Return(v) => Flow::Return(v),
    }
}

/// The emulator's state: the values of globals.
#[derive(Debug)]
pub enum Llvmulator {
    Llvmulator(StringMap<usize>),
}

pub open spec fn emu_globals(e: Llvmulator) -> StringMap<usize> {
    let Llvmulator::Llvmulator(g) = e;
    g
}

// ------------------------------------------------------------------
// The semantics
// ------------------------------------------------------------------

/// The value of a literal, register or global.
pub open spec fn eval_value(globals: Map<Seq<u8>, usize>, regs: Map<Seq<u8>, usize>, v: LlvmValue) -> Result<
    usize,
    EmulationError,
> {
    match v {
        LlvmValue::Literal(n) => Ok(n),
        LlvmValue::Register(name) => if regs.contains_key(name@) {
            Ok(regs[name@])
        } else {
            Err(EmulationError::UnknownRegister)
        },
        LlvmValue::Global(name) => if globals.contains_key(name@) {
            Ok(globals[name@])
        } else {
            Err(EmulationError::UnknownGlobal)
        },
    }
}

/// A binary operation on two values: wrapping addition, subtraction and
/// multiplication, unsigned division and remainder, and unsigned `<` as 1 or 0.
pub open spec fn binary_value(op: BinaryOp, l: usize, r: usize) -> Result<usize, EmulationError> {
    match op {
        BinaryOp::Add => Ok(wrapping_add(l, r)),
        BinaryOp::Sub => Ok(wrapping_sub(l, r)),
        BinaryOp::Mul => Ok(wrapping_mul(l, r)),
        BinaryOp::Udiv => if r == 0 {
            Err(EmulationError::DivisionByZero)
        } else {
            Ok(l / r)
        },
        BinaryOp::Urem => if r == 0 {
            Err(EmulationError::DivisionByZero)
        } else {
            Ok(l % r)
        },
        BinaryOp::IcmpUlt => Ok(
            if l < r {
                1usize
            } else {
                0usize
            },
        ),
    }
}

/// `icmp ult` means what the `ult` predicate means: it gives 1 exactly when
/// the left value is below the right one, and 0 otherwise; in particular a
/// value is never below itself.
pub proof fn law_unsigned_less_than(l: usize, r: usize)
    ensures
        binary_value(BinaryOp::IcmpUlt, l, r) == Ok::<usize, EmulationError>(
            if crate::parser_spec::word_predicate_holds(
                vstd::string::StringSliceAdditionalSpecFns::spec_bytes("ult"),
                l,
                r,
            ) {
                1usize
            } else {
                0usize
            },
        ),
        (binary_value(BinaryOp::IcmpUlt, l, r) == Ok::<usize, EmulationError>(1)) == (l < r),
        (binary_value(BinaryOp::IcmpUlt, l, r) == Ok::<usize, EmulationError>(0)) == (l >= r),
        binary_value(BinaryOp::IcmpUlt, l, l) == Ok::<usize, EmulationError>(0),
{
    crate::parser_spec::lemma_ult_predicate(l, r);
}

/// `add` and `sub` are addition and subtraction of machine words: they give
/// the exact sum and difference when it fits, `add` does not depend on the
/// order of its operands, and subtracting what was added gives the left value
/// back, with wrap-around.
pub proof fn law_add_then_sub(l: usize, r: usize)
    ensures
        binary_value(BinaryOp::Add, l, r) matches Ok(x) && binary_value(BinaryOp::Sub, x, r) == Ok::<
            usize,
            EmulationError,
        >(l),
        binary_value(BinaryOp::Add, l, r) == binary_value(BinaryOp::Add, r, l),
        l + r <= usize::MAX ==> binary_value(BinaryOp::Add, l, r) == Ok::<usize, EmulationError>(
            (l + r) as usize,
        ),
        l >= r ==> binary_value(BinaryOp::Sub, l, r) == Ok::<usize, EmulationError>((l - r) as usize),
{
}

/// `udiv` and `urem` give the quotient and the remainder: `q * r + m == l`
/// with `m < r`; a zero divisor is an error.
pub proof fn law_division(l: usize, r: usize)
    ensures
        r == 0 ==> binary_value(BinaryOp::Udiv, l, r) == Err::<usize, EmulationError>(
            EmulationError::DivisionByZero,
        ) && binary_value(BinaryOp::Urem, l, r) == Err::<usize, EmulationError>(
            EmulationError::DivisionByZero,
        ),
        r != 0 ==> (binary_value(BinaryOp::Udiv, l, r) matches Ok(q) && binary_value(
            BinaryOp::Urem,
            l,
            r,
        ) matches Ok(m) && q * r + m == l && m < r),
{
    if r != 0 {
        let q = l / r;
        let m = l % r;
        assert(q * r + m == l && m < r) by (nonlinear_arith)
            requires
                r > 0,
                q == l / r,
                m == l % r,
        ;
    }
}

/// `mul` does not depend on the order of its operands, and multiplying by one
/// gives the value back.
pub proof fn law_multiplication(l: usize, r: usize)
    ensures
        binary_value(BinaryOp::Mul, l, r) == binary_value(BinaryOp::Mul, r, l),
        binary_value(BinaryOp::Mul, l, 1) == Ok::<usize, EmulationError>(l),
{
    assert(l as nat * r as nat == r as nat * l as nat) by (nonlinear_arith);
    assert((l as nat * 1nat) % (usize::MAX as nat + 1) == l as nat) by (nonlinear_arith)
        requires
            l <= usize::MAX,
    ;
}

/// A conditional branch goes to its first label exactly when the condition is
/// 1, and to its second label otherwise; `ret void` returns 0 and `ret` the
/// value of its operand.
pub proof fn law_branches_and_returns(
    globals: Map<Seq<u8>, usize>,
    regs: Map<Seq<u8>, usize>,
    c: LlvmValue,
    then_label: ByteString,
    else_label: ByteString,
    ty: crate::llvm_ast::LlvmType,
)
    ensures
        eval_value(globals, regs, c) matches Ok(x) ==> terminator_flow(
            globals,
            regs,
            TerminatorInstruction::Br(Branch::Conditional(c, then_label, else_label)),
        ) == Ok::<Flow, EmulationError>(
            if x == 1 {
                Flow::Jump(then_label@)
            } else {
                Flow::Jump(else_label@)
            },
        ),
        terminator_flow(globals, regs, TerminatorInstruction::RetVoid) == Ok::<Flow, EmulationError>(
            Flow::Return(0),
        ),
        eval_value(globals, regs, c) matches Ok(x) ==> terminator_flow(
            globals,
            regs,
            TerminatorInstruction::Ret(ty, c),
        ) == Ok::<Flow, EmulationError>(Flow::Return(x)),
{
}

/// The name of a parameter.
pub open spec fn parameter_name(p: LlvmParameter) -> Seq<u8> {
    let LlvmParameter::Parameter(name, _) = p;
    name@
}

/// A call binds its parameters to its arguments in order: with distinct
/// parameter names and literal arguments, the `i`-th parameter holds the
/// `i`-th argument, and every other register keeps its value.
pub proof fn law_parameters_bound_in_order(
    globals: Map<Seq<u8>, usize>,
    params: Seq<LlvmParameter>,
    args: Seq<LlvmTypedValue>,
    regs: Map<Seq<u8>, usize>,
    from: int,
)
    requires
        0 <= from,
        forall|i: int|
            from <= i < args.len() ==> (#[trigger] args[i] matches LlvmTypedValue::Pair(_, v)
                && v is Literal),
        forall|i: int, j: int|
            from <= i < j < params.len() ==> parameter_name(#[trigger] params[i]) != parameter_name(
                #[trigger] params[j],
            ),
    ensures
        bind_parameters(globals, params, args, regs, from) matches Ok(r) && (forall|i: int|
            from <= i < params.len() && i < args.len() ==> (#[trigger] args[i] matches LlvmTypedValue::Pair(
                _,
                LlvmValue::Literal(x),
            ) && r.contains_key(parameter_name(params[i])) && r[parameter_name(params[i])] == x))
            && (forall|k: Seq<u8>|
            (forall|j: int| from <= j < params.len() && j < args.len() ==> parameter_name(
                #[trigger] params[j],
            ) != k) ==> (#[trigger] r.contains_key(k)) == regs.contains_key(k) && (regs.contains_key(
                k,
            ) ==> r[k] == regs[k])),
    decreases params.len() - from,
{
    if from < params.len() && from < args.len() {
        let LlvmParameter::Parameter(name, _) = params[from];
        let LlvmTypedValue::Pair(_, v) = args[from];
        assert(args[from] matches LlvmTypedValue::Pair(_, v) && v is Literal);
        let x = v->Literal_0;
        let regs2 = regs.insert(name@, x);
        law_parameters_bound_in_order(globals, params, args, regs2, from + 1);
        let r = bind_parameters(globals, params, args, regs2, from + 1)->Ok_0;
        assert forall|i: int|
            from <= i < params.len() && i < args.len() implies (#[trigger] args[i] matches LlvmTypedValue::Pair(
                _,
                LlvmValue::Literal(y),
            ) && r.contains_key(parameter_name(params[i])) && r[parameter_name(params[i])] == y) by {
            if i == from {
                assert forall|j: int| from + 1 <= j < params.len() && j < args.len() implies parameter_name(
                    #[trigger] params[j],
                ) != name@ by {
                    assert(parameter_name(params[from]) == name@);
                }
            }
        }
        assert forall|k: Seq<u8>|
            (forall|j: int| from <= j < params.len() && j < args.len() ==> parameter_name(
                #[trigger] params[j],
            ) != k) implies (#[trigger] r.contains_key(k)) == regs.contains_key(k) && (
        regs.contains_key(k) ==> r[k] == regs[k]) by {
            assert(parameter_name(params[from]) != k);
        }
    }
}

/// The address of `getelementptr`: the pointer plus the indexes
/// `indexes[from..]`, wrapping.
pub open spec fn gep_value(
    globals: Map<Seq<u8>, usize>,
    regs: Map<Seq<u8>, usize>,
    address: usize,
    indexes: Seq<LlvmTypedValue>,
    from: int,
) -> Result<usize, EmulationError>
    decreases indexes.len() - from,
{
    if from >= indexes.len() || from < 0 {
        Ok(address)
    } else {
        let LlvmTypedValue::Pair(_, v) = indexes[from];
        match eval_value(globals, regs, v) {
            Err(e) => Err(e),
            Ok(x) => gep_value(globals, regs, wrapping_add(address, x), indexes, from + 1),
        }
    }
}

/// Where a terminator goes: a return value or a jump.
pub open spec fn terminator_flow(
    globals: Map<Seq<u8>, usize>,
    regs: Map<Seq<u8>, usize>,
    t: TerminatorInstruction,
) -> Result<Flow, EmulationError> {
    match t {
        TerminatorInstruction::RetVoid => Ok(Flow::Return(0)),
        TerminatorInstruction::Ret(_, v) => match eval_value(globals, regs, v) {
            Ok(x) => Ok(Flow::Return(x)),
            Err(e) => Err(e),
        },
        TerminatorInstruction::Br(Branch::Unconditional(l)) => Ok(Flow::Jump(l@)),
        TerminatorInstruction::Br(Branch::Conditional(c, then_label, else_label)) => match eval_value(
            globals,
            regs,
            c,
        ) {
            Ok(x) => Ok(
                if x == 1 {
                    Flow::Jump(then_label@)
                } else {
                    Flow::Jump(else_label@)
                },
            ),
            Err(e) => Err(e),
        },
    }
}

/// The registers of a call after binding the parameters `params[from..]` in
/// order to the values of `args`; an argument is evaluated among the
/// registers bound so far.
pub open spec fn bind_parameters(
    globals: Map<Seq<u8>, usize>,
    params: Seq<LlvmParameter>,
    args: Seq<LlvmTypedValue>,
    regs: Map<Seq<u8>, usize>,
    from: int,
) -> Result<Map<Seq<u8>, usize>, EmulationError>
    decreases params.len() - from,
{
    if from >= params.len() || from < 0 || from >= args.len() {
        Ok(regs)
    } else {
        let LlvmParameter::Parameter(name, _) = params[from];
        let LlvmTypedValue::Pair(_, v) = args[from];
        match eval_value(globals, regs, v) {
            Err(e) => Err(e),
            Ok(x) => bind_parameters(globals, params, args, regs.insert(name@, x), from + 1),
        }
    }
}

/// The label of the first block.
pub open spec fn first_label(blocks: InstructionBlockList) -> Option<Seq<u8>> {
    match blocks {
        InstructionBlockList::Cons(InstructionBlock::Block(l, _), _) => Some(l@),
        InstructionBlockList::Nil => None,
    }
}

/// The value of calling `f` with `args`, with `fuel` calls and jumps left.
pub open spec fn run_function(
    functions: Map<Seq<u8>, LlvmFunction>,
    globals: Map<Seq<u8>, usize>,
    f: LlvmFunction,
    args: Seq<LlvmTypedValue>,
    fuel: nat,
) -> Result<usize, EmulationError>
    decreases fuel, 0nat,
{
    let LlvmFunction::Function(_, params, blocks) = f;
    if fuel == 0 {
        Err(EmulationError::OutOfFuel)
    } else if params@.len() != args.len() {
        Err(EmulationError::ArgumentCountMismatch)
    } else {
        match bind_parameters(globals, params@, args, Map::empty(), 0) {
            Err(e) => Err(e),
            Ok(regs) => match first_label(blocks) {
                None => Err(EmulationError::EmptyFunctionBody),
                Some(label) => run_blocks(functions, globals, blocks, label, regs, (fuel - 1) as nat),
            },
        }
    }
}

/// The value of running the blocks from the one labelled `label`.
pub open spec fn run_blocks(
    functions: Map<Seq<u8>, LlvmFunction>,
    globals: Map<Seq<u8>, usize>,
    blocks: InstructionBlockList,
    label: Seq<u8>,
    regs: Map<Seq<u8>, usize>,
    fuel: nat,
) -> Result<usize, EmulationError>
    decreases fuel, 0nat,
{
    if fuel == 0 {
        Err(EmulationError::OutOfFuel)
    } else {
        match find_block(blocks, label) {
            None => Err(EmulationError::UnknownBlockLabel),
            Some(instructions) => match run_instructions(
                functions,
                globals,
                instructions,
                regs,
                (fuel - 1) as nat,
            ) {
                Err(e) => Err(e),
                Ok((Flow::Continue, _)) => Err(EmulationError::BlockDidNotTerminate),
                Ok((Flow::Jump(next), regs2)) => run_blocks(
                    functions,
                    globals,
                    blocks,
                    next,
                    regs2,
                    (fuel - 1) as nat,
                ),
                Ok((Flow::Return(v), _)) => Ok(v),
            },
        }
    }
}

/// Where a list of instructions goes, and the registers then.
pub open spec fn run_instructions(
    functions: Map<Seq<u8>, LlvmFunction>,
    globals: Map<Seq<u8>, usize>,
    instructions: InstructionList,
    regs: Map<Seq<u8>, usize>,
    fuel: nat,
) -> Result<(Flow, Map<Seq<u8>, usize>), EmulationError>
    decreases fuel, instruction_seq(instructions).len() + 3,
{
    match instructions {
        InstructionList::Nil => Ok((Flow::Continue, regs)),
        InstructionList::Cons(Instruction::Assignment(AssignInstruction::Assign(target, op)), tail) => {
            match assign_value(functions, globals, regs, op, fuel) {
                Err(e) => Err(e),
                Ok(v) => run_instructions(functions, globals, *tail, regs.insert(target@, v), fuel),
            }
        },
        InstructionList::Cons(Instruction::Terminator(t), _) => match terminator_flow(
            globals,
            regs,
            t,
        ) {
            Err(e) => Err(e),
            Ok(flow) => Ok((flow, regs)),
        },
    }
}

/// The value of the right-hand side of an assignment.
pub open spec fn assign_value(
    functions: Map<Seq<u8>, LlvmFunction>,
    globals: Map<Seq<u8>, usize>,
    regs: Map<Seq<u8>, usize>,
    op: AssignOp,
    fuel: nat,
) -> Result<usize, EmulationError>
    decreases fuel, 2nat,
{
    match op {
        AssignOp::Binary(operator, _, left, right) => match eval_value(globals, regs, left) {
            Err(e) => Err(e),
            Ok(l) => match eval_value(globals, regs, right) {
                Err(e) => Err(e),
                Ok(r) => binary_value(operator, l, r),
            },
        },
        AssignOp::Call(_, callee, arguments) => call_value(functions, globals, callee@, arguments@, fuel),
        AssignOp::Gep(_, pointer, indexes) => match eval_value(globals, regs, pointer) {
            Err(e) => Err(e),
            Ok(address) => gep_value(globals, regs, address, indexes@, 0),
        },
    }
}

/// The value of calling the function named `name`.
pub open spec fn call_value(
    functions: Map<Seq<u8>, LlvmFunction>,
    globals: Map<Seq<u8>, usize>,
    name: Seq<u8>,
    args: Seq<LlvmTypedValue>,
    fuel: nat,
) -> Result<usize, EmulationError>
    decreases fuel, 1nat,
{
    if !functions.contains_key(name) {
        Err(EmulationError::UnknownFunction)
    } else {
        run_function(functions, globals, functions[name], args, fuel)
    }
}


// ------------------------------------------------------------------
// The emulator
// ------------------------------------------------------------------

/// An emulator with no global values.
pub fn llvmulator_new() -> (r: Llvmulator)
    ensures
        emu_globals(r).wf(),
        emu_globals(r)@ == Map::<Seq<u8>, usize>::empty(),
{
    Llvmulator::Llvmulator(stringMap_new::<usize>())
}

/// The global values.
pub fn llvmulator_globals(emulator: &Llvmulator) -> (r: &StringMap<usize>)
    ensures
        *r == emu_globals(*emulator),
{
    let Llvmulator::Llvmulator(globals) = emulator;
    globals
}

/// Evaluate a literal, register or global.
pub fn llvm_eval_value(
    global_values: &StringMap<usize>,
    register_values: &StringMap<usize>,
    value: &LlvmValue,
) -> (r: Result<usize, EmulationError>)
    requires
        global_values.wf(),
        register_values.wf(),
    ensures
        r == eval_value(global_values@, register_values@, *value),
{
    match value {
        LlvmValue::Literal(number) => Ok(*number),
        LlvmValue::Register(name) => match stringMap_get(register_values, name) {
            Some(register_value) => Ok(*register_value),
            None => Err(EmulationError::UnknownRegister),
        },
        LlvmValue::Global(name) => match stringMap_get::<usize>(global_values, name) {
            Some(v) => Ok(*v),
            None => Err(EmulationError::UnknownGlobal),
        },
    }
}

/// Execute a terminator: where control goes next.
pub fn llvmulator_execute_terminator(
    global_values: &StringMap<usize>,
    register_values: &StringMap<usize>,
    terminator: &TerminatorInstruction,
) -> (r: Result<LlvmExecFlow, EmulationError>)
    requires
        global_values.wf(),
        register_values.wf(),
    ensures
        match r {
            Ok(f) => terminator_flow(global_values@, register_values@, *terminator) == Ok::<
                Flow,
                EmulationError,
            >(flow_view(f)),
            Err(e) => terminator_flow(global_values@, register_values@, *terminator) == Err::<
                Flow,
                EmulationError,
            >(e),
        },
{
    match terminator {
        TerminatorInstruction::RetVoid => Ok(LlvmExecFlow::Return(0)),
        TerminatorInstruction::Ret(_, value) => match llvm_eval_value(
            global_values,
            register_values,
            value,
        ) {
            Ok(v) => Ok(LlvmExecFlow::Return(v)),
            Err(e) => Err(e),
        },
        TerminatorInstruction::Br(branch) => match branch {
            Branch::Unconditional(target_label) => Ok(LlvmExecFlow::Jump(string_clone(target_label))),
            Branch::Conditional(condition, then_label, else_label) => {
                let condition_value: usize = match llvm_eval_value(
                    global_values,
                    register_values,
                    condition,
                ) {
                    Ok(v) => v,
                    Err(e) => return Err(e),
                };
                if condition_value == 1 {
                    Ok(LlvmExecFlow::Jump(string_clone(then_label)))
                } else {
                    Ok(LlvmExecFlow::Jump(string_clone(else_label)))
                }
            },
        },
    }
}

/// Apply a binary operation.
fn binary_operation(operator: BinaryOp, lhs: usize, rhs: usize) -> (r: Result<usize, EmulationError>)
    ensures
        r == binary_value(operator, lhs, rhs),
{
    match operator {
        BinaryOp::Add => Ok(lhs.wrapping_add(rhs)),
        BinaryOp::Sub => Ok(lhs.wrapping_sub(rhs)),
        BinaryOp::Mul => Ok(lhs.wrapping_mul(rhs)),
        BinaryOp::Udiv => if rhs == 0 {
            Err(EmulationError::DivisionByZero)
        } else {
            Ok(lhs / rhs)
        },
        BinaryOp::Urem => if rhs == 0 {
            Err(EmulationError::DivisionByZero)
        } else {
            Ok(lhs % rhs)
        },
        BinaryOp::IcmpUlt => if lhs < rhs {
            Ok(1)
        } else {
            Ok(0)
        },
    }
}

/// The pointer `address` plus the values of `indexes`, wrapping.
fn gep_address(
    global_values: &StringMap<usize>,
    register_values: &StringMap<usize>,
    address: usize,
    indexes: &Vec<LlvmTypedValue>,
) -> (r: Result<usize, EmulationError>)
    requires
        global_values.wf(),
        register_values.wf(),
    ensures
        r == gep_value(global_values@, register_values@, address, indexes@, 0),
{
    let ghost target = gep_value(global_values@, register_values@, address, indexes@, 0);
    let mut current: usize = address;
    let mut i: usize = 0;
    while i < indexes.len()
        invariant
            i <= indexes@.len(),
            global_values.wf(),
            register_values.wf(),
            gep_value(global_values@, register_values@, current, indexes@, i as int) == target,
            target == gep_value(global_values@, register_values@, address, indexes@, 0),
        decreases indexes@.len() - i,
    {
        let LlvmTypedValue::Pair(_, index_value) = &indexes[i];
        assert(indexes@[i as int] matches LlvmTypedValue::Pair(_, v) && v == *index_value);
        let x: usize = match llvm_eval_value(global_values, register_values, index_value) {
            Ok(v) => v,
            Err(e) => {
                assert(gep_value(global_values@, register_values@, current, indexes@, i as int)
                    == Err::<usize, EmulationError>(e));
                assert(target == Err::<usize, EmulationError>(e));
                return Err(e);
            },
        };
        current = current.wrapping_add(x);
        i = i + 1;
    }
    Ok(current)
}

/// The registers of a call: the parameters bound in order to the values of
/// the arguments, each evaluated among the registers bound so far.
fn bind_arguments(
    global_values: &StringMap<usize>,
    parameters: &Vec<LlvmParameter>,
    arguments: &Vec<LlvmTypedValue>,
) -> (r: Result<StringMap<usize>, EmulationError>)
    requires
        global_values.wf(),
        parameters@.len() == arguments@.len(),
    ensures
        match r {
            Ok(m) => m.wf() && bind_parameters(
                global_values@,
                parameters@,
                arguments@,
                Map::empty(),
                0,
            ) == Ok::<Map<Seq<u8>, usize>, EmulationError>(m@),
            Err(e) => bind_parameters(global_values@, parameters@, arguments@, Map::empty(), 0)
                == Err::<Map<Seq<u8>, usize>, EmulationError>(e),
        },
{
    let ghost target = bind_parameters(
        global_values@,
        parameters@,
        arguments@,
        Map::<Seq<u8>, usize>::empty(),
        0,
    );
    let mut local_register_values: StringMap<usize> = stringMap_new::<usize>();
    let mut i: usize = 0;
    while i < parameters.len()
        invariant
            i <= parameters@.len(),
            parameters@.len() == arguments@.len(),
            global_values.wf(),
            local_register_values.wf(),
            bind_parameters(global_values@, parameters@, arguments@, local_register_values@, i as int)
                == target,
            target == bind_parameters(
                global_values@,
                parameters@,
                arguments@,
                Map::<Seq<u8>, usize>::empty(),
                0,
            ),
        decreases parameters@.len() - i,
    {
        let LlvmParameter::Parameter(name, _) = &parameters[i];
        let LlvmTypedValue::Pair(_, argument_value) = &arguments[i];
        assert(arguments@[i as int] matches LlvmTypedValue::Pair(_, v) && v == *argument_value);
        let value: usize = match llvm_eval_value(
            global_values,
            &local_register_values,
            argument_value,
        ) {
            Ok(v) => v,
            Err(e) => {
                assert(bind_parameters(
                    global_values@,
                    parameters@,
                    arguments@,
                    local_register_values@,
                    i as int,
                ) == Err::<Map<Seq<u8>, usize>, EmulationError>(e));
                assert(target == Err::<Map<Seq<u8>, usize>, EmulationError>(e));
                return Err(e);
            },
        };
        stringMap_insert::<usize>(&mut local_register_values, string_clone(name), value);
        i = i + 1;
    }
    Ok(local_register_values)
}

/// Evaluate the right-hand side of an assignment.
pub fn llvmulator_evaluate_assign_op(
    emulator: &Llvmulator,
    ast: &LlvmSymTable,
    register_values: &StringMap<usize>,
    operation: &AssignOp,
    fuel: usize,
) -> (r: Result<usize, EmulationError>)
    requires
        st_wf(*ast),
        emu_globals(*emulator).wf(),
        register_values.wf(),
    ensures
        r == assign_value(
            st_functions(*ast),
            emu_globals(*emulator)@,
            register_values@,
            *operation,
            fuel as nat,
        ),
    decreases fuel, 2nat,
{
    let global_values: &StringMap<usize> = llvmulator_globals(emulator);
    match operation {
        AssignOp::Binary(operator, _, left, right) => {
            let lhs: usize = match llvm_eval_value(global_values, register_values, left) {
                Ok(v) => v,
                Err(e) => return Err(e),
            };
            let rhs: usize = match llvm_eval_value(global_values, register_values, right) {
                Ok(v) => v,
                Err(e) => return Err(e),
            };
            binary_operation(*operator, lhs, rhs)
        },
        AssignOp::Call(_, callee, arguments) => llvmulator_execute_function_named(
            emulator,
            ast,
            callee,
            arguments,
            fuel,
        ),
        AssignOp::Gep(_, pointer, indexes) => {
            let address: usize = match llvm_eval_value(global_values, register_values, pointer) {
                Ok(v) => v,
                Err(e) => return Err(e),
            };
            gep_address(global_values, register_values, address, indexes)
        },
    }
}

/// Execute an assignment: evaluate its right-hand side into its register.
pub fn llvmulator_execute_assignment(
    emulator: &Llvmulator,
    ast: &LlvmSymTable,
    register_values: &mut StringMap<usize>,
    instruction: &AssignInstruction,
    fuel: usize,
) -> (r: Result<(), EmulationError>)
    requires
        st_wf(*ast),
        emu_globals(*emulator).wf(),
        old(register_values).wf(),
    ensures
        final(register_values).wf(),
        ({
            let AssignInstruction::Assign(target, op) = *instruction;
            match assign_value(
                st_functions(*ast),
                emu_globals(*emulator)@,
                old(register_values)@,
                op,
                fuel as nat,
            ) {
                Ok(v) => r is Ok && final(register_values)@ == old(register_values)@.insert(
                    target@,
                    v,
                ),
                Err(e) => r == Err::<(), EmulationError>(e),
            }
        }),
    decreases fuel, 3nat,
{
    let AssignInstruction::Assign(target, operation) = instruction;
    let value: usize = match llvmulator_evaluate_assign_op(
        emulator,
        ast,
        register_values,
        operation,
        fuel,
    ) {
        Ok(v) => v,
        Err(e) => return Err(e),
    };
    stringMap_insert(register_values, string_clone(target), value);
    Ok(())
}

/// Execute a list of instructions up to its terminator.
pub fn llvmulator_execute_instructions(
    emulator: &Llvmulator,
    ast: &LlvmSymTable,
    register_values: &mut StringMap<usize>,
    instructions: &InstructionList,
    fuel: usize,
) -> (r: Result<LlvmExecFlow, EmulationError>)
    requires
        st_wf(*ast),
        emu_globals(*emulator).wf(),
        old(register_values).wf(),
    ensures
        final(register_values).wf(),
        match r {
            Ok(f) => run_instructions(
                st_functions(*ast),
                emu_globals(*emulator)@,
                *instructions,
                old(register_values)@,
                fuel as nat,
            ) == Ok::<(Flow, Map<Seq<u8>, usize>), EmulationError>(
                (flow_view(f), final(register_values)@),
            ),
            Err(e) => run_instructions(
                st_functions(*ast),
                emu_globals(*emulator)@,
                *instructions,
                old(register_values)@,
                fuel as nat,
            ) == Err::<(Flow, Map<Seq<u8>, usize>), EmulationError>(e),
        },
    decreases fuel, instruction_seq(*instructions).len() + 3,
{
    let ghost target = run_instructions(
        st_functions(*ast),
        emu_globals(*emulator)@,
        *instructions,
        register_values@,
        fuel as nat,
    );
    let mut cursor: &InstructionList = instructions;
    loop
        invariant
            st_wf(*ast),
            emu_globals(*emulator).wf(),
            register_values.wf(),
            run_instructions(
                st_functions(*ast),
                emu_globals(*emulator)@,
                *cursor,
                register_values@,
                fuel as nat,
            ) == target,
            target == run_instructions(
                st_functions(*ast),
                emu_globals(*emulator)@,
                *instructions,
                old(register_values)@,
                fuel as nat,
            ),
            instruction_seq(*instructions).len() >= 1 || *cursor is Nil,
        decreases *cursor,
    {
        match cursor {
            InstructionList::Nil => return Ok(LlvmExecFlow::Continue),
            InstructionList::Cons(instruction, tail) => {
                match instruction {
                    Instruction::Assignment(assign_instruction) => {
                        match llvmulator_execute_assignment(
                            emulator,
                            ast,
                            register_values,
                            assign_instruction,
                            fuel,
                        ) {
                            Ok(_) => {},
                            Err(e) => return Err(e),
                        }
                    },
                    Instruction::Terminator(terminator) => {
                        let flow = llvmulator_execute_terminator(
                            llvmulator_globals(emulator),
                            register_values,
                            terminator,
                        );
                        return flow;
                    },
                }
                cursor = &**tail;
            },
        }
    }
}

/// Run a function with the given arguments; its parameters are bound to the
/// arguments in order, then its blocks run from the first.
pub fn llvmulator_execute_function(
    emulator: &Llvmulator,
    ast: &LlvmSymTable,
    function: &LlvmFunction,
    arguments: &Vec<LlvmTypedValue>,
    fuel: usize,
) -> (r: Result<usize, EmulationError>)
    requires
        st_wf(*ast),
        emu_globals(*emulator).wf(),
    ensures
        r == run_function(
            st_functions(*ast),
            emu_globals(*emulator)@,
            *function,
            arguments@,
            fuel as nat,
        ),
    decreases fuel, 0nat,
{
    let LlvmFunction::Function(_, parameters, blocks) = function;
    if fuel == 0 {
        return Err(EmulationError::OutOfFuel);
    }
    if parameters.len() != arguments.len() {
        return Err(EmulationError::ArgumentCountMismatch);
    }
    let global_values: &StringMap<usize> = llvmulator_globals(emulator);
    let mut local_register_values: StringMap<usize> = match bind_arguments(
        global_values,
        parameters,
        arguments,
    ) {
        Ok(m) => m,
        Err(e) => return Err(e),
    };
    let mut current_label: ByteString = match blocks {
        InstructionBlockList::Cons(block, _) => string_clone(
            crate::llvm_ast::instructionBlock_label(block),
        ),
        InstructionBlockList::Nil => return Err(EmulationError::EmptyFunctionBody),
    };
    let mut remaining: usize = fuel - 1;
    loop
        invariant
            st_wf(*ast),
            emu_globals(*emulator).wf(),
            *global_values == emu_globals(*emulator),
            local_register_values.wf(),
            remaining < fuel,
            run_blocks(
                st_functions(*ast),
                global_values@,
                *blocks,
                current_label@,
                local_register_values@,
                remaining as nat,
            ) == run_function(
                st_functions(*ast),
                emu_globals(*emulator)@,
                *function,
                arguments@,
                fuel as nat,
            ),
        decreases remaining,
    {
        if remaining == 0 {
            return Err(EmulationError::OutOfFuel);
        }
        let instructions: &InstructionList = match instructionBlock_fetch_instructions(
            blocks,
            &current_label,
        ) {
            Some(list) => list,
            None => return Err(EmulationError::UnknownBlockLabel),
        };
        let flow: LlvmExecFlow = match llvmulator_execute_instructions(
            emulator,
            ast,
            &mut local_register_values,
            instructions,
            remaining - 1,
        ) {
            Ok(f) => f,
            Err(e) => return Err(e),
        };
        match flow {
            LlvmExecFlow::Continue => return Err(EmulationError::BlockDidNotTerminate),
            LlvmExecFlow::Jump(next_label) => {
                current_label = next_label;
                remaining = remaining - 1;
            },
            LlvmExecFlow::Return(value) => return Ok(value),
        }
    }
}

/// Run the function named `function_name` with the given arguments.
pub fn llvmulator_execute_function_named(
    emulator: &Llvmulator,
    ast: &LlvmSymTable,
    function_name: &ByteString,
    arguments: &Vec<LlvmTypedValue>,
    fuel: usize,
) -> (r: Result<usize, EmulationError>)
    requires
        st_wf(*ast),
        emu_globals(*emulator).wf(),
    ensures
        r == call_value(
            st_functions(*ast),
            emu_globals(*emulator)@,
            function_name@,
            arguments@,
            fuel as nat,
        ),
    decreases fuel, 1nat,
{
    match llvmSymTable_find_function(ast, function_name) {
        Some(function) => llvmulator_execute_function(emulator, ast, function, arguments, fuel),
        None => Err(EmulationError::UnknownFunction),
    }
}

/// The result of running `@main` of a program without arguments, with no
/// globals and `fuel` calls and jumps.
pub open spec fn main_result(functions: Map<Seq<u8>, LlvmFunction>, fuel: nat) -> Result<
    usize,
    EmulationError,
> {
    call_value(
        functions,
        Map::empty(),
        vstd::string::StringSliceAdditionalSpecFns::spec_bytes("main"),
        Seq::empty(),
        fuel,
    )
}

/// Calling a function with more fuel gives the same result, once it does not
/// run out.
pub proof fn lemma_run_function_fuel(
    functions: Map<Seq<u8>, LlvmFunction>,
    globals: Map<Seq<u8>, usize>,
    f: LlvmFunction,
    args: Seq<LlvmTypedValue>,
    fuel: nat,
    more: nat,
)
    requires
        run_function(functions, globals, f, args, fuel) != Err::<usize, EmulationError>(
            EmulationError::OutOfFuel,
        ),
        fuel <= more,
    ensures
        run_function(functions, globals, f, args, more) == run_function(functions, globals, f, args, fuel),
    decreases fuel, 0nat,
{
    let LlvmFunction::Function(_, params, blocks) = f;
    if fuel > 0 && params@.len() == args.len() {
        if let Ok(regs) = bind_parameters(globals, params@, args, Map::empty(), 0) {
            if let Some(label) = first_label(blocks) {
                lemma_run_blocks_fuel(
                    functions,
                    globals,
                    blocks,
                    label,
                    regs,
                    (fuel - 1) as nat,
                    (more - 1) as nat,
                );
            }
        }
    }
}

/// Running blocks with more fuel gives the same result, once it does not run
/// out.
pub proof fn lemma_run_blocks_fuel(
    functions: Map<Seq<u8>, LlvmFunction>,
    globals: Map<Seq<u8>, usize>,
    blocks: InstructionBlockList,
    label: Seq<u8>,
    regs: Map<Seq<u8>, usize>,
    fuel: nat,
    more: nat,
)
    requires
        run_blocks(functions, globals, blocks, label, regs, fuel) != Err::<usize, EmulationError>(
            EmulationError::OutOfFuel,
        ),
        fuel <= more,
    ensures
        run_blocks(functions, globals, blocks, label, regs, more) == run_blocks(
            functions,
            globals,
            blocks,
            label,
            regs,
            fuel,
        ),
    decreases fuel, 0nat,
{
    if fuel > 0 {
        if let Some(instructions) = find_block(blocks, label) {
            let r = run_instructions(functions, globals, instructions, regs, (fuel - 1) as nat);
            if r != Err::<(Flow, Map<Seq<u8>, usize>), EmulationError>(EmulationError::OutOfFuel) {
                lemma_run_instructions_fuel(
                    functions,
                    globals,
                    instructions,
                    regs,
                    (fuel - 1) as nat,
                    (more - 1) as nat,
                );
                if let Ok((Flow::Jump(next), regs2)) = r {
                    lemma_run_blocks_fuel(
                        functions,
                        globals,
                        blocks,
                        next,
                        regs2,
                        (fuel - 1) as nat,
                        (more - 1) as nat,
                    );
                }
            }
        }
    }
}

/// Running instructions with more fuel gives the same result, once it does
/// not run out.
pub proof fn lemma_run_instructions_fuel(
    functions: Map<Seq<u8>, LlvmFunction>,
    globals: Map<Seq<u8>, usize>,
    instructions: InstructionList,
    regs: Map<Seq<u8>, usize>,
    fuel: nat,
    more: nat,
)
    requires
        run_instructions(functions, globals, instructions, regs, fuel) != Err::<
            (Flow, Map<Seq<u8>, usize>),
            EmulationError,
        >(EmulationError::OutOfFuel),
        fuel <= more,
    ensures
        run_instructions(functions, globals, instructions, regs, more) == run_instructions(
            functions,
            globals,
            instructions,
            regs,
            fuel,
        ),
    decreases fuel, instruction_seq(instructions).len() + 3,
{
    if let InstructionList::Cons(Instruction::Assignment(AssignInstruction::Assign(target, op)), tail) =
        instructions {
        let v = assign_value(functions, globals, regs, op, fuel);
        if v != Err::<usize, EmulationError>(EmulationError::OutOfFuel) {
            lemma_assign_value_fuel(functions, globals, regs, op, fuel, more);
            if let Ok(x) = v {
                assert(instruction_seq(instructions) == seq![instructions->Cons_0] + instruction_seq(*tail));
                lemma_run_instructions_fuel(functions, globals, *tail, regs.insert(target@, x), fuel, more);
            }
        }
    }
}

/// An assignment's value with more fuel is the same, once it does not run out.
pub proof fn lemma_assign_value_fuel(
    functions: Map<Seq<u8>, LlvmFunction>,
    globals: Map<Seq<u8>, usize>,
    regs: Map<Seq<u8>, usize>,
    op: AssignOp,
    fuel: nat,
    more: nat,
)
    requires
        assign_value(functions, globals, regs, op, fuel) != Err::<usize, EmulationError>(
            EmulationError::OutOfFuel,
        ),
        fuel <= more,
    ensures
        assign_value(functions, globals, regs, op, more) == assign_value(functions, globals, regs, op, fuel),
    decreases fuel, 2nat,
{
    if let AssignOp::Call(_, callee, arguments) = op {
        lemma_call_value_fuel(functions, globals, callee@, arguments@, fuel, more);
    }
}

/// A call's value with more fuel is the same, once it does not run out.
pub proof fn lemma_call_value_fuel(
    functions: Map<Seq<u8>, LlvmFunction>,
    globals: Map<Seq<u8>, usize>,
    name: Seq<u8>,
    args: Seq<LlvmTypedValue>,
    fuel: nat,
    more: nat,
)
    requires
        call_value(functions, globals, name, args, fuel) != Err::<usize, EmulationError>(
            EmulationError::OutOfFuel,
        ),
        fuel <= more,
    ensures
        call_value(functions, globals, name, args, more) == call_value(functions, globals, name, args, fuel),
    decreases fuel, 1nat,
{
    if functions.contains_key(name) {
        lemma_run_function_fuel(functions, globals, functions[name], args, fuel, more);
    }
}

/// Fuel only bounds the run: once `@main` finishes with some fuel, without
/// running out, any more fuel gives the same result.
pub proof fn law_main_result_fuel(functions: Map<Seq<u8>, LlvmFunction>, fuel: nat, more: nat)
    requires
        main_result(functions, fuel) != Err::<usize, EmulationError>(EmulationError::OutOfFuel),
        fuel <= more,
    ensures
        main_result(functions, more) == main_result(functions, fuel),
{
    lemma_call_value_fuel(
        functions,
        Map::empty(),
        vstd::string::StringSliceAdditionalSpecFns::spec_bytes("main"),
        Seq::empty(),
        fuel,
        more,
    );
}

/// The result of `@main` does not depend on the fuel: any two runs that do not
/// run out give the same result.
pub proof fn law_main_result_fuel_independent(
    functions: Map<Seq<u8>, LlvmFunction>,
    fuel1: nat,
    fuel2: nat,
)
    requires
        main_result(functions, fuel1) != Err::<usize, EmulationError>(EmulationError::OutOfFuel),
        main_result(functions, fuel2) != Err::<usize, EmulationError>(EmulationError::OutOfFuel),
    ensures
        main_result(functions, fuel1) == main_result(functions, fuel2),
{
    if fuel1 <= fuel2 {
        law_main_result_fuel(functions, fuel1, fuel2);
    } else {
        law_main_result_fuel(functions, fuel2, fuel1);
    }
}

/// Run `@main` of a parsed program, with as much fuel as a `usize` holds.
pub fn llvmulator_run_main(ast: &LlvmSymTable) -> (r: Result<usize, EmulationError>)
    requires
        st_wf(*ast),
    ensures
        r == main_result(st_functions(*ast), usize::MAX as nat),
        forall|fuel: nat|
            fuel <= usize::MAX && #[trigger] main_result(st_functions(*ast), fuel) != Err::<
                usize,
                EmulationError,
            >(EmulationError::OutOfFuel) ==> r == main_result(st_functions(*ast), fuel),
{
    proof {
        assert forall|fuel: nat|
            fuel <= usize::MAX && #[trigger] main_result(st_functions(*ast), fuel) != Err::<
                usize,
                EmulationError,
            >(EmulationError::OutOfFuel) implies main_result(st_functions(*ast), usize::MAX as nat)
            == main_result(st_functions(*ast), fuel) by {
            law_main_result_fuel(st_functions(*ast), fuel, usize::MAX as nat);
        }
    }
    let emulator: Llvmulator = llvmulator_new();
    let main_name: ByteString = string_from_str("main");
    let empty_args: Vec<LlvmTypedValue> = Vec::new();
    llvmulator_execute_function_named(&emulator, ast, &main_name, &empty_args, usize::MAX)
}

/// Parse LLVM-IR and run its `@main`; a program that does not parse gives
/// the parse error.
pub fn llvm_emulate_source_str(source: &str) -> (r: Result<usize, EmulationError>)
    requires
        vstd::string::StringSliceAdditionalSpecFns::spec_bytes(source).len() + 2 < usize::MAX,
    ensures
        exists|b: ByteString|
            #![trigger b@]
            b@ == vstd::string::StringSliceAdditionalSpecFns::spec_bytes(source) && match crate::llvm_parser_spec::l_program(
                crate::rust_lexer::SourceFile::SourceFile(
                    b,
                    0,
                    crate::rust_lexer::SourceLocation::Coords(1, 1),
                ),
            ) {
                Err(e) => r == Err::<usize, EmulationError>(EmulationError::Parse(e)),
                Ok((views, _)) => exists|functions: Map<Seq<u8>, LlvmFunction>|
                    #![trigger crate::llvm_ast::function_views(functions)]
                    crate::llvm_ast::function_views(functions) == views
                        && crate::llvm_parser::functions_terminated(functions) && main_result(
                        functions,
                        usize::MAX as nat,
                    ) == r,
            },
{
    let parsed = llvmParser_parse_to_ast(source);
    let ghost b = choose|b: ByteString|
        #![trigger b@]
        b@ == vstd::string::StringSliceAdditionalSpecFns::spec_bytes(source) && crate::llvm_parser_spec::l_program(
            crate::rust_lexer::SourceFile::SourceFile(b, 0, crate::rust_lexer::SourceLocation::Coords(1, 1)),
        ) == match parsed {
            Ok(t) => Ok::<
                (
                    Map<Seq<u8>, crate::llvm_ast::FunctionV>,
                    Map<Seq<u8>, Seq<u8>>,
                ),
                CompileError,
            >((crate::llvm_ast::st_function_views(t), crate::llvm_ast::st_string_views(t))),
            Err(e) => Err(e),
        };
    let r = match parsed {
        Ok(ast) => {
            let r = llvmulator_run_main(&ast);
            assert(crate::llvm_ast::function_views(st_functions(ast)) == crate::llvm_ast::st_function_views(
                ast,
            ));
            r
        },
        Err(e) => Err(EmulationError::Parse(e)),
    };
    assert(b@ == vstd::string::StringSliceAdditionalSpecFns::spec_bytes(source));
    r
}

} // verus!
