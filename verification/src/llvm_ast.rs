//! The syntax tree of LLVM-IR programs and the tables the LLVM parser fills.
use vstd::prelude::*;
use crate::collections::{List, StringMap, list_append, list_new, stringMap_get, stringMap_insert, stringMap_new};
use crate::text::{ByteString, string_eq, string_from_str};

verus! {

/// Supported types of LLVM-IR.
#[derive(Debug)]
pub enum LlvmType {
    I1,
    I8,
    I32,
    I64,
    Ptr,
    /// length, element type
    Array(usize, Box<LlvmType>),
    Void,
}

/// Check whether two LLVM types are equal.
pub fn llvmType_eq(left: &LlvmType, right: &LlvmType) -> (r: bool)
    ensures
        r == (*left == *right),
    decreases left,
{
    match left {
        LlvmType::I1 => matches!(right, LlvmType::I1),
        LlvmType::I8 => matches!(right, LlvmType::I8),
        LlvmType::I32 => matches!(right, LlvmType::I32),
        LlvmType::I64 => matches!(right, LlvmType::I64),
        LlvmType::Ptr => matches!(right, LlvmType::Ptr),
        LlvmType::Void => matches!(right, LlvmType::Void),
        LlvmType::Array(left_len, left_inner) => match right {
            LlvmType::Array(right_len, right_inner) => {
                if *left_len != *right_len {
                    false
                } else {
                    let r = llvmType_eq(&**left_inner, &**right_inner);
                    proof {
                        if !r && *left == *right {
                            assert(*left->Array_1 == *right->Array_1);
                        }
                    }
                    r
                }
            },
            _ => false,
        },
    }
}

/// A value in a register, a global, or a literal.
#[derive(Debug)]
pub enum LlvmValue {
    /// register name
    Register(ByteString),
    /// integer value
    Literal(usize),
    /// global name
    Global(ByteString),
}

/// A value with its type.
#[derive(Debug)]
pub enum LlvmTypedValue {
    Pair(LlvmType, LlvmValue),
}

/// Binary operations of assignments.
#[derive(Debug, PartialEq, Eq, Structural, Clone, Copy)]
pub enum BinaryOp {
    Add,
    Sub,
    Mul,
    Udiv,
    Urem,
    IcmpUlt,
}

/// The right-hand side of an assignment.
#[derive(Debug)]
pub enum AssignOp {
    /// operation, type, left operand, right operand
    Binary(BinaryOp, LlvmType, LlvmValue, LlvmValue),
    /// return type, callee, arguments
    Call(LlvmType, ByteString, Vec<LlvmTypedValue>),
    /// type, pointer, indexes
    Gep(LlvmType, LlvmValue, Vec<LlvmTypedValue>),
}

/// An assignment to a register.
#[derive(Debug)]
pub enum AssignInstruction {
    Assign(ByteString, AssignOp),
}

/// `br`: a jump, unconditional or on a condition.
#[derive(Debug)]
pub enum Branch {
    /// label
    Unconditional(ByteString),
    /// condition, then label, else label
    Conditional(LlvmValue, ByteString, ByteString),
}

/// An instruction that ends a block.
#[derive(Debug)]
pub enum TerminatorInstruction {
    RetVoid,
    /// type, value
    Ret(LlvmType, LlvmValue),
    Br(Branch),
}

/// An instruction of a block.
#[derive(Debug)]
pub enum Instruction {
    Assignment(AssignInstruction),
    Terminator(TerminatorInstruction),
}

/// The instructions of a block, in order.
#[derive(Debug)]
pub enum InstructionList {
    Cons(Instruction, Box<InstructionList>),
    Nil,
}

/// A labelled block of instructions.
#[derive(Debug)]
pub enum InstructionBlock {
    /// label, instructions
    Block(ByteString, InstructionList),
}

/// The blocks of a function, in order.
#[derive(Debug)]
pub enum InstructionBlockList {
    Cons(InstructionBlock, Box<InstructionBlockList>),
    Nil,
}

/// A parameter of a function.
#[derive(Debug)]
pub enum LlvmParameter {
    /// name, type
    Parameter(ByteString, LlvmType),
}

/// A function definition.
#[derive(Debug)]
pub enum LlvmFunction {
    /// return type, parameters, blocks
    Function(LlvmType, Vec<LlvmParameter>, InstructionBlockList),
}

/// The instruction list a box holds.
pub fn instructionListBox_deref(list: &Box<InstructionList>) -> (r: &InstructionList)
    ensures
        *r == **list,
{
    &**list
}

/// The block list a box holds.
pub fn instructionBlockListBox_deref(list: &Box<InstructionBlockList>) -> (r: &InstructionBlockList)
    ensures
        *r == **list,
{
    &**list
}

/// The label of a block.
pub fn instructionBlock_label(instruction_block: &InstructionBlock) -> (r: &ByteString)
    ensures
        instruction_block matches InstructionBlock::Block(label, _) && *r == label,
{
    let InstructionBlock::Block(label, _) = instruction_block;
    label
}

/// The instructions of a block.
pub fn instructionBlock_instructions(instruction_block: &InstructionBlock) -> (r: &InstructionList)
    ensures
        instruction_block matches InstructionBlock::Block(_, instructions) && *r == instructions,
{
    let InstructionBlock::Block(_, instructions) = instruction_block;
    instructions
}

/// The instructions of the first block labelled `label`.
pub open spec fn find_block(blocks: InstructionBlockList, label: Seq<u8>) -> Option<InstructionList>
    decreases blocks,
{
    match blocks {
        InstructionBlockList::Nil => None,
        InstructionBlockList::Cons(InstructionBlock::Block(l, instructions), tail) => if l@ == label {
            Some(instructions)
        } else {
            find_block(*tail, label)
        },
    }
}

/// Get the instructions of the block labelled `label`; `None` if there is none.
pub fn instructionBlock_fetch_instructions<'a>(blocks: &'a InstructionBlockList, label: &ByteString) -> (r:
    Option<&'a InstructionList>)
    ensures
        match r {
            Some(instructions) => find_block(*blocks, label@) == Some(*instructions),
            None => find_block(*blocks, label@) is None,
        },
{
    let mut cursor: &InstructionBlockList = blocks;
    loop
        invariant
            find_block(*cursor, label@) == find_block(*blocks, label@),
        decreases *cursor,
    {
        match cursor {
            InstructionBlockList::Cons(block, tail) => {
                if string_eq(instructionBlock_label(block), label) {
                    return Some(instructionBlock_instructions(block));
                }
                cursor = &**tail;
            },
            InstructionBlockList::Nil => return None,
        }
    }
}


// ------------------------------------------------------------------
// Values of the syntax tree
// ------------------------------------------------------------------

/// The value of an operand: names as bytes.
pub enum LValueV {
    Register(Seq<u8>),
    Literal(usize),
    Global(Seq<u8>),
}

/// The value of an assignment's operation.
pub enum AssignOpV {
    Binary(BinaryOp, LlvmType, LValueV, LValueV),
    Call(LlvmType, Seq<u8>, Seq<(LlvmType, LValueV)>),
    Gep(LlvmType, LValueV, Seq<(LlvmType, LValueV)>),
}

/// The value of a terminator instruction.
pub enum TerminatorV {
    RetVoid,
    Ret(LlvmType, LValueV),
    Br(Seq<u8>),
    BrIf(LValueV, Seq<u8>, Seq<u8>),
}

/// The value of an instruction.
pub enum InstructionV {
    Assign(Seq<u8>, AssignOpV),
    Terminator(TerminatorV),
}

/// The value of a block: its label and instructions.
pub type BlockV = (Seq<u8>, Seq<InstructionV>);

/// The value of a function: return type, parameters (name, type), blocks.
pub type FunctionV = (LlvmType, Seq<(Seq<u8>, LlvmType)>, Seq<BlockV>);

pub open spec fn value_view(v: LlvmValue) -> LValueV {
    match v {
        LlvmValue::Register(n) => LValueV::Register(n@),
        LlvmValue::Literal(x) => LValueV::Literal(x),
        LlvmValue::Global(n) => LValueV::Global(n@),
    }
}

pub open spec fn typed_view(v: LlvmTypedValue) -> (LlvmType, LValueV) {
    let LlvmTypedValue::Pair(t, x) = v;
    (t, value_view(x))
}

pub open spec fn typed_seq_view(v: Seq<LlvmTypedValue>) -> Seq<(LlvmType, LValueV)> {
    v.map_values(|x: LlvmTypedValue| typed_view(x))
}

pub open spec fn assign_op_view(op: AssignOp) -> AssignOpV {
    match op {
        AssignOp::Binary(o, t, l, r) => AssignOpV::Binary(o, t, value_view(l), value_view(r)),
        AssignOp::Call(t, callee, args) => AssignOpV::Call(t, callee@, typed_seq_view(args@)),
        AssignOp::Gep(t, pointer, indexes) => AssignOpV::Gep(
            t,
            value_view(pointer),
            typed_seq_view(indexes@),
        ),
    }
}

pub open spec fn terminator_view(t: TerminatorInstruction) -> TerminatorV {
    match t {
        TerminatorInstruction::RetVoid => TerminatorV::RetVoid,
        TerminatorInstruction::Ret(ty, v) => TerminatorV::Ret(ty, value_view(v)),
        TerminatorInstruction::Br(Branch::Unconditional(l)) => TerminatorV::Br(l@),
        TerminatorInstruction::Br(Branch::Conditional(c, a, b)) => TerminatorV::BrIf(
            value_view(c),
            a@,
            b@,
        ),
    }
}

pub open spec fn instruction_view(i: Instruction) -> InstructionV {
    match i {
        Instruction::Assignment(AssignInstruction::Assign(target, op)) => InstructionV::Assign(
            target@,
            assign_op_view(op),
        ),
        Instruction::Terminator(t) => InstructionV::Terminator(terminator_view(t)),
    }
}

/// The instructions of a list, in order.
pub open spec fn instruction_seq(l: InstructionList) -> Seq<Instruction>
    decreases l,
{
    match l {
        InstructionList::Cons(head, tail) => seq![head] + instruction_seq(*tail),
        InstructionList::Nil => Seq::empty(),
    }
}

/// The blocks of a list, in order.
pub open spec fn block_seq(l: InstructionBlockList) -> Seq<InstructionBlock>
    decreases l,
{
    match l {
        InstructionBlockList::Cons(head, tail) => seq![head] + block_seq(*tail),
        InstructionBlockList::Nil => Seq::empty(),
    }
}

pub open spec fn instructions_view(s: Seq<Instruction>) -> Seq<InstructionV> {
    s.map_values(|i: Instruction| instruction_view(i))
}

pub open spec fn block_view(b: InstructionBlock) -> BlockV {
    let InstructionBlock::Block(label, instructions) = b;
    (label@, instructions_view(instruction_seq(instructions)))
}

pub open spec fn blocks_view(s: Seq<InstructionBlock>) -> Seq<BlockV> {
    s.map_values(|b: InstructionBlock| block_view(b))
}

pub open spec fn parameter_view(p: LlvmParameter) -> (Seq<u8>, LlvmType) {
    let LlvmParameter::Parameter(name, t) = p;
    (name@, t)
}

pub open spec fn parameters_view(s: Seq<LlvmParameter>) -> Seq<(Seq<u8>, LlvmType)> {
    s.map_values(|p: LlvmParameter| parameter_view(p))
}

pub open spec fn function_view(f: LlvmFunction) -> FunctionV {
    let LlvmFunction::Function(t, parameters, blocks) = f;
    (t, parameters_view(parameters@), blocks_view(block_seq(blocks)))
}

/// Functions by their values.
pub open spec fn function_views(m: Map<Seq<u8>, LlvmFunction>) -> Map<Seq<u8>, FunctionV> {
    m.map_values(|f: LlvmFunction| function_view(f))
}

/// The functions of a table, by their values.
pub open spec fn st_function_views(s: LlvmSymTable) -> Map<Seq<u8>, FunctionV> {
    function_views(st_functions(s))
}

/// The global strings of a table, as bytes.
pub open spec fn st_string_views(s: LlvmSymTable) -> Map<Seq<u8>, Seq<u8>> {
    st_strings(s).map_values(|b: ByteString| b@)
}

// ------------------------------------------------------------------
// The symbol tables
// ------------------------------------------------------------------

/// The functions and global strings of a program.
#[derive(Debug)]
pub enum LlvmSymTable {
    /// functions by name, global strings by name
    Table(StringMap<LlvmFunction>, StringMap<ByteString>),
}

pub open spec fn st_functions(s: LlvmSymTable) -> Map<Seq<u8>, LlvmFunction> {
    let LlvmSymTable::Table(f, _) = s;
    f@
}

pub open spec fn st_strings(s: LlvmSymTable) -> Map<Seq<u8>, ByteString> {
    let LlvmSymTable::Table(_, g) = s;
    g@
}

/// Both maps are well formed.
pub open spec fn st_wf(s: LlvmSymTable) -> bool {
    let LlvmSymTable::Table(f, g) = s;
    f.wf() && g.wf()
}

/// An empty table.
pub fn llvmSymTable_new() -> (r: LlvmSymTable)
    ensures
        st_wf(r),
        st_functions(r) == Map::<Seq<u8>, LlvmFunction>::empty(),
        st_strings(r) == Map::<Seq<u8>, ByteString>::empty(),
{
    LlvmSymTable::Table(stringMap_new::<LlvmFunction>(), stringMap_new::<ByteString>())
}

/// Insert a function; false (and no change) when one of that name exists.
pub fn llvmSymTable_insert_function(symtable: &mut LlvmSymTable, name: ByteString, function: LlvmFunction) -> (r:
    bool)
    requires
        st_wf(*old(symtable)),
    ensures
        st_wf(*final(symtable)),
        r == !st_functions(*old(symtable)).contains_key(name@),
        r ==> st_functions(*final(symtable)) == st_functions(*old(symtable)).insert(name@, function),
        !r ==> st_functions(*final(symtable)) == st_functions(*old(symtable)),
        st_strings(*final(symtable)) == st_strings(*old(symtable)),
{
    let LlvmSymTable::Table(functions, _) = symtable;
    match stringMap_get::<LlvmFunction>(functions, &name) {
        Some(_) => false,
        None => {
            stringMap_insert::<LlvmFunction>(functions, name, function);
            true
        },
    }
}

/// The function named `name`.
pub fn llvmSymTable_lookup_function<'a>(symtable: &'a LlvmSymTable, name: &ByteString) -> (r: &'a LlvmFunction)
    requires
        st_wf(*symtable),
        st_functions(*symtable).contains_key(name@),
    ensures
        *r == st_functions(*symtable)[name@],
{
    let LlvmSymTable::Table(functions, _) = symtable;
    match stringMap_get::<LlvmFunction>(functions, name) {
        Some(function) => function,
        None => unreached(),
    }
}

/// The function named `name`, if there is one.
pub fn llvmSymTable_find_function<'a>(symtable: &'a LlvmSymTable, name: &ByteString) -> (r: Option<
    &'a LlvmFunction,
>)
    requires
        st_wf(*symtable),
    ensures
        match r {
            Some(f) => st_functions(*symtable).contains_key(name@) && *f == st_functions(
                *symtable,
            )[name@],
            None => !st_functions(*symtable).contains_key(name@),
        },
{
    let LlvmSymTable::Table(functions, _) = symtable;
    stringMap_get::<LlvmFunction>(functions, name)
}

/// Record a global string; a later one of the same name replaces it.
pub fn llvmSymTable_insert_string(symtable: &mut LlvmSymTable, name: ByteString, value: ByteString)
    requires
        st_wf(*old(symtable)),
    ensures
        st_wf(*final(symtable)),
        st_functions(*final(symtable)) == st_functions(*old(symtable)),
        st_strings(*final(symtable)) == st_strings(*old(symtable)).insert(name@, value),
{
    let LlvmSymTable::Table(_, strings) = symtable;
    stringMap_insert::<ByteString>(strings, name, value);
}

/// The global string named `name`.
pub fn llvmSymTable_lookup_string<'a>(symtable: &'a LlvmSymTable, name: &ByteString) -> (r: &'a ByteString)
    requires
        st_wf(*symtable),
        st_strings(*symtable).contains_key(name@),
    ensures
        *r == st_strings(*symtable)[name@],
{
    let LlvmSymTable::Table(_, strings) = symtable;
    match stringMap_get::<ByteString>(strings, name) {
        Some(value) => value,
        None => unreached(),
    }
}

/// A virtual register of a function.
#[derive(Debug)]
pub enum LlvmLocalSymTableEntry {
    /// name, value
    Register(ByteString, usize),
}

/// The registers of the function being parsed, in order of definition.
#[derive(Debug)]
pub enum LlvmLocalSymTable {
    Registers(List<LlvmLocalSymTableEntry>),
}

/// The names of the registers, in order of definition.
pub open spec fn register_names(t: LlvmLocalSymTable) -> Seq<Seq<u8>> {
    let LlvmLocalSymTable::Registers(l) = t;
    l@.map_values(|e: LlvmLocalSymTableEntry| match e {
        LlvmLocalSymTableEntry::Register(name, _) => name@,
    })
}

/// The name of a register entry.
pub open spec fn register_entry_name(e: LlvmLocalSymTableEntry) -> Seq<u8> {
    let LlvmLocalSymTableEntry::Register(name, _) = e;
    name@
}

/// A copy of a register entry.
pub fn llvmLocalSymTableEntry_clone(entry: &LlvmLocalSymTableEntry) -> (r: LlvmLocalSymTableEntry)
    ensures
        ({
            let LlvmLocalSymTableEntry::Register(name, value) = *entry;
            let LlvmLocalSymTableEntry::Register(r_name, r_value) = r;
            r_name@ == name@ && r_value == value
        }),
{
    match entry {
        LlvmLocalSymTableEntry::Register(name, value) => LlvmLocalSymTableEntry::Register(
            crate::text::string_clone(name),
            *value,
        ),
    }
}

/// A copy of a register table: the same registers in the same order.
pub fn llvmLocalSymTable_clone(symtable: &LlvmLocalSymTable) -> (r: LlvmLocalSymTable)
    ensures
        register_names(r) == register_names(*symtable),
        register_entries(r) == register_entries(*symtable),
{
    let LlvmLocalSymTable::Registers(entries) = symtable;
    let copied: List<LlvmLocalSymTableEntry> = crate::collections::list_clone::<LlvmLocalSymTableEntry>(
        entries,
        llvmLocalSymTableEntry_clone,
    );
    let r = LlvmLocalSymTable::Registers(copied);
    proof {
        assert forall|i: int| 0 <= i < entries@.len() implies register_entry_name(copied@[i])
            == register_entry_name(entries@[i]) && register_entries(r)[i] == register_entries(
            *symtable,
        )[i] by {
            assert(call_ensures(llvmLocalSymTableEntry_clone, (&entries@[i],), copied@[i]));
        }
        assert(register_names(r) =~= register_names(*symtable));
        assert(register_entries(r) =~= register_entries(*symtable));
    }
    r
}

/// The registers, each as its name and value, in order of definition.
pub open spec fn register_entries(t: LlvmLocalSymTable) -> Seq<(Seq<u8>, usize)> {
    let LlvmLocalSymTable::Registers(l) = t;
    l@.map_values(|e: LlvmLocalSymTableEntry| match e {
        LlvmLocalSymTableEntry::Register(name, value) => (name@, value),
    })
}

/// An empty register table.
pub fn llvmLocalSymTable_new() -> (r: LlvmLocalSymTable)
    ensures
        register_names(r) == Seq::<Seq<u8>>::empty(),
        register_entries(r) == Seq::<(Seq<u8>, usize)>::empty(),
{
    let r = LlvmLocalSymTable::Registers(list_new::<LlvmLocalSymTableEntry>());
    assert(register_entries(r) =~= Seq::<(Seq<u8>, usize)>::empty());
    r
}

/// Forget all registers.
pub fn llvmLocalSymTable_clear(symtable: &mut LlvmLocalSymTable)
    ensures
        register_names(*final(symtable)) == Seq::<Seq<u8>>::empty(),
        register_entries(*final(symtable)) == Seq::<(Seq<u8>, usize)>::empty(),
{
    let LlvmLocalSymTable::Registers(registers) = symtable;
    *registers = list_new::<LlvmLocalSymTableEntry>();
    assert(register_names(*symtable) =~= Seq::<Seq<u8>>::empty());
    assert(register_entries(*symtable) =~= Seq::<(Seq<u8>, usize)>::empty());
}

/// Whether a register list names `name`.
fn registers_contain(registers: &List<LlvmLocalSymTableEntry>, name: &ByteString) -> (r: bool)
    ensures
        r == registers@.map_values(|e: LlvmLocalSymTableEntry| match e {
            LlvmLocalSymTableEntry::Register(n, _) => n@,
        }).contains(name@),
    decreases registers,
{
    let ghost names = registers@.map_values(|e: LlvmLocalSymTableEntry| match e {
        LlvmLocalSymTableEntry::Register(n, _) => n@,
    });
    match registers {
        List::Nil => false,
        List::Cons(entry, tail) => {
            let ghost tail_names = tail@.map_values(|e: LlvmLocalSymTableEntry| match e {
                LlvmLocalSymTableEntry::Register(n, _) => n@,
            });
            assert(names =~= seq![names[0]] + tail_names);
            let LlvmLocalSymTableEntry::Register(register_name, _) = entry;
            if string_eq(register_name, name) {
                assert(names[0] == name@);
                true
            } else {
                let r = registers_contain(&**tail, name);
                proof {
                    if r {
                        let i = choose|i: int| 0 <= i < tail_names.len() && tail_names[i] == name@;
                        assert(names[i + 1] == name@);
                    }
                    if names.contains(name@) {
                        let i = choose|i: int| 0 <= i < names.len() && names[i] == name@;
                        if i > 0 {
                            assert(tail_names[i - 1] == name@);
                        }
                    }
                }
                r
            }
        },
    }
}

/// Define a register; false (and no change) when it is already defined.
pub fn llvmLocalSymTable_insert_register(symtable: &mut LlvmLocalSymTable, name: ByteString, value: usize) -> (r:
    bool)
    ensures
        r == !register_names(*old(symtable)).contains(name@),
        r ==> register_names(*final(symtable)) == register_names(*old(symtable)).push(name@),
        !r ==> register_names(*final(symtable)) == register_names(*old(symtable)),
        r ==> register_entries(*final(symtable)) == register_entries(*old(symtable)).push((name@, value)),
        !r ==> register_entries(*final(symtable)) == register_entries(*old(symtable)),
{
    let LlvmLocalSymTable::Registers(registers) = symtable;
    if registers_contain(registers, &name) {
        return false;
    }
    let ghost n = name@;
    list_append::<LlvmLocalSymTableEntry>(registers, LlvmLocalSymTableEntry::Register(name, value));
    assert(register_names(*symtable) =~= register_names(*old(symtable)).push(n));
    assert(register_entries(*symtable) =~= register_entries(*old(symtable)).push((n, value)));
    true
}

/// The label of a block that has none written: the function's entry block.
pub fn entry_label() -> (r: ByteString)
    ensures
        r@ == vstd::string::StringSliceAdditionalSpecFns::spec_bytes("entry"),
{
    string_from_str("entry")
}

} // verus!
