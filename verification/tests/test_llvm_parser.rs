use srs_compiler::llvm_ast::{
    AssignInstruction, AssignOp, BinaryOp, Instruction, InstructionBlock, InstructionBlockList,
    InstructionList, LlvmFunction, LlvmSymTable, LlvmType, LlvmValue, TerminatorInstruction,
    instructionBlockListBox_deref, instructionListBox_deref, llvmSymTable_lookup_function,
    llvmType_eq,
};
use srs_compiler::llvm_parser::llvmParser_parse_to_ast;
use srs_compiler::text::{ByteString, string_eq, string_from_str};

fn llvm_test_block_count(blocks: &InstructionBlockList) -> usize {
    match blocks {
        InstructionBlockList::Nil => 0,
        InstructionBlockList::Cons(_, tail) => {
            1 + llvm_test_block_count(instructionBlockListBox_deref(tail))
        }
    }
}

#[test]
fn test_llvm_parse_simple_implicit_entry_block() {
    let source: &str = "
define i64 @main() {
  %x = add i64 40, 2
  ret i64 %x
}";
    let symtable: LlvmSymTable = llvmParser_parse_to_ast(source).expect("parsing succeeds");
    let function_name: ByteString = string_from_str("main");
    let function: &LlvmFunction = llvmSymTable_lookup_function(&symtable, &function_name);
    match function {
        LlvmFunction::Function(return_type, _, blocks) => {
            assert!(llvmType_eq(return_type, &LlvmType::I64));
            assert_eq!(llvm_test_block_count(blocks), 1);

            match blocks {
                InstructionBlockList::Cons(block, _) => match block {
                    InstructionBlock::Block(label, instructions) => {
                        assert!(string_eq(label, &string_from_str("entry")));
                        match instructions {
                            InstructionList::Cons(first, tail) => {
                                match first {
                                    Instruction::Assignment(AssignInstruction::Assign(
                                        name,
                                        AssignOp::Binary(
                                            BinaryOp::Add,
                                            ty,
                                            LlvmValue::Literal(40),
                                            LlvmValue::Literal(2),
                                        ),
                                    )) => {
                                        assert!(string_eq(name, &string_from_str("x")));
                                        assert!(llvmType_eq(ty, &LlvmType::I64));
                                    }
                                    _ => assert!(false, "unexpected first instruction"),
                                }
                                match instructionListBox_deref(tail) {
                                    InstructionList::Cons(second, _) => match second {
                                        Instruction::Terminator(TerminatorInstruction::Ret(
                                            ret_ty,
                                            LlvmValue::Register(name),
                                        )) => {
                                            assert!(llvmType_eq(ret_ty, &LlvmType::I64));
                                            assert!(string_eq(name, &string_from_str("x")));
                                        }
                                        _ => assert!(false, "unexpected return instruction"),
                                    },
                                    _ => assert!(false, "missing return instruction"),
                                }
                            }
                            _ => assert!(false, "missing assignment instruction"),
                        }
                    }
                },
                InstructionBlockList::Nil => assert!(false, "expected one block"),
            }
        }
    }
}
