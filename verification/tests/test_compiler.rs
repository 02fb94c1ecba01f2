use srs_compiler::collections::{stringMap_get, stringMap_insert, stringMap_new};
use srs_compiler::core_lexer::{LexError, lex as core_lex};
use srs_compiler::emulator::{
    EmulationError, Llvmulator, llvm_emulate_source_str, llvmulator_execute_function_named,
    llvmulator_new,
};
use srs_compiler::llvm_ast::{
    LlvmTypedValue, llvmLocalSymTable_clone, llvmLocalSymTable_insert_register, llvmLocalSymTable_new,
    llvmSymTable_lookup_string,
};
use srs_compiler::llvm_lexer::{LlvmToken, llvmLexer_current_token, llvmLexer_new};
use srs_compiler::llvm_parser::llvmParser_parse_to_ast;
use srs_compiler::parser::parse_to_llvm;
use srs_compiler::rust_lexer::{CompileError, ErrorKind};
use srs_compiler::rust_types::{
    CastOperation, RAstType, type_can_cast_to, type_get_cast_operation, type_to_llvm_name,
};
use srs_compiler::text::{
    ByteString, integer_to_string, string_eq, string_from_str, string_hash, string_reverse,
    string_to_integer,
};
use srs_compiler::wrapper::{OptionToken, Token as CoreToken, vec_token_get, vec_token_len};

fn text_of(s: &ByteString) -> String {
    String::from_utf8(s.bytes.clone()).expect("ascii text")
}

fn compile(source: &str) -> Result<String, CompileError> {
    parse_to_llvm(source).map(|code| text_of(&code))
}

fn failure_kind(source: &str) -> ErrorKind {
    match parse_to_llvm(source) {
        Ok(code) => panic!("expected an error, got {}", text_of(&code)),
        Err(e) => e.kind,
    }
}

// ------------------------- Compiler ----------------------------

#[test]
fn test_compile_addition() {
    assert_eq!(
        compile("fn main() -> usize { 1 + 2 }").unwrap(),
        "define i64 @main() {\nentry:\n  %.t0 = add i64 1,2\n  ret i64 %.t0\n}\n"
    );
}

#[test]
fn test_compile_registers_are_numbered_in_order() {
    assert_eq!(
        compile("fn main() -> usize { 1 * 2 - 3 }").unwrap(),
        "define i64 @main() {\nentry:\n  %.t0 = mul i64 1,2\n  %.t1 = sub i64 %.t0,3\n  ret i64 %.t1\n}\n"
    );
}

#[test]
fn test_compile_comparison() {
    assert_eq!(
        compile("fn main() -> bool { 1 < 2 }").unwrap(),
        "define i1 @main() {\nentry:\n  %.t0 = icmp ult i64 1,2\n  ret i1 %.t0\n}\n"
    );
}

#[test]
fn test_compile_casts() {
    assert_eq!(
        compile("fn main() -> usize { 1 as u8 as usize }").unwrap(),
        "define i64 @main() {\nentry:\n  %.t0 = trunc i64 1 to i8\n  %.t1 = zext i8 %.t0 to i64\n  ret i64 %.t1\n}\n"
    );
}

#[test]
fn test_compile_parameter_and_binding() {
    assert_eq!(
        compile("fn f(a: u8) { let x: u8 = a; }").unwrap(),
        "  ; let a: i8\ndefine void @f() {\nentry:\n  ; let x: i8\n  ret void\n}\n"
    );
}

#[test]
fn test_compile_enum_and_empty_program() {
    assert_eq!(compile("enum E { A, B(usize), }").unwrap(), "; enum E\n");
    assert_eq!(compile("  // nothing\n").unwrap(), "");
}

#[test]
fn test_compile_reference_and_call() {
    assert_eq!(
        compile("fn g() -> usize { 7 } fn main() -> usize { g() }").unwrap(),
        "define i64 @g() {\nentry:\n  ret i64 7\n}\ndefine i64 @main() {\nentry:\n  ; call g\n  ret i64 \n}\n"
    );
    assert_eq!(
        compile("fn main() { let r: &usize = &1; }").unwrap(),
        "define void @main() {\nentry:\n  %.t0 = alloca i64, i64 1\n  store i64 1, ptr %.t0\n  ; let r: ptr\n  ret void\n}\n"
    );
}

#[test]
fn test_failure_kinds() {
    assert_eq!(failure_kind("fn main() -> usize { true }"), ErrorKind::TypeMismatch);
    assert_eq!(failure_kind("fn main() { x }"), ErrorKind::UndefinedVariable);
    assert_eq!(failure_kind("fn main() { 1 + true }"), ErrorKind::TypeMismatch);
    assert_eq!(failure_kind("struct S"), ErrorKind::ExpectedTopLevelItem);
    assert_eq!(failure_kind("fn f() {} fn f() {}"), ErrorKind::DuplicateFunctionName);
    assert_eq!(failure_kind("enum E { A, } enum E { B, }"), ErrorKind::DuplicateEnumName);
    assert_eq!(failure_kind("fn main() { g() }"), ErrorKind::CallToUndefinedFunction);
    assert_eq!(
        failure_kind("fn g(a: u8) {} fn main() { g() }"),
        ErrorKind::CallDoesNotMatchSignature
    );
    assert_eq!(failure_kind("fn main() -> char { true as char }"), ErrorKind::InvalidCast);
    assert_eq!(failure_kind("fn main() { true + true }"), ErrorKind::ExpectedNumericType);
    assert_eq!(failure_kind("fn main() { if 1 { } }"), ErrorKind::ExpectedBoolType);
    assert_eq!(failure_kind("fn main() { *1 }"), ErrorKind::CannotDereference);
    assert_eq!(failure_kind("fn main() { true < false }"), ErrorKind::CannotCompareNonIntegerValues);
    assert_eq!(failure_kind("fn main() { ; }"), ErrorKind::UnexpectedTokenInFactor);
    assert_eq!(failure_kind("fn main(x: ()) { }"), ErrorKind::UnexpectedToken);
    assert_eq!(failure_kind("fn main(x: ;) { }"), ErrorKind::ExpectedType);
    assert_eq!(failure_kind("fn 1() { }"), ErrorKind::ExpectedIdentifier);
    assert_eq!(failure_kind("fn main(;: u8) { }"), ErrorKind::ExpectedPattern);
    assert_eq!(
        failure_kind("fn main() -> usize { 99999999999999999999999 }"),
        ErrorKind::IntegerLiteralTooLarge
    );
    assert_eq!(failure_kind("fn main() { $ }"), ErrorKind::UnexpectedCharacter);
    assert_eq!(failure_kind("fn main() { \"abc }"), ErrorKind::UnexpectedEndOfStringLiteral);
}

#[test]
fn test_compile_two_parameters() {
    assert_eq!(
        compile("fn f(a: usize, b: usize) {}").unwrap(),
        "  ; let a: i64\n  ; let b: i64\ndefine void @f() {\nentry:\n  ret void\n}\n"
    );
}

#[test]
fn test_compile_duplicate_parameter() {
    assert_eq!(failure_kind("fn f(a: u8, a: u8) {}"), ErrorKind::DuplicateParameterName);
    assert_eq!(failure_kind("fn f(a: u8, b: u8, a: u8) {}"), ErrorKind::DuplicateParameterName);
}

#[test]
fn test_failure_kind_position() {
    let error = parse_to_llvm("fn main() {\n  x\n}").unwrap_err();
    assert_eq!(error.kind, ErrorKind::UndefinedVariable);
    assert_eq!(error.line, 3);
    assert_eq!(error.column, 2);
    assert_eq!(error.line_start, 16);
}

// ------------------------- Types ----------------------------

#[test]
fn test_type_cast_rules() {
    assert_eq!(type_get_cast_operation(&RAstType::U8, &RAstType::Usize), CastOperation::ZeroExtend);
    assert_eq!(type_get_cast_operation(&RAstType::Usize, &RAstType::U8), CastOperation::Truncate);
    assert_eq!(type_get_cast_operation(&RAstType::Char, &RAstType::Char), CastOperation::NoOp);
    assert_eq!(type_get_cast_operation(&RAstType::Bool, &RAstType::Char), CastOperation::Invalid);
    assert!(type_can_cast_to(&RAstType::Bool, &RAstType::U8));
    assert!(!type_can_cast_to(&RAstType::Unit, &RAstType::U8));
    assert_eq!(text_of(&type_to_llvm_name(&RAstType::Char)), "i32");
    assert_eq!(text_of(&type_to_llvm_name(&RAstType::Custom(string_from_str("E")))), "i64");
}

// ------------------------- Text ----------------------------

#[test]
fn test_decimal_round_trip() {
    for n in [0usize, 7, 10, 12345, usize::MAX] {
        let mut text = integer_to_string(n);
        assert_eq!(text_of(&text), n.to_string());
        assert_eq!(string_to_integer(&mut text, 10), Some(n));
    }
    let mut hex = string_from_str("FF");
    assert_eq!(string_to_integer(&mut hex, 16), Some(255));
    let mut too_large = string_from_str("99999999999999999999");
    assert_eq!(string_to_integer(&mut too_large, 10), None);
}

#[test]
fn test_reverse_twice() {
    let mut s = string_from_str("abc");
    string_reverse(&mut s);
    assert_eq!(text_of(&s), "cba");
    string_reverse(&mut s);
    assert_eq!(text_of(&s), "abc");
}

#[test]
fn test_string_hash_value() {
    // ((97 * 67) + 98) % 1024
    assert_eq!(string_hash(&string_from_str("ab"), 1024), (97 * 67 + 98) % 1024);
    assert_eq!(string_hash(&string_from_str("ab"), 0), 0);
}

#[test]
fn test_string_map_read_after_write() {
    let mut map = stringMap_new::<usize>();
    stringMap_insert(&mut map, string_from_str("a"), 1);
    stringMap_insert(&mut map, string_from_str("b"), 2);
    stringMap_insert(&mut map, string_from_str("a"), 3);
    assert_eq!(stringMap_get(&map, &string_from_str("a")), Some(&3));
    assert_eq!(stringMap_get(&map, &string_from_str("b")), Some(&2));
    assert_eq!(stringMap_get(&map, &string_from_str("c")), None);
}

// ------------------------- Core lexer ----------------------------

#[test]
fn test_core_lexer_tokens_and_errors() {
    let tokens = core_lex("let x = 10; // done").expect("lexing succeeds");
    assert_eq!(vec_token_len(&tokens), 6);
    assert!(matches!(vec_token_get(&tokens, 0), OptionToken::Value(CoreToken::Let)));
    assert!(matches!(vec_token_get(&tokens, 3), OptionToken::Value(CoreToken::Integer(10))));
    assert!(matches!(vec_token_get(&tokens, 5), OptionToken::Value(CoreToken::Eof)));
    assert!(matches!(vec_token_get(&tokens, 6), OptionToken::Nothing));
    assert!(matches!(core_lex("\"open"), Err(LexError::UnterminatedString)));
    assert!(matches!(core_lex("#"), Err(LexError::UnexpectedCharacter)));
}

// ------------------------- LLVM ----------------------------

fn emulate(source: &str) -> Result<usize, EmulationError> {
    llvm_emulate_source_str(source)
}

#[test]
fn test_llvm_lexer_cstring_escape() {
    let lexer = llvmLexer_new(string_from_str("c\"hi\\0A\\\"\"")).expect("lexing succeeds");
    match llvmLexer_current_token(&lexer) {
        LlvmToken::CString(value) => assert_eq!(value.bytes, b"hi\n\"".to_vec()),
        _ => panic!("expected a c-string"),
    }
    assert!(llvmLexer_new(string_from_str("c\"open")).is_err());
    assert!(llvmLexer_new(string_from_str("$")).is_err());
}

#[test]
fn test_llvm_parse_global_string() {
    let table = llvmParser_parse_to_ast("@.msg = constant [6 x i8] c\"hello\\00\"")
        .expect("parsing succeeds");
    let value = llvmSymTable_lookup_string(&table, &string_from_str(".msg"));
    assert!(string_eq(value, &string_from_str("hello\0")));
}

#[test]
fn test_llvm_emulate_branches() {
    let source = "
define i64 @main() {
entry:
  %c = icmp ult i64 1, 2
  br i1 %c, label %yes, label %no
yes:
  ret i64 10
no:
  ret i64 20
}";
    assert_eq!(emulate(source), Ok(10));
}

#[test]
fn test_llvm_emulate_wrapping_and_negative_literal() {
    assert_eq!(emulate("define i64 @main() { %x = sub i64 0, 1 ret i64 %x }"), Ok(usize::MAX));
    assert_eq!(emulate("define i64 @main() { ret i64 -1 }"), Ok(usize::MAX));
    assert_eq!(emulate("define i64 @main() { %x = urem i64 17, 5 ret i64 %x }"), Ok(2));
}

#[test]
fn test_llvm_emulate_call_with_argument_and_gep() {
    let source = "
define i64 @id(i64 %a) { ret i64 %a }
define i64 @main() {
  %r = call i64 @id(i64 5)
  %p = getelementptr i8, ptr %r, i64 100
  ret i64 %p
}";
    assert_eq!(emulate(source), Ok(105));
}

#[test]
fn test_llvm_emulate_errors() {
    assert_eq!(
        emulate("define i64 @main() { %x = udiv i64 1, 0 ret i64 %x }"),
        Err(EmulationError::DivisionByZero)
    );
    assert_eq!(emulate("define i64 @foo() { ret i64 1 }"), Err(EmulationError::UnknownFunction));
    assert_eq!(emulate("define i64 @main() { ret i64 %y }"), Err(EmulationError::UnknownRegister));
    assert_eq!(emulate("define i64 @main() { ret i64 @g }"), Err(EmulationError::UnknownGlobal));
    assert_eq!(
        emulate("define i64 @main() { br label %nowhere }"),
        Err(EmulationError::UnknownBlockLabel)
    );
    assert_eq!(
        emulate("define i64 @id(i64 %a) { ret i64 %a } define i64 @main() { %r = call i64 @id() ret i64 %r }"),
        Err(EmulationError::ArgumentCountMismatch)
    );
    assert_eq!(emulate("define i64 @main() { }"), Err(EmulationError::EmptyFunctionBody));
    assert!(matches!(
        emulate("define i64 @main() { add }"),
        Err(EmulationError::Parse(e)) if e.kind == ErrorKind::ExpectedLlvmInstruction
    ));
    assert!(matches!(
        emulate("define i64 @main() { %x = add i64 1, 2 %x = add i64 1, 2 ret i64 %x }"),
        Err(EmulationError::Parse(e)) if e.kind == ErrorKind::DuplicateRegisterAssignment
    ));
}

#[test]
fn test_llvm_emulate_out_of_fuel() {
    let table = llvmParser_parse_to_ast("define i64 @main() {\nentry:\n  br label %entry\n}")
        .expect("parsing succeeds");
    let emulator: Llvmulator = llvmulator_new();
    let no_arguments: Vec<LlvmTypedValue> = Vec::new();
    assert_eq!(
        llvmulator_execute_function_named(&emulator, &table, &string_from_str("main"), &no_arguments, 50),
        Err(EmulationError::OutOfFuel)
    );
}

#[test]
fn test_llvm_more_fuel_same_result() {
    let source = "define i64 @twice(i64 %x) {\n  %y = add i64 %x, %x\n  ret i64 %y\n}\ndefine i64 @main() {\n  %r = call i64 @twice(i64 21)\n  ret i64 %r\n}";
    let table = llvmParser_parse_to_ast(source).expect("parsing succeeds");
    let emulator: Llvmulator = llvmulator_new();
    let no_arguments: Vec<LlvmTypedValue> = Vec::new();
    let main = string_from_str("main");
    assert_eq!(
        llvmulator_execute_function_named(&emulator, &table, &main, &no_arguments, 1),
        Err(EmulationError::OutOfFuel)
    );
    let small = llvmulator_execute_function_named(&emulator, &table, &main, &no_arguments, 10);
    assert_eq!(small, Ok(42));
    assert_eq!(
        llvmulator_execute_function_named(&emulator, &table, &main, &no_arguments, 1000),
        small
    );
    assert_eq!(
        llvmulator_execute_function_named(&emulator, &table, &main, &no_arguments, usize::MAX),
        small
    );
}

#[test]
fn register_table_copy_keeps_registers() {
    let mut table = llvmLocalSymTable_new();
    assert!(llvmLocalSymTable_insert_register(&mut table, string_from_str("a"), 0));
    assert!(llvmLocalSymTable_insert_register(&mut table, string_from_str("b"), 1));
    let mut copy = llvmLocalSymTable_clone(&table);
    assert!(!llvmLocalSymTable_insert_register(&mut copy, string_from_str("a"), 2));
    assert!(!llvmLocalSymTable_insert_register(&mut copy, string_from_str("b"), 2));
    assert!(llvmLocalSymTable_insert_register(&mut copy, string_from_str("c"), 2));
    assert!(llvmLocalSymTable_insert_register(&mut table, string_from_str("c"), 2));
}

#[test]
fn test_string_to_integer_too_large() {
    let mut too_large = string_from_str("18446744073709551616");
    assert_eq!(string_to_integer(&mut too_large, 10), None);
    let mut largest = string_from_str("18446744073709551615");
    assert_eq!(string_to_integer(&mut largest, 10), Some(usize::MAX));
    let mut hex = string_from_str("FFFFFFFFFFFFFFFF0");
    assert_eq!(string_to_integer(&mut hex, 16), None);
}
