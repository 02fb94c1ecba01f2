use srs_compiler::emulator::llvm_emulate_source_str;
use srs_compiler::llvm_lexer::{
    LlvmLexer, LlvmToken, llvmLexer_current_token, llvmLexer_new, llvmLexer_next_token, llvmToken_eq,
};
use srs_compiler::text::{ByteString, string_eq, string_from_str};

#[test]
fn test_llvm_lexer_skips_comment_and_tokenizes_header() {
    let source: ByteString = string_from_str("; comment\n\ndefine i64 @main() { ret i64 0 }");
    let mut lexer: LlvmLexer = llvmLexer_new(source).expect("lexing succeeds");

    assert!(llvmToken_eq(
        llvmLexer_current_token(&lexer),
        &LlvmToken::Define
    ));

    llvmLexer_next_token(&mut lexer).expect("lexing succeeds");
    assert!(llvmToken_eq(
        llvmLexer_current_token(&lexer),
        &LlvmToken::I64
    ));

    llvmLexer_next_token(&mut lexer).expect("lexing succeeds");
    assert!(llvmToken_eq(
        llvmLexer_current_token(&lexer),
        &LlvmToken::At
    ));

    llvmLexer_next_token(&mut lexer).expect("lexing succeeds");
    match llvmLexer_current_token(&lexer) {
        LlvmToken::Identifier(name) => assert!(string_eq(name, &string_from_str("main"))),
        _ => assert!(false, "expected main identifier"),
    }
}

#[test]
fn test_llvm_parse_and_emulate_constant_return() {
    let source: &str = "define i64 @main() { ret i64 42 }";
    let exit_code: usize = llvm_emulate_source_str(source).expect("program runs");
    assert_eq!(exit_code, 42);
}

#[test]
fn test_llvm_parse_and_emulate_arithmetic() {
    let source: &str = "
define i64 @main() {
  %x = add i64 40, 2
  %y = mul i64 %x, 2
  %z = udiv i64 %y, 2
  ret i64 %z
}";
    let exit_code: usize = llvm_emulate_source_str(source).expect("program runs");
    assert_eq!(exit_code, 42);
}

#[test]
fn test_llvm_parse_and_emulate_icmp_bool() {
    let source: &str = "
define i1 @main() {
  %cmp = icmp ult i64 7, 8
  ret i1 %cmp
}";
    let exit_code: usize = llvm_emulate_source_str(source).expect("program runs");
    assert_eq!(exit_code, 1);
}

#[test]
fn test_llvm_parse_and_emulate_function_call() {
    let source: &str = "
define i64 @foo() {
  ret i64 7
}

define i64 @main() {
  %value = call i64 @foo()
  ret i64 %value
}";
    let exit_code: usize = llvm_emulate_source_str(source).expect("program runs");
    assert_eq!(exit_code, 7);
}
