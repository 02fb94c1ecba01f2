use vstd::prelude::*;

pub mod core_lexer;
pub mod lexer;
pub mod prototype;
pub mod runtime;
pub mod token;
pub mod wrapper;
pub mod text;
pub mod collections;
pub mod rust_lexer;
pub mod rust_types;
pub mod symtable;
pub mod codegen;
pub mod parser;
pub mod parser_spec;
pub mod llvm_lexer;
pub mod llvm_ast;
pub mod llvm_parser;
pub mod llvm_parser_spec;
pub mod emulator;
