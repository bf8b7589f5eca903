//! An assembler for the MOS 6502: tokenizer, action builder, code generator,
//! relocation resolver and the text of the emitted artifacts.

pub mod apple;
pub mod ast;
pub mod binary;
pub mod error;
pub mod generation;
pub mod grammar;
pub mod lexer;
pub mod opcodes;
pub mod parser;
pub mod section;
pub mod semantics;
pub mod sources;
pub mod text;
pub mod theorems;
