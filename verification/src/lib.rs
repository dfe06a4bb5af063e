//! An assembler for a small 16-bit instruction set: tokenizer, parser, label
//! resolution, instruction encoder and a renderer of the encoded words.

pub mod assembler;
pub mod ast;
pub mod canonical;
pub mod code;
pub mod encode;
pub mod error;
pub mod lexer;
pub mod lit;
pub mod mnemonic;
pub mod parser;
pub mod symbol;
pub mod text;
pub mod token;
