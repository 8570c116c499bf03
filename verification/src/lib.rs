//! The execution pipeline of a small scripting language: a compact word format that holds
//! instructions and values alike, an emitter from syntax trees to words, the binary
//! artifact, and the stack machine that runs it.

pub mod artifact;
pub mod emitter;
pub mod errors;
pub mod lexer;
pub mod parser;
pub mod text;
pub mod typecheck;
pub mod vm;
pub mod word;
