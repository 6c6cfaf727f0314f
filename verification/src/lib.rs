//! Compiler and reference interpreter for a small concatenative, stack-based
//! language: source text is lexed into located words, tokenized, compile-time
//! evaluated (constants and memory sizes), linked into a linear instruction
//! stream with resolved jump targets, type-checked by abstract interpretation,
//! and executed on a stack machine.

pub mod checker;
pub mod tokenizer;
pub mod compiler_string;
pub mod compiler;
pub mod diag;
pub mod evaluator;
pub mod laws;
pub mod lexer;
pub mod linker;
pub mod numfmt;
pub mod pipeline;
pub mod simulator;
pub mod strutil;
pub mod test;
