//! A small ahead-of-time compiler for a restricted subset of C: a single
//! `int` function containing integer declarations, expression statements and
//! returns is lexed, parsed, scope-checked, lowered to a three-address
//! intermediate form, turned into x86-64 instructions with stack-slot
//! allocation and addressing-mode legalization, and finally rendered as
//! AT&T-syntax assembly text.
//!
//! Every stage is a pure function with a full functional specification; the
//! driver around it (file handling, invoking an external preprocessor and
//! assembler) lives outside the library.

pub mod ast;
pub mod ast_text;
pub mod codegen;
pub mod compile;
pub mod emit;
pub mod lexer;
pub mod names;
pub mod parser;
pub mod rep_invalid_instrs;
pub mod rep_pseudo_reg;
pub mod resolver;
pub mod tacky;
