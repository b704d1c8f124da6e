//! A small C-like language: lexer, parser, type checker, bytecode compiler
//! and virtual machines.

pub mod compiler;
pub mod lexer;
pub mod parser;
pub mod type_checker;
pub mod vm;
