//! A small compiler and stack virtual machine for a postfix, statically typed language.
//!
//! The front end cuts a source text into tokens and parses them into a syntax tree.
//! The semantic checker resolves names and checks types by running the tree on a stack
//! of types, and leaves on the tree what the code generator needs. The code generator
//! turns the checked tree into a program: a constant pool and the bytecode of each
//! function. The execution engine runs a program one instruction at a time and hands
//! the calls of native functions to its host.
//!
//! Each part states what it does over a mathematical model of its state, and the parts
//! are held together by what is proved of them: checking is idempotent, the programs
//! of accepted trees are well formed, the programs of soundly checked trees are well
//! typed, the engine does not fault on a well-typed program, and a well-typed program
//! without recursion comes to an end.

pub mod analysis;
pub mod ast;
pub mod bytecode;
pub mod codegen;
pub mod compiler;
pub mod diagnostics;
pub mod engine;
pub mod highlighter;
pub mod lexer;
pub mod object;
pub mod parser;
pub mod pool;
pub mod program;
pub mod span;
pub mod stack;
pub mod stdlib;
pub mod text;
pub mod token;
