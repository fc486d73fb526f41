//! A compiler for a tiny arithmetic language: integer literals combined with
//! `+ - * /`, printed by a `print` statement, are compiled to x86-64 assembly.
//!
//! The pipeline has three stages. The scanner ([`scanner`]) turns the text
//! into tokens, one at a time, with a keyword trie ([`utils::trie`]) and the
//! line and column of each place. The parser ([`parser`]) climbs the
//! precedence levels and builds the tree. The code generator ([`codegen`],
//! [`interpreter`]) walks the tree with a file of four registers and emits the
//! assembly.
//!
//! Each stage states what it computes as a function of its input, and the
//! stages are proved against what they are for: the parser reads back what
//! the grammar writes ([`parser::grammar`]), the generated code computes the
//! value of the expression on a model of the machine
//! ([`codegen::x86::machine`]), and both hold together from the text of a
//! program to what it prints ([`pipeline`]).

pub mod codegen;
pub mod common;
pub mod interpreter;
pub mod parser;
pub mod pipeline;
pub mod scanner;
pub mod source_code;
pub mod utils;
