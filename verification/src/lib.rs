//! A front end for the W expression language: lexing, parsing, type inference
//! and Rust code generation, with machine-checked contracts.
pub mod ast;
pub mod lexer;
pub mod parse_progress;
pub mod parse_state;
pub mod parser;
pub mod rust_codegen;
pub mod stdlib;
pub mod table;
pub mod text;
pub mod type_inference;
