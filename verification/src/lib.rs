//! Zephyr: the front end of a small dynamically typed language.
//!
//! The library turns source text into tokens ([`lexer::lex`]) and tokens into a
//! syntax tree ([`parser::Parser::produce_ast`]), and holds the small stores that
//! the runtime keeps: the reference store, node timings and the symbol table.

pub mod errors;
pub mod grammar;
pub mod lexer;
pub mod memory_store;
pub mod nodes;
pub mod number;
pub mod package;
pub mod parser;
pub mod prototype_store;
pub mod scope;
pub mod symbols;
pub mod text;
pub mod timings;
pub mod tokens;
