//! SolScript: a compiler front end and Anchor code generator for a
//! Solidity-style contract language, with its contracts proved by Verus.

pub mod span;
pub mod text;
pub mod chars;
pub mod lexer;
pub mod lex_laws;
pub mod ast;
pub mod grammar;
pub mod types;
pub mod paths;
pub mod config;
pub mod package;
pub mod templates;
pub mod base58;
pub mod bpf;
pub mod codegen_error;
pub mod ir;
pub mod lower_spec;
pub mod lower;
pub mod lower_stmt;
pub mod program_spec;
pub mod lower_items;
pub mod lower_contract;
pub mod gen_spec;
pub mod rust_gen;
pub mod project_text;
pub mod project_spec;
pub mod project_gen;
pub mod handler_gen;
pub mod project;
pub mod idl;
pub mod formatter;
pub mod codegen_laws;
pub mod commands;
pub mod format_laws;
pub mod type_names;
pub mod lsp;
pub mod laws;
pub mod meaning_laws;
pub mod parse_error;
pub mod grouping;
pub mod parser;

pub use parser::parse;
