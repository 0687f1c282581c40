//! An interpreter for a small, dynamically typed, expression-oriented scripting language:
//! lexer, recursive-descent parser, name-resolution pass and tree-walking evaluator with
//! closures and built-in functions.

pub mod interpreter_option;
pub mod token;
pub mod lexer;
pub mod ast;
pub mod parser;
pub mod grammar;
pub mod misc;
pub mod symbol;
pub mod bindings;
pub mod symbol_table;
pub mod semantic_analyzer;
pub mod number;
pub mod enviroment;
pub mod interpreter;
pub mod editor_helper;
pub mod style;
pub mod repl;
