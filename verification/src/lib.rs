//! DioScript: a small scripting language for building web elements, with a
//! parser and an interpreter whose behaviour is stated in their contracts.
pub mod text;
pub mod ast;
pub mod error;
pub mod value;
pub mod ops;
pub mod chars;
pub mod grammar;
pub mod parser;
pub mod report;
pub mod semantics;
pub mod module;
pub mod runtime;
pub mod library;
pub mod interp;
pub mod executor;
pub mod targets;
pub mod laws;
pub mod depth;
pub mod rusty;
pub mod shell;
pub mod host;
pub mod value_laws;
pub mod library_laws;
pub mod eval_laws;
pub mod parse_laws;
