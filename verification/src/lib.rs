//! Zet (Zero Trust): a compiler that refuses programs which use data from the
//! outside world before validating it. Source text is parsed, every function
//! is checked for determinism, taint and scope, and a Rust program is written.
pub mod ast;
pub mod text;
pub mod lexer;
pub mod grammar;
pub mod parser;
pub mod duplicate;
pub mod analysis;
pub mod codegen;
pub mod compiler;
pub mod imports;
pub mod runtime;
pub mod laws;
pub mod zero_trust;
pub mod round_trip;
pub mod operators;
