//! Front end and code generator of the Celeste language: a lexer over the
//! source bytes, a recursive-descent parser producing an AST, a type checker,
//! and a Cranelift-based ahead-of-time backend.

pub mod ast;
pub mod tokens;
pub mod clif;
pub mod codegen;
pub mod compiler;
pub mod grammar;
pub mod parser;
pub mod lexer;
pub mod typechecker;
