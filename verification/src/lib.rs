pub mod ast;
pub mod lexer;
pub mod parser;
pub mod text;
pub mod typechecker;
pub mod typechecker_properties;
pub mod runtime;
pub mod runtime_properties;
pub mod compiler;
pub mod compiler_properties;
pub mod cli;
