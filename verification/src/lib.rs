pub mod ast;
pub mod text;
pub mod lexer;
pub mod parser;
pub mod codegen;
pub mod typechecker;
