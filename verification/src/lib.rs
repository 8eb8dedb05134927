pub mod lexer;
pub mod parser;
pub mod eval;
pub mod text;
pub mod cursor;
pub mod laws;
pub mod builtin_laws;
