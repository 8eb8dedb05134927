pub mod num;
pub mod value;
pub mod env;
pub mod error;
pub mod lower;
pub mod builtins;
pub mod semantics;
pub mod eval;
pub mod display;
