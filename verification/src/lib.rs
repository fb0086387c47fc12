pub mod compile;
pub mod error;
pub mod parser;
pub mod repl;
pub mod syntax;
