pub mod ast;
pub mod laws;
