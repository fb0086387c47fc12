pub mod buildin;
pub mod call;
pub mod generator;
pub mod laws;
pub mod value;
