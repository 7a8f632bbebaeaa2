pub mod ast;
pub mod environment;
pub mod error;
pub mod function;
pub mod interpret;
pub mod laws;
pub mod number;
pub mod parse;
pub mod resolve;
pub mod scan;
pub mod sem;
pub mod token;
