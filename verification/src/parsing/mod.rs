//! The words of the language and the tree that the code generator reads.

pub mod elements;
pub mod parser;
pub mod tokens;
