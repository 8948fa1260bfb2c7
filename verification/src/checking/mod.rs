//! Checks that are made on the tokens of a source file before it is
//! compiled.

pub mod data;
pub mod syntax;
