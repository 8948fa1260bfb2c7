//! The code generator: from the element tree of a source file to assembly.

pub mod defaults;
pub mod error;
pub mod scope;
pub mod symbols;
pub mod compilers;
pub mod data;
pub mod driver;
