//! The assembly this compiler writes: its instructions as data, and their
//! rendering to text.

pub mod assembler;
pub mod instruction;
pub mod listing;
