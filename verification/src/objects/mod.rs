//! What a program declares: types, variables and functions.

pub mod function;
pub mod params;
pub mod type_;
pub mod variable;
