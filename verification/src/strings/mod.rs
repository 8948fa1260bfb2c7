//! The texts that the program shows, in the languages it speaks.

pub mod manager;
pub mod structured;
