//! The code generators: what every platform shares, and the generator for
//! Linux.

pub mod base;
pub mod model;
pub mod linux;
pub mod laws;
pub mod invariants;
