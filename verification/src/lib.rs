//! Back end of a small ahead-of-time compiler: lowering of a parsed element
//! tree to x86-64 assembly, with the argument, logging and lexing code that
//! surrounds it.

pub mod text;
pub mod assembly;
pub mod parsing;
pub mod objects;
pub mod compilation;
pub mod logging;
pub mod args;
pub mod platform;
pub mod strings;
pub mod checking;
