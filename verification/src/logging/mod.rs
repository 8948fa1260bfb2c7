//! Messages for the user: what went wrong, where, and what may help.

pub mod level;
pub mod log;
pub mod logger;
pub mod source;
