//! What a checker works on.

use crate::logging::logger::Logger;
use crate::parsing::elements::Token;
use vstd::prelude::*;

verus! {

/// The lines of a source file, the messages about them, and the place
/// that is being checked.
#[derive(Debug)]
pub struct CheckerData {
    /// The name of the source file.
    pub source: String,
    pub parsed: Vec<Vec<Token>>,
    pub logger: Logger,
    pub line_i: usize,
    pub token_i: usize,
}

} // verus!
