//! Why a tree cannot be compiled.

use vstd::prelude::*;

verus! {

/// The failures of the code generator. Each of them ends the compilation.
#[derive(Clone, Copy, Debug, PartialEq, Eq, Structural)]
pub enum CompileError {
    /// The tree has not the shape that a parser gives it: a bracket
    /// without its partner, a token where an operand should stand, a call
    /// without arguments, a `break` outside any loop.
    MalformedTree,
    /// An identifier is read that no declaration has introduced.
    UnknownIdentifier,
    /// An operation carries a token that is no operator, or a test holds
    /// no comparison.
    InvalidOperator,
    /// The tree asks for what the generator does not implement: more than
    /// four parameters or arguments, a subexpression as an operand that
    /// the instruction sequence would overwrite, a type without a size, a
    /// frame or a counter beyond the machine's word.
    Unsupported,
}

impl CompileError {
    /// A sentence for the user.
    pub fn message(&self) -> (text: String)
        ensures
            text@ == match *self {
                CompileError::MalformedTree => "malformed element tree"@,
                CompileError::UnknownIdentifier => "identifier not found"@,
                CompileError::InvalidOperator => "operator not recognized"@,
                CompileError::Unsupported => "unsupported construct"@,
            },
    {
        match self {
            CompileError::MalformedTree => String::from_str("malformed element tree"),
            CompileError::UnknownIdentifier => String::from_str("identifier not found"),
            CompileError::InvalidOperator => String::from_str("operator not recognized"),
            CompileError::Unsupported => String::from_str("unsupported construct"),
        }
    }
}

} // verus!
