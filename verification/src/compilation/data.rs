//! What a code generator carries from one element to the next.

use crate::args::Dict;
use crate::assembly::instruction::Condition;
use crate::compilation::scope::Scope;
use crate::compilation::symbols::SymbolTable;
use vstd::prelude::*;

verus! {

/// What the command line asks of the compiler.
#[derive(Debug)]
pub struct CompilerData {
    /// Whether a library is built, not a program.
    pub is_library: bool,
    /// The source files, in the order in which they were given.
    pub sources: Vec<String>,
    pub options: Dict,
}

/// Where the walk stands in the tree.
#[derive(Debug)]
pub struct CompilerCodeData {
    /// The names around the element that is being lowered.
    pub scope: Scope,
    /// The label that ends the conditional which is open at this level of
    /// nesting.
    pub open_condition: Option<usize>,
    /// The number of the conditional label given out last.
    pub n_condition: usize,
    /// The loop which is open at this level of nesting.
    pub open_loop: Option<usize>,
    /// The innermost loop whose body holds this level of nesting.
    pub enclosing_loop: Option<usize>,
    /// The number of the loop opened last.
    pub n_loop: usize,
    /// The operator of the comparison that was lowered last; the test of a
    /// conditional or a loop starts without one.
    pub previous_operator: Option<Condition>,
    /// Whether the elements at this level are the test of a conditional or
    /// a loop.
    pub in_test: bool,
}

/// The variables and the frame.
#[derive(Debug)]
pub struct CompilerStacksData {
    /// The variables of the file, by name.
    pub variable_stack: SymbolTable,
    /// The size of the current frame: the offset given out last.
    pub i_variable_stack: usize,
}

} // verus!
