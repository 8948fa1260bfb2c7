//! The parameters of a function.

use crate::objects::variable::Variable;
use vstd::prelude::*;

verus! {

/// The parameters that a function declares, in the order of declaration.
pub type Params = Vec<Variable>;

} // verus!
