use vstd::prelude::*;

use crate::error::BfError;

verus! {

/// A backend that runs a program to completion and reports a result code.
pub trait Runner {
    /// Runs the program to its end.
    fn run(&mut self) -> Result<usize, BfError>;
}

} // verus!
