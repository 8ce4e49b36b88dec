//! The outcome of one step of a machine that reads a value.

use vstd::prelude::*;

verus! {

/// Where a machine stands after a character: still parsing, or done with a result.
#[derive(Clone, Copy, Debug, PartialEq, Eq, Structural)]
pub enum Status<Machine, Result> {
    Parsing(Machine),
    Done(Result),
}

} // verus!
