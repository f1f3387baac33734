//! Operations on monitors.
use vstd::prelude::*;

use crate::ir::moka_instruction::{Argument, Identifier, IdentifierSet};

verus! {

/// An operation on a monitor.
#[derive(Debug, Clone, PartialEq, Eq)]
pub enum Operation {
    /// Acquires the monitor of the given object.
    Acquire(Argument),
    /// Releases the monitor of the given object.
    Release(Argument),
}

impl Operation {
    /// The object whose monitor is operated on.
    pub open spec fn operand(self) -> Argument {
        match self {
            Operation::Acquire(arg) | Operation::Release(arg) => arg,
        }
    }

    /// Returns the set of [`Identifier`]s used by the expression.
    pub fn uses(&self) -> (r: IdentifierSet)
        ensures
            r@ == self.operand().ids(),
    {
        match self {
            Operation::Acquire(arg) | Operation::Release(arg) => IdentifierSet::of_argument(arg),
        }
    }
}

} // verus!
