//! Generation of Moka IR from JVM bytecode.

pub mod analysis;
pub mod branch;
pub mod execution;
pub mod jvm_frame;

pub use jvm_frame::{Entry, ExecutionError, JvmStackFrame};

use vstd::prelude::*;

verus! {

/// An error that occurs when generating Moka IR.
#[derive(Debug, PartialEq, Eq, Structural, Clone, Copy)]
pub enum MokaIRBrewingError {
    /// An error that occurs when executing bytecode on a JVM frame.
    ExecutionError(ExecutionError),
    /// An error that occurs when merging two stack frames.
    MergeError(ExecutionError),
    /// An error that occurs when a method does not have a body.
    NoMethodBody,
    /// An error that occurs when the method contains malformed control flow.
    MalformedControlFlow,
}

impl From<ExecutionError> for MokaIRBrewingError {
    fn from(e: ExecutionError) -> (r: Self)
        ensures
            r == MokaIRBrewingError::ExecutionError(e),
    {
        MokaIRBrewingError::ExecutionError(e)
    }
}

impl vstd::std_specs::convert::FromSpecImpl<ExecutionError> for MokaIRBrewingError {
    open spec fn obeys_from_spec() -> bool {
        true
    }

    open spec fn from_spec(e: ExecutionError) -> MokaIRBrewingError {
        MokaIRBrewingError::ExecutionError(e)
    }
}

} // verus!
