//! `MokaIR` is an intermediate representation of JVM bytecode.
//! It is register based and is in SSA form, which make it easier to analyze.

pub mod control_flow;
pub mod data_flow;
pub mod expression;
pub mod generator;
pub mod moka_instruction;
pub mod operands;
pub mod text;

pub use control_flow::ControlFlowGraph;
pub use moka_instruction::{Argument, Identifier, IdentifierSet, LocalValue, MokaInstruction};

use vstd::prelude::*;

use crate::types::ReturnType;

verus! {

/// An operand of a Moka IR instruction.
pub type Operand = Argument;

/// A type in JVM.
#[derive(Debug, PartialEq, Eq, PartialOrd, Ord, Hash, Clone)]
pub enum JvmType {
    /// A type declared in the Java language.
    Java(ReturnType),
    /// The return address of a subroutine.
    SubRoutine,
    /// An exception caught by a `catch` block.
    CaughtException,
}

} // verus!
