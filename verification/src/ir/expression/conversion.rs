//! Type conversions.
use vstd::prelude::*;

use crate::ir::moka_instruction::{Argument, Identifier, IdentifierSet};
use crate::types::FieldType;

verus! {

/// A type conversion operation.
#[derive(Debug, Clone, PartialEq, Eq)]
pub enum Operation {
    /// Converts an `int` to a `long`.
    Int2Long(Argument),
    /// Converts an `int` to a `float`.
    Int2Float(Argument),
    /// Converts an `int` to a `double`.
    Int2Double(Argument),
    /// Converts a `long` to an `int`.
    Long2Int(Argument),
    /// Converts a `long` to a `float`.
    Long2Float(Argument),
    /// Converts a `long` to a `double`.
    Long2Double(Argument),
    /// Converts a `float` to an `int`.
    Float2Int(Argument),
    /// Converts a `float` to a `long`.
    Float2Long(Argument),
    /// Converts a `float` to a `double`.
    Float2Double(Argument),
    /// Converts a `double` to an `int`.
    Double2Int(Argument),
    /// Converts a `double` to a `long`.
    Double2Long(Argument),
    /// Converts a `double` to a `float`.
    Double2Float(Argument),
    /// Converts an `int` to a `byte`.
    Int2Byte(Argument),
    /// Converts an `int` to a `char`.
    Int2Char(Argument),
    /// Converts an `int` to a `short`.
    Int2Short(Argument),
    /// Checks that the value is of the given type, and casts it.
    CheckCast(Argument, FieldType),
    /// Checks whether the value is an instance of the given type.
    InstanceOf(Argument, FieldType),
}

impl Operation {
    /// The argument being converted.
    pub open spec fn operand(self) -> Argument {
        match self {
            Operation::Int2Long(arg)
            | Operation::Float2Long(arg)
            | Operation::Double2Long(arg)
            | Operation::Long2Int(arg)
            | Operation::Float2Int(arg)
            | Operation::Double2Int(arg)
            | Operation::Long2Float(arg)
            | Operation::Int2Float(arg)
            | Operation::Double2Float(arg)
            | Operation::Long2Double(arg)
            | Operation::Int2Double(arg)
            | Operation::Float2Double(arg)
            | Operation::Int2Byte(arg)
            | Operation::Int2Char(arg)
            | Operation::Int2Short(arg)
            | Operation::CheckCast(arg, _)
            | Operation::InstanceOf(arg, _) => arg,
        }
    }

    /// Returns the set of [`Identifier`]s used by the expression.
    pub fn uses(&self) -> (r: IdentifierSet)
        ensures
            r@ == self.operand().ids(),
    {
        match self {
            Operation::Int2Long(arg)
            | Operation::Float2Long(arg)
            | Operation::Double2Long(arg)
            | Operation::Long2Int(arg)
            | Operation::Float2Int(arg)
            | Operation::Double2Int(arg)
            | Operation::Long2Float(arg)
            | Operation::Int2Float(arg)
            | Operation::Double2Float(arg)
            | Operation::Long2Double(arg)
            | Operation::Int2Double(arg)
            | Operation::Float2Double(arg)
            | Operation::Int2Byte(arg)
            | Operation::Int2Char(arg)
            | Operation::Int2Short(arg)
            | Operation::CheckCast(arg, _)
            | Operation::InstanceOf(arg, _) => IdentifierSet::of_argument(arg),
        }
    }
}

} // verus!
