//! Mathematical operations.
use vstd::prelude::*;

use crate::ir::moka_instruction::{Argument, Identifier, IdentifierSet};

verus! {

/// A mathematical operation.
#[derive(Debug, PartialEq, Eq, Clone)]
pub enum Operation {
    /// Adds the two arguments.
    Add(Argument, Argument),
    /// Subtracts the second argument from the first.
    Subtract(Argument, Argument),
    /// Multiplies the two arguments.
    Multiply(Argument, Argument),
    /// Divides the first argument by the second.
    Divide(Argument, Argument),
    /// Computes the remainder of the first argument divided by the second.
    Remainder(Argument, Argument),
    /// Negates the argument.
    Negate(Argument),
    /// Increments the argument by the constant.
    Increment(Argument, i32),
    /// Shifts the first argument left by the second.
    ShiftLeft(Argument, Argument),
    /// Shifts the first argument right (arithmetically) by the second.
    ShiftRight(Argument, Argument),
    /// Shifts the first argument right (logically) by the second.
    LogicalShiftRight(Argument, Argument),
    /// Bitwise and of the two arguments.
    BitwiseAnd(Argument, Argument),
    /// Bitwise or of the two arguments.
    BitwiseOr(Argument, Argument),
    /// Bitwise xor of the two arguments.
    BitwiseXor(Argument, Argument),
    /// Compares two `long` values.
    LongComparison(Argument, Argument),
    /// Compares two floating point values with the given treatment of NaN.
    FloatingPointComparison(Argument, Argument, NaNTreatment),
}

/// How NaN is treated in a floating point comparison.
#[derive(Debug, PartialEq, Eq, Structural, Clone, Copy)]
pub enum NaNTreatment {
    /// NaN is treated as the largest value.
    IsLargest,
    /// NaN is treated as the smallest value.
    IsSmallest,
}

impl Operation {
    /// The identifiers that the operation reads.
    pub open spec fn used_ids(self) -> Set<Identifier> {
        match self {
            Operation::Add(a, b)
            | Operation::Subtract(a, b)
            | Operation::Multiply(a, b)
            | Operation::Divide(a, b)
            | Operation::Remainder(a, b)
            | Operation::ShiftLeft(a, b)
            | Operation::ShiftRight(a, b)
            | Operation::LogicalShiftRight(a, b)
            | Operation::BitwiseAnd(a, b)
            | Operation::BitwiseOr(a, b)
            | Operation::BitwiseXor(a, b)
            | Operation::LongComparison(a, b)
            | Operation::FloatingPointComparison(a, b, _) => a.ids().union(b.ids()),
            Operation::Negate(a) | Operation::Increment(a, _) => a.ids(),
        }
    }

    /// Returns the set of [`Identifier`]s used by the expression.
    pub fn uses(&self) -> (r: IdentifierSet)
        ensures
            r@ == self.used_ids(),
    {
        match self {
            Operation::Add(a, b)
            | Operation::Subtract(a, b)
            | Operation::Multiply(a, b)
            | Operation::Divide(a, b)
            | Operation::Remainder(a, b)
            | Operation::ShiftLeft(a, b)
            | Operation::ShiftRight(a, b)
            | Operation::LogicalShiftRight(a, b)
            | Operation::BitwiseAnd(a, b)
            | Operation::BitwiseOr(a, b)
            | Operation::BitwiseXor(a, b)
            | Operation::LongComparison(a, b)
            | Operation::FloatingPointComparison(a, b, _) => IdentifierSet::of_arguments(a, b),
            Operation::Negate(a) | Operation::Increment(a, _) => IdentifierSet::of_argument(a),
        }
    }
}

} // verus!
