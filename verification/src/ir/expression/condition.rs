//! Conditions of conditional jumps.
use vstd::prelude::*;

use crate::ir::moka_instruction::{Argument, Identifier, IdentifierSet};
use crate::ir::expression::array::ids_of_all;
use crate::ir::operands::{condition_arguments, lemma_condition_uses_its_arguments};

verus! {

/// A condition that can be used in a conditional jump.
#[derive(Debug, Clone, PartialEq, Eq)]
pub enum Condition<OP = Argument> {
    /// The two arguments are equal (i.e., `lhs == rhs`).
    Equal(OP, OP),
    /// The two arguments are not equal (i.e., `lhs != rhs`).
    NotEqual(OP, OP),
    /// The first argument is less than the second (i.e., `lhs < rhs`).
    LessThan(OP, OP),
    /// The first argument is less than or equal to the second (i.e., `lhs <= rhs`).
    LessThanOrEqual(OP, OP),
    /// The first argument is greater than the second (i.e., `lhs > rhs`).
    GreaterThan(OP, OP),
    /// The first argument is greater than or equal to the second (i.e., `lhs >= rhs`).
    GreaterThanOrEqual(OP, OP),
    /// The argument is null (i.e., `arg == null`).
    IsNull(OP),
    /// The argument is not null (i.e., `arg != null`).
    IsNotNull(OP),
    /// The argument is zero (i.e., `arg == 0`).
    IsZero(OP),
    /// The argument is not zero (i.e., `arg != 0`).
    IsNonZero(OP),
    /// The argument is positive (i.e., `arg > 0`).
    IsPositive(OP),
    /// The argument is negative (i.e., `arg < 0`).
    IsNegative(OP),
    /// The argument is non-negative (i.e., `arg >= 0`).
    IsNonNegative(OP),
    /// The argument is non-positive (i.e., `arg <= 0`).
    IsNonPositive(OP),
}

impl Condition<Argument> {
    /// The identifiers that the condition reads.
    pub open spec fn used_ids(self) -> Set<Identifier> {
        match self {
            Condition::Equal(a, b)
            | Condition::NotEqual(a, b)
            | Condition::LessThan(a, b)
            | Condition::LessThanOrEqual(a, b)
            | Condition::GreaterThan(a, b)
            | Condition::GreaterThanOrEqual(a, b) => a.ids().union(b.ids()),
            Condition::IsNull(a)
            | Condition::IsNotNull(a)
            | Condition::IsZero(a)
            | Condition::IsNonZero(a)
            | Condition::IsPositive(a)
            | Condition::IsNegative(a)
            | Condition::IsNonNegative(a)
            | Condition::IsNonPositive(a) => a.ids(),
        }
    }

    /// Returns the set of [`Identifier`]s used by the condition.
    pub fn uses(&self) -> (r: IdentifierSet)
        ensures
            r@ == self.used_ids(),
            r@ == ids_of_all(condition_arguments(*self)),
    {
        proof {
            lemma_condition_uses_its_arguments(*self);
        }
        match self {
            Condition::Equal(a, b)
            | Condition::NotEqual(a, b)
            | Condition::LessThan(a, b)
            | Condition::LessThanOrEqual(a, b)
            | Condition::GreaterThan(a, b)
            | Condition::GreaterThanOrEqual(a, b) => IdentifierSet::of_arguments(a, b),
            Condition::IsNull(a)
            | Condition::IsNotNull(a)
            | Condition::IsZero(a)
            | Condition::IsNonZero(a)
            | Condition::IsPositive(a)
            | Condition::IsNegative(a)
            | Condition::IsNonNegative(a)
            | Condition::IsNonPositive(a) => IdentifierSet::of_argument(a),
        }
    }
}

} // verus!
