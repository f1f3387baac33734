//! Module for the expressions in Moka IR.

pub mod array;
pub mod condition;
pub mod conversion;
pub mod field;
pub mod lock;
pub mod math;

pub use condition::Condition;
pub use math::NaNTreatment;

use vstd::prelude::*;

use crate::ir::expression::array::{ids_of_all, uses_of_all};
use crate::ir::moka_instruction::{Argument, Identifier, IdentifierSet};
use crate::jvm::code::ProgramCounter;
use crate::jvm::references::{ClassRef, MethodRef};
use crate::jvm::ConstantValue;
use crate::types::MethodDescriptor;
use crate::ir::operands::{expression_arguments, lemma_expression_uses_its_arguments};

verus! {

/// An operation on arrays.
pub type ArrayOperation = array::Operation;

/// A type conversion.
pub type ConversionOperation = conversion::Operation;

/// An access to a field.
pub type FieldAccess = field::Access;

/// An operation on a monitor lock.
pub type LockOperation = lock::Operation;

/// A mathematical operation.
pub type MathOperation = math::Operation;

/// An expression in Moka IR: what a definition computes.
#[derive(Debug, Clone, PartialEq)]
pub enum Expression {
    /// A constant value.
    Const(ConstantValue),
    /// A call of a method.
    Call {
        /// The method that is called.
        method: MethodRef,
        /// The object the method is called on, unless the method is static.
        this: Option<Argument>,
        /// The arguments of the call.
        args: Vec<Argument>,
    },
    /// A closure created by `invokedynamic`.
    Closure {
        /// The name of the method that the closure implements.
        name: String,
        /// The values the closure captures.
        captures: Vec<Argument>,
        /// The index of the bootstrap method.
        bootstrap_method_index: u16,
        /// The descriptor of the closure.
        closure_descriptor: MethodDescriptor,
    },
    /// A mathematical operation.
    Math(MathOperation),
    /// An access to a field.
    Field(FieldAccess),
    /// An operation on an array.
    Array(ArrayOperation),
    /// A type conversion.
    Conversion(ConversionOperation),
    /// Throws an exception.
    Throw(Argument),
    /// An operation on a monitor.
    Synchronization(LockOperation),
    /// Creates an object of a class.
    New(ClassRef),
    /// Jumps to a subroutine.
    Subroutine {
        /// Where the subroutine returns to.
        return_address: ProgramCounter,
        /// The start of the subroutine.
        target: ProgramCounter,
    },
}

impl Expression {
    /// The identifiers that the expression reads.
    pub open spec fn used_ids(self) -> Set<Identifier> {
        match self {
            Expression::Call { this, args, .. } => match this {
                Some(t) => t.ids().union(ids_of_all(args@)),
                None => ids_of_all(args@),
            },
            Expression::Closure { captures, .. } => ids_of_all(captures@),
            Expression::Math(op) => op.used_ids(),
            Expression::Field(op) => op.used_ids(),
            Expression::Array(op) => op.used_ids(),
            Expression::Conversion(op) => op.operand().ids(),
            Expression::Throw(arg) => arg.ids(),
            Expression::Synchronization(op) => op.operand().ids(),
            _ => Set::empty(),
        }
    }

    /// Returns the set of [`Identifier`]s used by the expression.
    pub fn uses(&self) -> (r: IdentifierSet)
        ensures
            r@ == self.used_ids(),
            r@ == ids_of_all(expression_arguments(*self)),
    {
        proof {
            lemma_expression_uses_its_arguments(*self);
        }
        match self {
            Expression::Call { this, args, .. } => {
                let mut r = uses_of_all(args);
                match this {
                    Some(t) => {
                        r.insert_argument(t);
                        assert(r@ =~= t.ids().union(ids_of_all(args@)));
                    },
                    None => {},
                }
                r
            },
            Expression::Closure { captures, .. } => uses_of_all(captures),
            Expression::Math(op) => op.uses(),
            Expression::Field(op) => op.uses(),
            Expression::Array(op) => op.uses(),
            Expression::Conversion(op) => op.uses(),
            Expression::Throw(arg) => IdentifierSet::of_argument(arg),
            Expression::Synchronization(op) => op.uses(),
            _ => {
                let r = IdentifierSet::new();
                assert(r@ =~= Set::<Identifier>::empty());
                r
            },
        }
    }
}

} // verus!
