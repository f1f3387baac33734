//! Field accesses.
use vstd::prelude::*;

use crate::ir::moka_instruction::{Argument, Identifier, IdentifierSet};
use crate::jvm::references::FieldRef;

verus! {

/// An operation on a field.
#[derive(Debug, Clone, PartialEq, Eq)]
pub enum Access {
    /// Reads a static field.
    ReadStatic {
        /// The field to read.
        field: FieldRef,
    },
    /// Writes a static field.
    WriteStatic {
        /// The field to write.
        field: FieldRef,
        /// The value to write.
        value: Argument,
    },
    /// Reads an instance field.
    ReadInstance {
        /// The object that holds the field.
        object_ref: Argument,
        /// The field to read.
        field: FieldRef,
    },
    /// Writes an instance field.
    WriteInstance {
        /// The object that holds the field.
        object_ref: Argument,
        /// The field to write.
        field: FieldRef,
        /// The value to write.
        value: Argument,
    },
}

impl Access {
    /// The identifiers that the access reads.
    pub open spec fn used_ids(self) -> Set<Identifier> {
        match self {
            Access::ReadStatic { .. } => Set::empty(),
            Access::WriteStatic { value, .. } => value.ids(),
            Access::ReadInstance { object_ref, .. } => object_ref.ids(),
            Access::WriteInstance { object_ref, value, .. } => object_ref.ids().union(value.ids()),
        }
    }

    /// Returns the set of [`Identifier`]s used by the expression.
    pub fn uses(&self) -> (r: IdentifierSet)
        ensures
            r@ == self.used_ids(),
    {
        match self {
            Access::WriteStatic { value: u, .. } | Access::ReadInstance { object_ref: u, .. } => {
                IdentifierSet::of_argument(u)
            },
            Access::WriteInstance { object_ref, value, .. } => IdentifierSet::of_arguments(
                object_ref,
                value,
            ),
            Access::ReadStatic { .. } => IdentifierSet::new(),
        }
    }
}

} // verus!
