//! Operations on arrays.
use vstd::prelude::*;

use crate::ir::moka_instruction::{Argument, Identifier, IdentifierSet};
use crate::types::FieldType;

verus! {

/// An operation on an array.
#[derive(Debug, Clone, PartialEq, Eq)]
pub enum Operation {
    /// Create a new array.
    New {
        /// The type of the elements in the array.
        element_type: FieldType,
        /// The length of the array.
        length: Argument,
    },
    /// Create a new multidimensional array.
    NewMultiDim {
        /// The type of the elements in the array.
        element_type: FieldType,
        /// The lengths of each of the dimensions of the array.
        dimensions: Vec<Argument>,
    },
    /// Gets an element from an array.
    Read {
        /// The array to read from.
        array_ref: Argument,
        /// The index of the element to read.
        index: Argument,
    },
    /// Sets an element in an array.
    Write {
        /// The array to write to.
        array_ref: Argument,
        /// The index of the element to write.
        index: Argument,
        /// The value to be written.
        value: Argument,
    },
    /// Gets the length of an array.
    Length {
        /// The array to get the length of.
        array_ref: Argument,
    },
}

/// The identifiers that any of the arguments may refer to.
pub open spec fn ids_of_all(args: Seq<Argument>) -> Set<Identifier>
    decreases args.len(),
{
    if args.len() == 0 {
        Set::empty()
    } else {
        ids_of_all(args.drop_last()).union(args.last().ids())
    }
}

/// Collects the identifiers that any argument of `args` may refer to.
pub fn uses_of_all(args: &Vec<Argument>) -> (r: IdentifierSet)
    ensures
        r@ == ids_of_all(args@),
{
    let mut r = IdentifierSet::new();
    let mut i: usize = 0;
    while i < args.len()
        invariant
            i <= args@.len(),
            r@ == ids_of_all(args@.subrange(0, i as int)),
        decreases args@.len() - i,
    {
        r.insert_argument(&args[i]);
        assert(args@.subrange(0, i + 1).drop_last() =~= args@.subrange(0, i as int));
        i = i + 1;
    }
    assert(args@.subrange(0, args@.len() as int) =~= args@);
    r
}

impl Operation {
    /// The identifiers that the operation reads.
    pub open spec fn used_ids(self) -> Set<Identifier> {
        match self {
            Operation::New { length, .. } => length.ids(),
            Operation::NewMultiDim { dimensions, .. } => ids_of_all(dimensions@),
            Operation::Read { array_ref, index } => array_ref.ids().union(index.ids()),
            Operation::Write { array_ref, index, value } => array_ref.ids().union(
                index.ids(),
            ).union(value.ids()),
            Operation::Length { array_ref } => array_ref.ids(),
        }
    }

    /// Returns the set of [`Identifier`]s used by the expression.
    pub fn uses(&self) -> (r: IdentifierSet)
        ensures
            r@ == self.used_ids(),
    {
        match self {
            Operation::New { length, .. } => IdentifierSet::of_argument(length),
            Operation::NewMultiDim { dimensions, .. } => uses_of_all(dimensions),
            Operation::Read { array_ref, index } => IdentifierSet::of_arguments(array_ref, index),
            Operation::Write { array_ref, index, value } => {
                let mut r = IdentifierSet::of_arguments(array_ref, index);
                r.insert_argument(value);
                r
            },
            Operation::Length { array_ref } => IdentifierSet::of_argument(array_ref),
        }
    }
}

} // verus!
