//! JVM types and descriptors.
use vstd::prelude::*;

use crate::jvm::references::ClassRef;

verus! {

/// A primitive type in Java.
#[derive(Debug, PartialEq, Eq, Structural, PartialOrd, Ord, Hash, Clone, Copy)]
pub enum PrimitiveType {
    /// The `boolean` type.
    Boolean,
    /// The `char` type.
    Char,
    /// The `float` type.
    Float,
    /// The `double` type.
    Double,
    /// The `byte` type.
    Byte,
    /// The `short` type.
    Short,
    /// The `int` type.
    Int,
    /// The `long` type.
    Long,
}

/// The type of a field, a local variable, a parameter, or an array element.
#[derive(Debug, PartialEq, Eq, PartialOrd, Ord, Hash)]
pub enum FieldType {
    /// A primitive type.
    Base(PrimitiveType),
    /// A class or interface type.
    Object(ClassRef),
    /// An array type with the given element type.
    Array(Box<FieldType>),
}

impl FieldType {
    /// Whether values of the type take two slots in local variables and on the operand stack
    /// (`long` and `double`).
    pub open spec fn is_dual_slot(self) -> bool {
        self matches FieldType::Base(PrimitiveType::Long) || self matches FieldType::Base(
            PrimitiveType::Double,
        )
    }

    /// Checks whether values of the type take two slots (`long` and `double`).
    pub fn dual_slot(&self) -> (r: bool)
        ensures
            r == self.is_dual_slot(),
    {
        match self {
            FieldType::Base(PrimitiveType::Long) | FieldType::Base(PrimitiveType::Double) => true,
            _ => false,
        }
    }
}

/// Copies a field type.
pub fn copy_field_type(t: &FieldType) -> (r: FieldType)
    ensures
        r == *t,
    decreases t,
{
    match t {
        FieldType::Base(p) => FieldType::Base(*p),
        FieldType::Object(c) => FieldType::Object(c.copy()),
        FieldType::Array(inner) => FieldType::Array(Box::new(copy_field_type(inner))),
    }
}

impl Clone for FieldType {
    fn clone(&self) -> (r: Self)
        ensures
            r == *self,
    {
        copy_field_type(self)
    }
}

/// The return type of a method.
#[derive(Debug, PartialEq, Eq, PartialOrd, Ord, Hash, Clone)]
pub enum ReturnType {
    /// The method returns a value of the given type.
    Returns(FieldType),
    /// The method returns nothing.
    Void,
}

/// The descriptor of a method: the types of its parameters and its return type.
#[derive(Debug, PartialEq, Eq, PartialOrd, Ord, Hash, Clone)]
pub struct MethodDescriptor {
    /// The types of the parameters.
    pub parameters_types: Vec<FieldType>,
    /// The return type.
    pub return_type: ReturnType,
}

} // verus!
