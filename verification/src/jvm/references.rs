//! References to classes, fields, methods, modules and packages.
use vstd::prelude::*;

use crate::types::{FieldType, MethodDescriptor};

verus! {

/// A reference to a class in the binary format.
#[derive(Debug, PartialEq, Eq, PartialOrd, Ord, Hash, Clone)]
pub struct ClassRef {
    /// The binary name of the class.
    pub binary_name: String,
}

impl ClassRef {
    /// Creates a copy of the class reference.
    pub fn copy(&self) -> (r: Self)
        ensures
            r == *self,
    {
        ClassRef { binary_name: self.binary_name.clone() }
    }

    /// Creates a new class reference.
    pub fn new(binary_name: String) -> (r: Self)
        ensures
            r.binary_name@ == binary_name@,
    {
        ClassRef { binary_name }
    }
}

/// A reference to a field.
#[derive(Debug, PartialEq, Eq, PartialOrd, Ord, Hash, Clone)]
pub struct FieldRef {
    /// The class that declares the field.
    pub owner: ClassRef,
    /// The name of the field.
    pub name: String,
    /// The type of the field.
    pub field_type: FieldType,
}

/// A reference to a method.
#[derive(Debug, PartialEq, Eq, PartialOrd, Ord, Hash, Clone)]
pub struct MethodRef {
    /// The class that declares the method.
    pub owner: ClassRef,
    /// The name of the method.
    pub name: String,
    /// The descriptor of the method.
    pub descriptor: MethodDescriptor,
}

/// A reference to a module.
#[derive(Debug, PartialEq, Eq, PartialOrd, Ord, Hash, Clone)]
pub struct ModuleRef {
    /// The name of the module.
    pub name: String,
}

/// A reference to a package.
#[derive(Debug, PartialEq, Eq, PartialOrd, Ord, Hash, Clone)]
pub struct PackageRef {
    /// The binary name of the package.
    pub binary_name: String,
}

} // verus!
