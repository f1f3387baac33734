//! Annotations and where they stand.
use vstd::prelude::*;

use crate::jvm::code::{LocalVariableId, ProgramCounter};
use crate::jvm::{Annotation, ConstantValue};
use crate::types::{PrimitiveType, ReturnType};

verus! {

/// The value of an element of an annotation.
#[derive(Debug)]
pub enum ElementValue {
    /// A constant of a primitive type.
    Primitive(PrimitiveType, ConstantValue),
    /// A string constant.
    String(ConstantValue),
    /// A constant of an enum.
    EnumConstant {
        /// The binary name of the enum type.
        enum_type_name: String,
        /// The name of the constant.
        const_name: String,
    },
    /// A class literal.
    Class {
        /// The type that the literal denotes.
        return_descriptor: ReturnType,
    },
    /// A nested annotation.
    AnnotationInterface(Annotation),
    /// An array of values.
    Array(Vec<ElementValue>),
}

/// Where the type parameter of a type annotation is declared.
#[derive(Debug, PartialEq, Eq, Structural, Clone, Copy)]
pub enum TypeParameterLocation {
    /// On a generic class or interface.
    Class,
    /// On a generic method or constructor.
    Method,
}

/// The kind of a local variable whose type is annotated.
#[derive(Debug, PartialEq, Eq, Structural, Clone, Copy)]
pub enum VariableKind {
    /// An ordinary local variable.
    Local,
    /// A resource variable of a `try`-with-resources statement.
    Resource,
}

/// The kind of expression at an offset whose type is annotated.
#[derive(Debug, PartialEq, Eq, Structural, Clone, Copy)]
pub enum OffsetOf {
    /// An `instanceof` expression.
    InstanceOf,
    /// A `new` expression.
    New,
    /// A constructor reference expression.
    ConstructorReference,
    /// A method reference expression.
    MethodReference,
}

/// Where the type argument of a type annotation stands.
#[derive(Debug, PartialEq, Eq, Structural, Clone, Copy)]
pub enum TypeArgumentLocation {
    /// A cast.
    Cast,
    /// A generic constructor in a `new` expression.
    Constructor,
    /// A generic method in a call.
    MethodCall,
    /// A generic constructor in a constructor reference.
    ConstructorReference,
    /// A generic method in a method reference.
    MethodReference,
}

/// The kind of location that a type annotation is on.
#[derive(Debug)]
pub enum TargetInfo {
    /// A type parameter of a class or a method.
    TypeParameter {
        /// Where the type parameter is declared.
        location: TypeParameterLocation,
        /// The index of the type parameter.
        index: u8,
    },
    /// A super class or an implemented interface.
    SuperType {
        /// The index of the interface, or `65535` for the super class.
        index: u16,
    },
    /// A bound of a type parameter.
    TypeParameterBound {
        /// Where the type parameter is declared.
        location: TypeParameterLocation,
        /// The index of the type parameter.
        type_parameter_index: u8,
        /// The index of the bound.
        bound_index: u8,
    },
    /// The type in a field declaration.
    Field,
    /// The return type of a method, or the type of a newly constructed object.
    FieldType,
    /// The receiver type of a method or constructor.
    Receiver,
    /// The type of a formal parameter.
    FormalParameter {
        /// The index of the parameter.
        index: u8,
    },
    /// A type in a `throws` clause.
    Throws {
        /// The index of the exception type.
        index: u16,
    },
    /// The type of local variables.
    LocalVar(VariableKind, Vec<LocalVariableId>),
    /// The type in an exception parameter.
    Catch {
        /// The index in the exception table.
        index: u16,
    },
    /// The type in an expression at an offset.
    Offset(OffsetOf, u16),
    /// A type argument of a cast, a constructor or a method.
    TypeArgument {
        /// Where the type argument stands.
        location: TypeArgumentLocation,
        /// The offset of the instruction.
        offset: ProgramCounter,
        /// The index of the type argument.
        index: u8,
    },
}

/// An element of the path to the annotated part of a type.
#[derive(Debug, PartialEq, Eq, Structural, Clone, Copy)]
pub enum TypePathElement {
    /// Deeper in an array type.
    Array,
    /// Deeper in a nested type.
    Nested,
    /// On the bound of a wildcard type argument.
    Bound,
    /// On a type argument.
    TypeArgument(u8),
}

} // verus!
