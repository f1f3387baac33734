//! JVM elements, such as classes, methods, fields, and instructions.

pub mod annotation;
pub mod bytecode;
pub mod class;
pub mod class_loader;
pub mod code;
pub mod module;
pub mod references;
pub mod text;

pub use module::Module;

use vstd::prelude::*;

use crate::jvm::class::MethodHandle;
use crate::jvm::references::ClassRef;
use crate::types::{FieldType, MethodDescriptor};

verus! {

/// A string in the constant pool: valid UTF-8, or the bytes when they are not.
#[derive(PartialEq, Eq, Debug, Clone, PartialOrd, Ord)]
pub enum JavaString {
    /// A valid string.
    Utf8(String),
    /// Bytes that are not valid (modified) UTF-8.
    InvalidUtf8(Vec<u8>),
}

/// Whether the bits of a `float` are those of a NaN.
pub open spec fn is_nan_f32(b: u32) -> bool {
    b & 0x7f80_0000 == 0x7f80_0000 && b & 0x007f_ffff != 0
}

/// Whether the bits of a `double` are those of a NaN.
pub open spec fn is_nan_f64(b: u64) -> bool {
    b & 0x7ff0_0000_0000_0000 == 0x7ff0_0000_0000_0000 && b & 0x000f_ffff_ffff_ffff != 0
}

/// Whether two `float` constants are equal: NaNs are equal to each other, zeros of either
/// sign are equal, and other values are equal when their bits are.
pub open spec fn same_f32(a: u32, b: u32) -> bool {
    (is_nan_f32(a) && is_nan_f32(b)) || a == b || (a & 0x7fff_ffff == 0 && b & 0x7fff_ffff == 0)
}

/// Whether two `double` constants are equal: NaNs are equal to each other, zeros of either
/// sign are equal, and other values are equal when their bits are.
pub open spec fn same_f64(a: u64, b: u64) -> bool {
    (is_nan_f64(a) && is_nan_f64(b)) || a == b || (a & 0x7fff_ffff_ffff_ffff == 0 && b & 0x7fff_ffff_ffff_ffff == 0)
}

/// A `float` constant, by the bits of its IEEE 754 representation.
#[derive(Debug, Clone, Copy)]
pub struct FloatBits(pub u32);

/// A `double` constant, by the bits of its IEEE 754 representation.
#[derive(Debug, Clone, Copy)]
pub struct DoubleBits(pub u64);

impl PartialEq for FloatBits {
    fn eq(&self, other: &Self) -> (r: bool) {
        let a = self.0;
        let b = other.0;
        (a & 0x7f80_0000 == 0x7f80_0000 && a & 0x007f_ffff != 0 && b & 0x7f80_0000 == 0x7f80_0000 && b & 0x007f_ffff != 0)
            || a == b || (a & 0x7fff_ffff == 0 && b & 0x7fff_ffff == 0)
    }
}

impl vstd::std_specs::cmp::PartialEqSpecImpl for FloatBits {
    open spec fn obeys_eq_spec() -> bool {
        true
    }

    open spec fn eq_spec(&self, other: &Self) -> bool {
        same_f32(self.0, other.0)
    }
}

impl Eq for FloatBits {
}

impl PartialEq for DoubleBits {
    fn eq(&self, other: &Self) -> (r: bool) {
        let a = self.0;
        let b = other.0;
        (a & 0x7ff0_0000_0000_0000 == 0x7ff0_0000_0000_0000 && a & 0x000f_ffff_ffff_ffff != 0 && b & 0x7ff0_0000_0000_0000
            == 0x7ff0_0000_0000_0000 && b & 0x000f_ffff_ffff_ffff != 0) || a == b || (a & 0x7fff_ffff_ffff_ffff == 0 && b
            & 0x7fff_ffff_ffff_ffff == 0)
    }
}

impl vstd::std_specs::cmp::PartialEqSpecImpl for DoubleBits {
    open spec fn obeys_eq_spec() -> bool {
        true
    }

    open spec fn eq_spec(&self, other: &Self) -> bool {
        same_f64(self.0, other.0)
    }
}

impl Eq for DoubleBits {
}

/// A constant value. `float` and `double` values are held as the bits of their IEEE 754
/// representation, and compared as values.
#[derive(Debug, Clone, PartialEq)]
pub enum ConstantValue {
    /// The `null` value.
    Null,
    /// An `int` value.
    Integer(i32),
    /// A `float` value, by its bits.
    Float(FloatBits),
    /// A `long` value.
    Long(i64),
    /// A `double` value, by its bits.
    Double(DoubleBits),
    /// A string.
    String(JavaString),
    /// A class object.
    Class(ClassRef),
    /// A method handle.
    Handle(MethodHandle),
    /// A method type.
    MethodType(MethodDescriptor),
    /// A dynamically computed constant: the bootstrap method index, the name and the type.
    Dynamic(u16, String, FieldType),
}

/// An annotation.
#[derive(Debug)]
pub struct Annotation {
    /// The type of the annotation.
    pub annotation_type: FieldType,
    /// The names of the elements and their values.
    pub element_value_pairs: Vec<(String, annotation::ElementValue)>,
}

/// An annotation on a type.
#[derive(Debug)]
pub struct TypeAnnotation {
    /// The type of the annotation.
    pub annotation_type: FieldType,
    /// Where the annotated type occurs.
    pub target_info: annotation::TargetInfo,
    /// The part of the type that is annotated.
    pub target_path: Vec<annotation::TypePathElement>,
    /// The names of the elements and their values.
    pub element_value_pairs: Vec<(String, annotation::ElementValue)>,
}

} // verus!
