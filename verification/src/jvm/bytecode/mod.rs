//! JVM class file format parsing and writing functionality.
pub mod annotation;
pub mod code;
pub mod element;
pub mod errors;
pub mod raw_attributes;

pub use errors::{GenerationError, GenerationErrorKind, ParseError, ParsingErrorKind};

use vstd::prelude::*;

use crate::jvm::class::{ConstantPool, Version};

verus! {

/// What parsing the elements of a class file needs to know of the class.
#[derive(Debug, Clone)]
pub struct ParsingContext {
    /// The constant pool of the class.
    pub constant_pool: ConstantPool,
    /// The version of the class file.
    pub class_version: Version,
    /// The binary name of the class.
    pub current_class_binary_name: String,
}

} // verus!
