//! JVM classes and interfaces.
pub mod constant_pool;

use vstd::prelude::*;

use crate::jvm::bytecode::errors::{ParseError, ParsingErrorKind};
use crate::jvm::references::{ClassRef, FieldRef, MethodRef};
use crate::jvm::{Annotation, ConstantValue, TypeAnnotation};
use crate::types::{FieldType, MethodDescriptor};

pub use constant_pool::{BadConstantPoolIndex, ConstantPool};

verus! {

/// The latest major version of class files that is supported.
pub const MAX_MAJOR_VERSION: u16 = 68;

/// The version of a class file.
#[derive(Debug, PartialEq, Eq, Structural, PartialOrd, Clone, Copy)]
#[non_exhaustive]
pub enum Version {
    /// JDK 1.1, with its minor version.
    Jdk1_1(u16),
    /// JDK 1.2.
    Jdk1_2,
    /// JDK 1.3.
    Jdk1_3,
    /// JDK 1.4.
    Jdk1_4,
    /// JDK 5.
    Jdk5,
    /// JDK 6.
    Jdk6,
    /// JDK 7.
    Jdk7,
    /// JDK 8.
    Jdk8,
    /// JDK 9.
    Jdk9,
    /// JDK 10.
    Jdk10,
    /// JDK 11.
    Jdk11,
    /// JDK 12; the flag tells whether preview features are enabled.
    Jdk12(bool),
    /// JDK 13; the flag tells whether preview features are enabled.
    Jdk13(bool),
    /// JDK 14; the flag tells whether preview features are enabled.
    Jdk14(bool),
    /// JDK 15; the flag tells whether preview features are enabled.
    Jdk15(bool),
    /// JDK 16; the flag tells whether preview features are enabled.
    Jdk16(bool),
    /// JDK 17; the flag tells whether preview features are enabled.
    Jdk17(bool),
    /// JDK 18; the flag tells whether preview features are enabled.
    Jdk18(bool),
    /// JDK 19; the flag tells whether preview features are enabled.
    Jdk19(bool),
    /// JDK 20; the flag tells whether preview features are enabled.
    Jdk20(bool),
    /// JDK 21; the flag tells whether preview features are enabled.
    Jdk21(bool),
    /// JDK 22; the flag tells whether preview features are enabled.
    Jdk22(bool),
    /// JDK 23; the flag tells whether preview features are enabled.
    Jdk23(bool),
    /// JDK 24; the flag tells whether preview features are enabled.
    Jdk24(bool),
}

/// The major version number of a class file version.
pub open spec fn major_of(v: Version) -> u16 {
    match v {
        Version::Jdk1_1(_) => 45,
        Version::Jdk1_2 => 46,
        Version::Jdk1_3 => 47,
        Version::Jdk1_4 => 48,
        Version::Jdk5 => 49,
        Version::Jdk6 => 50,
        Version::Jdk7 => 51,
        Version::Jdk8 => 52,
        Version::Jdk9 => 53,
        Version::Jdk10 => 54,
        Version::Jdk11 => 55,
        Version::Jdk12(_) => 56,
        Version::Jdk13(_) => 57,
        Version::Jdk14(_) => 58,
        Version::Jdk15(_) => 59,
        Version::Jdk16(_) => 60,
        Version::Jdk17(_) => 61,
        Version::Jdk18(_) => 62,
        Version::Jdk19(_) => 63,
        Version::Jdk20(_) => 64,
        Version::Jdk21(_) => 65,
        Version::Jdk22(_) => 66,
        Version::Jdk23(_) => 67,
        Version::Jdk24(_) => 68,
    }
}

/// Whether preview features are enabled in a class file version.
pub open spec fn preview_of(v: Version) -> bool {
    match v {
        Version::Jdk12(p) | Version::Jdk13(p) | Version::Jdk14(p) | Version::Jdk15(p) | Version::Jdk16(p)
        | Version::Jdk17(p) | Version::Jdk18(p) | Version::Jdk19(p) | Version::Jdk20(p) | Version::Jdk21(p)
        | Version::Jdk22(p) | Version::Jdk23(p) | Version::Jdk24(p) => p,
        _ => false,
    }
}

/// The minor version number of a class file version: any number for JDK 1.1, `0xFFFF` for a
/// later version with preview features, and `0` otherwise.
pub open spec fn minor_of(v: Version) -> u16 {
    match v {
        Version::Jdk1_1(minor) => minor,
        _ => if preview_of(v) {
            0xFFFF
        } else {
            0
        },
    }
}

/// Whether a pair of major and minor version numbers denotes a supported class file version:
/// major version 45 with any minor version, 46 to 55 with minor version 0, and 56 up to
/// [`MAX_MAJOR_VERSION`] with minor version `0` or `0xFFFF`.
pub open spec fn is_known_version(major: u16, minor: u16) -> bool {
    ||| major == 45
    ||| 46 <= major <= 55 && minor == 0
    ||| 56 <= major <= MAX_MAJOR_VERSION && (minor == 0 || minor == 0xFFFF)
}

impl Version {
    /// Creates the version with the given major and minor version numbers.
    ///
    /// # Errors
    /// A malformed-input error when the numbers denote no known version: "Unsupportted class
    /// version" when the major version is above [`MAX_MAJOR_VERSION`], "Invalid class version"
    /// otherwise.
    pub fn from_versions(major: u16, minor: u16) -> (r: Result<Self, ParseError>)
        ensures
            r is Ok <==> is_known_version(major, minor),
            r matches Ok(v) ==> major_of(v) == major && minor_of(v) == minor,
            r matches Err(e) ==> e.kind_of() == ParsingErrorKind::Malformed && (if major > MAX_MAJOR_VERSION {
                e.message_of() == "Unsupportted class version"@
            } else {
                e.message_of() == "Invalid class version"@
            }),
    {
        if major == 45 {
            return Ok(Version::Jdk1_1(minor));
        }
        if minor == 0 {
            match major {
                46 => return Ok(Version::Jdk1_2),
                47 => return Ok(Version::Jdk1_3),
                48 => return Ok(Version::Jdk1_4),
                49 => return Ok(Version::Jdk5),
                50 => return Ok(Version::Jdk6),
                51 => return Ok(Version::Jdk7),
                52 => return Ok(Version::Jdk8),
                53 => return Ok(Version::Jdk9),
                54 => return Ok(Version::Jdk10),
                55 => return Ok(Version::Jdk11),
                _ => {},
            }
        }
        if minor == 0 || minor == 0xFFFF {
            let preview = minor == 0xFFFF;
            match major {
                56 => return Ok(Version::Jdk12(preview)),
                57 => return Ok(Version::Jdk13(preview)),
                58 => return Ok(Version::Jdk14(preview)),
                59 => return Ok(Version::Jdk15(preview)),
                60 => return Ok(Version::Jdk16(preview)),
                61 => return Ok(Version::Jdk17(preview)),
                62 => return Ok(Version::Jdk18(preview)),
                63 => return Ok(Version::Jdk19(preview)),
                64 => return Ok(Version::Jdk20(preview)),
                65 => return Ok(Version::Jdk21(preview)),
                66 => return Ok(Version::Jdk22(preview)),
                67 => return Ok(Version::Jdk23(preview)),
                68 => return Ok(Version::Jdk24(preview)),
                _ => {},
            }
        }
        if major > MAX_MAJOR_VERSION {
            Err(ParseError::malform("Unsupportted class version".to_owned()))
        } else {
            Err(ParseError::malform("Invalid class version".to_owned()))
        }
    }

    /// Checks if the class file uses preview features.
    pub fn is_preview_enabled(&self) -> (r: bool)
        ensures
            r == preview_of(*self),
    {
        match self {
            Version::Jdk12(p) | Version::Jdk13(p) | Version::Jdk14(p) | Version::Jdk15(p) | Version::Jdk16(p)
            | Version::Jdk17(p) | Version::Jdk18(p) | Version::Jdk19(p) | Version::Jdk20(p)
            | Version::Jdk21(p) | Version::Jdk22(p) | Version::Jdk23(p) | Version::Jdk24(p) => *p,
            _ => false,
        }
    }

    /// Gets the major version number.
    pub fn major(&self) -> (r: u16)
        ensures
            r == major_of(*self),
    {
        match self {
            Version::Jdk1_1(_) => 45,
            Version::Jdk1_2 => 46,
            Version::Jdk1_3 => 47,
            Version::Jdk1_4 => 48,
            Version::Jdk5 => 49,
            Version::Jdk6 => 50,
            Version::Jdk7 => 51,
            Version::Jdk8 => 52,
            Version::Jdk9 => 53,
            Version::Jdk10 => 54,
            Version::Jdk11 => 55,
            Version::Jdk12(_) => 56,
            Version::Jdk13(_) => 57,
            Version::Jdk14(_) => 58,
            Version::Jdk15(_) => 59,
            Version::Jdk16(_) => 60,
            Version::Jdk17(_) => 61,
            Version::Jdk18(_) => 62,
            Version::Jdk19(_) => 63,
            Version::Jdk20(_) => 64,
            Version::Jdk21(_) => 65,
            Version::Jdk22(_) => 66,
            Version::Jdk23(_) => 67,
            Version::Jdk24(_) => 68,
        }
    }

    /// Gets the minor version number.
    pub fn minor(&self) -> (r: u16)
        ensures
            r == minor_of(*self),
    {
        match self {
            Version::Jdk1_1(minor) => *minor,
            _ => if self.is_preview_enabled() {
                u16::MAX
            } else {
                0
            },
        }
    }
}

/// Every version has known version numbers, and they are the numbers of no other version.
pub proof fn lemma_version_numbers_determine(v: Version, w: Version)
    ensures
        is_known_version(major_of(v), minor_of(v)),
        major_of(v) == major_of(w) && minor_of(v) == minor_of(w) ==> v == w,
{
}

/// A version read back from its own numbers is the same version.
pub proof fn lemma_version_round_trip(v: Version, r: Result<Version, ParseError>)
    requires
        r is Ok <==> is_known_version(major_of(v), minor_of(v)),
        r matches Ok(w) ==> major_of(w) == major_of(v) && minor_of(w) == minor_of(v),
    ensures
        r == Ok::<Version, ParseError>(v),
{
    lemma_version_numbers_determine(v, r->Ok_0);
}

/// A version of JDK 12 or later enables preview features exactly when its minor version is
/// `0xFFFF`; an earlier one never does.
pub proof fn lemma_preview_iff_max_minor(v: Version)
    ensures
        major_of(v) >= 56 ==> (preview_of(v) <==> minor_of(v) == 0xFFFF),
        major_of(v) < 56 ==> !preview_of(v),
{
}

/// The access flags of a class, as their bits.
#[derive(Debug, PartialEq, Eq, Structural, Clone, Copy)]
pub struct AccessFlags {
    /// The bits of the flags.
    pub bits: u16,
}

/// The access flags of a nested class, as their bits.
#[derive(Debug, PartialEq, Eq, Structural, Clone, Copy)]
pub struct NestedClassAccessFlags {
    /// The bits of the flags.
    pub bits: u16,
}

impl AccessFlags {
    /// Declared `public`; may be accessed from outside its package.
    pub const PUBLIC: u16 = 0x0001;

    /// Marked `private` in source; not in the JVM specification, but set in some class files.
    pub const PRIVATE: u16 = 0x0002;

    /// Declared `final`; no subclasses allowed.
    pub const FINAL: u16 = 0x0010;

    /// Treat superclass methods specially when invoked by `invokespecial`.
    pub const SUPER: u16 = 0x0020;

    /// Is an interface, not a class.
    pub const INTERFACE: u16 = 0x0200;

    /// Declared `abstract`; must not be instantiated.
    pub const ABSTRACT: u16 = 0x0400;

    /// Declared synthetic; not present in the source code.
    pub const SYNTHETIC: u16 = 0x1000;

    /// Declared as an annotation interface.
    pub const ANNOTATION: u16 = 0x2000;

    /// Declared as an enum class.
    pub const ENUM: u16 = 0x4000;

    /// Is a module, not a class or interface.
    pub const MODULE: u16 = 0x8000;

    /// Checks whether all the bits of `flag` are set.
    pub fn contains(&self, flag: u16) -> (r: bool)
        ensures
            r == (self.bits & flag == flag),
    {
        self.bits & flag == flag
    }
}

impl NestedClassAccessFlags {
    /// Marked or implicitly `public` in source.
    pub const PUBLIC: u16 = 0x0001;

    /// Marked `private` in source.
    pub const PRIVATE: u16 = 0x0002;

    /// Marked `protected` in source.
    pub const PROTECTED: u16 = 0x0004;

    /// Marked or implicitly `static` in source.
    pub const STATIC: u16 = 0x0008;

    /// Marked `final` in source.
    pub const FINAL: u16 = 0x0010;

    /// Treat superclass methods specially when invoked by `invokespecial`; not in the JVM
    /// specification, but set in some class files.
    pub const SUPER: u16 = 0x0020;

    /// Was an `interface` in source.
    pub const INTERFACE: u16 = 0x0200;

    /// Marked or implicitly `abstract` in source.
    pub const ABSTRACT: u16 = 0x0400;

    /// Declared synthetic; not present in the source code.
    pub const SYNTHETIC: u16 = 0x1000;

    /// Declared as an annotation interface.
    pub const ANNOTATION: u16 = 0x2000;

    /// Declared as an enum class.
    pub const ENUM: u16 = 0x4000;

    /// Checks whether all the bits of `flag` are set.
    pub fn contains(&self, flag: u16) -> (r: bool)
        ensures
            r == (self.bits & flag == flag),
    {
        self.bits & flag == flag
    }
}

/// The access flags of a class.
pub open spec fn class_flags() -> Seq<u16> {
    seq![
        AccessFlags::PUBLIC,
        AccessFlags::PRIVATE,
        AccessFlags::FINAL,
        AccessFlags::SUPER,
        AccessFlags::INTERFACE,
        AccessFlags::ABSTRACT,
        AccessFlags::SYNTHETIC,
        AccessFlags::ANNOTATION,
        AccessFlags::ENUM,
        AccessFlags::MODULE,
    ]
}

/// The access flags of a nested class.
pub open spec fn nested_class_flags() -> Seq<u16> {
    seq![
        NestedClassAccessFlags::PUBLIC,
        NestedClassAccessFlags::PRIVATE,
        NestedClassAccessFlags::PROTECTED,
        NestedClassAccessFlags::STATIC,
        NestedClassAccessFlags::FINAL,
        NestedClassAccessFlags::SUPER,
        NestedClassAccessFlags::INTERFACE,
        NestedClassAccessFlags::ABSTRACT,
        NestedClassAccessFlags::SYNTHETIC,
        NestedClassAccessFlags::ANNOTATION,
        NestedClassAccessFlags::ENUM,
    ]
}

/// Whether no two different flags of a list share a bit.
pub open spec fn flags_disjoint(flags: Seq<u16>) -> bool {
    forall|i: int, j: int| 0 <= i < flags.len() && 0 <= j < flags.len() && i != j ==> #[trigger] flags[i] & #[trigger] flags[j] == 0
}

/// Each access flag of a class is a bit of its own.
pub proof fn lemma_class_flags_disjoint()
    ensures
        flags_disjoint(class_flags()),
{
    let f = class_flags();
    assert(f[0] == 0x0001u16 && f[1] == 0x0002u16 && f[2] == 0x0010u16 && f[3] == 0x0020u16 && f[4] == 0x0200u16 && f[5] == 0x0400u16 && f[6] == 0x1000u16 && f[7] == 0x2000u16 && f[8] == 0x4000u16 && f[9] == 0x8000u16);
    assert(0x0001u16 & 0x0002u16 == 0u16 && 0x0001u16 & 0x0010u16 == 0u16 && 0x0001u16 & 0x0020u16 == 0u16 && 0x0001u16 & 0x0200u16 == 0u16 && 0x0001u16 & 0x0400u16 == 0u16 && 0x0001u16 & 0x1000u16 == 0u16 && 0x0001u16 & 0x2000u16 == 0u16 && 0x0001u16 & 0x4000u16 == 0u16 && 0x0001u16 & 0x8000u16 == 0u16 && 0x0002u16 & 0x0001u16 == 0u16 && 0x0002u16 & 0x0010u16 == 0u16 && 0x0002u16 & 0x0020u16 == 0u16 && 0x0002u16 & 0x0200u16 == 0u16 && 0x0002u16 & 0x0400u16 == 0u16 && 0x0002u16 & 0x1000u16 == 0u16 && 0x0002u16 & 0x2000u16 == 0u16 && 0x0002u16 & 0x4000u16 == 0u16 && 0x0002u16 & 0x8000u16 == 0u16 && 0x0010u16 & 0x0001u16 == 0u16 && 0x0010u16 & 0x0002u16 == 0u16 && 0x0010u16 & 0x0020u16 == 0u16 && 0x0010u16 & 0x0200u16 == 0u16 && 0x0010u16 & 0x0400u16 == 0u16 && 0x0010u16 & 0x1000u16 == 0u16 && 0x0010u16 & 0x2000u16 == 0u16 && 0x0010u16 & 0x4000u16 == 0u16 && 0x0010u16 & 0x8000u16 == 0u16 && 0x0020u16 & 0x0001u16 == 0u16 && 0x0020u16 & 0x0002u16 == 0u16 && 0x0020u16 & 0x0010u16 == 0u16 && 0x0020u16 & 0x0200u16 == 0u16 && 0x0020u16 & 0x0400u16 == 0u16 && 0x0020u16 & 0x1000u16 == 0u16 && 0x0020u16 & 0x2000u16 == 0u16 && 0x0020u16 & 0x4000u16 == 0u16 && 0x0020u16 & 0x8000u16 == 0u16 && 0x0200u16 & 0x0001u16 == 0u16 && 0x0200u16 & 0x0002u16 == 0u16 && 0x0200u16 & 0x0010u16 == 0u16 && 0x0200u16 & 0x0020u16 == 0u16 && 0x0200u16 & 0x0400u16 == 0u16 && 0x0200u16 & 0x1000u16 == 0u16 && 0x0200u16 & 0x2000u16 == 0u16 && 0x0200u16 & 0x4000u16 == 0u16 && 0x0200u16 & 0x8000u16 == 0u16 && 0x0400u16 & 0x0001u16 == 0u16 && 0x0400u16 & 0x0002u16 == 0u16 && 0x0400u16 & 0x0010u16 == 0u16 && 0x0400u16 & 0x0020u16 == 0u16 && 0x0400u16 & 0x0200u16 == 0u16 && 0x0400u16 & 0x1000u16 == 0u16 && 0x0400u16 & 0x2000u16 == 0u16 && 0x0400u16 & 0x4000u16 == 0u16 && 0x0400u16 & 0x8000u16 == 0u16 && 0x1000u16 & 0x0001u16 == 0u16 && 0x1000u16 & 0x0002u16 == 0u16 && 0x1000u16 & 0x0010u16 == 0u16 && 0x1000u16 & 0x0020u16 == 0u16 && 0x1000u16 & 0x0200u16 == 0u16 && 0x1000u16 & 0x0400u16 == 0u16 && 0x1000u16 & 0x2000u16 == 0u16 && 0x1000u16 & 0x4000u16 == 0u16 && 0x1000u16 & 0x8000u16 == 0u16 && 0x2000u16 & 0x0001u16 == 0u16 && 0x2000u16 & 0x0002u16 == 0u16 && 0x2000u16 & 0x0010u16 == 0u16 && 0x2000u16 & 0x0020u16 == 0u16 && 0x2000u16 & 0x0200u16 == 0u16 && 0x2000u16 & 0x0400u16 == 0u16 && 0x2000u16 & 0x1000u16 == 0u16 && 0x2000u16 & 0x4000u16 == 0u16 && 0x2000u16 & 0x8000u16 == 0u16 && 0x4000u16 & 0x0001u16 == 0u16 && 0x4000u16 & 0x0002u16 == 0u16 && 0x4000u16 & 0x0010u16 == 0u16 && 0x4000u16 & 0x0020u16 == 0u16 && 0x4000u16 & 0x0200u16 == 0u16 && 0x4000u16 & 0x0400u16 == 0u16 && 0x4000u16 & 0x1000u16 == 0u16 && 0x4000u16 & 0x2000u16 == 0u16 && 0x4000u16 & 0x8000u16 == 0u16 && 0x8000u16 & 0x0001u16 == 0u16 && 0x8000u16 & 0x0002u16 == 0u16 && 0x8000u16 & 0x0010u16 == 0u16 && 0x8000u16 & 0x0020u16 == 0u16 && 0x8000u16 & 0x0200u16 == 0u16 && 0x8000u16 & 0x0400u16 == 0u16 && 0x8000u16 & 0x1000u16 == 0u16 && 0x8000u16 & 0x2000u16 == 0u16 && 0x8000u16 & 0x4000u16 == 0u16) by (bit_vector);
    assert forall|i: int, j: int| 0 <= i < f.len() && 0 <= j < f.len() && i != j implies #[trigger] f[i] & #[trigger] f[j] == 0 by {
        assert(i == 0 || i == 1 || i == 2 || i == 3 || i == 4 || i == 5 || i == 6 || i == 7 || i == 8 || i == 9);
        assert(j == 0 || j == 1 || j == 2 || j == 3 || j == 4 || j == 5 || j == 6 || j == 7 || j == 8 || j == 9);
    }
}

/// Each access flag of a nested class is a bit of its own.
pub proof fn lemma_nested_class_flags_disjoint()
    ensures
        flags_disjoint(nested_class_flags()),
{
    let f = nested_class_flags();
    assert(f[0] == 0x0001u16 && f[1] == 0x0002u16 && f[2] == 0x0004u16 && f[3] == 0x0008u16 && f[4] == 0x0010u16 && f[5] == 0x0020u16 && f[6] == 0x0200u16 && f[7] == 0x0400u16 && f[8] == 0x1000u16 && f[9] == 0x2000u16 && f[10] == 0x4000u16);
    assert(0x0001u16 & 0x0002u16 == 0u16 && 0x0001u16 & 0x0004u16 == 0u16 && 0x0001u16 & 0x0008u16 == 0u16 && 0x0001u16 & 0x0010u16 == 0u16 && 0x0001u16 & 0x0020u16 == 0u16 && 0x0001u16 & 0x0200u16 == 0u16 && 0x0001u16 & 0x0400u16 == 0u16 && 0x0001u16 & 0x1000u16 == 0u16 && 0x0001u16 & 0x2000u16 == 0u16 && 0x0001u16 & 0x4000u16 == 0u16 && 0x0002u16 & 0x0001u16 == 0u16 && 0x0002u16 & 0x0004u16 == 0u16 && 0x0002u16 & 0x0008u16 == 0u16 && 0x0002u16 & 0x0010u16 == 0u16 && 0x0002u16 & 0x0020u16 == 0u16 && 0x0002u16 & 0x0200u16 == 0u16 && 0x0002u16 & 0x0400u16 == 0u16 && 0x0002u16 & 0x1000u16 == 0u16 && 0x0002u16 & 0x2000u16 == 0u16 && 0x0002u16 & 0x4000u16 == 0u16 && 0x0004u16 & 0x0001u16 == 0u16 && 0x0004u16 & 0x0002u16 == 0u16 && 0x0004u16 & 0x0008u16 == 0u16 && 0x0004u16 & 0x0010u16 == 0u16 && 0x0004u16 & 0x0020u16 == 0u16 && 0x0004u16 & 0x0200u16 == 0u16 && 0x0004u16 & 0x0400u16 == 0u16 && 0x0004u16 & 0x1000u16 == 0u16 && 0x0004u16 & 0x2000u16 == 0u16 && 0x0004u16 & 0x4000u16 == 0u16 && 0x0008u16 & 0x0001u16 == 0u16 && 0x0008u16 & 0x0002u16 == 0u16 && 0x0008u16 & 0x0004u16 == 0u16 && 0x0008u16 & 0x0010u16 == 0u16 && 0x0008u16 & 0x0020u16 == 0u16 && 0x0008u16 & 0x0200u16 == 0u16 && 0x0008u16 & 0x0400u16 == 0u16 && 0x0008u16 & 0x1000u16 == 0u16 && 0x0008u16 & 0x2000u16 == 0u16 && 0x0008u16 & 0x4000u16 == 0u16 && 0x0010u16 & 0x0001u16 == 0u16 && 0x0010u16 & 0x0002u16 == 0u16 && 0x0010u16 & 0x0004u16 == 0u16 && 0x0010u16 & 0x0008u16 == 0u16 && 0x0010u16 & 0x0020u16 == 0u16 && 0x0010u16 & 0x0200u16 == 0u16 && 0x0010u16 & 0x0400u16 == 0u16 && 0x0010u16 & 0x1000u16 == 0u16 && 0x0010u16 & 0x2000u16 == 0u16 && 0x0010u16 & 0x4000u16 == 0u16 && 0x0020u16 & 0x0001u16 == 0u16 && 0x0020u16 & 0x0002u16 == 0u16 && 0x0020u16 & 0x0004u16 == 0u16 && 0x0020u16 & 0x0008u16 == 0u16 && 0x0020u16 & 0x0010u16 == 0u16 && 0x0020u16 & 0x0200u16 == 0u16 && 0x0020u16 & 0x0400u16 == 0u16 && 0x0020u16 & 0x1000u16 == 0u16 && 0x0020u16 & 0x2000u16 == 0u16 && 0x0020u16 & 0x4000u16 == 0u16 && 0x0200u16 & 0x0001u16 == 0u16 && 0x0200u16 & 0x0002u16 == 0u16 && 0x0200u16 & 0x0004u16 == 0u16 && 0x0200u16 & 0x0008u16 == 0u16 && 0x0200u16 & 0x0010u16 == 0u16 && 0x0200u16 & 0x0020u16 == 0u16 && 0x0200u16 & 0x0400u16 == 0u16 && 0x0200u16 & 0x1000u16 == 0u16 && 0x0200u16 & 0x2000u16 == 0u16 && 0x0200u16 & 0x4000u16 == 0u16 && 0x0400u16 & 0x0001u16 == 0u16 && 0x0400u16 & 0x0002u16 == 0u16 && 0x0400u16 & 0x0004u16 == 0u16 && 0x0400u16 & 0x0008u16 == 0u16 && 0x0400u16 & 0x0010u16 == 0u16 && 0x0400u16 & 0x0020u16 == 0u16 && 0x0400u16 & 0x0200u16 == 0u16 && 0x0400u16 & 0x1000u16 == 0u16 && 0x0400u16 & 0x2000u16 == 0u16 && 0x0400u16 & 0x4000u16 == 0u16 && 0x1000u16 & 0x0001u16 == 0u16 && 0x1000u16 & 0x0002u16 == 0u16 && 0x1000u16 & 0x0004u16 == 0u16 && 0x1000u16 & 0x0008u16 == 0u16 && 0x1000u16 & 0x0010u16 == 0u16 && 0x1000u16 & 0x0020u16 == 0u16 && 0x1000u16 & 0x0200u16 == 0u16 && 0x1000u16 & 0x0400u16 == 0u16 && 0x1000u16 & 0x2000u16 == 0u16 && 0x1000u16 & 0x4000u16 == 0u16 && 0x2000u16 & 0x0001u16 == 0u16 && 0x2000u16 & 0x0002u16 == 0u16 && 0x2000u16 & 0x0004u16 == 0u16 && 0x2000u16 & 0x0008u16 == 0u16 && 0x2000u16 & 0x0010u16 == 0u16 && 0x2000u16 & 0x0020u16 == 0u16 && 0x2000u16 & 0x0200u16 == 0u16 && 0x2000u16 & 0x0400u16 == 0u16 && 0x2000u16 & 0x1000u16 == 0u16 && 0x2000u16 & 0x4000u16 == 0u16 && 0x4000u16 & 0x0001u16 == 0u16 && 0x4000u16 & 0x0002u16 == 0u16 && 0x4000u16 & 0x0004u16 == 0u16 && 0x4000u16 & 0x0008u16 == 0u16 && 0x4000u16 & 0x0010u16 == 0u16 && 0x4000u16 & 0x0020u16 == 0u16 && 0x4000u16 & 0x0200u16 == 0u16 && 0x4000u16 & 0x0400u16 == 0u16 && 0x4000u16 & 0x1000u16 == 0u16 && 0x4000u16 & 0x2000u16 == 0u16) by (bit_vector);
    assert forall|i: int, j: int| 0 <= i < f.len() && 0 <= j < f.len() && i != j implies #[trigger] f[i] & #[trigger] f[j] == 0 by {
        assert(i == 0 || i == 1 || i == 2 || i == 3 || i == 4 || i == 5 || i == 6 || i == 7 || i == 8 || i == 9 || i == 10);
        assert(j == 0 || j == 1 || j == 2 || j == 3 || j == 4 || j == 5 || j == 6 || j == 7 || j == 8 || j == 9 || j == 10);
    }
}

/// Information about an inner class.
#[derive(Debug, Clone)]
pub struct InnerClassInfo {
    /// The inner class.
    pub inner_class: ClassRef,
    /// The class in which the inner class is declared, if it is a member.
    pub outer_class: Option<ClassRef>,
    /// The simple name of the inner class, unless it is anonymous.
    pub inner_name: Option<String>,
    /// The access flags of the inner class.
    pub access_flags: NestedClassAccessFlags,
}

/// The method in which a local or anonymous class is declared.
#[derive(Debug, Clone)]
pub struct EnclosingMethod {
    /// The class that encloses the declaration.
    pub class: ClassRef,
    /// The name and descriptor of the enclosing method, if there is one.
    pub method_name_and_desc: Option<(String, MethodDescriptor)>,
}

/// A bootstrap method for `invokedynamic` and dynamically computed constants.
#[derive(Debug, Clone)]
pub struct BootstrapMethod {
    /// The method handle of the bootstrap method.
    pub method: MethodHandle,
    /// The static arguments passed to the bootstrap method.
    pub arguments: Vec<ConstantValue>,
}

/// A method handle.
#[derive(Debug, Clone, PartialEq, Eq, PartialOrd, Ord)]
pub enum MethodHandle {
    /// Reads an instance field.
    RefGetField(FieldRef),
    /// Reads a static field.
    RefGetStatic(FieldRef),
    /// Writes an instance field.
    RefPutField(FieldRef),
    /// Writes a static field.
    RefPutStatic(FieldRef),
    /// Invokes a virtual method.
    RefInvokeVirtual(MethodRef),
    /// Invokes a static method.
    RefInvokeStatic(MethodRef),
    /// Invokes a method with `invokespecial`.
    RefInvokeSpecial(MethodRef),
    /// Creates an object and invokes its constructor.
    RefNewInvokeSpecial(MethodRef),
    /// Invokes an interface method.
    RefInvokeInterface(MethodRef),
}

/// The reference kind of a method handle in a class file, from 1 to 9.
pub open spec fn reference_kind_of(h: MethodHandle) -> u8 {
    match h {
        MethodHandle::RefGetField(_) => 1,
        MethodHandle::RefGetStatic(_) => 2,
        MethodHandle::RefPutField(_) => 3,
        MethodHandle::RefPutStatic(_) => 4,
        MethodHandle::RefInvokeVirtual(_) => 5,
        MethodHandle::RefInvokeStatic(_) => 6,
        MethodHandle::RefInvokeSpecial(_) => 7,
        MethodHandle::RefNewInvokeSpecial(_) => 8,
        MethodHandle::RefInvokeInterface(_) => 9,
    }
}

impl MethodHandle {
    /// Gets the reference kind of the method handle.
    pub fn reference_kind(&self) -> (r: u8)
        ensures
            r == reference_kind_of(*self),
    {
        match self {
            MethodHandle::RefGetField(_) => 1,
            MethodHandle::RefGetStatic(_) => 2,
            MethodHandle::RefPutField(_) => 3,
            MethodHandle::RefPutStatic(_) => 4,
            MethodHandle::RefInvokeVirtual(_) => 5,
            MethodHandle::RefInvokeStatic(_) => 6,
            MethodHandle::RefInvokeSpecial(_) => 7,
            MethodHandle::RefNewInvokeSpecial(_) => 8,
            MethodHandle::RefInvokeInterface(_) => 9,
        }
    }
}

/// A component of a record class.
#[derive(Debug)]
pub struct RecordComponent {
    /// The name of the component.
    pub name: String,
    /// The type of the component.
    pub component_type: FieldType,
    /// The generic signature of the component.
    pub signature: Option<String>,
    /// The runtime visible annotations.
    pub runtime_visible_annotations: Vec<Annotation>,
    /// The runtime invisible annotations.
    pub runtime_invisible_annotations: Vec<Annotation>,
    /// The runtime visible type annotations.
    pub runtime_visible_type_annotations: Vec<TypeAnnotation>,
    /// The runtime invisible type annotations.
    pub runtime_invisible_type_annotations: Vec<TypeAnnotation>,
    /// Unrecognized attributes, by name.
    pub free_attributes: Vec<(String, Vec<u8>)>,
}

/// The source debug extension of a class: extended debugging information.
#[derive(Debug, Clone)]
pub struct SourceDebugExtension {
    bytes: Vec<u8>,
}

impl SourceDebugExtension {
    /// Creates a source debug extension with the given bytes.
    pub fn new(bytes: Vec<u8>) -> (r: Self)
        ensures
            r.bytes_of() == bytes@,
    {
        SourceDebugExtension { bytes }
    }

    /// The bytes of the extension.
    pub closed spec fn bytes_of(self) -> Seq<u8> {
        self.bytes@
    }

    /// Gets the bytes of the extension.
    pub fn bytes(&self) -> (r: &[u8])
        ensures
            r@ == self.bytes_of(),
    {
        self.bytes.as_slice()
    }
}

} // verus!
