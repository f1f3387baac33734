//! Modules in the Java platform module system.
use vstd::prelude::*;

use crate::jvm::references::{ClassRef, ModuleRef, PackageRef};

verus! {

/// A module.
#[derive(Debug, Clone)]
pub struct Module {
    /// The name of the module.
    pub name: String,
    /// The flags of the module.
    pub flags: Flags,
    /// The version of the module.
    pub version: Option<String>,
    /// The modules that the module depends on.
    pub requires: Vec<Require>,
    /// The packages that the module exports.
    pub exports: Vec<Export>,
    /// The packages that the module opens.
    pub opens: Vec<Open>,
    /// The services that the module uses.
    pub uses: Vec<ClassRef>,
    /// The services that the module provides.
    pub provides: Vec<Provide>,
}

/// A service that a module provides.
#[derive(Debug, Clone)]
pub struct Provide {
    /// The service interface.
    pub service: ClassRef,
    /// The implementations of the service.
    pub with: Vec<ClassRef>,
}

/// A package that a module opens.
#[derive(Debug, Clone)]
pub struct Open {
    /// The package.
    pub package: PackageRef,
    /// The flags.
    pub flags: OpenFlags,
    /// The modules that the package is opened to; all modules when empty.
    pub to: Vec<ModuleRef>,
}

/// A package that a module exports.
#[derive(Debug, Clone)]
pub struct Export {
    /// The package.
    pub package: PackageRef,
    /// The flags.
    pub flags: ExportFlags,
    /// The modules that the package is exported to; all modules when empty.
    pub to: Vec<ModuleRef>,
}

/// A module that a module depends on.
#[derive(Debug, Clone)]
pub struct Require {
    /// The module.
    pub module: ModuleRef,
    /// The flags.
    pub flags: RequireFlags,
    /// The version of the module.
    pub version: Option<String>,
}

/// The flags of a module, as their bits (`OPEN` 0x0020, `SYNTHETIC` 0x1000, `MANDATED` 0x8000).
#[derive(Debug, Clone, Copy, PartialEq, Eq, Structural)]
pub struct Flags {
    /// The bits of the flags.
    pub bits: u16,
}

/// The flags of a dependency, as their bits (`TRANSITIVE` 0x0020, `STATIC_PHASE` 0x0040,
/// `SYNTHETIC` 0x1000, `MANDATED` 0x8000).
#[derive(Debug, Clone, Copy, PartialEq, Eq, Structural)]
pub struct RequireFlags {
    /// The bits of the flags.
    pub bits: u16,
}

/// The flags of an export, as their bits (`SYNTHETIC` 0x1000, `MANDATED` 0x8000).
#[derive(Debug, Clone, Copy, PartialEq, Eq, Structural)]
pub struct ExportFlags {
    /// The bits of the flags.
    pub bits: u16,
}

/// The flags of an opened package, as their bits (`SYNTHETIC` 0x1000, `MANDATED` 0x8000).
#[derive(Debug, Clone, Copy, PartialEq, Eq, Structural)]
pub struct OpenFlags {
    /// The bits of the flags.
    pub bits: u16,
}

impl Flags {
    /// An open module.
    pub const OPEN: u16 = 0x0020;

    /// Not explicitly or implicitly declared in the source of the module declaration.
    pub const SYNTHETIC: u16 = 0x1000;

    /// Implicitly declared in the source of the module declaration.
    pub const MANDATED: u16 = 0x8000;

    /// Checks whether all the bits of `flag` are set.
    pub fn contains(&self, flag: u16) -> (r: bool)
        ensures
            r == (self.bits & flag == flag),
    {
        self.bits & flag == flag
    }
}

impl RequireFlags {
    /// Modules that depend on this module depend on the required one too.
    pub const TRANSITIVE: u16 = 0x0020;

    /// The dependency is mandatory at compile time and optional at run time.
    pub const STATIC_PHASE: u16 = 0x0040;

    /// Not explicitly or implicitly declared in the source of the module declaration.
    pub const SYNTHETIC: u16 = 0x1000;

    /// Implicitly declared in the source of the module declaration.
    pub const MANDATED: u16 = 0x8000;

    /// Checks whether all the bits of `flag` are set.
    pub fn contains(&self, flag: u16) -> (r: bool)
        ensures
            r == (self.bits & flag == flag),
    {
        self.bits & flag == flag
    }
}

impl ExportFlags {
    /// Not explicitly or implicitly declared in the source of the module declaration.
    pub const SYNTHETIC: u16 = 0x1000;

    /// Implicitly declared in the source of the module declaration.
    pub const MANDATED: u16 = 0x8000;

    /// Checks whether all the bits of `flag` are set.
    pub fn contains(&self, flag: u16) -> (r: bool)
        ensures
            r == (self.bits & flag == flag),
    {
        self.bits & flag == flag
    }
}

impl OpenFlags {
    /// Not explicitly or implicitly declared in the source of the module declaration.
    pub const SYNTHETIC: u16 = 0x1000;

    /// Implicitly declared in the source of the module declaration.
    pub const MANDATED: u16 = 0x8000;

    /// Checks whether all the bits of `flag` are set.
    pub fn contains(&self, flag: u16) -> (r: bool)
        ensures
            r == (self.bits & flag == flag),
    {
        self.bits & flag == flag
    }
}

} // verus!
