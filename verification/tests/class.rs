use mokapot::jvm::bytecode::ParsingErrorKind;
use mokapot::jvm::class::{AccessFlags, MethodHandle, NestedClassAccessFlags, Version, MAX_MAJOR_VERSION};
use mokapot::jvm::module::{Flags, RequireFlags};
use mokapot::jvm::references::{ClassRef, FieldRef};
use mokapot::types::{FieldType, PrimitiveType};

#[test]
fn jdk_1_1() {
    for minor in [0u16, 1, 3, 0x7fff, u16::MAX] {
        let class_version = Version::from_versions(45, minor).unwrap();
        assert_eq!(45, class_version.major());
        assert_eq!(minor, class_version.minor());
    }
}

#[test]
fn jdk_1_x() {
    for major in 46u16..56 {
        let class_version = Version::from_versions(major, 0).unwrap();
        assert_eq!(major, class_version.major());
        assert!(!class_version.is_preview_enabled());
    }
}

#[test]
fn jdk_1_x_invalid() {
    for major in 46u16..56 {
        for minor in [1u16, 2, 0xffff] {
            assert!(Version::from_versions(major, minor).is_err());
        }
    }
}

#[test]
fn newer_class_versions() {
    for major in 56..=MAX_MAJOR_VERSION {
        for minor in [0u16, u16::MAX] {
            let class_version = Version::from_versions(major, minor).unwrap();
            assert_eq!(major, class_version.major());
            assert_eq!(class_version.is_preview_enabled(), class_version.minor() == u16::MAX);
        }
    }
}

#[test]
fn too_low_class_version() {
    for major in 0u16..45 {
        let e = Version::from_versions(major, 0).unwrap_err();
        assert_eq!(e.kind(), ParsingErrorKind::Malformed);
        assert_eq!(e.message(), "Invalid class version");
    }
}

#[test]
fn too_high_class_version() {
    for major in [MAX_MAJOR_VERSION + 1, 100, u16::MAX] {
        let e = Version::from_versions(major, 0).unwrap_err();
        assert_eq!(e.message(), "Unsupportted class version");
    }
}

#[test]
fn invalid_class_version() {
    for major in 46..=MAX_MAJOR_VERSION {
        for minor in [1u16, 2, 100, u16::MAX - 1] {
            assert!(Version::from_versions(major, minor).is_err());
        }
    }
}

#[test]
fn round_trip_of_versions() {
    let v = Version::Jdk21(true);
    assert_eq!(Version::from_versions(v.major(), v.minor()).unwrap(), v);
    assert_eq!(v.minor(), 0xffff);
    assert_eq!(Version::Jdk8.major(), 52);
}

#[test]
fn reference_kinds() {
    let field = FieldRef {
        owner: ClassRef::new("A".to_owned()),
        name: "f".to_owned(),
        field_type: FieldType::Base(PrimitiveType::Int),
    };
    assert_eq!(MethodHandle::RefGetField(field.clone()).reference_kind(), 1);
    assert_eq!(MethodHandle::RefPutStatic(field).reference_kind(), 4);
}

#[test]
fn access_flags_are_single_bits() {
    let flags = [
        AccessFlags::PUBLIC,
        AccessFlags::PRIVATE,
        AccessFlags::FINAL,
        AccessFlags::SUPER,
        AccessFlags::INTERFACE,
        AccessFlags::ABSTRACT,
        AccessFlags::SYNTHETIC,
        AccessFlags::ANNOTATION,
        AccessFlags::ENUM,
        AccessFlags::MODULE,
    ];
    for (i, a) in flags.iter().enumerate() {
        for (j, b) in flags.iter().enumerate() {
            if i != j {
                assert_eq!(a & b, 0);
            }
        }
    }
    let class = AccessFlags { bits: AccessFlags::PUBLIC | AccessFlags::ABSTRACT };
    assert!(class.contains(AccessFlags::ABSTRACT));
    assert!(!class.contains(AccessFlags::INTERFACE));
    let nested = NestedClassAccessFlags { bits: NestedClassAccessFlags::STATIC };
    assert!(nested.contains(NestedClassAccessFlags::STATIC));
    assert!(!nested.contains(NestedClassAccessFlags::PROTECTED));
}

#[test]
fn module_flags() {
    let f = Flags { bits: Flags::OPEN | Flags::MANDATED };
    assert!(f.contains(Flags::OPEN));
    assert!(!f.contains(Flags::SYNTHETIC));
    let r = RequireFlags { bits: RequireFlags::TRANSITIVE };
    assert!(r.contains(RequireFlags::TRANSITIVE));
    assert!(!r.contains(RequireFlags::STATIC_PHASE));
}
