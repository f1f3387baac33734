use mokapot::jvm::bytecode::raw_attributes::{Annotation, ElementValueInfo, TargetInfo, TypeAnnotation};
use mokapot::jvm::bytecode::{GenerationErrorKind, ParsingErrorKind};

fn sample() -> Annotation {
    Annotation {
        type_index: 0x0102,
        element_value_pairs: vec![
            (3, ElementValueInfo::Const(b'I', 4)),
            (5, ElementValueInfo::Enum { type_name_index: 6, const_name_index: 7 }),
            (
                8,
                ElementValueInfo::Array(vec![
                    ElementValueInfo::ClassInfo(9),
                    ElementValueInfo::Annotation(Annotation { type_index: 10, element_value_pairs: vec![] }),
                ]),
            ),
        ],
    }
}

#[test]
fn annotation_bytes_follow_the_format() {
    let mut out = vec![0xAA];
    sample().to_writer(&mut out).unwrap();
    assert_eq!(
        out,
        vec![
            0xAA, 1, 2, 0, 3, 0, 3, b'I', 0, 4, 0, 5, b'e', 0, 6, 0, 7, 0, 8, b'[', 0, 2, b'c', 0, 9, b'@', 0, 10, 0, 0,
        ]
    );
    let (a, next) = Annotation::from_reader(&out, 1).unwrap();
    assert_eq!(a, sample());
    assert_eq!(next, out.len());
}

#[test]
fn element_value_round_trip() {
    let v = ElementValueInfo::Array(vec![ElementValueInfo::Const(b's', 300), ElementValueInfo::Array(vec![])]);
    let mut out = Vec::new();
    v.to_writer(&mut out).unwrap();
    assert_eq!(out, vec![b'[', 0, 2, b's', 1, 44, b'[', 0, 0]);
    assert_eq!(ElementValueInfo::from_reader(&out, 0).unwrap(), (v, 9));
}

#[test]
fn unknown_element_value_tag() {
    let e = ElementValueInfo::from_reader(&[b'x', 0, 1], 0).unwrap_err();
    assert_eq!(e.kind(), ParsingErrorKind::Malformed);
    assert_eq!(e.message(), "Unknown element value tag: 120");
    let mut out = Vec::new();
    ElementValueInfo::Const(b'x', 1).to_writer(&mut out).unwrap();
    assert_eq!(out, vec![b'x', 0, 1]);
    assert!(ElementValueInfo::from_reader(&[b'[', 0, 1], 0).is_err());
    assert!(ElementValueInfo::from_reader(&[b'I', 0], 0).is_err());
}

#[test]
fn too_many_values() {
    let v = ElementValueInfo::Array((0..0x10000).map(|_| ElementValueInfo::ClassInfo(1)).collect());
    let mut out = Vec::new();
    let e = v.to_writer(&mut out).unwrap_err();
    assert_eq!(e.kind(), GenerationErrorKind::OutOfRange);
}

#[test]
fn type_annotation_round_trip() {
    let t = TypeAnnotation {
        target_info: TargetInfo::FormalParameter { index: 2 },
        target_path: vec![(3, 0), (1, 4)],
        type_index: 0x0A0B,
        element_value_pairs: vec![(1, ElementValueInfo::Const(b'Z', 1))],
    };
    let mut out = Vec::new();
    t.to_writer(&mut out).unwrap();
    assert_eq!(out, vec![0x16, 2, 2, 3, 0, 1, 4, 0x0A, 0x0B, 0, 1, 0, 1, b'Z', 0, 1]);
    let (u, next) = TypeAnnotation::from_reader(&out, 0).unwrap();
    assert_eq!(u, t);
    assert_eq!(next, out.len());
    assert!(TypeAnnotation::from_reader(&out[..5], 0).is_err());
}
