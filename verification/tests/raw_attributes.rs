use mokapot::jvm::annotation::{OffsetOf, TargetInfo, TypeArgumentLocation, TypePathElement, VariableKind};
use mokapot::jvm::bytecode::element::Element;
use mokapot::jvm::bytecode::raw_attributes::{
    AttributeInfo, Code, ExceptionTableEntry, ExportsInfo, ModuleInfo, ProvidesInfo, RequiresInfo,
    StackMapFrameInfo, TargetInfo as RawTargetInfo, VerificationTypeInfo,
};
use mokapot::jvm::bytecode::{GenerationErrorKind, ParsingErrorKind};
use mokapot::jvm::code::ProgramCounter;

fn bytes_of<T: Element>(x: &T) -> Vec<u8> {
    let mut out = Vec::new();
    x.to_writer(&mut out).unwrap();
    out
}

fn read_back<T: Element + std::fmt::Debug + PartialEq>(x: T) {
    let bytes = bytes_of(&x);
    let (y, next) = T::from_reader(&bytes, 0).unwrap();
    assert_eq!(y, x);
    assert_eq!(next, bytes.len());
}

#[test]
fn verification_types_are_a_tag_and_an_index() {
    assert_eq!(bytes_of(&VerificationTypeInfo::Integer), vec![1]);
    assert_eq!(bytes_of(&VerificationTypeInfo::Object { class_info_index: 0x0102 }), vec![7, 1, 2]);
    read_back(VerificationTypeInfo::Uninitialized { offset: 9 });
    let e = VerificationTypeInfo::from_reader(&[9], 0).unwrap_err();
    assert_eq!(e.kind(), ParsingErrorKind::Malformed);
    assert_eq!(e.message(), "Unknown verification type tag: 9");
    assert!(VerificationTypeInfo::from_reader(&[7, 1], 0).is_err());
}

#[test]
fn stack_map_frames_are_read_back() {
    read_back(StackMapFrameInfo::SameFrame { frame_type: 5 });
    read_back(StackMapFrameInfo::SameLocals1StackItemFrame { frame_type: 70, stack: VerificationTypeInfo::Long });
    read_back(StackMapFrameInfo::SameLocals1StackItemFrameExtended {
        offset_delta: 300,
        stack: VerificationTypeInfo::Object { class_info_index: 4 },
    });
    read_back(StackMapFrameInfo::ChopFrame { frame_type: 249, offset_delta: 2 });
    read_back(StackMapFrameInfo::SameFrameExtended { offset_delta: 1000 });
    read_back(StackMapFrameInfo::AppendFrame {
        offset_delta: 3,
        locals: vec![VerificationTypeInfo::Integer, VerificationTypeInfo::Float],
    });
    read_back(StackMapFrameInfo::FullFrame {
        offset_delta: 7,
        locals: vec![VerificationTypeInfo::Top],
        stack: vec![VerificationTypeInfo::Null, VerificationTypeInfo::UninitializedThis],
    });
}

#[test]
fn stack_map_frame_bytes() {
    let frame = StackMapFrameInfo::AppendFrame { offset_delta: 0x0102, locals: vec![VerificationTypeInfo::Integer] };
    assert_eq!(bytes_of(&frame), vec![252, 1, 2, 1]);
    let frame = StackMapFrameInfo::FullFrame { offset_delta: 1, locals: vec![], stack: vec![VerificationTypeInfo::Double] };
    assert_eq!(bytes_of(&frame), vec![255, 0, 1, 0, 0, 0, 1, 3]);
}

#[test]
fn invalid_frames_are_refused() {
    let mut out = Vec::new();
    assert!(StackMapFrameInfo::SameFrame { frame_type: 64 }.to_writer(&mut out).is_err());
    assert!(StackMapFrameInfo::ChopFrame { frame_type: 251, offset_delta: 0 }.to_writer(&mut out).is_err());
    let e = StackMapFrameInfo::AppendFrame { offset_delta: 0, locals: vec![VerificationTypeInfo::Top; 5] }
        .to_writer(&mut out)
        .unwrap_err();
    assert_eq!(e.kind(), GenerationErrorKind::OutOfRange);
    assert!(StackMapFrameInfo::AppendFrame { offset_delta: 0, locals: vec![] }.to_writer(&mut out).is_err());
    assert!(out.is_empty());
    let e = StackMapFrameInfo::from_reader(&[200], 0).unwrap_err();
    assert_eq!(e.kind(), ParsingErrorKind::Malformed);
    assert_eq!(e.message(), "Frame type 200 is reserved for future use.");
    assert_eq!(StackMapFrameInfo::from_reader(&[247, 0], 0).unwrap_err().kind(), ParsingErrorKind::IO);
}

#[test]
fn raw_target_infos_are_read_back() {
    read_back(RawTargetInfo::TypeParameterOfMethod { index: 3 });
    read_back(RawTargetInfo::SuperType { index: 0xffff });
    read_back(RawTargetInfo::TypeParameterBoundOfClass { type_parameter_index: 1, bound_index: 2 });
    read_back(RawTargetInfo::Receiver);
    read_back(RawTargetInfo::LocalVariable(vec![(ProgramCounter::new(4), 10, 1), (ProgramCounter::new(20), 3, 2)]));
    read_back(RawTargetInfo::TypeArgumentInCall { offset: ProgramCounter::new(8), index: 1 });
    assert_eq!(
        bytes_of(&RawTargetInfo::TypeInCast { offset: ProgramCounter::new(0x0203), index: 4 }),
        vec![0x47, 2, 3, 4]
    );
    let e = RawTargetInfo::from_reader(&[0x30], 0).unwrap_err();
    assert_eq!(e.kind(), ParsingErrorKind::Malformed);
    assert_eq!(e.message(), "Invalid target type: 30");
    let e = RawTargetInfo::from_reader(&[0x4c, 0, 0, 0], 0).unwrap_err();
    assert_eq!(e.message(), "Invalid target type: 4c");
    assert_eq!(RawTargetInfo::from_reader(&[0x10, 0], 0).unwrap_err().kind(), ParsingErrorKind::IO);
}

#[test]
fn targets_lift_and_lower() {
    let raw = RawTargetInfo::ResourceVariable(vec![(ProgramCounter::new(4), 10, 1)]);
    let t = TargetInfo::from_raw(raw).unwrap();
    match &t {
        TargetInfo::LocalVar(VariableKind::Resource, ids) => {
            assert_eq!(ids.len(), 1);
            assert_eq!(ids[0].effective_range.start, ProgramCounter::new(4));
            assert_eq!(ids[0].effective_range.end, ProgramCounter::new(14));
            assert_eq!(ids[0].index, 1);
        },
        _ => panic!("unexpected target"),
    }
    assert_eq!(
        t.into_raw().unwrap(),
        RawTargetInfo::ResourceVariable(vec![(ProgramCounter::new(4), 10, 1)])
    );
    let bad = RawTargetInfo::LocalVariable(vec![(ProgramCounter::new(0xfff0), 0x20, 0)]);
    assert_eq!(TargetInfo::from_raw(bad).unwrap_err().kind(), ParsingErrorKind::Malformed);
    match TargetInfo::from_raw(RawTargetInfo::VarMethodReference { offset: 5 }).unwrap() {
        TargetInfo::Offset(OffsetOf::MethodReference, 5) => {},
        _ => panic!("unexpected target"),
    }
    let t = TargetInfo::TypeArgument {
        location: TypeArgumentLocation::ConstructorReference,
        offset: ProgramCounter::new(2),
        index: 0,
    };
    assert_eq!(
        t.into_raw().unwrap(),
        RawTargetInfo::TypeArgumentInConstructorReference { offset: ProgramCounter::new(2), index: 0 }
    );
}

#[test]
fn type_path_elements() {
    assert_eq!(TypePathElement::from_raw((3, 7)).unwrap(), TypePathElement::TypeArgument(7));
    assert_eq!(TypePathElement::from_raw((1, 0)).unwrap(), TypePathElement::Nested);
    assert!(TypePathElement::from_raw((1, 1)).is_err());
    assert!(TypePathElement::from_raw((4, 0)).is_err());
    assert_eq!(TypePathElement::Bound.into_raw().unwrap(), (2, 0));
}

#[test]
fn modules_are_read_back() {
    let module = ModuleInfo {
        info_index: 1,
        flags: 0x20,
        version_index: 0,
        requires_info: vec![RequiresInfo { requires_index: 2, flags: 0, version_index: 3 }],
        exports: vec![ExportsInfo { exports_index: 4, flags: 0, to: vec![5, 6] }],
        opens: vec![],
        uses: vec![7],
        provides: vec![ProvidesInfo { provides_index: 8, with: vec![9] }],
    };
    let bytes = bytes_of(&module);
    assert_eq!(bytes.len(), 6 + 2 + 6 + 2 + 10 + 2 + 2 + 2 + 2 + 6);
    read_back(module);
}

#[test]
fn code_is_read_back() {
    let code = Code {
        max_stack: 2,
        max_locals: 1,
        instruction_bytes: vec![0x04, 0xac],
        exception_table: vec![ExceptionTableEntry { start_pc: 0, end_pc: 1, handler_pc: 1, catch_type_idx: 0 }],
        attributes: vec![AttributeInfo { name_idx: 9, info: vec![1, 2, 3] }],
    };
    assert_eq!(
        bytes_of(&code),
        vec![0, 2, 0, 1, 0, 0, 0, 2, 0x04, 0xac, 0, 1, 0, 0, 0, 1, 0, 1, 0, 0, 0, 1, 0, 9, 0, 0, 0, 3, 1, 2, 3]
    );
    read_back(code);
    assert_eq!(Code::from_reader(&[0, 2, 0, 1, 0, 0, 0, 9, 1], 0).unwrap_err().kind(), ParsingErrorKind::IO);
}
