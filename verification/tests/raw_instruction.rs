use mokapot::jvm::bytecode::code::read_one;
use mokapot::jvm::bytecode::ParsingErrorKind;
use mokapot::jvm::code::{InstructionList, ProgramCounter, RawInstruction, RawWideInstruction};

#[test]
fn raw_instruction_test_opcode() {
    assert_eq!(RawInstruction::Nop.opcode(), 0x00);
    assert_eq!(RawInstruction::AConstNull.opcode(), 0x01);
    assert_eq!(RawInstruction::IConstM1.opcode(), 0x02);
    assert_eq!(RawInstruction::ILoad { index: 233 }.opcode(), 0x15);
}

fn write_all(insns: &[RawInstruction]) -> Vec<u8> {
    let mut out = Vec::new();
    for insn in insns {
        insn.write_one(&mut out).unwrap();
    }
    out
}

#[test]
fn write_simple_instructions() {
    let bytes = write_all(&[
        RawInstruction::Nop,
        RawInstruction::BiPush { value: 42 },
        RawInstruction::SiPush { value: 0x1234 },
        RawInstruction::Goto { offset: -2 },
        RawInstruction::IInc { index: 3, constant: -1 },
        RawInstruction::Wide(RawWideInstruction::IInc { index: 0x0102, increment: -3 }),
        RawInstruction::InvokeInterface { method_index: 7, count: 2 },
    ]);
    assert_eq!(
        bytes,
        vec![
            0x00, 0x10, 42, 0x11, 0x12, 0x34, 0xA7, 0xFF, 0xFE, 0x84, 3, 0xFF, 0xC4, 0x84, 0x01, 0x02, 0xFF, 0xFD,
            0xB9, 0x00, 0x07, 2, 0
        ]
    );
}

#[test]
fn table_switch_is_padded_to_four_bytes() {
    let insn = RawInstruction::TableSwitch { default: 1, low: 0, high: 1, jump_offsets: vec![2, 3] };
    let mut out = vec![0x00];
    insn.write_one(&mut out).unwrap();
    assert_eq!(
        out,
        vec![0x00, 0xAA, 0, 0, 0, 0, 0, 1, 0, 0, 0, 0, 0, 0, 0, 1, 0, 0, 0, 2, 0, 0, 0, 3]
    );
    let (pc, read, next) = read_one(&out, 1).unwrap().unwrap();
    assert_eq!(pc, ProgramCounter::from(1));
    assert_eq!(read, insn);
    assert_eq!(next, out.len());
    assert_eq!(insn.num_bytes(ProgramCounter::from(1)).unwrap() as usize, out.len() - 1);
}

#[test]
fn lookup_switch_pairs_are_written_sorted() {
    let insn = RawInstruction::LookupSwitch { default: -1, match_offsets: vec![(5, 10), (1, 20)] };
    let mut out = Vec::new();
    insn.write_one(&mut out).unwrap();
    assert_eq!(
        out,
        vec![0xAB, 0, 0, 0, 0xFF, 0xFF, 0xFF, 0xFF, 0, 0, 0, 2, 0, 0, 0, 1, 0, 0, 0, 20, 0, 0, 0, 5, 0, 0, 0, 10]
    );
    let (_, read, _) = read_one(&out, 0).unwrap().unwrap();
    assert_eq!(read, RawInstruction::LookupSwitch { default: -1, match_offsets: vec![(1, 20), (5, 10)] });
}

#[test]
fn read_back_what_was_written() {
    let insns = vec![
        RawInstruction::ALoad0,
        RawInstruction::InvokeDynamic { dynamic_index: 9 },
        RawInstruction::MultiANewArray { index: 3, dimensions: 2 },
        RawInstruction::Wide(RawWideInstruction::ILoad { index: 1000 }),
        RawInstruction::GotoW { offset: -70000 },
        RawInstruction::Return,
    ];
    let bytes = write_all(&insns);
    let list = InstructionList::from_bytes(bytes.clone()).unwrap();
    let read: Vec<RawInstruction> = list.iter().into_iter().map(|(_, insn)| insn.clone()).collect();
    assert_eq!(read, insns);
    let mut again = Vec::new();
    list.to_writer(&mut again).unwrap();
    assert_eq!(again, bytes);
    assert_eq!(list.len(), 6);
    assert_eq!(list.entry_point().map(|(pc, _)| pc), Some(ProgramCounter::zero()));
    assert_eq!(list.next_pc_of(&ProgramCounter::zero()), Some(ProgramCounter::from(1)));
    assert_eq!(list.get(&ProgramCounter::from(1)), Some(&RawInstruction::InvokeDynamic { dynamic_index: 9 }));
    assert_eq!(list.get(&ProgramCounter::from(2)), None);
}

#[test]
fn reading_fails_on_bad_input() {
    let err = read_one(&[0xCA], 0).unwrap_err();
    assert_eq!(err.kind(), ParsingErrorKind::Malformed);
    let err = read_one(&[0x11, 0x00], 0).unwrap_err();
    assert_eq!(err.kind(), ParsingErrorKind::IO);
    let err = read_one(&[0xB9, 0, 1, 1, 5], 0).unwrap_err();
    assert_eq!(err.kind(), ParsingErrorKind::Malformed);
    let err = read_one(&[0xC4, 0x10, 0, 0], 0).unwrap_err();
    assert_eq!(err.kind(), ParsingErrorKind::Malformed);
    assert!(read_one(&[], 0).unwrap().is_none());
    assert!(InstructionList::from_bytes(vec![0x00, 0xFF]).is_err());
    assert!(InstructionList::from_bytes(vec![]).unwrap().is_empty());
}

#[test]
fn num_bytes_of_instructions() {
    assert_eq!(RawInstruction::Nop.num_bytes(ProgramCounter::zero()).unwrap(), 1);
    assert_eq!(RawInstruction::ILoad { index: 1 }.num_bytes(ProgramCounter::zero()).unwrap(), 2);
    assert_eq!(RawInstruction::InvokeInterface { method_index: 1, count: 1 }.num_bytes(ProgramCounter::zero()).unwrap(), 5);
    assert_eq!(RawInstruction::Wide(RawWideInstruction::IInc { index: 1, increment: 1 }).num_bytes(ProgramCounter::zero()).unwrap(), 6);
    assert!(RawInstruction::TableSwitch { default: 0, low: 5, high: 1, jump_offsets: vec![] }.num_bytes(ProgramCounter::zero()).is_err());
}

#[test]
fn multianewarray_size_matches_its_bytes() {
    let insn = RawInstruction::MultiANewArray { index: 1, dimensions: 2 };
    let mut out = Vec::new();
    insn.write_one(&mut out).unwrap();
    assert_eq!(out.len(), 4);
    assert_eq!(insn.num_bytes(ProgramCounter::zero()).unwrap(), 4);
}

#[test]
fn malformed_and_short_bytes() {
    let e = read_one(&[0xCB], 0).unwrap_err();
    assert_eq!(e.kind(), ParsingErrorKind::Malformed);
    let e = read_one(&[0xC4, 0x00], 0).unwrap_err();
    assert_eq!(e.kind(), ParsingErrorKind::Malformed);
    let e = read_one(&[0x11, 0x00], 0).unwrap_err();
    assert_eq!(e.kind(), ParsingErrorKind::IO);
}
