//! Reading and writing raw instructions in the class file format.
use vstd::prelude::*;

use crate::jvm::bytecode::errors::{GenerationError, GenerationErrorKind, ParseError, ParsingErrorKind};
use crate::jvm::code::method_body::{pcs_increasing, InstructionList};
use crate::jvm::code::pc::ProgramCounter;
use crate::jvm::code::raw_instruction::{RawInstruction, RawWideInstruction};

verus! {

/// The big-endian bytes of a 16-bit value.
pub open spec fn be16(v: u16) -> Seq<u8> {
    seq![(v / 256) as u8, (v % 256) as u8]
}

/// The big-endian bytes of a 32-bit value.
pub open spec fn be32(v: u32) -> Seq<u8> {
    seq![(v / 0x100_0000) as u8, ((v / 0x1_0000) % 256) as u8, ((v / 256) % 256) as u8, (v % 256) as u8]
}

/// The number of padding bytes after the opcode of a switch at `pos`, which align its
/// operands to four bytes.
pub open spec fn switch_padding(pos: int) -> int {
    (4 - (pos + 1) % 4) % 4
}

/// `n` zero bytes.
pub open spec fn zeros(n: int) -> Seq<u8> {
    Seq::new(n as nat, |i: int| 0u8)
}

/// The big-endian bytes of a list of 32-bit values.
pub open spec fn words(s: Seq<i32>) -> Seq<u8>
    decreases s.len(),
{
    if s.len() == 0 {
        Seq::empty()
    } else {
        words(s.drop_last()) + be32(s.last() as u32)
    }
}

/// The big-endian bytes of a list of pairs of 32-bit values.
pub open spec fn pair_words(s: Seq<(i32, i32)>) -> Seq<u8>
    decreases s.len(),
{
    if s.len() == 0 {
        Seq::empty()
    } else {
        pair_words(s.drop_last()) + be32(s.last().0 as u32) + be32(s.last().1 as u32)
    }
}

/// The number of jump offsets of a table switch from `low` to `high`.
pub open spec fn table_count(low: i32, high: i32) -> int {
    if high >= low {
        high - low + 1
    } else {
        0
    }
}

/// How the operands of an instruction are laid out after its opcode.
#[derive(Debug, PartialEq, Eq, Structural, Clone, Copy)]
pub enum OperandShape {
    /// No operand.
    Plain,
    /// One unsigned byte.
    Byte,
    /// One unsigned 16-bit value.
    Short,
    /// A signed 16-bit branch offset.
    Offset16,
    /// A signed 32-bit branch offset.
    Offset32,
    /// A local variable index and a signed byte (`iinc`).
    Increment,
    /// A method index, an argument count and a zero byte (`invokeinterface`).
    Interface,
    /// A call site index and two zero bytes (`invokedynamic`).
    Dynamic,
    /// A class index and a dimension count (`multianewarray`).
    MultiArray,
    /// A modified opcode and 16-bit operands (`wide`).
    Wide,
    /// A jump table (`tableswitch`).
    Table,
    /// A lookup table (`lookupswitch`).
    Lookup,
    /// Not an opcode that can be read.
    Invalid,
}

/// The layout of the operands of an instruction.
pub open spec fn shape(insn: RawInstruction) -> OperandShape {
    match insn {
        RawInstruction::Nop => OperandShape::Plain,
        RawInstruction::AConstNull => OperandShape::Plain,
        RawInstruction::IConstM1 => OperandShape::Plain,
        RawInstruction::IConst0 => OperandShape::Plain,
        RawInstruction::IConst1 => OperandShape::Plain,
        RawInstruction::IConst2 => OperandShape::Plain,
        RawInstruction::IConst3 => OperandShape::Plain,
        RawInstruction::IConst4 => OperandShape::Plain,
        RawInstruction::IConst5 => OperandShape::Plain,
        RawInstruction::LConst0 => OperandShape::Plain,
        RawInstruction::LConst1 => OperandShape::Plain,
        RawInstruction::FConst0 => OperandShape::Plain,
        RawInstruction::FConst1 => OperandShape::Plain,
        RawInstruction::FConst2 => OperandShape::Plain,
        RawInstruction::DConst0 => OperandShape::Plain,
        RawInstruction::DConst1 => OperandShape::Plain,
        RawInstruction::BiPush { .. } => OperandShape::Byte,
        RawInstruction::SiPush { .. } => OperandShape::Short,
        RawInstruction::Ldc { .. } => OperandShape::Byte,
        RawInstruction::LdcW { .. } => OperandShape::Short,
        RawInstruction::Ldc2W { .. } => OperandShape::Short,
        RawInstruction::ILoad { .. } => OperandShape::Byte,
        RawInstruction::LLoad { .. } => OperandShape::Byte,
        RawInstruction::FLoad { .. } => OperandShape::Byte,
        RawInstruction::DLoad { .. } => OperandShape::Byte,
        RawInstruction::ALoad { .. } => OperandShape::Byte,
        RawInstruction::ILoad0 => OperandShape::Plain,
        RawInstruction::ILoad1 => OperandShape::Plain,
        RawInstruction::ILoad2 => OperandShape::Plain,
        RawInstruction::ILoad3 => OperandShape::Plain,
        RawInstruction::LLoad0 => OperandShape::Plain,
        RawInstruction::LLoad1 => OperandShape::Plain,
        RawInstruction::LLoad2 => OperandShape::Plain,
        RawInstruction::LLoad3 => OperandShape::Plain,
        RawInstruction::FLoad0 => OperandShape::Plain,
        RawInstruction::FLoad1 => OperandShape::Plain,
        RawInstruction::FLoad2 => OperandShape::Plain,
        RawInstruction::FLoad3 => OperandShape::Plain,
        RawInstruction::DLoad0 => OperandShape::Plain,
        RawInstruction::DLoad1 => OperandShape::Plain,
        RawInstruction::DLoad2 => OperandShape::Plain,
        RawInstruction::DLoad3 => OperandShape::Plain,
        RawInstruction::ALoad0 => OperandShape::Plain,
        RawInstruction::ALoad1 => OperandShape::Plain,
        RawInstruction::ALoad2 => OperandShape::Plain,
        RawInstruction::ALoad3 => OperandShape::Plain,
        RawInstruction::IALoad => OperandShape::Plain,
        RawInstruction::LALoad => OperandShape::Plain,
        RawInstruction::FALoad => OperandShape::Plain,
        RawInstruction::DALoad => OperandShape::Plain,
        RawInstruction::AALoad => OperandShape::Plain,
        RawInstruction::BALoad => OperandShape::Plain,
        RawInstruction::CALoad => OperandShape::Plain,
        RawInstruction::SALoad => OperandShape::Plain,
        RawInstruction::IStore { .. } => OperandShape::Byte,
        RawInstruction::LStore { .. } => OperandShape::Byte,
        RawInstruction::FStore { .. } => OperandShape::Byte,
        RawInstruction::DStore { .. } => OperandShape::Byte,
        RawInstruction::AStore { .. } => OperandShape::Byte,
        RawInstruction::IStore0 => OperandShape::Plain,
        RawInstruction::IStore1 => OperandShape::Plain,
        RawInstruction::IStore2 => OperandShape::Plain,
        RawInstruction::IStore3 => OperandShape::Plain,
        RawInstruction::LStore0 => OperandShape::Plain,
        RawInstruction::LStore1 => OperandShape::Plain,
        RawInstruction::LStore2 => OperandShape::Plain,
        RawInstruction::LStore3 => OperandShape::Plain,
        RawInstruction::FStore0 => OperandShape::Plain,
        RawInstruction::FStore1 => OperandShape::Plain,
        RawInstruction::FStore2 => OperandShape::Plain,
        RawInstruction::FStore3 => OperandShape::Plain,
        RawInstruction::DStore0 => OperandShape::Plain,
        RawInstruction::DStore1 => OperandShape::Plain,
        RawInstruction::DStore2 => OperandShape::Plain,
        RawInstruction::DStore3 => OperandShape::Plain,
        RawInstruction::AStore0 => OperandShape::Plain,
        RawInstruction::AStore1 => OperandShape::Plain,
        RawInstruction::AStore2 => OperandShape::Plain,
        RawInstruction::AStore3 => OperandShape::Plain,
        RawInstruction::IAStore => OperandShape::Plain,
        RawInstruction::LAStore => OperandShape::Plain,
        RawInstruction::FAStore => OperandShape::Plain,
        RawInstruction::DAStore => OperandShape::Plain,
        RawInstruction::AAStore => OperandShape::Plain,
        RawInstruction::BAStore => OperandShape::Plain,
        RawInstruction::CAStore => OperandShape::Plain,
        RawInstruction::SAStore => OperandShape::Plain,
        RawInstruction::Pop => OperandShape::Plain,
        RawInstruction::Pop2 => OperandShape::Plain,
        RawInstruction::Dup => OperandShape::Plain,
        RawInstruction::DupX1 => OperandShape::Plain,
        RawInstruction::DupX2 => OperandShape::Plain,
        RawInstruction::Dup2 => OperandShape::Plain,
        RawInstruction::Dup2X1 => OperandShape::Plain,
        RawInstruction::Dup2X2 => OperandShape::Plain,
        RawInstruction::Swap => OperandShape::Plain,
        RawInstruction::IAdd => OperandShape::Plain,
        RawInstruction::LAdd => OperandShape::Plain,
        RawInstruction::FAdd => OperandShape::Plain,
        RawInstruction::DAdd => OperandShape::Plain,
        RawInstruction::ISub => OperandShape::Plain,
        RawInstruction::LSub => OperandShape::Plain,
        RawInstruction::FSub => OperandShape::Plain,
        RawInstruction::DSub => OperandShape::Plain,
        RawInstruction::IMul => OperandShape::Plain,
        RawInstruction::LMul => OperandShape::Plain,
        RawInstruction::FMul => OperandShape::Plain,
        RawInstruction::DMul => OperandShape::Plain,
        RawInstruction::IDiv => OperandShape::Plain,
        RawInstruction::LDiv => OperandShape::Plain,
        RawInstruction::FDiv => OperandShape::Plain,
        RawInstruction::DDiv => OperandShape::Plain,
        RawInstruction::IRem => OperandShape::Plain,
        RawInstruction::LRem => OperandShape::Plain,
        RawInstruction::FRem => OperandShape::Plain,
        RawInstruction::DRem => OperandShape::Plain,
        RawInstruction::INeg => OperandShape::Plain,
        RawInstruction::LNeg => OperandShape::Plain,
        RawInstruction::FNeg => OperandShape::Plain,
        RawInstruction::DNeg => OperandShape::Plain,
        RawInstruction::IShl => OperandShape::Plain,
        RawInstruction::LShl => OperandShape::Plain,
        RawInstruction::IShr => OperandShape::Plain,
        RawInstruction::LShr => OperandShape::Plain,
        RawInstruction::IUShr => OperandShape::Plain,
        RawInstruction::LUShr => OperandShape::Plain,
        RawInstruction::IAnd => OperandShape::Plain,
        RawInstruction::LAnd => OperandShape::Plain,
        RawInstruction::IOr => OperandShape::Plain,
        RawInstruction::LOr => OperandShape::Plain,
        RawInstruction::IXor => OperandShape::Plain,
        RawInstruction::LXor => OperandShape::Plain,
        RawInstruction::IInc { .. } => OperandShape::Increment,
        RawInstruction::I2L => OperandShape::Plain,
        RawInstruction::I2F => OperandShape::Plain,
        RawInstruction::I2D => OperandShape::Plain,
        RawInstruction::L2I => OperandShape::Plain,
        RawInstruction::L2F => OperandShape::Plain,
        RawInstruction::L2D => OperandShape::Plain,
        RawInstruction::F2I => OperandShape::Plain,
        RawInstruction::F2L => OperandShape::Plain,
        RawInstruction::F2D => OperandShape::Plain,
        RawInstruction::D2I => OperandShape::Plain,
        RawInstruction::D2L => OperandShape::Plain,
        RawInstruction::D2F => OperandShape::Plain,
        RawInstruction::I2B => OperandShape::Plain,
        RawInstruction::I2C => OperandShape::Plain,
        RawInstruction::I2S => OperandShape::Plain,
        RawInstruction::LCmp => OperandShape::Plain,
        RawInstruction::FCmpL => OperandShape::Plain,
        RawInstruction::FCmpG => OperandShape::Plain,
        RawInstruction::DCmpL => OperandShape::Plain,
        RawInstruction::DCmpG => OperandShape::Plain,
        RawInstruction::IfEq { .. } => OperandShape::Offset16,
        RawInstruction::IfNe { .. } => OperandShape::Offset16,
        RawInstruction::IfLt { .. } => OperandShape::Offset16,
        RawInstruction::IfGe { .. } => OperandShape::Offset16,
        RawInstruction::IfGt { .. } => OperandShape::Offset16,
        RawInstruction::IfLe { .. } => OperandShape::Offset16,
        RawInstruction::IfICmpEq { .. } => OperandShape::Offset16,
        RawInstruction::IfICmpNe { .. } => OperandShape::Offset16,
        RawInstruction::IfICmpLt { .. } => OperandShape::Offset16,
        RawInstruction::IfICmpGe { .. } => OperandShape::Offset16,
        RawInstruction::IfICmpGt { .. } => OperandShape::Offset16,
        RawInstruction::IfICmpLe { .. } => OperandShape::Offset16,
        RawInstruction::IfACmpEq { .. } => OperandShape::Offset16,
        RawInstruction::IfACmpNe { .. } => OperandShape::Offset16,
        RawInstruction::Goto { .. } => OperandShape::Offset16,
        RawInstruction::Jsr { .. } => OperandShape::Offset16,
        RawInstruction::Ret { .. } => OperandShape::Byte,
        RawInstruction::TableSwitch { .. } => OperandShape::Table,
        RawInstruction::LookupSwitch { .. } => OperandShape::Lookup,
        RawInstruction::IReturn => OperandShape::Plain,
        RawInstruction::LReturn => OperandShape::Plain,
        RawInstruction::FReturn => OperandShape::Plain,
        RawInstruction::DReturn => OperandShape::Plain,
        RawInstruction::AReturn => OperandShape::Plain,
        RawInstruction::Return => OperandShape::Plain,
        RawInstruction::GetStatic { .. } => OperandShape::Short,
        RawInstruction::PutStatic { .. } => OperandShape::Short,
        RawInstruction::GetField { .. } => OperandShape::Short,
        RawInstruction::PutField { .. } => OperandShape::Short,
        RawInstruction::InvokeVirtual { .. } => OperandShape::Short,
        RawInstruction::InvokeSpecial { .. } => OperandShape::Short,
        RawInstruction::InvokeStatic { .. } => OperandShape::Short,
        RawInstruction::InvokeInterface { .. } => OperandShape::Interface,
        RawInstruction::InvokeDynamic { .. } => OperandShape::Dynamic,
        RawInstruction::New { .. } => OperandShape::Short,
        RawInstruction::NewArray { .. } => OperandShape::Byte,
        RawInstruction::ANewArray { .. } => OperandShape::Short,
        RawInstruction::ArrayLength => OperandShape::Plain,
        RawInstruction::AThrow => OperandShape::Plain,
        RawInstruction::CheckCast { .. } => OperandShape::Short,
        RawInstruction::InstanceOf { .. } => OperandShape::Short,
        RawInstruction::MonitorEnter => OperandShape::Plain,
        RawInstruction::MonitorExit => OperandShape::Plain,
        RawInstruction::Wide(..) => OperandShape::Wide,
        RawInstruction::MultiANewArray { .. } => OperandShape::MultiArray,
        RawInstruction::IfNull { .. } => OperandShape::Offset16,
        RawInstruction::IfNonNull { .. } => OperandShape::Offset16,
        RawInstruction::GotoW { .. } => OperandShape::Offset32,
        RawInstruction::JsrW { .. } => OperandShape::Offset32,
        RawInstruction::Breakpoint => OperandShape::Invalid,
        RawInstruction::ImpDep1 => OperandShape::Invalid,
        RawInstruction::ImpDep2 => OperandShape::Invalid,
    }
}

/// The layout of the operands of the instruction with the given opcode.
pub open spec fn shape_of(op: u8) -> OperandShape {
    match op {
        0x00 => OperandShape::Plain,
        0x01 => OperandShape::Plain,
        0x02 => OperandShape::Plain,
        0x03 => OperandShape::Plain,
        0x04 => OperandShape::Plain,
        0x05 => OperandShape::Plain,
        0x06 => OperandShape::Plain,
        0x07 => OperandShape::Plain,
        0x08 => OperandShape::Plain,
        0x09 => OperandShape::Plain,
        0x0A => OperandShape::Plain,
        0x0B => OperandShape::Plain,
        0x0C => OperandShape::Plain,
        0x0D => OperandShape::Plain,
        0x0E => OperandShape::Plain,
        0x0F => OperandShape::Plain,
        0x10 => OperandShape::Byte,
        0x11 => OperandShape::Short,
        0x12 => OperandShape::Byte,
        0x13 => OperandShape::Short,
        0x14 => OperandShape::Short,
        0x15 => OperandShape::Byte,
        0x16 => OperandShape::Byte,
        0x17 => OperandShape::Byte,
        0x18 => OperandShape::Byte,
        0x19 => OperandShape::Byte,
        0x1A => OperandShape::Plain,
        0x1B => OperandShape::Plain,
        0x1C => OperandShape::Plain,
        0x1D => OperandShape::Plain,
        0x1E => OperandShape::Plain,
        0x1F => OperandShape::Plain,
        0x20 => OperandShape::Plain,
        0x21 => OperandShape::Plain,
        0x22 => OperandShape::Plain,
        0x23 => OperandShape::Plain,
        0x24 => OperandShape::Plain,
        0x25 => OperandShape::Plain,
        0x26 => OperandShape::Plain,
        0x27 => OperandShape::Plain,
        0x28 => OperandShape::Plain,
        0x29 => OperandShape::Plain,
        0x2A => OperandShape::Plain,
        0x2B => OperandShape::Plain,
        0x2C => OperandShape::Plain,
        0x2D => OperandShape::Plain,
        0x2E => OperandShape::Plain,
        0x2F => OperandShape::Plain,
        0x30 => OperandShape::Plain,
        0x31 => OperandShape::Plain,
        0x32 => OperandShape::Plain,
        0x33 => OperandShape::Plain,
        0x34 => OperandShape::Plain,
        0x35 => OperandShape::Plain,
        0x36 => OperandShape::Byte,
        0x37 => OperandShape::Byte,
        0x38 => OperandShape::Byte,
        0x39 => OperandShape::Byte,
        0x3A => OperandShape::Byte,
        0x3B => OperandShape::Plain,
        0x3C => OperandShape::Plain,
        0x3D => OperandShape::Plain,
        0x3E => OperandShape::Plain,
        0x3F => OperandShape::Plain,
        0x40 => OperandShape::Plain,
        0x41 => OperandShape::Plain,
        0x42 => OperandShape::Plain,
        0x43 => OperandShape::Plain,
        0x44 => OperandShape::Plain,
        0x45 => OperandShape::Plain,
        0x46 => OperandShape::Plain,
        0x47 => OperandShape::Plain,
        0x48 => OperandShape::Plain,
        0x49 => OperandShape::Plain,
        0x4A => OperandShape::Plain,
        0x4B => OperandShape::Plain,
        0x4C => OperandShape::Plain,
        0x4D => OperandShape::Plain,
        0x4E => OperandShape::Plain,
        0x4F => OperandShape::Plain,
        0x50 => OperandShape::Plain,
        0x51 => OperandShape::Plain,
        0x52 => OperandShape::Plain,
        0x53 => OperandShape::Plain,
        0x54 => OperandShape::Plain,
        0x55 => OperandShape::Plain,
        0x56 => OperandShape::Plain,
        0x57 => OperandShape::Plain,
        0x58 => OperandShape::Plain,
        0x59 => OperandShape::Plain,
        0x5A => OperandShape::Plain,
        0x5B => OperandShape::Plain,
        0x5C => OperandShape::Plain,
        0x5D => OperandShape::Plain,
        0x5E => OperandShape::Plain,
        0x5F => OperandShape::Plain,
        0x60 => OperandShape::Plain,
        0x61 => OperandShape::Plain,
        0x62 => OperandShape::Plain,
        0x63 => OperandShape::Plain,
        0x64 => OperandShape::Plain,
        0x65 => OperandShape::Plain,
        0x66 => OperandShape::Plain,
        0x67 => OperandShape::Plain,
        0x68 => OperandShape::Plain,
        0x69 => OperandShape::Plain,
        0x6A => OperandShape::Plain,
        0x6B => OperandShape::Plain,
        0x6C => OperandShape::Plain,
        0x6D => OperandShape::Plain,
        0x6E => OperandShape::Plain,
        0x6F => OperandShape::Plain,
        0x70 => OperandShape::Plain,
        0x71 => OperandShape::Plain,
        0x72 => OperandShape::Plain,
        0x73 => OperandShape::Plain,
        0x74 => OperandShape::Plain,
        0x75 => OperandShape::Plain,
        0x76 => OperandShape::Plain,
        0x77 => OperandShape::Plain,
        0x78 => OperandShape::Plain,
        0x79 => OperandShape::Plain,
        0x7A => OperandShape::Plain,
        0x7B => OperandShape::Plain,
        0x7C => OperandShape::Plain,
        0x7D => OperandShape::Plain,
        0x7E => OperandShape::Plain,
        0x7F => OperandShape::Plain,
        0x80 => OperandShape::Plain,
        0x81 => OperandShape::Plain,
        0x82 => OperandShape::Plain,
        0x83 => OperandShape::Plain,
        0x84 => OperandShape::Increment,
        0x85 => OperandShape::Plain,
        0x86 => OperandShape::Plain,
        0x87 => OperandShape::Plain,
        0x88 => OperandShape::Plain,
        0x89 => OperandShape::Plain,
        0x8A => OperandShape::Plain,
        0x8B => OperandShape::Plain,
        0x8C => OperandShape::Plain,
        0x8D => OperandShape::Plain,
        0x8E => OperandShape::Plain,
        0x8F => OperandShape::Plain,
        0x90 => OperandShape::Plain,
        0x91 => OperandShape::Plain,
        0x92 => OperandShape::Plain,
        0x93 => OperandShape::Plain,
        0x94 => OperandShape::Plain,
        0x95 => OperandShape::Plain,
        0x96 => OperandShape::Plain,
        0x97 => OperandShape::Plain,
        0x98 => OperandShape::Plain,
        0x99 => OperandShape::Offset16,
        0x9A => OperandShape::Offset16,
        0x9B => OperandShape::Offset16,
        0x9C => OperandShape::Offset16,
        0x9D => OperandShape::Offset16,
        0x9E => OperandShape::Offset16,
        0x9F => OperandShape::Offset16,
        0xA0 => OperandShape::Offset16,
        0xA1 => OperandShape::Offset16,
        0xA2 => OperandShape::Offset16,
        0xA3 => OperandShape::Offset16,
        0xA4 => OperandShape::Offset16,
        0xA5 => OperandShape::Offset16,
        0xA6 => OperandShape::Offset16,
        0xA7 => OperandShape::Offset16,
        0xA8 => OperandShape::Offset16,
        0xA9 => OperandShape::Byte,
        0xAA => OperandShape::Table,
        0xAB => OperandShape::Lookup,
        0xAC => OperandShape::Plain,
        0xAD => OperandShape::Plain,
        0xAE => OperandShape::Plain,
        0xAF => OperandShape::Plain,
        0xB0 => OperandShape::Plain,
        0xB1 => OperandShape::Plain,
        0xB2 => OperandShape::Short,
        0xB3 => OperandShape::Short,
        0xB4 => OperandShape::Short,
        0xB5 => OperandShape::Short,
        0xB6 => OperandShape::Short,
        0xB7 => OperandShape::Short,
        0xB8 => OperandShape::Short,
        0xB9 => OperandShape::Interface,
        0xBA => OperandShape::Dynamic,
        0xBB => OperandShape::Short,
        0xBC => OperandShape::Byte,
        0xBD => OperandShape::Short,
        0xBE => OperandShape::Plain,
        0xBF => OperandShape::Plain,
        0xC0 => OperandShape::Short,
        0xC1 => OperandShape::Short,
        0xC2 => OperandShape::Plain,
        0xC3 => OperandShape::Plain,
        0xC4 => OperandShape::Wide,
        0xC5 => OperandShape::MultiArray,
        0xC6 => OperandShape::Offset16,
        0xC7 => OperandShape::Offset16,
        0xC8 => OperandShape::Offset32,
        0xC9 => OperandShape::Offset32,
        _ => OperandShape::Invalid,
    }
}

/// Gets the layout of the operands of the instruction with the given opcode.
pub fn operand_shape(op: u8) -> (r: OperandShape)
    ensures
        r == shape_of(op),
{
    match op {
        0x00 => OperandShape::Plain,
        0x01 => OperandShape::Plain,
        0x02 => OperandShape::Plain,
        0x03 => OperandShape::Plain,
        0x04 => OperandShape::Plain,
        0x05 => OperandShape::Plain,
        0x06 => OperandShape::Plain,
        0x07 => OperandShape::Plain,
        0x08 => OperandShape::Plain,
        0x09 => OperandShape::Plain,
        0x0A => OperandShape::Plain,
        0x0B => OperandShape::Plain,
        0x0C => OperandShape::Plain,
        0x0D => OperandShape::Plain,
        0x0E => OperandShape::Plain,
        0x0F => OperandShape::Plain,
        0x10 => OperandShape::Byte,
        0x11 => OperandShape::Short,
        0x12 => OperandShape::Byte,
        0x13 => OperandShape::Short,
        0x14 => OperandShape::Short,
        0x15 => OperandShape::Byte,
        0x16 => OperandShape::Byte,
        0x17 => OperandShape::Byte,
        0x18 => OperandShape::Byte,
        0x19 => OperandShape::Byte,
        0x1A => OperandShape::Plain,
        0x1B => OperandShape::Plain,
        0x1C => OperandShape::Plain,
        0x1D => OperandShape::Plain,
        0x1E => OperandShape::Plain,
        0x1F => OperandShape::Plain,
        0x20 => OperandShape::Plain,
        0x21 => OperandShape::Plain,
        0x22 => OperandShape::Plain,
        0x23 => OperandShape::Plain,
        0x24 => OperandShape::Plain,
        0x25 => OperandShape::Plain,
        0x26 => OperandShape::Plain,
        0x27 => OperandShape::Plain,
        0x28 => OperandShape::Plain,
        0x29 => OperandShape::Plain,
        0x2A => OperandShape::Plain,
        0x2B => OperandShape::Plain,
        0x2C => OperandShape::Plain,
        0x2D => OperandShape::Plain,
        0x2E => OperandShape::Plain,
        0x2F => OperandShape::Plain,
        0x30 => OperandShape::Plain,
        0x31 => OperandShape::Plain,
        0x32 => OperandShape::Plain,
        0x33 => OperandShape::Plain,
        0x34 => OperandShape::Plain,
        0x35 => OperandShape::Plain,
        0x36 => OperandShape::Byte,
        0x37 => OperandShape::Byte,
        0x38 => OperandShape::Byte,
        0x39 => OperandShape::Byte,
        0x3A => OperandShape::Byte,
        0x3B => OperandShape::Plain,
        0x3C => OperandShape::Plain,
        0x3D => OperandShape::Plain,
        0x3E => OperandShape::Plain,
        0x3F => OperandShape::Plain,
        0x40 => OperandShape::Plain,
        0x41 => OperandShape::Plain,
        0x42 => OperandShape::Plain,
        0x43 => OperandShape::Plain,
        0x44 => OperandShape::Plain,
        0x45 => OperandShape::Plain,
        0x46 => OperandShape::Plain,
        0x47 => OperandShape::Plain,
        0x48 => OperandShape::Plain,
        0x49 => OperandShape::Plain,
        0x4A => OperandShape::Plain,
        0x4B => OperandShape::Plain,
        0x4C => OperandShape::Plain,
        0x4D => OperandShape::Plain,
        0x4E => OperandShape::Plain,
        0x4F => OperandShape::Plain,
        0x50 => OperandShape::Plain,
        0x51 => OperandShape::Plain,
        0x52 => OperandShape::Plain,
        0x53 => OperandShape::Plain,
        0x54 => OperandShape::Plain,
        0x55 => OperandShape::Plain,
        0x56 => OperandShape::Plain,
        0x57 => OperandShape::Plain,
        0x58 => OperandShape::Plain,
        0x59 => OperandShape::Plain,
        0x5A => OperandShape::Plain,
        0x5B => OperandShape::Plain,
        0x5C => OperandShape::Plain,
        0x5D => OperandShape::Plain,
        0x5E => OperandShape::Plain,
        0x5F => OperandShape::Plain,
        0x60 => OperandShape::Plain,
        0x61 => OperandShape::Plain,
        0x62 => OperandShape::Plain,
        0x63 => OperandShape::Plain,
        0x64 => OperandShape::Plain,
        0x65 => OperandShape::Plain,
        0x66 => OperandShape::Plain,
        0x67 => OperandShape::Plain,
        0x68 => OperandShape::Plain,
        0x69 => OperandShape::Plain,
        0x6A => OperandShape::Plain,
        0x6B => OperandShape::Plain,
        0x6C => OperandShape::Plain,
        0x6D => OperandShape::Plain,
        0x6E => OperandShape::Plain,
        0x6F => OperandShape::Plain,
        0x70 => OperandShape::Plain,
        0x71 => OperandShape::Plain,
        0x72 => OperandShape::Plain,
        0x73 => OperandShape::Plain,
        0x74 => OperandShape::Plain,
        0x75 => OperandShape::Plain,
        0x76 => OperandShape::Plain,
        0x77 => OperandShape::Plain,
        0x78 => OperandShape::Plain,
        0x79 => OperandShape::Plain,
        0x7A => OperandShape::Plain,
        0x7B => OperandShape::Plain,
        0x7C => OperandShape::Plain,
        0x7D => OperandShape::Plain,
        0x7E => OperandShape::Plain,
        0x7F => OperandShape::Plain,
        0x80 => OperandShape::Plain,
        0x81 => OperandShape::Plain,
        0x82 => OperandShape::Plain,
        0x83 => OperandShape::Plain,
        0x84 => OperandShape::Increment,
        0x85 => OperandShape::Plain,
        0x86 => OperandShape::Plain,
        0x87 => OperandShape::Plain,
        0x88 => OperandShape::Plain,
        0x89 => OperandShape::Plain,
        0x8A => OperandShape::Plain,
        0x8B => OperandShape::Plain,
        0x8C => OperandShape::Plain,
        0x8D => OperandShape::Plain,
        0x8E => OperandShape::Plain,
        0x8F => OperandShape::Plain,
        0x90 => OperandShape::Plain,
        0x91 => OperandShape::Plain,
        0x92 => OperandShape::Plain,
        0x93 => OperandShape::Plain,
        0x94 => OperandShape::Plain,
        0x95 => OperandShape::Plain,
        0x96 => OperandShape::Plain,
        0x97 => OperandShape::Plain,
        0x98 => OperandShape::Plain,
        0x99 => OperandShape::Offset16,
        0x9A => OperandShape::Offset16,
        0x9B => OperandShape::Offset16,
        0x9C => OperandShape::Offset16,
        0x9D => OperandShape::Offset16,
        0x9E => OperandShape::Offset16,
        0x9F => OperandShape::Offset16,
        0xA0 => OperandShape::Offset16,
        0xA1 => OperandShape::Offset16,
        0xA2 => OperandShape::Offset16,
        0xA3 => OperandShape::Offset16,
        0xA4 => OperandShape::Offset16,
        0xA5 => OperandShape::Offset16,
        0xA6 => OperandShape::Offset16,
        0xA7 => OperandShape::Offset16,
        0xA8 => OperandShape::Offset16,
        0xA9 => OperandShape::Byte,
        0xAA => OperandShape::Table,
        0xAB => OperandShape::Lookup,
        0xAC => OperandShape::Plain,
        0xAD => OperandShape::Plain,
        0xAE => OperandShape::Plain,
        0xAF => OperandShape::Plain,
        0xB0 => OperandShape::Plain,
        0xB1 => OperandShape::Plain,
        0xB2 => OperandShape::Short,
        0xB3 => OperandShape::Short,
        0xB4 => OperandShape::Short,
        0xB5 => OperandShape::Short,
        0xB6 => OperandShape::Short,
        0xB7 => OperandShape::Short,
        0xB8 => OperandShape::Short,
        0xB9 => OperandShape::Interface,
        0xBA => OperandShape::Dynamic,
        0xBB => OperandShape::Short,
        0xBC => OperandShape::Byte,
        0xBD => OperandShape::Short,
        0xBE => OperandShape::Plain,
        0xBF => OperandShape::Plain,
        0xC0 => OperandShape::Short,
        0xC1 => OperandShape::Short,
        0xC2 => OperandShape::Plain,
        0xC3 => OperandShape::Plain,
        0xC4 => OperandShape::Wide,
        0xC5 => OperandShape::MultiArray,
        0xC6 => OperandShape::Offset16,
        0xC7 => OperandShape::Offset16,
        0xC8 => OperandShape::Offset32,
        0xC9 => OperandShape::Offset32,
        _ => OperandShape::Invalid,
    }
}

/// The operand of an instruction with a single operand of type `u8`.
pub open spec fn byte_operand(insn: RawInstruction) -> u8 {
    match insn {
        RawInstruction::BiPush { value } => value,
        RawInstruction::Ldc { const_index } => const_index,
        RawInstruction::ILoad { index } => index,
        RawInstruction::LLoad { index } => index,
        RawInstruction::FLoad { index } => index,
        RawInstruction::DLoad { index } => index,
        RawInstruction::ALoad { index } => index,
        RawInstruction::IStore { index } => index,
        RawInstruction::LStore { index } => index,
        RawInstruction::FStore { index } => index,
        RawInstruction::DStore { index } => index,
        RawInstruction::AStore { index } => index,
        RawInstruction::Ret { index } => index,
        RawInstruction::NewArray { atype } => atype,
        _ => 0,
    }
}

/// The instruction with the given opcode and single operand of type `u8`.
pub open spec fn byte_instruction_of(op: u8, v: u8) -> RawInstruction {
    match op {
        0x10 => RawInstruction::BiPush { value: v },
        0x12 => RawInstruction::Ldc { const_index: v },
        0x15 => RawInstruction::ILoad { index: v },
        0x16 => RawInstruction::LLoad { index: v },
        0x17 => RawInstruction::FLoad { index: v },
        0x18 => RawInstruction::DLoad { index: v },
        0x19 => RawInstruction::ALoad { index: v },
        0x36 => RawInstruction::IStore { index: v },
        0x37 => RawInstruction::LStore { index: v },
        0x38 => RawInstruction::FStore { index: v },
        0x39 => RawInstruction::DStore { index: v },
        0x3A => RawInstruction::AStore { index: v },
        0xA9 => RawInstruction::Ret { index: v },
        0xBC => RawInstruction::NewArray { atype: v },
        _ => RawInstruction::Nop,
    }
}

/// Builds the instruction with the given opcode and single operand of type `u8`.
fn byte_instruction(op: u8, v: u8) -> (r: RawInstruction)
    ensures
        r == byte_instruction_of(op, v),
{
    match op {
        0x10 => RawInstruction::BiPush { value: v },
        0x12 => RawInstruction::Ldc { const_index: v },
        0x15 => RawInstruction::ILoad { index: v },
        0x16 => RawInstruction::LLoad { index: v },
        0x17 => RawInstruction::FLoad { index: v },
        0x18 => RawInstruction::DLoad { index: v },
        0x19 => RawInstruction::ALoad { index: v },
        0x36 => RawInstruction::IStore { index: v },
        0x37 => RawInstruction::LStore { index: v },
        0x38 => RawInstruction::FStore { index: v },
        0x39 => RawInstruction::DStore { index: v },
        0x3A => RawInstruction::AStore { index: v },
        0xA9 => RawInstruction::Ret { index: v },
        0xBC => RawInstruction::NewArray { atype: v },
        _ => RawInstruction::Nop,
    }
}

/// Gets the operand of an instruction with a single operand of type `u8`.
fn get_byte_operand(insn: &RawInstruction) -> (r: u8)
    ensures
        r == byte_operand(*insn),
{
    match insn {
        RawInstruction::BiPush { value } => *value,
        RawInstruction::Ldc { const_index } => *const_index,
        RawInstruction::ILoad { index } => *index,
        RawInstruction::LLoad { index } => *index,
        RawInstruction::FLoad { index } => *index,
        RawInstruction::DLoad { index } => *index,
        RawInstruction::ALoad { index } => *index,
        RawInstruction::IStore { index } => *index,
        RawInstruction::LStore { index } => *index,
        RawInstruction::FStore { index } => *index,
        RawInstruction::DStore { index } => *index,
        RawInstruction::AStore { index } => *index,
        RawInstruction::Ret { index } => *index,
        RawInstruction::NewArray { atype } => *atype,
        _ => 0,
    }
}

/// The operand of an instruction with a single operand of type `u16`.
pub open spec fn short_operand(insn: RawInstruction) -> u16 {
    match insn {
        RawInstruction::SiPush { value } => value,
        RawInstruction::LdcW { const_index } => const_index,
        RawInstruction::Ldc2W { const_index } => const_index,
        RawInstruction::GetStatic { field_ref_index } => field_ref_index,
        RawInstruction::PutStatic { field_ref_index } => field_ref_index,
        RawInstruction::GetField { field_ref_index } => field_ref_index,
        RawInstruction::PutField { field_ref_index } => field_ref_index,
        RawInstruction::InvokeVirtual { method_index } => method_index,
        RawInstruction::InvokeSpecial { method_index } => method_index,
        RawInstruction::InvokeStatic { method_index } => method_index,
        RawInstruction::New { index } => index,
        RawInstruction::ANewArray { index } => index,
        RawInstruction::CheckCast { target_type_index } => target_type_index,
        RawInstruction::InstanceOf { target_type_index } => target_type_index,
        _ => 0,
    }
}

/// The instruction with the given opcode and single operand of type `u16`.
pub open spec fn short_instruction_of(op: u8, v: u16) -> RawInstruction {
    match op {
        0x11 => RawInstruction::SiPush { value: v },
        0x13 => RawInstruction::LdcW { const_index: v },
        0x14 => RawInstruction::Ldc2W { const_index: v },
        0xB2 => RawInstruction::GetStatic { field_ref_index: v },
        0xB3 => RawInstruction::PutStatic { field_ref_index: v },
        0xB4 => RawInstruction::GetField { field_ref_index: v },
        0xB5 => RawInstruction::PutField { field_ref_index: v },
        0xB6 => RawInstruction::InvokeVirtual { method_index: v },
        0xB7 => RawInstruction::InvokeSpecial { method_index: v },
        0xB8 => RawInstruction::InvokeStatic { method_index: v },
        0xBB => RawInstruction::New { index: v },
        0xBD => RawInstruction::ANewArray { index: v },
        0xC0 => RawInstruction::CheckCast { target_type_index: v },
        0xC1 => RawInstruction::InstanceOf { target_type_index: v },
        _ => RawInstruction::Nop,
    }
}

/// Builds the instruction with the given opcode and single operand of type `u16`.
fn short_instruction(op: u8, v: u16) -> (r: RawInstruction)
    ensures
        r == short_instruction_of(op, v),
{
    match op {
        0x11 => RawInstruction::SiPush { value: v },
        0x13 => RawInstruction::LdcW { const_index: v },
        0x14 => RawInstruction::Ldc2W { const_index: v },
        0xB2 => RawInstruction::GetStatic { field_ref_index: v },
        0xB3 => RawInstruction::PutStatic { field_ref_index: v },
        0xB4 => RawInstruction::GetField { field_ref_index: v },
        0xB5 => RawInstruction::PutField { field_ref_index: v },
        0xB6 => RawInstruction::InvokeVirtual { method_index: v },
        0xB7 => RawInstruction::InvokeSpecial { method_index: v },
        0xB8 => RawInstruction::InvokeStatic { method_index: v },
        0xBB => RawInstruction::New { index: v },
        0xBD => RawInstruction::ANewArray { index: v },
        0xC0 => RawInstruction::CheckCast { target_type_index: v },
        0xC1 => RawInstruction::InstanceOf { target_type_index: v },
        _ => RawInstruction::Nop,
    }
}

/// Gets the operand of an instruction with a single operand of type `u16`.
fn get_short_operand(insn: &RawInstruction) -> (r: u16)
    ensures
        r == short_operand(*insn),
{
    match insn {
        RawInstruction::SiPush { value } => *value,
        RawInstruction::LdcW { const_index } => *const_index,
        RawInstruction::Ldc2W { const_index } => *const_index,
        RawInstruction::GetStatic { field_ref_index } => *field_ref_index,
        RawInstruction::PutStatic { field_ref_index } => *field_ref_index,
        RawInstruction::GetField { field_ref_index } => *field_ref_index,
        RawInstruction::PutField { field_ref_index } => *field_ref_index,
        RawInstruction::InvokeVirtual { method_index } => *method_index,
        RawInstruction::InvokeSpecial { method_index } => *method_index,
        RawInstruction::InvokeStatic { method_index } => *method_index,
        RawInstruction::New { index } => *index,
        RawInstruction::ANewArray { index } => *index,
        RawInstruction::CheckCast { target_type_index } => *target_type_index,
        RawInstruction::InstanceOf { target_type_index } => *target_type_index,
        _ => 0,
    }
}

/// The operand of an instruction with a single operand of type `i16`.
pub open spec fn offset16_operand(insn: RawInstruction) -> i16 {
    match insn {
        RawInstruction::IfEq { offset } => offset,
        RawInstruction::IfNe { offset } => offset,
        RawInstruction::IfLt { offset } => offset,
        RawInstruction::IfGe { offset } => offset,
        RawInstruction::IfGt { offset } => offset,
        RawInstruction::IfLe { offset } => offset,
        RawInstruction::IfICmpEq { offset } => offset,
        RawInstruction::IfICmpNe { offset } => offset,
        RawInstruction::IfICmpLt { offset } => offset,
        RawInstruction::IfICmpGe { offset } => offset,
        RawInstruction::IfICmpGt { offset } => offset,
        RawInstruction::IfICmpLe { offset } => offset,
        RawInstruction::IfACmpEq { offset } => offset,
        RawInstruction::IfACmpNe { offset } => offset,
        RawInstruction::Goto { offset } => offset,
        RawInstruction::Jsr { offset } => offset,
        RawInstruction::IfNull { offset } => offset,
        RawInstruction::IfNonNull { offset } => offset,
        _ => 0,
    }
}

/// The instruction with the given opcode and single operand of type `i16`.
pub open spec fn offset16_instruction_of(op: u8, v: i16) -> RawInstruction {
    match op {
        0x99 => RawInstruction::IfEq { offset: v },
        0x9A => RawInstruction::IfNe { offset: v },
        0x9B => RawInstruction::IfLt { offset: v },
        0x9C => RawInstruction::IfGe { offset: v },
        0x9D => RawInstruction::IfGt { offset: v },
        0x9E => RawInstruction::IfLe { offset: v },
        0x9F => RawInstruction::IfICmpEq { offset: v },
        0xA0 => RawInstruction::IfICmpNe { offset: v },
        0xA1 => RawInstruction::IfICmpLt { offset: v },
        0xA2 => RawInstruction::IfICmpGe { offset: v },
        0xA3 => RawInstruction::IfICmpGt { offset: v },
        0xA4 => RawInstruction::IfICmpLe { offset: v },
        0xA5 => RawInstruction::IfACmpEq { offset: v },
        0xA6 => RawInstruction::IfACmpNe { offset: v },
        0xA7 => RawInstruction::Goto { offset: v },
        0xA8 => RawInstruction::Jsr { offset: v },
        0xC6 => RawInstruction::IfNull { offset: v },
        0xC7 => RawInstruction::IfNonNull { offset: v },
        _ => RawInstruction::Nop,
    }
}

/// Builds the instruction with the given opcode and single operand of type `i16`.
fn offset16_instruction(op: u8, v: i16) -> (r: RawInstruction)
    ensures
        r == offset16_instruction_of(op, v),
{
    match op {
        0x99 => RawInstruction::IfEq { offset: v },
        0x9A => RawInstruction::IfNe { offset: v },
        0x9B => RawInstruction::IfLt { offset: v },
        0x9C => RawInstruction::IfGe { offset: v },
        0x9D => RawInstruction::IfGt { offset: v },
        0x9E => RawInstruction::IfLe { offset: v },
        0x9F => RawInstruction::IfICmpEq { offset: v },
        0xA0 => RawInstruction::IfICmpNe { offset: v },
        0xA1 => RawInstruction::IfICmpLt { offset: v },
        0xA2 => RawInstruction::IfICmpGe { offset: v },
        0xA3 => RawInstruction::IfICmpGt { offset: v },
        0xA4 => RawInstruction::IfICmpLe { offset: v },
        0xA5 => RawInstruction::IfACmpEq { offset: v },
        0xA6 => RawInstruction::IfACmpNe { offset: v },
        0xA7 => RawInstruction::Goto { offset: v },
        0xA8 => RawInstruction::Jsr { offset: v },
        0xC6 => RawInstruction::IfNull { offset: v },
        0xC7 => RawInstruction::IfNonNull { offset: v },
        _ => RawInstruction::Nop,
    }
}

/// Gets the operand of an instruction with a single operand of type `i16`.
fn get_offset16_operand(insn: &RawInstruction) -> (r: i16)
    ensures
        r == offset16_operand(*insn),
{
    match insn {
        RawInstruction::IfEq { offset } => *offset,
        RawInstruction::IfNe { offset } => *offset,
        RawInstruction::IfLt { offset } => *offset,
        RawInstruction::IfGe { offset } => *offset,
        RawInstruction::IfGt { offset } => *offset,
        RawInstruction::IfLe { offset } => *offset,
        RawInstruction::IfICmpEq { offset } => *offset,
        RawInstruction::IfICmpNe { offset } => *offset,
        RawInstruction::IfICmpLt { offset } => *offset,
        RawInstruction::IfICmpGe { offset } => *offset,
        RawInstruction::IfICmpGt { offset } => *offset,
        RawInstruction::IfICmpLe { offset } => *offset,
        RawInstruction::IfACmpEq { offset } => *offset,
        RawInstruction::IfACmpNe { offset } => *offset,
        RawInstruction::Goto { offset } => *offset,
        RawInstruction::Jsr { offset } => *offset,
        RawInstruction::IfNull { offset } => *offset,
        RawInstruction::IfNonNull { offset } => *offset,
        _ => 0,
    }
}

/// The operand of an instruction with a single operand of type `i32`.
pub open spec fn offset32_operand(insn: RawInstruction) -> i32 {
    match insn {
        RawInstruction::GotoW { offset } => offset,
        RawInstruction::JsrW { offset } => offset,
        _ => 0,
    }
}

/// The instruction with the given opcode and single operand of type `i32`.
pub open spec fn offset32_instruction_of(op: u8, v: i32) -> RawInstruction {
    match op {
        0xC8 => RawInstruction::GotoW { offset: v },
        0xC9 => RawInstruction::JsrW { offset: v },
        _ => RawInstruction::Nop,
    }
}

/// Builds the instruction with the given opcode and single operand of type `i32`.
fn offset32_instruction(op: u8, v: i32) -> (r: RawInstruction)
    ensures
        r == offset32_instruction_of(op, v),
{
    match op {
        0xC8 => RawInstruction::GotoW { offset: v },
        0xC9 => RawInstruction::JsrW { offset: v },
        _ => RawInstruction::Nop,
    }
}

/// Gets the operand of an instruction with a single operand of type `i32`.
fn get_offset32_operand(insn: &RawInstruction) -> (r: i32)
    ensures
        r == offset32_operand(*insn),
{
    match insn {
        RawInstruction::GotoW { offset } => *offset,
        RawInstruction::JsrW { offset } => *offset,
        _ => 0,
    }
}

/// The instruction without operands that has the given opcode.
pub open spec fn plain_instruction_of(op: u8) -> RawInstruction {
    match op {
        0x00 => RawInstruction::Nop,
        0x01 => RawInstruction::AConstNull,
        0x02 => RawInstruction::IConstM1,
        0x03 => RawInstruction::IConst0,
        0x04 => RawInstruction::IConst1,
        0x05 => RawInstruction::IConst2,
        0x06 => RawInstruction::IConst3,
        0x07 => RawInstruction::IConst4,
        0x08 => RawInstruction::IConst5,
        0x09 => RawInstruction::LConst0,
        0x0A => RawInstruction::LConst1,
        0x0B => RawInstruction::FConst0,
        0x0C => RawInstruction::FConst1,
        0x0D => RawInstruction::FConst2,
        0x0E => RawInstruction::DConst0,
        0x0F => RawInstruction::DConst1,
        0x1A => RawInstruction::ILoad0,
        0x1B => RawInstruction::ILoad1,
        0x1C => RawInstruction::ILoad2,
        0x1D => RawInstruction::ILoad3,
        0x1E => RawInstruction::LLoad0,
        0x1F => RawInstruction::LLoad1,
        0x20 => RawInstruction::LLoad2,
        0x21 => RawInstruction::LLoad3,
        0x22 => RawInstruction::FLoad0,
        0x23 => RawInstruction::FLoad1,
        0x24 => RawInstruction::FLoad2,
        0x25 => RawInstruction::FLoad3,
        0x26 => RawInstruction::DLoad0,
        0x27 => RawInstruction::DLoad1,
        0x28 => RawInstruction::DLoad2,
        0x29 => RawInstruction::DLoad3,
        0x2A => RawInstruction::ALoad0,
        0x2B => RawInstruction::ALoad1,
        0x2C => RawInstruction::ALoad2,
        0x2D => RawInstruction::ALoad3,
        0x2E => RawInstruction::IALoad,
        0x2F => RawInstruction::LALoad,
        0x30 => RawInstruction::FALoad,
        0x31 => RawInstruction::DALoad,
        0x32 => RawInstruction::AALoad,
        0x33 => RawInstruction::BALoad,
        0x34 => RawInstruction::CALoad,
        0x35 => RawInstruction::SALoad,
        0x3B => RawInstruction::IStore0,
        0x3C => RawInstruction::IStore1,
        0x3D => RawInstruction::IStore2,
        0x3E => RawInstruction::IStore3,
        0x3F => RawInstruction::LStore0,
        0x40 => RawInstruction::LStore1,
        0x41 => RawInstruction::LStore2,
        0x42 => RawInstruction::LStore3,
        0x43 => RawInstruction::FStore0,
        0x44 => RawInstruction::FStore1,
        0x45 => RawInstruction::FStore2,
        0x46 => RawInstruction::FStore3,
        0x47 => RawInstruction::DStore0,
        0x48 => RawInstruction::DStore1,
        0x49 => RawInstruction::DStore2,
        0x4A => RawInstruction::DStore3,
        0x4B => RawInstruction::AStore0,
        0x4C => RawInstruction::AStore1,
        0x4D => RawInstruction::AStore2,
        0x4E => RawInstruction::AStore3,
        0x4F => RawInstruction::IAStore,
        0x50 => RawInstruction::LAStore,
        0x51 => RawInstruction::FAStore,
        0x52 => RawInstruction::DAStore,
        0x53 => RawInstruction::AAStore,
        0x54 => RawInstruction::BAStore,
        0x55 => RawInstruction::CAStore,
        0x56 => RawInstruction::SAStore,
        0x57 => RawInstruction::Pop,
        0x58 => RawInstruction::Pop2,
        0x59 => RawInstruction::Dup,
        0x5A => RawInstruction::DupX1,
        0x5B => RawInstruction::DupX2,
        0x5C => RawInstruction::Dup2,
        0x5D => RawInstruction::Dup2X1,
        0x5E => RawInstruction::Dup2X2,
        0x5F => RawInstruction::Swap,
        0x60 => RawInstruction::IAdd,
        0x61 => RawInstruction::LAdd,
        0x62 => RawInstruction::FAdd,
        0x63 => RawInstruction::DAdd,
        0x64 => RawInstruction::ISub,
        0x65 => RawInstruction::LSub,
        0x66 => RawInstruction::FSub,
        0x67 => RawInstruction::DSub,
        0x68 => RawInstruction::IMul,
        0x69 => RawInstruction::LMul,
        0x6A => RawInstruction::FMul,
        0x6B => RawInstruction::DMul,
        0x6C => RawInstruction::IDiv,
        0x6D => RawInstruction::LDiv,
        0x6E => RawInstruction::FDiv,
        0x6F => RawInstruction::DDiv,
        0x70 => RawInstruction::IRem,
        0x71 => RawInstruction::LRem,
        0x72 => RawInstruction::FRem,
        0x73 => RawInstruction::DRem,
        0x74 => RawInstruction::INeg,
        0x75 => RawInstruction::LNeg,
        0x76 => RawInstruction::FNeg,
        0x77 => RawInstruction::DNeg,
        0x78 => RawInstruction::IShl,
        0x79 => RawInstruction::LShl,
        0x7A => RawInstruction::IShr,
        0x7B => RawInstruction::LShr,
        0x7C => RawInstruction::IUShr,
        0x7D => RawInstruction::LUShr,
        0x7E => RawInstruction::IAnd,
        0x7F => RawInstruction::LAnd,
        0x80 => RawInstruction::IOr,
        0x81 => RawInstruction::LOr,
        0x82 => RawInstruction::IXor,
        0x83 => RawInstruction::LXor,
        0x85 => RawInstruction::I2L,
        0x86 => RawInstruction::I2F,
        0x87 => RawInstruction::I2D,
        0x88 => RawInstruction::L2I,
        0x89 => RawInstruction::L2F,
        0x8A => RawInstruction::L2D,
        0x8B => RawInstruction::F2I,
        0x8C => RawInstruction::F2L,
        0x8D => RawInstruction::F2D,
        0x8E => RawInstruction::D2I,
        0x8F => RawInstruction::D2L,
        0x90 => RawInstruction::D2F,
        0x91 => RawInstruction::I2B,
        0x92 => RawInstruction::I2C,
        0x93 => RawInstruction::I2S,
        0x94 => RawInstruction::LCmp,
        0x95 => RawInstruction::FCmpL,
        0x96 => RawInstruction::FCmpG,
        0x97 => RawInstruction::DCmpL,
        0x98 => RawInstruction::DCmpG,
        0xAC => RawInstruction::IReturn,
        0xAD => RawInstruction::LReturn,
        0xAE => RawInstruction::FReturn,
        0xAF => RawInstruction::DReturn,
        0xB0 => RawInstruction::AReturn,
        0xB1 => RawInstruction::Return,
        0xBE => RawInstruction::ArrayLength,
        0xBF => RawInstruction::AThrow,
        0xC2 => RawInstruction::MonitorEnter,
        0xC3 => RawInstruction::MonitorExit,
        _ => RawInstruction::Nop,
    }
}

/// Builds the instruction without operands that has the given opcode.
fn plain_instruction(op: u8) -> (r: RawInstruction)
    ensures
        r == plain_instruction_of(op),
{
    match op {
        0x00 => RawInstruction::Nop,
        0x01 => RawInstruction::AConstNull,
        0x02 => RawInstruction::IConstM1,
        0x03 => RawInstruction::IConst0,
        0x04 => RawInstruction::IConst1,
        0x05 => RawInstruction::IConst2,
        0x06 => RawInstruction::IConst3,
        0x07 => RawInstruction::IConst4,
        0x08 => RawInstruction::IConst5,
        0x09 => RawInstruction::LConst0,
        0x0A => RawInstruction::LConst1,
        0x0B => RawInstruction::FConst0,
        0x0C => RawInstruction::FConst1,
        0x0D => RawInstruction::FConst2,
        0x0E => RawInstruction::DConst0,
        0x0F => RawInstruction::DConst1,
        0x1A => RawInstruction::ILoad0,
        0x1B => RawInstruction::ILoad1,
        0x1C => RawInstruction::ILoad2,
        0x1D => RawInstruction::ILoad3,
        0x1E => RawInstruction::LLoad0,
        0x1F => RawInstruction::LLoad1,
        0x20 => RawInstruction::LLoad2,
        0x21 => RawInstruction::LLoad3,
        0x22 => RawInstruction::FLoad0,
        0x23 => RawInstruction::FLoad1,
        0x24 => RawInstruction::FLoad2,
        0x25 => RawInstruction::FLoad3,
        0x26 => RawInstruction::DLoad0,
        0x27 => RawInstruction::DLoad1,
        0x28 => RawInstruction::DLoad2,
        0x29 => RawInstruction::DLoad3,
        0x2A => RawInstruction::ALoad0,
        0x2B => RawInstruction::ALoad1,
        0x2C => RawInstruction::ALoad2,
        0x2D => RawInstruction::ALoad3,
        0x2E => RawInstruction::IALoad,
        0x2F => RawInstruction::LALoad,
        0x30 => RawInstruction::FALoad,
        0x31 => RawInstruction::DALoad,
        0x32 => RawInstruction::AALoad,
        0x33 => RawInstruction::BALoad,
        0x34 => RawInstruction::CALoad,
        0x35 => RawInstruction::SALoad,
        0x3B => RawInstruction::IStore0,
        0x3C => RawInstruction::IStore1,
        0x3D => RawInstruction::IStore2,
        0x3E => RawInstruction::IStore3,
        0x3F => RawInstruction::LStore0,
        0x40 => RawInstruction::LStore1,
        0x41 => RawInstruction::LStore2,
        0x42 => RawInstruction::LStore3,
        0x43 => RawInstruction::FStore0,
        0x44 => RawInstruction::FStore1,
        0x45 => RawInstruction::FStore2,
        0x46 => RawInstruction::FStore3,
        0x47 => RawInstruction::DStore0,
        0x48 => RawInstruction::DStore1,
        0x49 => RawInstruction::DStore2,
        0x4A => RawInstruction::DStore3,
        0x4B => RawInstruction::AStore0,
        0x4C => RawInstruction::AStore1,
        0x4D => RawInstruction::AStore2,
        0x4E => RawInstruction::AStore3,
        0x4F => RawInstruction::IAStore,
        0x50 => RawInstruction::LAStore,
        0x51 => RawInstruction::FAStore,
        0x52 => RawInstruction::DAStore,
        0x53 => RawInstruction::AAStore,
        0x54 => RawInstruction::BAStore,
        0x55 => RawInstruction::CAStore,
        0x56 => RawInstruction::SAStore,
        0x57 => RawInstruction::Pop,
        0x58 => RawInstruction::Pop2,
        0x59 => RawInstruction::Dup,
        0x5A => RawInstruction::DupX1,
        0x5B => RawInstruction::DupX2,
        0x5C => RawInstruction::Dup2,
        0x5D => RawInstruction::Dup2X1,
        0x5E => RawInstruction::Dup2X2,
        0x5F => RawInstruction::Swap,
        0x60 => RawInstruction::IAdd,
        0x61 => RawInstruction::LAdd,
        0x62 => RawInstruction::FAdd,
        0x63 => RawInstruction::DAdd,
        0x64 => RawInstruction::ISub,
        0x65 => RawInstruction::LSub,
        0x66 => RawInstruction::FSub,
        0x67 => RawInstruction::DSub,
        0x68 => RawInstruction::IMul,
        0x69 => RawInstruction::LMul,
        0x6A => RawInstruction::FMul,
        0x6B => RawInstruction::DMul,
        0x6C => RawInstruction::IDiv,
        0x6D => RawInstruction::LDiv,
        0x6E => RawInstruction::FDiv,
        0x6F => RawInstruction::DDiv,
        0x70 => RawInstruction::IRem,
        0x71 => RawInstruction::LRem,
        0x72 => RawInstruction::FRem,
        0x73 => RawInstruction::DRem,
        0x74 => RawInstruction::INeg,
        0x75 => RawInstruction::LNeg,
        0x76 => RawInstruction::FNeg,
        0x77 => RawInstruction::DNeg,
        0x78 => RawInstruction::IShl,
        0x79 => RawInstruction::LShl,
        0x7A => RawInstruction::IShr,
        0x7B => RawInstruction::LShr,
        0x7C => RawInstruction::IUShr,
        0x7D => RawInstruction::LUShr,
        0x7E => RawInstruction::IAnd,
        0x7F => RawInstruction::LAnd,
        0x80 => RawInstruction::IOr,
        0x81 => RawInstruction::LOr,
        0x82 => RawInstruction::IXor,
        0x83 => RawInstruction::LXor,
        0x85 => RawInstruction::I2L,
        0x86 => RawInstruction::I2F,
        0x87 => RawInstruction::I2D,
        0x88 => RawInstruction::L2I,
        0x89 => RawInstruction::L2F,
        0x8A => RawInstruction::L2D,
        0x8B => RawInstruction::F2I,
        0x8C => RawInstruction::F2L,
        0x8D => RawInstruction::F2D,
        0x8E => RawInstruction::D2I,
        0x8F => RawInstruction::D2L,
        0x90 => RawInstruction::D2F,
        0x91 => RawInstruction::I2B,
        0x92 => RawInstruction::I2C,
        0x93 => RawInstruction::I2S,
        0x94 => RawInstruction::LCmp,
        0x95 => RawInstruction::FCmpL,
        0x96 => RawInstruction::FCmpG,
        0x97 => RawInstruction::DCmpL,
        0x98 => RawInstruction::DCmpG,
        0xAC => RawInstruction::IReturn,
        0xAD => RawInstruction::LReturn,
        0xAE => RawInstruction::FReturn,
        0xAF => RawInstruction::DReturn,
        0xB0 => RawInstruction::AReturn,
        0xB1 => RawInstruction::Return,
        0xBE => RawInstruction::ArrayLength,
        0xBF => RawInstruction::AThrow,
        0xC2 => RawInstruction::MonitorEnter,
        0xC3 => RawInstruction::MonitorExit,
        _ => RawInstruction::Nop,
    }
}

/// Gets the layout of the operands of an instruction.
fn get_shape(insn: &RawInstruction) -> (r: OperandShape)
    ensures
        r == shape(*insn),
{
    match insn {
        RawInstruction::Nop => OperandShape::Plain,
        RawInstruction::AConstNull => OperandShape::Plain,
        RawInstruction::IConstM1 => OperandShape::Plain,
        RawInstruction::IConst0 => OperandShape::Plain,
        RawInstruction::IConst1 => OperandShape::Plain,
        RawInstruction::IConst2 => OperandShape::Plain,
        RawInstruction::IConst3 => OperandShape::Plain,
        RawInstruction::IConst4 => OperandShape::Plain,
        RawInstruction::IConst5 => OperandShape::Plain,
        RawInstruction::LConst0 => OperandShape::Plain,
        RawInstruction::LConst1 => OperandShape::Plain,
        RawInstruction::FConst0 => OperandShape::Plain,
        RawInstruction::FConst1 => OperandShape::Plain,
        RawInstruction::FConst2 => OperandShape::Plain,
        RawInstruction::DConst0 => OperandShape::Plain,
        RawInstruction::DConst1 => OperandShape::Plain,
        RawInstruction::BiPush { .. } => OperandShape::Byte,
        RawInstruction::SiPush { .. } => OperandShape::Short,
        RawInstruction::Ldc { .. } => OperandShape::Byte,
        RawInstruction::LdcW { .. } => OperandShape::Short,
        RawInstruction::Ldc2W { .. } => OperandShape::Short,
        RawInstruction::ILoad { .. } => OperandShape::Byte,
        RawInstruction::LLoad { .. } => OperandShape::Byte,
        RawInstruction::FLoad { .. } => OperandShape::Byte,
        RawInstruction::DLoad { .. } => OperandShape::Byte,
        RawInstruction::ALoad { .. } => OperandShape::Byte,
        RawInstruction::ILoad0 => OperandShape::Plain,
        RawInstruction::ILoad1 => OperandShape::Plain,
        RawInstruction::ILoad2 => OperandShape::Plain,
        RawInstruction::ILoad3 => OperandShape::Plain,
        RawInstruction::LLoad0 => OperandShape::Plain,
        RawInstruction::LLoad1 => OperandShape::Plain,
        RawInstruction::LLoad2 => OperandShape::Plain,
        RawInstruction::LLoad3 => OperandShape::Plain,
        RawInstruction::FLoad0 => OperandShape::Plain,
        RawInstruction::FLoad1 => OperandShape::Plain,
        RawInstruction::FLoad2 => OperandShape::Plain,
        RawInstruction::FLoad3 => OperandShape::Plain,
        RawInstruction::DLoad0 => OperandShape::Plain,
        RawInstruction::DLoad1 => OperandShape::Plain,
        RawInstruction::DLoad2 => OperandShape::Plain,
        RawInstruction::DLoad3 => OperandShape::Plain,
        RawInstruction::ALoad0 => OperandShape::Plain,
        RawInstruction::ALoad1 => OperandShape::Plain,
        RawInstruction::ALoad2 => OperandShape::Plain,
        RawInstruction::ALoad3 => OperandShape::Plain,
        RawInstruction::IALoad => OperandShape::Plain,
        RawInstruction::LALoad => OperandShape::Plain,
        RawInstruction::FALoad => OperandShape::Plain,
        RawInstruction::DALoad => OperandShape::Plain,
        RawInstruction::AALoad => OperandShape::Plain,
        RawInstruction::BALoad => OperandShape::Plain,
        RawInstruction::CALoad => OperandShape::Plain,
        RawInstruction::SALoad => OperandShape::Plain,
        RawInstruction::IStore { .. } => OperandShape::Byte,
        RawInstruction::LStore { .. } => OperandShape::Byte,
        RawInstruction::FStore { .. } => OperandShape::Byte,
        RawInstruction::DStore { .. } => OperandShape::Byte,
        RawInstruction::AStore { .. } => OperandShape::Byte,
        RawInstruction::IStore0 => OperandShape::Plain,
        RawInstruction::IStore1 => OperandShape::Plain,
        RawInstruction::IStore2 => OperandShape::Plain,
        RawInstruction::IStore3 => OperandShape::Plain,
        RawInstruction::LStore0 => OperandShape::Plain,
        RawInstruction::LStore1 => OperandShape::Plain,
        RawInstruction::LStore2 => OperandShape::Plain,
        RawInstruction::LStore3 => OperandShape::Plain,
        RawInstruction::FStore0 => OperandShape::Plain,
        RawInstruction::FStore1 => OperandShape::Plain,
        RawInstruction::FStore2 => OperandShape::Plain,
        RawInstruction::FStore3 => OperandShape::Plain,
        RawInstruction::DStore0 => OperandShape::Plain,
        RawInstruction::DStore1 => OperandShape::Plain,
        RawInstruction::DStore2 => OperandShape::Plain,
        RawInstruction::DStore3 => OperandShape::Plain,
        RawInstruction::AStore0 => OperandShape::Plain,
        RawInstruction::AStore1 => OperandShape::Plain,
        RawInstruction::AStore2 => OperandShape::Plain,
        RawInstruction::AStore3 => OperandShape::Plain,
        RawInstruction::IAStore => OperandShape::Plain,
        RawInstruction::LAStore => OperandShape::Plain,
        RawInstruction::FAStore => OperandShape::Plain,
        RawInstruction::DAStore => OperandShape::Plain,
        RawInstruction::AAStore => OperandShape::Plain,
        RawInstruction::BAStore => OperandShape::Plain,
        RawInstruction::CAStore => OperandShape::Plain,
        RawInstruction::SAStore => OperandShape::Plain,
        RawInstruction::Pop => OperandShape::Plain,
        RawInstruction::Pop2 => OperandShape::Plain,
        RawInstruction::Dup => OperandShape::Plain,
        RawInstruction::DupX1 => OperandShape::Plain,
        RawInstruction::DupX2 => OperandShape::Plain,
        RawInstruction::Dup2 => OperandShape::Plain,
        RawInstruction::Dup2X1 => OperandShape::Plain,
        RawInstruction::Dup2X2 => OperandShape::Plain,
        RawInstruction::Swap => OperandShape::Plain,
        RawInstruction::IAdd => OperandShape::Plain,
        RawInstruction::LAdd => OperandShape::Plain,
        RawInstruction::FAdd => OperandShape::Plain,
        RawInstruction::DAdd => OperandShape::Plain,
        RawInstruction::ISub => OperandShape::Plain,
        RawInstruction::LSub => OperandShape::Plain,
        RawInstruction::FSub => OperandShape::Plain,
        RawInstruction::DSub => OperandShape::Plain,
        RawInstruction::IMul => OperandShape::Plain,
        RawInstruction::LMul => OperandShape::Plain,
        RawInstruction::FMul => OperandShape::Plain,
        RawInstruction::DMul => OperandShape::Plain,
        RawInstruction::IDiv => OperandShape::Plain,
        RawInstruction::LDiv => OperandShape::Plain,
        RawInstruction::FDiv => OperandShape::Plain,
        RawInstruction::DDiv => OperandShape::Plain,
        RawInstruction::IRem => OperandShape::Plain,
        RawInstruction::LRem => OperandShape::Plain,
        RawInstruction::FRem => OperandShape::Plain,
        RawInstruction::DRem => OperandShape::Plain,
        RawInstruction::INeg => OperandShape::Plain,
        RawInstruction::LNeg => OperandShape::Plain,
        RawInstruction::FNeg => OperandShape::Plain,
        RawInstruction::DNeg => OperandShape::Plain,
        RawInstruction::IShl => OperandShape::Plain,
        RawInstruction::LShl => OperandShape::Plain,
        RawInstruction::IShr => OperandShape::Plain,
        RawInstruction::LShr => OperandShape::Plain,
        RawInstruction::IUShr => OperandShape::Plain,
        RawInstruction::LUShr => OperandShape::Plain,
        RawInstruction::IAnd => OperandShape::Plain,
        RawInstruction::LAnd => OperandShape::Plain,
        RawInstruction::IOr => OperandShape::Plain,
        RawInstruction::LOr => OperandShape::Plain,
        RawInstruction::IXor => OperandShape::Plain,
        RawInstruction::LXor => OperandShape::Plain,
        RawInstruction::IInc { .. } => OperandShape::Increment,
        RawInstruction::I2L => OperandShape::Plain,
        RawInstruction::I2F => OperandShape::Plain,
        RawInstruction::I2D => OperandShape::Plain,
        RawInstruction::L2I => OperandShape::Plain,
        RawInstruction::L2F => OperandShape::Plain,
        RawInstruction::L2D => OperandShape::Plain,
        RawInstruction::F2I => OperandShape::Plain,
        RawInstruction::F2L => OperandShape::Plain,
        RawInstruction::F2D => OperandShape::Plain,
        RawInstruction::D2I => OperandShape::Plain,
        RawInstruction::D2L => OperandShape::Plain,
        RawInstruction::D2F => OperandShape::Plain,
        RawInstruction::I2B => OperandShape::Plain,
        RawInstruction::I2C => OperandShape::Plain,
        RawInstruction::I2S => OperandShape::Plain,
        RawInstruction::LCmp => OperandShape::Plain,
        RawInstruction::FCmpL => OperandShape::Plain,
        RawInstruction::FCmpG => OperandShape::Plain,
        RawInstruction::DCmpL => OperandShape::Plain,
        RawInstruction::DCmpG => OperandShape::Plain,
        RawInstruction::IfEq { .. } => OperandShape::Offset16,
        RawInstruction::IfNe { .. } => OperandShape::Offset16,
        RawInstruction::IfLt { .. } => OperandShape::Offset16,
        RawInstruction::IfGe { .. } => OperandShape::Offset16,
        RawInstruction::IfGt { .. } => OperandShape::Offset16,
        RawInstruction::IfLe { .. } => OperandShape::Offset16,
        RawInstruction::IfICmpEq { .. } => OperandShape::Offset16,
        RawInstruction::IfICmpNe { .. } => OperandShape::Offset16,
        RawInstruction::IfICmpLt { .. } => OperandShape::Offset16,
        RawInstruction::IfICmpGe { .. } => OperandShape::Offset16,
        RawInstruction::IfICmpGt { .. } => OperandShape::Offset16,
        RawInstruction::IfICmpLe { .. } => OperandShape::Offset16,
        RawInstruction::IfACmpEq { .. } => OperandShape::Offset16,
        RawInstruction::IfACmpNe { .. } => OperandShape::Offset16,
        RawInstruction::Goto { .. } => OperandShape::Offset16,
        RawInstruction::Jsr { .. } => OperandShape::Offset16,
        RawInstruction::Ret { .. } => OperandShape::Byte,
        RawInstruction::TableSwitch { .. } => OperandShape::Table,
        RawInstruction::LookupSwitch { .. } => OperandShape::Lookup,
        RawInstruction::IReturn => OperandShape::Plain,
        RawInstruction::LReturn => OperandShape::Plain,
        RawInstruction::FReturn => OperandShape::Plain,
        RawInstruction::DReturn => OperandShape::Plain,
        RawInstruction::AReturn => OperandShape::Plain,
        RawInstruction::Return => OperandShape::Plain,
        RawInstruction::GetStatic { .. } => OperandShape::Short,
        RawInstruction::PutStatic { .. } => OperandShape::Short,
        RawInstruction::GetField { .. } => OperandShape::Short,
        RawInstruction::PutField { .. } => OperandShape::Short,
        RawInstruction::InvokeVirtual { .. } => OperandShape::Short,
        RawInstruction::InvokeSpecial { .. } => OperandShape::Short,
        RawInstruction::InvokeStatic { .. } => OperandShape::Short,
        RawInstruction::InvokeInterface { .. } => OperandShape::Interface,
        RawInstruction::InvokeDynamic { .. } => OperandShape::Dynamic,
        RawInstruction::New { .. } => OperandShape::Short,
        RawInstruction::NewArray { .. } => OperandShape::Byte,
        RawInstruction::ANewArray { .. } => OperandShape::Short,
        RawInstruction::ArrayLength => OperandShape::Plain,
        RawInstruction::AThrow => OperandShape::Plain,
        RawInstruction::CheckCast { .. } => OperandShape::Short,
        RawInstruction::InstanceOf { .. } => OperandShape::Short,
        RawInstruction::MonitorEnter => OperandShape::Plain,
        RawInstruction::MonitorExit => OperandShape::Plain,
        RawInstruction::Wide(..) => OperandShape::Wide,
        RawInstruction::MultiANewArray { .. } => OperandShape::MultiArray,
        RawInstruction::IfNull { .. } => OperandShape::Offset16,
        RawInstruction::IfNonNull { .. } => OperandShape::Offset16,
        RawInstruction::GotoW { .. } => OperandShape::Offset32,
        RawInstruction::JsrW { .. } => OperandShape::Offset32,
        RawInstruction::Breakpoint => OperandShape::Invalid,
        RawInstruction::ImpDep1 => OperandShape::Invalid,
        RawInstruction::ImpDep2 => OperandShape::Invalid,
    }
}

/// The layout of the operands of the instruction that the `wide` prefix modifies.
pub open spec fn wide_shape_of(op: u8) -> Option<bool> {
    match op {
        0x15 => Some(false),
        0x16 => Some(false),
        0x17 => Some(false),
        0x18 => Some(false),
        0x19 => Some(false),
        0x36 => Some(false),
        0x37 => Some(false),
        0x38 => Some(false),
        0x39 => Some(false),
        0x3A => Some(false),
        0xA9 => Some(false),
        0x84 => Some(true),
        _ => None,
    }
}

/// The wide instruction with the given opcode and index (not `iinc`).
pub open spec fn wide_instruction_of(op: u8, index: u16) -> RawWideInstruction {
    match op {
        0x15 => RawWideInstruction::ILoad { index },
        0x16 => RawWideInstruction::LLoad { index },
        0x17 => RawWideInstruction::FLoad { index },
        0x18 => RawWideInstruction::DLoad { index },
        0x19 => RawWideInstruction::ALoad { index },
        0x36 => RawWideInstruction::IStore { index },
        0x37 => RawWideInstruction::LStore { index },
        0x38 => RawWideInstruction::FStore { index },
        0x39 => RawWideInstruction::DStore { index },
        0x3A => RawWideInstruction::AStore { index },
        0xA9 => RawWideInstruction::Ret { index },
        _ => RawWideInstruction::Ret { index },
    }
}

/// Builds the wide instruction with the given opcode and index (not `iinc`).
fn wide_instruction(op: u8, index: u16) -> (r: RawWideInstruction)
    ensures
        r == wide_instruction_of(op, index),
{
    match op {
        0x15 => RawWideInstruction::ILoad { index },
        0x16 => RawWideInstruction::LLoad { index },
        0x17 => RawWideInstruction::FLoad { index },
        0x18 => RawWideInstruction::DLoad { index },
        0x19 => RawWideInstruction::ALoad { index },
        0x36 => RawWideInstruction::IStore { index },
        0x37 => RawWideInstruction::LStore { index },
        0x38 => RawWideInstruction::FStore { index },
        0x39 => RawWideInstruction::DStore { index },
        0x3A => RawWideInstruction::AStore { index },
        0xA9 => RawWideInstruction::Ret { index },
        _ => RawWideInstruction::Ret { index },
    }
}

/// Gets the layout of the operands of the instruction that the `wide` prefix modifies: `None`
/// for an opcode that cannot follow it, `Some(true)` for `iinc`, `Some(false)` otherwise.
fn wide_shape(op: u8) -> (r: Option<bool>)
    ensures
        r == wide_shape_of(op),
{
    match op {
        0x15 => Some(false),
        0x16 => Some(false),
        0x17 => Some(false),
        0x18 => Some(false),
        0x19 => Some(false),
        0x36 => Some(false),
        0x37 => Some(false),
        0x38 => Some(false),
        0x39 => Some(false),
        0x3A => Some(false),
        0xA9 => Some(false),
        0x84 => Some(true),
        _ => None,
    }
}

/// The bytes of the operands of an instruction at `pos`, after its opcode; switches are
/// padded with zeros, and the pairs of a lookup switch come in their given order.
pub open spec fn operand_bytes(insn: RawInstruction, pos: int) -> Seq<u8> {
    match insn {
        RawInstruction::IInc { index, constant } => seq![index, constant as u8],
        RawInstruction::InvokeInterface { method_index, count } => be16(method_index) + seq![count, 0u8],
        RawInstruction::InvokeDynamic { dynamic_index } => be16(dynamic_index) + seq![0u8, 0u8],
        RawInstruction::MultiANewArray { index, dimensions } => be16(index) + seq![dimensions],
        RawInstruction::Wide(w) => seq![w.opcode_of()] + be16(w.index_of()) + match w {
            RawWideInstruction::IInc { increment, .. } => be16(increment as u16),
            _ => Seq::empty(),
        },
        RawInstruction::TableSwitch { default, low, high, jump_offsets } => zeros(switch_padding(pos))
            + be32(default as u32) + be32(low as u32) + be32(high as u32) + words(jump_offsets@),
        RawInstruction::LookupSwitch { default, match_offsets } => zeros(switch_padding(pos)) + be32(
            default as u32,
        ) + be32(match_offsets@.len() as u32) + pair_words(match_offsets@),
        _ => match shape(insn) {
            OperandShape::Byte => seq![byte_operand(insn)],
            OperandShape::Short => be16(short_operand(insn)),
            OperandShape::Offset16 => be16(offset16_operand(insn) as u16),
            OperandShape::Offset32 => be32(offset32_operand(insn) as u32),
            _ => Seq::empty(),
        },
    }
}

/// The bytes of an instruction at `pos`: its opcode, then its operands.
pub open spec fn encoding(insn: RawInstruction, pos: int) -> Seq<u8> {
    seq![insn.opcode_of()] + operand_bytes(insn, pos)
}

/// The 32-bit value of four big-endian bytes.
pub open spec fn u32_of(b: Seq<u8>) -> u32 {
    (b[0] * 0x100_0000 + b[1] * 0x1_0000 + b[2] * 0x100 + b[3]) as u32
}

/// Whether byte `i` of the encoding of an instruction at `pos` is ignored when reading it:
/// the padding of a switch, the count of pairs of a lookup switch (checked on its own), and
/// the two reserved bytes of `invokedynamic`.
pub open spec fn is_ignored(insn: RawInstruction, pos: int, i: int) -> bool {
    match insn {
        RawInstruction::TableSwitch { .. } => 1 <= i <= switch_padding(pos),
        RawInstruction::LookupSwitch { .. } => 1 <= i <= switch_padding(pos) || (switch_padding(pos) + 5 <= i
            < switch_padding(pos) + 9),
        RawInstruction::InvokeDynamic { .. } => i == 3 || i == 4,
        _ => false,
    }
}

/// Whether the count word of a lookup switch at `pos` in `bytes` gives `len` pairs: a negative
/// count gives none.
pub open spec fn lookup_count_fits(bytes: Seq<u8>, pos: int, len: int) -> bool {
    let at = pos + 1 + switch_padding(pos) + 4;
    let c = u32_of(bytes.subrange(at, at + 4)) as i32;
    if c >= 0 {
        len == c
    } else {
        len == 0
    }
}

/// Whether `bytes` hold the instruction at `pos`: they hold its encoding, but for the bytes
/// that reading ignores.
pub open spec fn fits(bytes: Seq<u8>, pos: int, insn: RawInstruction) -> bool {
    let e = encoding(insn, pos);
    &&& 0 <= pos
    &&& pos + e.len() <= bytes.len()
    &&& forall|i: int| 0 <= i < e.len() && !is_ignored(insn, pos, i) ==> bytes[pos + i] == #[trigger] e[i]
    &&& insn matches RawInstruction::LookupSwitch { match_offsets, .. } ==> lookup_count_fits(
        bytes,
        pos,
        match_offsets@.len() as int,
    )
}

/// Whether an instruction can be read back: its opcode is one that reading accepts, a table
/// switch has one offset per key from `low` to `high`, and a lookup switch has no more pairs
/// than a count can give.
pub open spec fn readable(insn: RawInstruction) -> bool {
    &&& shape(insn) != OperandShape::Invalid
    &&& match insn {
        RawInstruction::TableSwitch { low, high, jump_offsets, .. } => jump_offsets@.len() == table_count(low, high),
        RawInstruction::LookupSwitch { match_offsets, .. } => match_offsets@.len() <= i32::MAX,
        _ => true,
    }
}

/// Whether two instructions are the same, comparing the contents of their lists.
pub open spec fn same_instruction(a: RawInstruction, b: RawInstruction) -> bool {
    match (a, b) {
        (
            RawInstruction::TableSwitch { default: d1, low: l1, high: h1, jump_offsets: j1 },
            RawInstruction::TableSwitch { default: d2, low: l2, high: h2, jump_offsets: j2 },
        ) => d1 == d2 && l1 == l2 && h1 == h2 && j1@ == j2@,
        (
            RawInstruction::LookupSwitch { default: d1, match_offsets: m1 },
            RawInstruction::LookupSwitch { default: d2, match_offsets: m2 },
        ) => d1 == d2 && m1@ == m2@,
        _ => a == b,
    }
}

/// The shape of an instruction is the shape of its opcode.
proof fn lemma_shape_of_opcode(insn: RawInstruction)
    ensures
        shape_of(insn.opcode_of()) == shape(insn),
{
}

/// An instruction without operands, or with a single operand, is the one built from its
/// opcode and operand.
proof fn lemma_rebuild(insn: RawInstruction)
    ensures
        shape(insn) == OperandShape::Plain ==> plain_instruction_of(insn.opcode_of()) == insn,
        shape(insn) == OperandShape::Byte ==> byte_instruction_of(insn.opcode_of(), byte_operand(insn)) == insn,
        shape(insn) == OperandShape::Short ==> short_instruction_of(insn.opcode_of(), short_operand(insn)) == insn,
        shape(insn) == OperandShape::Offset16 ==> offset16_instruction_of(insn.opcode_of(), offset16_operand(insn))
            == insn,
        shape(insn) == OperandShape::Offset32 ==> offset32_instruction_of(insn.opcode_of(), offset32_operand(insn))
            == insn,
{
}

/// The instruction built from an opcode and an operand has that opcode and operand.
proof fn lemma_build(op: u8, b: u8, s: u16, o16: i16, o32: i32)
    ensures
        shape_of(op) == OperandShape::Plain ==> shape(plain_instruction_of(op)) == OperandShape::Plain
            && plain_instruction_of(op).opcode_of() == op,
        shape_of(op) == OperandShape::Byte ==> shape(byte_instruction_of(op, b)) == OperandShape::Byte
            && byte_instruction_of(op, b).opcode_of() == op && byte_operand(byte_instruction_of(op, b)) == b,
        shape_of(op) == OperandShape::Short ==> shape(short_instruction_of(op, s)) == OperandShape::Short
            && short_instruction_of(op, s).opcode_of() == op && short_operand(short_instruction_of(op, s)) == s,
        shape_of(op) == OperandShape::Offset16 ==> shape(offset16_instruction_of(op, o16)) == OperandShape::Offset16
            && offset16_instruction_of(op, o16).opcode_of() == op && offset16_operand(
            offset16_instruction_of(op, o16),
        ) == o16,
        shape_of(op) == OperandShape::Offset32 ==> shape(offset32_instruction_of(op, o32)) == OperandShape::Offset32
            && offset32_instruction_of(op, o32).opcode_of() == op && offset32_operand(
            offset32_instruction_of(op, o32),
        ) == o32,
{
}

/// The same facts for the instructions that the `wide` prefix modifies.
proof fn lemma_wide(w: RawWideInstruction, op: u8, index: u16)
    ensures
        w is IInc ==> wide_shape_of(w.opcode_of()) == Some(true),
        !(w is IInc) ==> wide_shape_of(w.opcode_of()) == Some(false) && wide_instruction_of(w.opcode_of(), w.index_of())
            == w,
        wide_shape_of(op) == Some(false) ==> wide_instruction_of(op, index).opcode_of() == op
            && wide_instruction_of(op, index).index_of() == index && !(wide_instruction_of(op, index) is IInc),
        wide_shape_of(op) == Some(true) ==> op == 0x84,
{
}

/// The big-endian bytes of a 16-bit value determine it.
proof fn lemma_be16_injective(a: u16, b: u16)
    requires
        be16(a) == be16(b),
    ensures
        a == b,
{
    assert(be16(a)[0] == be16(b)[0]);
    assert(be16(a)[1] == be16(b)[1]);
}

/// The big-endian bytes of a 32-bit value determine it.
proof fn lemma_be32_injective(a: u32, b: u32)
    requires
        be32(a) == be32(b),
    ensures
        a == b,
{
    assert(be32(a)[0] == be32(b)[0]);
    assert(be32(a)[1] == be32(b)[1]);
    assert(be32(a)[2] == be32(b)[2]);
    assert(be32(a)[3] == be32(b)[3]);
    assert(a == (a / 0x100_0000) * 0x100_0000 + ((a / 0x1_0000) % 256) * 0x1_0000 + ((a / 256) % 256) * 256 + a % 256) by (nonlinear_arith);
    assert(b == (b / 0x100_0000) * 0x100_0000 + ((b / 0x1_0000) % 256) * 0x1_0000 + ((b / 256) % 256) * 256 + b % 256) by (nonlinear_arith);
}

/// Reading four big-endian bytes back gives the value they were written from.
proof fn lemma_u32_of_be32(v: u32)
    ensures
        u32_of(be32(v)) == v,
{
    assert(v == (v / 0x100_0000) * 0x100_0000 + ((v / 0x1_0000) % 256) * 0x1_0000 + ((v / 256) % 256) * 256 + v % 256) by (nonlinear_arith);
}

/// Converting a signed value to its unsigned bits and back gives it back, and the other way
/// round.
proof fn lemma_sign_casts(a: i16, b: u16, c: i32, d: u32)
    ensures
        (a as u16) as i16 == a,
        (b as i16) as u16 == b,
        (c as u32) as i32 == c,
        (d as i32) as u32 == d,
{
    assert((a as u16) as i16 == a) by (bit_vector);
    assert((b as i16) as u16 == b) by (bit_vector);
    assert((c as u32) as i32 == c) by (bit_vector);
    assert((d as i32) as u32 == d) by (bit_vector);
}

/// The words of a list take four bytes each.
proof fn lemma_words_len(a: Seq<i32>)
    ensures
        words(a).len() == 4 * a.len(),
    decreases a.len(),
{
    if a.len() > 0 {
        lemma_words_len(a.drop_last());
    }
}

/// The words of a list determine it.
proof fn lemma_words_injective(a: Seq<i32>, b: Seq<i32>)
    requires
        words(a) == words(b),
    ensures
        a == b,
    decreases a.len(),
{
    lemma_words_len(a);
    lemma_words_len(b);
    if a.len() > 0 {
        let wa = words(a);
        let n = wa.len();
        lemma_words_len(a.drop_last());
        lemma_words_len(b.drop_last());
        assert(words(a.drop_last()) =~= wa.subrange(0, n - 4));
        assert(words(b.drop_last()) =~= wa.subrange(0, n - 4));
        lemma_words_injective(a.drop_last(), b.drop_last());
        assert(be32(a.last() as u32) =~= wa.subrange(n - 4, n as int));
        assert(be32(b.last() as u32) =~= wa.subrange(n - 4, n as int));
        lemma_be32_injective(a.last() as u32, b.last() as u32);
        lemma_sign_casts(0, 0, a.last(), 0);
        lemma_sign_casts(0, 0, b.last(), 0);
        assert(a =~= a.drop_last().push(a.last()));
        assert(b =~= b.drop_last().push(b.last()));
    } else {
        assert(a =~= b);
    }
}

/// The words of a list of pairs take eight bytes per pair.
proof fn lemma_pair_words_len(a: Seq<(i32, i32)>)
    ensures
        pair_words(a).len() == 8 * a.len(),
    decreases a.len(),
{
    if a.len() > 0 {
        lemma_pair_words_len(a.drop_last());
    }
}

/// The words of a list of pairs determine it.
proof fn lemma_pair_words_injective(a: Seq<(i32, i32)>, b: Seq<(i32, i32)>)
    requires
        pair_words(a) == pair_words(b),
    ensures
        a == b,
    decreases a.len(),
{
    lemma_pair_words_len(a);
    lemma_pair_words_len(b);
    if a.len() > 0 {
        let wa = pair_words(a);
        let n = wa.len();
        lemma_pair_words_len(a.drop_last());
        lemma_pair_words_len(b.drop_last());
        assert(pair_words(a.drop_last()) =~= wa.subrange(0, n - 8));
        assert(pair_words(b.drop_last()) =~= wa.subrange(0, n - 8));
        lemma_pair_words_injective(a.drop_last(), b.drop_last());
        assert(be32(a.last().0 as u32) =~= wa.subrange(n - 8, n - 4));
        assert(be32(b.last().0 as u32) =~= wa.subrange(n - 8, n - 4));
        assert(be32(a.last().1 as u32) =~= wa.subrange(n - 4, n as int));
        assert(be32(b.last().1 as u32) =~= wa.subrange(n - 4, n as int));
        lemma_be32_injective(a.last().0 as u32, b.last().0 as u32);
        lemma_be32_injective(a.last().1 as u32, b.last().1 as u32);
        lemma_sign_casts(0, 0, a.last().0, 0);
        lemma_sign_casts(0, 0, b.last().0, 0);
        lemma_sign_casts(0, 0, a.last().1, 0);
        lemma_sign_casts(0, 0, b.last().1, 0);
        assert(a =~= a.drop_last().push(a.last()));
        assert(b =~= b.drop_last().push(b.last()));
    } else {
        assert(a =~= b);
    }
}

/// Reads a big-endian 16-bit value at `at`.
fn read_u16(bytes: &[u8], at: usize) -> (r: u16)
    requires
        at + 2 <= bytes@.len(),
    ensures
        be16(r) == bytes@.subrange(at as int, at + 2),
{
    let hi = bytes[at];
    let lo = bytes[at + 1];
    let r: u16 = ((hi as u16) << 8u16) | (lo as u16);
    assert((r / 256) as u8 == hi && (r % 256) as u8 == lo) by (bit_vector)
        requires
            r == ((hi as u16) << 8u16) | (lo as u16),
    ;
    assert(be16(r) =~= bytes@.subrange(at as int, at + 2));
    r
}

/// Reads a big-endian 32-bit value at `at`.
fn read_u32(bytes: &[u8], at: usize) -> (r: u32)
    requires
        at + 4 <= bytes@.len(),
    ensures
        be32(r) == bytes@.subrange(at as int, at + 4),
{
    let b0 = bytes[at];
    let b1 = bytes[at + 1];
    let b2 = bytes[at + 2];
    let b3 = bytes[at + 3];
    let r: u32 = ((b0 as u32) << 24u32) | ((b1 as u32) << 16u32) | ((b2 as u32) << 8u32) | (b3 as u32);
    assert((r / 0x100_0000) as u8 == b0 && ((r / 0x1_0000) % 256) as u8 == b1 && ((r / 256) % 256) as u8 == b2
        && (r % 256) as u8 == b3) by (bit_vector)
        requires
            r == ((b0 as u32) << 24u32) | ((b1 as u32) << 16u32) | ((b2 as u32) << 8u32) | (b3 as u32),
    ;
    assert(be32(r) =~= bytes@.subrange(at as int, at + 4));
    r
}

/// Appends the big-endian bytes of a 16-bit value.
fn push_u16(out: &mut Vec<u8>, v: u16)
    ensures
        final(out)@ == old(out)@ + be16(v),
{
    let hi: u8 = (v >> 8u16) as u8;
    let lo: u8 = (v & 0xffu16) as u8;
    assert(hi == (v / 256) as u8 && lo == (v % 256) as u8) by (bit_vector)
        requires
            hi == (v >> 8u16) as u8,
            lo == (v & 0xffu16) as u8,
    ;
    out.push(hi);
    out.push(lo);
    assert(out@ =~= old(out)@ + be16(v));
}

/// Appends the big-endian bytes of a 32-bit value.
fn push_u32(out: &mut Vec<u8>, v: u32)
    ensures
        final(out)@ == old(out)@ + be32(v),
{
    let b0: u8 = (v >> 24u32) as u8;
    let b1: u8 = ((v >> 16u32) & 0xffu32) as u8;
    let b2: u8 = ((v >> 8u32) & 0xffu32) as u8;
    let b3: u8 = (v & 0xffu32) as u8;
    assert(b0 == (v / 0x100_0000) as u8 && b1 == ((v / 0x1_0000) % 256) as u8 && b2 == ((v / 256) % 256) as u8
        && b3 == (v % 256) as u8) by (bit_vector)
        requires
            b0 == (v >> 24u32) as u8,
            b1 == ((v >> 16u32) & 0xffu32) as u8,
            b2 == ((v >> 8u32) & 0xffu32) as u8,
            b3 == (v & 0xffu32) as u8,
    ;
    out.push(b0);
    out.push(b1);
    out.push(b2);
    out.push(b3);
    assert(out@ =~= old(out)@ + be32(v));
}

/// The outcome of reading an instruction.
pub type ReadOutcome = Result<Option<(ProgramCounter, RawInstruction, usize)>, ParseError>;

/// Whether `r` is what reading an instruction at `pos`, before the end of `bytes`, gives: the
/// instruction that the bytes hold there and the position after it, or an error when they
/// hold none.
pub open spec fn read_outcome_ok(bytes: Seq<u8>, pos: int, r: ReadOutcome) -> bool {
    &&& r matches Ok(Some((pc, insn, next))) ==> {
        &&& pc@ == pos
        &&& next == pos + encoding(insn, pos).len()
        &&& fits(bytes, pos, insn)
        &&& readable(insn)
    }
    &&& !(r matches Ok(None))
    &&& forall|insn: RawInstruction|
        #[trigger] fits(bytes, pos, insn) && readable(insn) ==> (r matches Ok(Some((_, parsed, _)))
            && same_instruction(parsed, insn))
}

/// Whether the bytes at `pos` are malformed rather than cut short: the opcode is no
/// instruction's, the opcode after `wide` is none that `wide` takes, or the byte that
/// `invokeinterface` keeps zero is not.
pub open spec fn malformed_at(bytes: Seq<u8>, pos: int) -> bool {
    let op = bytes[pos];
    ||| shape_of(op) == OperandShape::Invalid
    ||| shape_of(op) == OperandShape::Wide && pos + 2 <= bytes.len() && wide_shape_of(bytes[pos + 1]) is None
    ||| shape_of(op) == OperandShape::Interface && pos + 5 <= bytes.len() && bytes[pos + 4] != 0
}

/// The error for input that ends in the middle of an instruction.
fn unexpected_end() -> (r: ParseError)
    ensures
        r.kind_of() == ParsingErrorKind::IO,
        r.message_of() == "failed to fill whole buffer"@,
{
    ParseError::io("failed to fill whole buffer".to_owned())
}

/// The error for an opcode that no instruction has.
fn invalid_opcode() -> (r: ParseError)
    ensures
        r.kind_of() == ParsingErrorKind::Malformed,
        r.message_of() == "Invalid opcode"@,
{
    ParseError::malform("Invalid opcode".to_owned())
}

/// Reads an instruction without operands.
fn read_plain(bytes: &[u8], pos: usize, op: u8) -> (r: ReadOutcome)
    requires
        pos < bytes@.len(),
        pos <= u16::MAX,
        op == bytes@[pos as int],
        shape_of(op) == OperandShape::Plain,
    ensures
        read_outcome_ok(bytes@, pos as int, r),
        r matches Err(e) ==> e.kind_of() == ParsingErrorKind::IO,
{
    let insn = plain_instruction(op);
    proof {
        lemma_build(op, 0, 0, 0, 0);
        assert(encoding(insn, pos as int) =~= seq![op]);
        assert forall|other: RawInstruction| #[trigger] fits(bytes@, pos as int, other) && readable(other) implies insn == other by {
            assert(encoding(other, pos as int)[0] == other.opcode_of());
            lemma_shape_of_opcode(other);
            lemma_rebuild(other);
        }
    }
    Ok(Some((ProgramCounter::new(pos as u16), insn, pos + 1)))
}

/// Reads an instruction with a single-byte operand.
fn read_byte(bytes: &[u8], pos: usize, op: u8) -> (r: ReadOutcome)
    requires
        pos < bytes@.len(),
        pos <= u16::MAX,
        op == bytes@[pos as int],
        shape_of(op) == OperandShape::Byte,
    ensures
        read_outcome_ok(bytes@, pos as int, r),
        r matches Err(e) ==> e.kind_of() == ParsingErrorKind::IO,
{
    if bytes.len() - pos < 2 {
        proof {
            assert forall|other: RawInstruction| #[trigger] fits(bytes@, pos as int, other) && readable(other) implies false by {
                assert(encoding(other, pos as int)[0] == other.opcode_of());
                lemma_shape_of_opcode(other);
            }
        }
        return Err(unexpected_end());
    }
    let v = bytes[pos + 1];
    let insn = byte_instruction(op, v);
    proof {
        lemma_build(op, v, 0, 0, 0);
        assert(encoding(insn, pos as int) =~= seq![op, v]);
        assert forall|other: RawInstruction| #[trigger] fits(bytes@, pos as int, other) && readable(other) implies insn == other by {
            assert(encoding(other, pos as int)[0] == other.opcode_of());
            lemma_shape_of_opcode(other);
            lemma_rebuild(other);
            assert(encoding(other, pos as int)[1] == byte_operand(other));
        }
    }
    Ok(Some((ProgramCounter::new(pos as u16), insn, pos + 2)))
}

/// Reads an instruction with a single 16-bit operand.
fn read_short(bytes: &[u8], pos: usize, op: u8) -> (r: ReadOutcome)
    requires
        pos < bytes@.len(),
        pos <= u16::MAX,
        op == bytes@[pos as int],
        shape_of(op) == OperandShape::Short,
    ensures
        read_outcome_ok(bytes@, pos as int, r),
        r matches Err(e) ==> e.kind_of() == ParsingErrorKind::IO,
{
    if bytes.len() - pos < 3 {
        proof {
            assert forall|other: RawInstruction| #[trigger] fits(bytes@, pos as int, other) && readable(other) implies false by {
                assert(encoding(other, pos as int)[0] == other.opcode_of());
                lemma_shape_of_opcode(other);
            }
        }
        return Err(unexpected_end());
    }
    let v = read_u16(bytes, pos + 1);
    let insn = short_instruction(op, v);
    proof {
        lemma_build(op, 0, v, 0, 0);
        assert(encoding(insn, pos as int) =~= seq![op] + be16(v));
        assert forall|other: RawInstruction| #[trigger] fits(bytes@, pos as int, other) && readable(other) implies insn == other by {
            let e = encoding(other, pos as int);
            assert(e[0] == other.opcode_of());
            lemma_shape_of_opcode(other);
            lemma_rebuild(other);
            assert(e =~= seq![op] + be16(short_operand(other)));
            assert(be16(short_operand(other)) =~= bytes@.subrange(pos + 1, pos + 3)) by {
                assert(bytes@[pos + 1] == e[1]);
                assert(bytes@[pos + 2] == e[2]);
            }
            lemma_be16_injective(v, short_operand(other));
        }
    }
    Ok(Some((ProgramCounter::new(pos as u16), insn, pos + 3)))
}

/// Reads an instruction with a 16-bit branch offset.
fn read_offset16(bytes: &[u8], pos: usize, op: u8) -> (r: ReadOutcome)
    requires
        pos < bytes@.len(),
        pos <= u16::MAX,
        op == bytes@[pos as int],
        shape_of(op) == OperandShape::Offset16,
    ensures
        read_outcome_ok(bytes@, pos as int, r),
        r matches Err(e) ==> e.kind_of() == ParsingErrorKind::IO,
{
    if bytes.len() - pos < 3 {
        proof {
            assert forall|other: RawInstruction| #[trigger] fits(bytes@, pos as int, other) && readable(other) implies false by {
                assert(encoding(other, pos as int)[0] == other.opcode_of());
                lemma_shape_of_opcode(other);
            }
        }
        return Err(unexpected_end());
    }
    let u = read_u16(bytes, pos + 1);
    let v = u as i16;
    let insn = offset16_instruction(op, v);
    proof {
        lemma_build(op, 0, 0, v, 0);
        lemma_sign_casts(v, u, 0, 0);
        assert(encoding(insn, pos as int) =~= seq![op] + be16(u));
        assert forall|other: RawInstruction| #[trigger] fits(bytes@, pos as int, other) && readable(other) implies insn == other by {
            let e = encoding(other, pos as int);
            assert(e[0] == other.opcode_of());
            lemma_shape_of_opcode(other);
            lemma_rebuild(other);
            let o = offset16_operand(other);
            assert(e =~= seq![op] + be16(o as u16));
            assert(be16(o as u16) =~= bytes@.subrange(pos + 1, pos + 3)) by {
                assert(bytes@[pos + 1] == e[1]);
                assert(bytes@[pos + 2] == e[2]);
            }
            lemma_be16_injective(u, o as u16);
            lemma_sign_casts(o, u, 0, 0);
        }
    }
    Ok(Some((ProgramCounter::new(pos as u16), insn, pos + 3)))
}

/// Reads an instruction with a 32-bit branch offset.
fn read_offset32(bytes: &[u8], pos: usize, op: u8) -> (r: ReadOutcome)
    requires
        pos < bytes@.len(),
        pos <= u16::MAX,
        op == bytes@[pos as int],
        shape_of(op) == OperandShape::Offset32,
    ensures
        read_outcome_ok(bytes@, pos as int, r),
        r matches Err(e) ==> e.kind_of() == ParsingErrorKind::IO,
{
    if bytes.len() - pos < 5 {
        proof {
            assert forall|other: RawInstruction| #[trigger] fits(bytes@, pos as int, other) && readable(other) implies false by {
                assert(encoding(other, pos as int)[0] == other.opcode_of());
                lemma_shape_of_opcode(other);
            }
        }
        return Err(unexpected_end());
    }
    let u = read_u32(bytes, pos + 1);
    let v = u as i32;
    let insn = offset32_instruction(op, v);
    proof {
        lemma_build(op, 0, 0, 0, v);
        lemma_sign_casts(0, 0, v, u);
        assert(encoding(insn, pos as int) =~= seq![op] + be32(u));
        assert forall|other: RawInstruction| #[trigger] fits(bytes@, pos as int, other) && readable(other) implies insn == other by {
            let e = encoding(other, pos as int);
            assert(e[0] == other.opcode_of());
            lemma_shape_of_opcode(other);
            lemma_rebuild(other);
            let o = offset32_operand(other);
            assert(e =~= seq![op] + be32(o as u32));
            assert(be32(o as u32) =~= bytes@.subrange(pos + 1, pos + 5)) by {
                assert(bytes@[pos + 1] == e[1]);
                assert(bytes@[pos + 2] == e[2]);
                assert(bytes@[pos + 3] == e[3]);
                assert(bytes@[pos + 4] == e[4]);
            }
            lemma_be32_injective(u, o as u32);
            lemma_sign_casts(0, 0, o, u);
        }
    }
    Ok(Some((ProgramCounter::new(pos as u16), insn, pos + 5)))
}

/// Reads an `iinc` instruction.
fn read_increment(bytes: &[u8], pos: usize, op: u8) -> (r: ReadOutcome)
    requires
        pos < bytes@.len(),
        pos <= u16::MAX,
        op == bytes@[pos as int],
        shape_of(op) == OperandShape::Increment,
    ensures
        read_outcome_ok(bytes@, pos as int, r),
        r matches Err(e) ==> e.kind_of() == ParsingErrorKind::IO,
{
    if bytes.len() - pos < 3 {
        proof {
            assert forall|other: RawInstruction| #[trigger] fits(bytes@, pos as int, other) && readable(other) implies false by {
                assert(encoding(other, pos as int)[0] == other.opcode_of());
                lemma_shape_of_opcode(other);
            }
        }
        return Err(unexpected_end());
    }
    let index = bytes[pos + 1];
    let c = bytes[pos + 2];
    let constant = c as i8;
    let insn = RawInstruction::IInc { index, constant };
    proof {
        assert((c as i8) as u8 == c) by (bit_vector);
        assert(encoding(insn, pos as int) =~= seq![op, index, c]);
        assert forall|other: RawInstruction| #[trigger] fits(bytes@, pos as int, other) && readable(other) implies insn == other by {
            let e = encoding(other, pos as int);
            assert(e[0] == other.opcode_of());
            lemma_shape_of_opcode(other);
            if let RawInstruction::IInc { index: i2, constant: c2 } = other {
                assert(e =~= seq![op, i2, c2 as u8]);
                assert(bytes@[pos + 1] == e[1]);
                assert(bytes@[pos + 2] == e[2]);
                assert((c2 as u8) as i8 == c2) by (bit_vector);
            }
        }
    }
    Ok(Some((ProgramCounter::new(pos as u16), insn, pos + 3)))
}

/// Reads an `invokeinterface` instruction, whose last byte must be zero.
fn read_interface(bytes: &[u8], pos: usize, op: u8) -> (r: ReadOutcome)
    requires
        pos < bytes@.len(),
        pos <= u16::MAX,
        op == bytes@[pos as int],
        shape_of(op) == OperandShape::Interface,
    ensures
        read_outcome_ok(bytes@, pos as int, r),
        r matches Err(e) ==> (e.kind_of() == ParsingErrorKind::Malformed <==> (pos + 5 <= bytes@.len() && bytes@[pos + 4] != 0)),
        pos + 5 <= bytes@.len() && bytes@[pos + 4] != 0 ==> r is Err,
        r matches Err(e) ==> e.kind_of() == ParsingErrorKind::Malformed || e.kind_of() == ParsingErrorKind::IO,
{
    if bytes.len() - pos < 5 {
        proof {
            assert forall|other: RawInstruction| #[trigger] fits(bytes@, pos as int, other) && readable(other) implies false by {
                assert(encoding(other, pos as int)[0] == other.opcode_of());
                lemma_shape_of_opcode(other);
            }
        }
        return Err(unexpected_end());
    }
    let method_index = read_u16(bytes, pos + 1);
    let count = bytes[pos + 3];
    let zero = bytes[pos + 4];
    if zero != 0 {
        proof {
            assert forall|other: RawInstruction| #[trigger] fits(bytes@, pos as int, other) && readable(other) implies false by {
                let e = encoding(other, pos as int);
                assert(e[0] == other.opcode_of());
                lemma_shape_of_opcode(other);
                assert(bytes@[pos + 4] == e[4]);
            }
        }
        return Err(ParseError::malform("Zero paddings are not zero".to_owned()));
    }
    let insn = RawInstruction::InvokeInterface { method_index, count };
    proof {
        assert(encoding(insn, pos as int) =~= seq![op] + be16(method_index) + seq![count, 0u8]);
        assert(bytes@.subrange(pos + 1, pos + 3) =~= seq![bytes@[pos + 1], bytes@[pos + 2]]);
        assert forall|other: RawInstruction| #[trigger] fits(bytes@, pos as int, other) && readable(other) implies insn == other by {
            let e = encoding(other, pos as int);
            assert(e[0] == other.opcode_of());
            lemma_shape_of_opcode(other);
            if let RawInstruction::InvokeInterface { method_index: m2, count: c2 } = other {
                assert(e =~= seq![op] + be16(m2) + seq![c2, 0u8]);
                assert(bytes@[pos + 1] == e[1]);
                assert(bytes@[pos + 2] == e[2]);
                assert(bytes@[pos + 3] == e[3]);
                assert(be16(m2) =~= bytes@.subrange(pos + 1, pos + 3));
                lemma_be16_injective(method_index, m2);
            }
        }
    }
    Ok(Some((ProgramCounter::new(pos as u16), insn, pos + 5)))
}

/// Reads an `invokedynamic` instruction; its two reserved bytes are not checked.
fn read_dynamic(bytes: &[u8], pos: usize, op: u8) -> (r: ReadOutcome)
    requires
        pos < bytes@.len(),
        pos <= u16::MAX,
        op == bytes@[pos as int],
        shape_of(op) == OperandShape::Dynamic,
    ensures
        read_outcome_ok(bytes@, pos as int, r),
        r matches Err(e) ==> e.kind_of() == ParsingErrorKind::IO,
{
    if bytes.len() - pos < 5 {
        proof {
            assert forall|other: RawInstruction| #[trigger] fits(bytes@, pos as int, other) && readable(other) implies false by {
                assert(encoding(other, pos as int)[0] == other.opcode_of());
                lemma_shape_of_opcode(other);
            }
        }
        return Err(unexpected_end());
    }
    let dynamic_index = read_u16(bytes, pos + 1);
    let insn = RawInstruction::InvokeDynamic { dynamic_index };
    proof {
        assert(encoding(insn, pos as int) =~= seq![op] + be16(dynamic_index) + seq![0u8, 0u8]);
        assert(bytes@.subrange(pos + 1, pos + 3) =~= seq![bytes@[pos + 1], bytes@[pos + 2]]);
        assert forall|other: RawInstruction| #[trigger] fits(bytes@, pos as int, other) && readable(other) implies insn == other by {
            let e = encoding(other, pos as int);
            assert(e[0] == other.opcode_of());
            lemma_shape_of_opcode(other);
            if let RawInstruction::InvokeDynamic { dynamic_index: d2 } = other {
                assert(e =~= seq![op] + be16(d2) + seq![0u8, 0u8]);
                assert(bytes@[pos + 1] == e[1]);
                assert(bytes@[pos + 2] == e[2]);
                assert(be16(d2) =~= bytes@.subrange(pos + 1, pos + 3));
                lemma_be16_injective(dynamic_index, d2);
            }
        }
    }
    Ok(Some((ProgramCounter::new(pos as u16), insn, pos + 5)))
}

/// Reads a `multianewarray` instruction.
fn read_multi_array(bytes: &[u8], pos: usize, op: u8) -> (r: ReadOutcome)
    requires
        pos < bytes@.len(),
        pos <= u16::MAX,
        op == bytes@[pos as int],
        shape_of(op) == OperandShape::MultiArray,
    ensures
        read_outcome_ok(bytes@, pos as int, r),
        r matches Err(e) ==> e.kind_of() == ParsingErrorKind::IO,
{
    if bytes.len() - pos < 4 {
        proof {
            assert forall|other: RawInstruction| #[trigger] fits(bytes@, pos as int, other) && readable(other) implies false by {
                assert(encoding(other, pos as int)[0] == other.opcode_of());
                lemma_shape_of_opcode(other);
            }
        }
        return Err(unexpected_end());
    }
    let index = read_u16(bytes, pos + 1);
    let dimensions = bytes[pos + 3];
    let insn = RawInstruction::MultiANewArray { index, dimensions };
    proof {
        assert(encoding(insn, pos as int) =~= seq![op] + be16(index) + seq![dimensions]);
        assert(bytes@.subrange(pos + 1, pos + 3) =~= seq![bytes@[pos + 1], bytes@[pos + 2]]);
        assert forall|other: RawInstruction| #[trigger] fits(bytes@, pos as int, other) && readable(other) implies insn == other by {
            let e = encoding(other, pos as int);
            assert(e[0] == other.opcode_of());
            lemma_shape_of_opcode(other);
            if let RawInstruction::MultiANewArray { index: i2, dimensions: d2 } = other {
                assert(e =~= seq![op] + be16(i2) + seq![d2]);
                assert(bytes@[pos + 1] == e[1]);
                assert(bytes@[pos + 2] == e[2]);
                assert(bytes@[pos + 3] == e[3]);
                assert(be16(i2) =~= bytes@.subrange(pos + 1, pos + 3));
                lemma_be16_injective(index, i2);
            }
        }
    }
    Ok(Some((ProgramCounter::new(pos as u16), insn, pos + 4)))
}

/// Reads an instruction with the `wide` prefix.
fn read_wide(bytes: &[u8], pos: usize, op: u8) -> (r: ReadOutcome)
    requires
        pos < bytes@.len(),
        pos <= u16::MAX,
        op == bytes@[pos as int],
        shape_of(op) == OperandShape::Wide,
    ensures
        read_outcome_ok(bytes@, pos as int, r),
        r matches Err(e) ==> (e.kind_of() == ParsingErrorKind::Malformed <==> (pos + 2 <= bytes@.len() && wide_shape_of(bytes@[pos + 1]) is None)),
        pos + 2 <= bytes@.len() && wide_shape_of(bytes@[pos + 1]) is None ==> r is Err,
        r matches Err(e) ==> e.kind_of() == ParsingErrorKind::Malformed || e.kind_of() == ParsingErrorKind::IO,
{
    if bytes.len() - pos < 2 {
        proof {
            assert forall|other: RawInstruction| #[trigger] fits(bytes@, pos as int, other) && readable(other) implies false by {
                assert(encoding(other, pos as int)[0] == other.opcode_of());
                lemma_shape_of_opcode(other);
            }
        }
        return Err(unexpected_end());
    }
    let wop = bytes[pos + 1];
    match wide_shape(wop) {
        None => {
            proof {
                assert forall|other: RawInstruction| #[trigger] fits(bytes@, pos as int, other) && readable(other) implies false by {
                    let e = encoding(other, pos as int);
                    assert(e[0] == other.opcode_of());
                    lemma_shape_of_opcode(other);
                    if let RawInstruction::Wide(w) = other {
                        lemma_wide(w, wop, 0);
                        assert(e[1] == w.opcode_of());
                        assert(bytes@[pos + 1] == e[1]);
                    }
                }
            }
            Err(invalid_opcode())
        },
        Some(false) => read_wide_index(bytes, pos, op, wop),
        Some(true) => read_wide_increment(bytes, pos, op, wop),
    }
}

/// Reads an instruction with the `wide` prefix and a 16-bit index.
fn read_wide_index(bytes: &[u8], pos: usize, op: u8, wop: u8) -> (r: ReadOutcome)
    requires
        pos + 1 < bytes@.len(),
        pos <= u16::MAX,
        op == bytes@[pos as int],
        wop == bytes@[pos + 1],
        shape_of(op) == OperandShape::Wide,
        wide_shape_of(wop) == Some(false),
    ensures
        read_outcome_ok(bytes@, pos as int, r),
        r matches Err(e) ==> e.kind_of() == ParsingErrorKind::IO,
{
    if bytes.len() - pos < 4 {
        proof {
            assert forall|other: RawInstruction| #[trigger] fits(bytes@, pos as int, other) && readable(other) implies false by {
                let e = encoding(other, pos as int);
                assert(e[0] == other.opcode_of());
                lemma_shape_of_opcode(other);
            }
        }
        return Err(unexpected_end());
    }
    let index = read_u16(bytes, pos + 2);
    let w = wide_instruction(wop, index);
    let insn = RawInstruction::Wide(w);
    proof {
        lemma_wide(w, wop, index);
        assert(encoding(insn, pos as int) =~= seq![op, wop] + be16(index));
        assert(bytes@.subrange(pos + 2, pos + 4) =~= seq![bytes@[pos + 2], bytes@[pos + 3]]);
        assert forall|other: RawInstruction| #[trigger] fits(bytes@, pos as int, other) && readable(other) implies insn == other by {
            let e = encoding(other, pos as int);
            assert(e[0] == other.opcode_of());
            lemma_shape_of_opcode(other);
            if let RawInstruction::Wide(w2) = other {
                lemma_wide(w2, wop, index);
                assert(e[1] == w2.opcode_of());
                assert(bytes@[pos + 1] == e[1]);
                assert(e =~= seq![op, wop] + be16(w2.index_of()));
                assert(bytes@[pos + 2] == e[2]);
                assert(bytes@[pos + 3] == e[3]);
                assert(be16(w2.index_of()) =~= bytes@.subrange(pos + 2, pos + 4));
                lemma_be16_injective(index, w2.index_of());
            }
        }
    }
    Ok(Some((ProgramCounter::new(pos as u16), insn, pos + 4)))

}

/// Reads an `iinc` instruction with the `wide` prefix.
fn read_wide_increment(bytes: &[u8], pos: usize, op: u8, wop: u8) -> (r: ReadOutcome)
    requires
        pos + 1 < bytes@.len(),
        pos <= u16::MAX,
        op == bytes@[pos as int],
        wop == bytes@[pos + 1],
        shape_of(op) == OperandShape::Wide,
        wide_shape_of(wop) == Some(true),
    ensures
        read_outcome_ok(bytes@, pos as int, r),
        r matches Err(e) ==> e.kind_of() == ParsingErrorKind::IO,
{
    if bytes.len() - pos < 6 {
        proof {
            assert forall|other: RawInstruction| #[trigger] fits(bytes@, pos as int, other) && readable(other) implies false by {
                let e = encoding(other, pos as int);
                assert(e[0] == other.opcode_of());
                lemma_shape_of_opcode(other);
                if let RawInstruction::Wide(w2) = other {
                    lemma_wide(w2, wop, 0);
                    assert(bytes@[pos + 1] == e[1]);
                }
            }
        }
        return Err(unexpected_end());
    }
    let index = read_u16(bytes, pos + 2);
    let u = read_u16(bytes, pos + 4);
    let increment = u as i16;
    let insn = RawInstruction::Wide(RawWideInstruction::IInc { index, increment });
    proof {
        lemma_wide(RawWideInstruction::IInc { index, increment }, wop, index);
        lemma_sign_casts(increment, u, 0, 0);
        assert(encoding(insn, pos as int) =~= seq![op, wop] + be16(index) + be16(u));
        assert(bytes@.subrange(pos + 2, pos + 4) =~= seq![bytes@[pos + 2], bytes@[pos + 3]]);
        assert(bytes@.subrange(pos + 4, pos + 6) =~= seq![bytes@[pos + 4], bytes@[pos + 5]]);
        assert forall|other: RawInstruction| #[trigger] fits(bytes@, pos as int, other) && readable(other) implies insn == other by {
            let e = encoding(other, pos as int);
            assert(e[0] == other.opcode_of());
            lemma_shape_of_opcode(other);
            if let RawInstruction::Wide(w2) = other {
                lemma_wide(w2, wop, index);
                assert(e[1] == w2.opcode_of());
                assert(bytes@[pos + 1] == e[1]);
                if let RawWideInstruction::IInc { index: i2, increment: c2 } = w2 {
                    assert(e =~= seq![op, wop] + be16(i2) + be16(c2 as u16));
                    assert(bytes@[pos + 2] == e[2]);
                    assert(bytes@[pos + 3] == e[3]);
                    assert(bytes@[pos + 4] == e[4]);
                    assert(bytes@[pos + 5] == e[5]);
                    assert(be16(i2) =~= bytes@.subrange(pos + 2, pos + 4));
                    assert(be16(c2 as u16) =~= bytes@.subrange(pos + 4, pos + 6));
                    lemma_be16_injective(index, i2);
                    lemma_be16_injective(u, c2 as u16);
                    lemma_sign_casts(c2, u, 0, 0);
                }
            }
        }
    }
    Ok(Some((ProgramCounter::new(pos as u16), insn, pos + 6)))

}

/// Computes the number of padding bytes after the opcode of a switch at `pos`.
fn padding_after(pos: usize) -> (r: usize)
    requires
        pos <= u16::MAX,
    ensures
        r == switch_padding(pos as int),
        r < 4,
{
    (4 - (pos + 1) % 4) % 4
}

/// Reads `n` big-endian 32-bit values starting at `start`.
fn read_words(bytes: &[u8], start: usize, n: usize) -> (r: Vec<i32>)
    requires
        start + 4 * n <= bytes@.len(),
    ensures
        r@.len() == n,
        words(r@) == bytes@.subrange(start as int, start + 4 * n),
{
    let ghost b = bytes@;
    let len = bytes.len();
    let mut out: Vec<i32> = Vec::new();
    let mut k: usize = 0;
    assert(b.subrange(start as int, start as int) =~= Seq::<u8>::empty());
    while k < n
        invariant
            b == bytes@,
            k <= n,
            start + 4 * n <= b.len(),
            len == b.len(),
            out@.len() == k,
            words(out@) == b.subrange(start as int, start + 4 * k),
        decreases n - k,
    {
        assert(start + 4 * k + 4 <= start + 4 * n);
        let at: usize = start + 4 * k;
        let u = read_u32(bytes, at);
        let ghost before = out@;
        out.push(u as i32);
        proof {
            lemma_sign_casts(0, 0, 0, u);
            assert(out@.drop_last() =~= before);
            assert(b.subrange(start as int, start + 4 * (k + 1)) =~= b.subrange(start as int, start + 4 * k) + b.subrange(
                start + 4 * k,
                start + 4 * k + 4,
            ));
        }
        k = k + 1;
    }
    out
}

/// Reads `n` pairs of big-endian 32-bit values starting at `start`.
fn read_pairs(bytes: &[u8], start: usize, n: usize) -> (r: Vec<(i32, i32)>)
    requires
        start + 8 * n <= bytes@.len(),
    ensures
        r@.len() == n,
        pair_words(r@) == bytes@.subrange(start as int, start + 8 * n),
{
    let ghost b = bytes@;
    let len = bytes.len();
    let mut out: Vec<(i32, i32)> = Vec::new();
    let mut k: usize = 0;
    assert(b.subrange(start as int, start as int) =~= Seq::<u8>::empty());
    while k < n
        invariant
            b == bytes@,
            k <= n,
            start + 8 * n <= b.len(),
            len == b.len(),
            out@.len() == k,
            pair_words(out@) == b.subrange(start as int, start + 8 * k),
        decreases n - k,
    {
        assert(start + 8 * k + 8 <= start + 8 * n);
        let at: usize = start + 8 * k;
        let u = read_u32(bytes, at);
        let v = read_u32(bytes, at + 4);
        let ghost before = out@;
        out.push((u as i32, v as i32));
        proof {
            lemma_sign_casts(0, 0, 0, u);
            lemma_sign_casts(0, 0, 0, v);
            assert(out@.drop_last() =~= before);
            assert(b.subrange(start as int, start + 8 * (k + 1)) =~= b.subrange(start as int, start + 8 * k) + b.subrange(
                start + 8 * k,
                start + 8 * k + 4,
            ) + b.subrange(start + 8 * k + 4, start + 8 * k + 8));
        }
        k = k + 1;
    }
    out
}

/// The word at `at` of the bytes that hold an instruction at `pos`, where its encoding holds
/// `v`, is `v`.
proof fn lemma_fitted_word(b: Seq<u8>, pos: int, insn: RawInstruction, k: int, v: u32)
    requires
        fits(b, pos, insn),
        0 <= k,
        k + 4 <= encoding(insn, pos).len(),
        encoding(insn, pos).subrange(k, k + 4) == be32(v),
        !is_ignored(insn, pos, k),
        !is_ignored(insn, pos, k + 1),
        !is_ignored(insn, pos, k + 2),
        !is_ignored(insn, pos, k + 3),
    ensures
        b.subrange(pos + k, pos + k + 4) == be32(v),
{
    let e = encoding(insn, pos);
    assert(e[k] == be32(v)[0]);
    assert(e[k + 1] == be32(v)[1]);
    assert(e[k + 2] == be32(v)[2]);
    assert(e[k + 3] == be32(v)[3]);
    assert(b.subrange(pos + k, pos + k + 4) =~= be32(v));
}

/// A table switch that the bytes at `pos` hold has the default, bounds and offsets that they
/// hold there.
proof fn lemma_table_fields(b: Seq<u8>, pos: int, other: RawInstruction, du: u32, lu: u32, hu: u32)
    requires
        0 <= pos,
        fits(b, pos, other),
        readable(other),
        shape(other) == OperandShape::Table,
        pos + 13 + switch_padding(pos) <= b.len(),
        be32(du) == b.subrange(pos + 1 + switch_padding(pos), pos + 5 + switch_padding(pos)),
        be32(lu) == b.subrange(pos + 5 + switch_padding(pos), pos + 9 + switch_padding(pos)),
        be32(hu) == b.subrange(pos + 9 + switch_padding(pos), pos + 13 + switch_padding(pos)),
    ensures
        other matches RawInstruction::TableSwitch { default, low, high, jump_offsets } && default == du as i32
            && low == lu as i32 && high == hu as i32 && jump_offsets@.len() == table_count(low, high)
            && words(jump_offsets@) == b.subrange(
            pos + 13 + switch_padding(pos),
            pos + 13 + switch_padding(pos) + 4 * jump_offsets@.len(),
        ),
{
    let pad = switch_padding(pos);
    if let RawInstruction::TableSwitch { default: d2, low: l2, high: h2, jump_offsets: j2 } = other {
        let e = encoding(other, pos);
        lemma_words_len(j2@);
        assert(e =~= seq![other.opcode_of()] + zeros(pad) + be32(d2 as u32) + be32(l2 as u32) + be32(h2 as u32) + words(j2@));
        assert(e.subrange(1 + pad, 5 + pad) =~= be32(d2 as u32));
        assert(e.subrange(5 + pad, 9 + pad) =~= be32(l2 as u32));
        assert(e.subrange(9 + pad, 13 + pad) =~= be32(h2 as u32));
        lemma_fitted_word(b, pos, other, 1 + pad, d2 as u32);
        lemma_fitted_word(b, pos, other, 5 + pad, l2 as u32);
        lemma_fitted_word(b, pos, other, 9 + pad, h2 as u32);
        lemma_be32_injective(du, d2 as u32);
        lemma_be32_injective(lu, l2 as u32);
        lemma_be32_injective(hu, h2 as u32);
        lemma_sign_casts(0, 0, d2, du);
        lemma_sign_casts(0, 0, l2, lu);
        lemma_sign_casts(0, 0, h2, hu);
        assert(words(j2@) =~= b.subrange(pos + 13 + pad, pos + 13 + pad + 4 * j2@.len())) by {
            assert forall|q: int| 0 <= q < 4 * j2@.len() implies #[trigger] words(j2@)[q] == b[pos + 13 + pad + q] by {
                assert(e[13 + pad + q] == words(j2@)[q]);
            }
        }
    }
}

/// The table switch read at `pos` is held by the bytes there, and is the one that any table
/// switch they hold is.
proof fn lemma_table_read(b: Seq<u8>, pos: int, op: u8, du: u32, lu: u32, hu: u32, insn: RawInstruction)
    requires
        0 <= pos < b.len(),
        op == b[pos],
        shape_of(op) == OperandShape::Table,
        pos + 13 + switch_padding(pos) <= b.len(),
        be32(du) == b.subrange(pos + 1 + switch_padding(pos), pos + 5 + switch_padding(pos)),
        be32(lu) == b.subrange(pos + 5 + switch_padding(pos), pos + 9 + switch_padding(pos)),
        be32(hu) == b.subrange(pos + 9 + switch_padding(pos), pos + 13 + switch_padding(pos)),
        insn matches RawInstruction::TableSwitch { default, low, high, jump_offsets } && default == du as i32
            && low == lu as i32 && high == hu as i32 && jump_offsets@.len() == table_count(low, high)
            && pos + 13 + switch_padding(pos) + 4 * jump_offsets@.len() <= b.len()
            && words(jump_offsets@) == b.subrange(
            pos + 13 + switch_padding(pos),
            pos + 13 + switch_padding(pos) + 4 * jump_offsets@.len(),
        ),
    ensures
        fits(b, pos, insn),
        readable(insn),
        forall|other: RawInstruction| #[trigger] fits(b, pos, other) && readable(other) ==> same_instruction(insn, other),
{
    let pad = switch_padding(pos);
    if let RawInstruction::TableSwitch { default, low, high, jump_offsets } = insn {
        let offsets = jump_offsets@;
        let n = offsets.len();
        let start = pos + 13 + pad;
        let hdr = pos + 1 + pad;
        lemma_sign_casts(0, 0, default, du);
        lemma_sign_casts(0, 0, low, lu);
        lemma_sign_casts(0, 0, high, hu);
        lemma_words_len(offsets);
        let e = encoding(insn, pos);
        assert(e =~= seq![op] + zeros(pad) + be32(du) + be32(lu) + be32(hu) + words(offsets));
        assert forall|i: int| 0 <= i < e.len() && !is_ignored(insn, pos, i) implies b[pos + i] == #[trigger] e[i] by {
            if i >= 13 + pad {
                assert(e[i] == words(offsets)[i - 13 - pad]);
                assert(b.subrange(start, start + 4 * n)[i - 13 - pad] == b[pos + i]);
            } else if i >= 9 + pad {
                assert(b.subrange(hdr + 8, hdr + 12)[i - 9 - pad] == b[pos + i]);
            } else if i >= 5 + pad {
                assert(b.subrange(hdr + 4, hdr + 8)[i - 5 - pad] == b[pos + i]);
            } else if i >= 1 + pad {
                assert(b.subrange(hdr, hdr + 4)[i - 1 - pad] == b[pos + i]);
            }
        }
        assert forall|other: RawInstruction| #[trigger] fits(b, pos, other) && readable(other) implies same_instruction(insn, other) by {
            assert(encoding(other, pos)[0] == other.opcode_of());
            lemma_shape_of_opcode(other);
            lemma_table_fields(b, pos, other, du, lu, hu);
            if let RawInstruction::TableSwitch { jump_offsets: j2, .. } = other {
                lemma_words_injective(j2@, offsets);
            }
        }
    }
}

/// Reads a `tableswitch` instruction; its padding bytes are not checked.
fn read_table(bytes: &[u8], pos: usize, op: u8) -> (r: ReadOutcome)
    requires
        pos < bytes@.len(),
        pos <= u16::MAX,
        op == bytes@[pos as int],
        shape_of(op) == OperandShape::Table,
    ensures
        read_outcome_ok(bytes@, pos as int, r),
        r matches Err(e) ==> e.kind_of() == ParsingErrorKind::IO,
{
    let ghost b = bytes@;
    let pad = padding_after(pos);
    if bytes.len() - pos < 13 + pad {
        proof {
            assert forall|other: RawInstruction| #[trigger] fits(b, pos as int, other) && readable(other) implies false by {
                assert(encoding(other, pos as int)[0] == other.opcode_of());
                lemma_shape_of_opcode(other);
                if let RawInstruction::TableSwitch { jump_offsets, .. } = other {
                    lemma_words_len(jump_offsets@);
                }
            }
        }
        return Err(unexpected_end());
    }
    let hdr = pos + 1 + pad;
    let du = read_u32(bytes, hdr);
    let lu = read_u32(bytes, hdr + 4);
    let hu = read_u32(bytes, hdr + 8);
    let default = du as i32;
    let low = lu as i32;
    let high = hu as i32;
    let start = hdr + 12;
    let count: u64 = if high >= low {
        (high as i64 - low as i64 + 1) as u64
    } else {
        0
    };
    assert(count == table_count(low, high));
    proof {
        assert forall|other: RawInstruction| #[trigger] fits(b, pos as int, other) && readable(other) implies shape(other)
            == OperandShape::Table by {
            assert(encoding(other, pos as int)[0] == other.opcode_of());
            lemma_shape_of_opcode(other);
        }
    }
    if count > ((bytes.len() - start) / 4) as u64 {
        proof {
            assert forall|other: RawInstruction| #[trigger] fits(b, pos as int, other) && readable(other) implies false by {
                lemma_table_fields(b, pos as int, other, du, lu, hu);
                if let RawInstruction::TableSwitch { jump_offsets: j2, .. } = other {
                    lemma_words_len(j2@);
                }
            }
        }
        return Err(unexpected_end());
    }
    let n = count as usize;
    let jump_offsets = read_words(bytes, start, n);
    let ghost offsets = jump_offsets@;
    let insn = RawInstruction::TableSwitch { default, low, high, jump_offsets };
    proof {
        lemma_table_read(b, pos as int, op, du, lu, hu, insn);
    }
    Ok(Some((ProgramCounter::new(pos as u16), insn, start + 4 * n)))
}

/// The number of pairs of a lookup switch whose count word is `c`: a negative count gives none.
pub open spec fn lookup_count(c: i32) -> int {
    if c >= 0 {
        c as int
    } else {
        0
    }
}

/// A lookup switch that the bytes at `pos` hold has the default and pairs that they hold
/// there.
proof fn lemma_lookup_fields(b: Seq<u8>, pos: int, other: RawInstruction, du: u32, cu: u32)
    requires
        0 <= pos,
        fits(b, pos, other),
        readable(other),
        shape(other) == OperandShape::Lookup,
        pos + 9 + switch_padding(pos) <= b.len(),
        be32(du) == b.subrange(pos + 1 + switch_padding(pos), pos + 5 + switch_padding(pos)),
        be32(cu) == b.subrange(pos + 5 + switch_padding(pos), pos + 9 + switch_padding(pos)),
    ensures
        other matches RawInstruction::LookupSwitch { default, match_offsets } && default == du as i32
            && match_offsets@.len() == lookup_count(cu as i32) && pair_words(match_offsets@) == b.subrange(
            pos + 9 + switch_padding(pos),
            pos + 9 + switch_padding(pos) + 8 * match_offsets@.len(),
        ),
{
    let pad = switch_padding(pos);
    if let RawInstruction::LookupSwitch { default: d2, match_offsets: m2 } = other {
        let e = encoding(other, pos);
        lemma_pair_words_len(m2@);
        assert(e =~= seq![other.opcode_of()] + zeros(pad) + be32(d2 as u32) + be32(m2@.len() as u32) + pair_words(m2@));
        assert(e.subrange(1 + pad, 5 + pad) =~= be32(d2 as u32));
        lemma_fitted_word(b, pos, other, 1 + pad, d2 as u32);
        lemma_be32_injective(du, d2 as u32);
        lemma_sign_casts(0, 0, d2, du);
        lemma_u32_of_be32(cu);
        assert(lookup_count_fits(b, pos, m2@.len() as int));
        assert(pair_words(m2@) =~= b.subrange(pos + 9 + pad, pos + 9 + pad + 8 * m2@.len())) by {
            assert forall|q: int| 0 <= q < 8 * m2@.len() implies #[trigger] pair_words(m2@)[q] == b[pos + 9 + pad + q] by {
                assert(e[9 + pad + q] == pair_words(m2@)[q]);
            }
        }
    }
}

/// The lookup switch read at `pos` is held by the bytes there, and is the one that any lookup
/// switch they hold is.
proof fn lemma_lookup_read(b: Seq<u8>, pos: int, op: u8, du: u32, cu: u32, insn: RawInstruction)
    requires
        0 <= pos < b.len(),
        op == b[pos],
        shape_of(op) == OperandShape::Lookup,
        pos + 9 + switch_padding(pos) <= b.len(),
        be32(du) == b.subrange(pos + 1 + switch_padding(pos), pos + 5 + switch_padding(pos)),
        be32(cu) == b.subrange(pos + 5 + switch_padding(pos), pos + 9 + switch_padding(pos)),
        insn matches RawInstruction::LookupSwitch { default, match_offsets } && default == du as i32
            && match_offsets@.len() == lookup_count(cu as i32)
            && pos + 9 + switch_padding(pos) + 8 * match_offsets@.len() <= b.len() && pair_words(match_offsets@)
            == b.subrange(
            pos + 9 + switch_padding(pos),
            pos + 9 + switch_padding(pos) + 8 * match_offsets@.len(),
        ),
    ensures
        fits(b, pos, insn),
        readable(insn),
        forall|other: RawInstruction| #[trigger] fits(b, pos, other) && readable(other) ==> same_instruction(insn, other),
{
    let pad = switch_padding(pos);
    if let RawInstruction::LookupSwitch { default, match_offsets } = insn {
        let pairs = match_offsets@;
        let n = pairs.len();
        let start = pos + 9 + pad;
        let hdr = pos + 1 + pad;
        lemma_sign_casts(0, 0, default, du);
        lemma_pair_words_len(pairs);
        lemma_u32_of_be32(cu);
        let e = encoding(insn, pos);
        assert(e =~= seq![op] + zeros(pad) + be32(du) + be32(n as u32) + pair_words(pairs));
        assert forall|i: int| 0 <= i < e.len() && !is_ignored(insn, pos, i) implies b[pos + i] == #[trigger] e[i] by {
            if i >= 9 + pad {
                assert(e[i] == pair_words(pairs)[i - 9 - pad]);
                assert(b.subrange(start, start + 8 * n)[i - 9 - pad] == b[pos + i]);
            } else if i >= 1 + pad && i < 5 + pad {
                assert(b.subrange(hdr, hdr + 4)[i - 1 - pad] == b[pos + i]);
            }
        }
        assert(lookup_count_fits(b, pos, n as int));
        assert forall|other: RawInstruction| #[trigger] fits(b, pos, other) && readable(other) implies same_instruction(insn, other) by {
            assert(encoding(other, pos)[0] == other.opcode_of());
            lemma_shape_of_opcode(other);
            lemma_lookup_fields(b, pos, other, du, cu);
            if let RawInstruction::LookupSwitch { match_offsets: m2, .. } = other {
                lemma_pair_words_injective(m2@, pairs);
            }
        }
    }
}

/// Reads a `lookupswitch` instruction; its padding bytes are not checked, and a negative count
/// gives no pairs.
fn read_lookup(bytes: &[u8], pos: usize, op: u8) -> (r: ReadOutcome)
    requires
        pos < bytes@.len(),
        pos <= u16::MAX,
        op == bytes@[pos as int],
        shape_of(op) == OperandShape::Lookup,
    ensures
        read_outcome_ok(bytes@, pos as int, r),
        r matches Err(e) ==> e.kind_of() == ParsingErrorKind::IO,
{
    let ghost b = bytes@;
    let pad = padding_after(pos);
    if bytes.len() - pos < 9 + pad {
        proof {
            assert forall|other: RawInstruction| #[trigger] fits(b, pos as int, other) && readable(other) implies false by {
                assert(encoding(other, pos as int)[0] == other.opcode_of());
                lemma_shape_of_opcode(other);
                if let RawInstruction::LookupSwitch { match_offsets, .. } = other {
                    lemma_pair_words_len(match_offsets@);
                }
            }
        }
        return Err(unexpected_end());
    }
    let hdr = pos + 1 + pad;
    let du = read_u32(bytes, hdr);
    let cu = read_u32(bytes, hdr + 4);
    let default = du as i32;
    let npairs = cu as i32;
    let start = hdr + 8;
    let count: u64 = if npairs >= 0 {
        npairs as u64
    } else {
        0
    };
    assert(count == lookup_count(npairs));
    proof {
        assert forall|other: RawInstruction| #[trigger] fits(b, pos as int, other) && readable(other) implies shape(other)
            == OperandShape::Lookup by {
            assert(encoding(other, pos as int)[0] == other.opcode_of());
            lemma_shape_of_opcode(other);
        }
    }
    if count > ((bytes.len() - start) / 8) as u64 {
        proof {
            assert forall|other: RawInstruction| #[trigger] fits(b, pos as int, other) && readable(other) implies false by {
                lemma_lookup_fields(b, pos as int, other, du, cu);
                if let RawInstruction::LookupSwitch { match_offsets: m2, .. } = other {
                    lemma_pair_words_len(m2@);
                }
            }
        }
        return Err(unexpected_end());
    }
    let n = count as usize;
    let match_offsets = read_pairs(bytes, start, n);
    let insn = RawInstruction::LookupSwitch { default, match_offsets };
    proof {
        lemma_lookup_read(b, pos as int, op, du, cu, insn);
    }
    Ok(Some((ProgramCounter::new(pos as u16), insn, start + 8 * n)))
}

/// Reads the instruction at `pos`.
///
/// It returns the location of the instruction, the instruction and the position after it, or
/// `None` at the end of the bytes.
///
/// # Errors
/// When the bytes at `pos` hold no instruction, or `pos` is beyond the range of a program
/// counter.
pub fn read_one(bytes: &[u8], pos: usize) -> (r: ReadOutcome)
    requires
        pos <= bytes@.len(),
    ensures
        pos > u16::MAX ==> r is Err,
        pos <= u16::MAX && pos == bytes@.len() ==> r matches Ok(None),
        pos <= u16::MAX && pos < bytes@.len() ==> read_outcome_ok(bytes@, pos as int, r),
        pos > u16::MAX ==> (r matches Err(e) && e.kind_of() == ParsingErrorKind::Malformed),
        pos <= u16::MAX && pos < bytes@.len() && malformed_at(bytes@, pos as int) ==> (r matches Err(e) && e.kind_of()
            == ParsingErrorKind::Malformed),
        pos <= u16::MAX && pos < bytes@.len() && !malformed_at(bytes@, pos as int) ==> (r matches Err(e) ==> e.kind_of()
            == ParsingErrorKind::IO),
{
    if pos > 0xFFFF {
        return Err(ParseError::malform("The instruction list is too long".to_owned()));
    }
    if pos == bytes.len() {
        return Ok(None);
    }
    let op = bytes[pos];
    match operand_shape(op) {
        OperandShape::Plain => read_plain(bytes, pos, op),
        OperandShape::Byte => read_byte(bytes, pos, op),
        OperandShape::Short => read_short(bytes, pos, op),
        OperandShape::Offset16 => read_offset16(bytes, pos, op),
        OperandShape::Offset32 => read_offset32(bytes, pos, op),
        OperandShape::Increment => read_increment(bytes, pos, op),
        OperandShape::Interface => read_interface(bytes, pos, op),
        OperandShape::Dynamic => read_dynamic(bytes, pos, op),
        OperandShape::MultiArray => read_multi_array(bytes, pos, op),
        OperandShape::Wide => read_wide(bytes, pos, op),
        OperandShape::Table => read_table(bytes, pos, op),
        OperandShape::Lookup => read_lookup(bytes, pos, op),
        OperandShape::Invalid => {
            proof {
                assert forall|other: RawInstruction| #[trigger] fits(bytes@, pos as int, other) && readable(other) implies false by {
                    assert(encoding(other, pos as int)[0] == other.opcode_of());
                    lemma_shape_of_opcode(other);
                }
            }
            Err(invalid_opcode())
        },
    }
}

/// Inserts a pair into a list sorted by key, after the pairs whose key is not above its key.
pub open spec fn insert_pair(s: Seq<(i32, i32)>, x: (i32, i32)) -> Seq<(i32, i32)>
    decreases s.len(),
{
    if s.len() == 0 || s.last().0 <= x.0 {
        s.push(x)
    } else {
        insert_pair(s.drop_last(), x).push(s.last())
    }
}

/// The pairs sorted by key; pairs with the same key keep their order.
pub open spec fn sort_pairs(s: Seq<(i32, i32)>) -> Seq<(i32, i32)>
    decreases s.len(),
{
    if s.len() == 0 {
        s
    } else {
        insert_pair(sort_pairs(s.drop_last()), s.last())
    }
}

/// Whether the keys of the pairs never decrease.
pub open spec fn keys_sorted(s: Seq<(i32, i32)>) -> bool {
    forall|i: int, j: int| 0 <= i < j < s.len() ==> (#[trigger] s[i]).0 <= (#[trigger] s[j]).0
}

/// Inserting after the last pair whose key is not above the new key.
proof fn lemma_insert_pair_at(s: Seq<(i32, i32)>, x: (i32, i32), j: int)
    requires
        0 <= j <= s.len(),
        forall|k: int| j <= k < s.len() ==> (#[trigger] s[k]).0 > x.0,
        j == 0 || s[j - 1].0 <= x.0,
    ensures
        insert_pair(s, x) == s.take(j).push(x) + s.skip(j),
    decreases s.len(),
{
    if j == s.len() {
        assert(s.take(j) =~= s);
        assert(s.skip(j) =~= Seq::<(i32, i32)>::empty());
        assert(s.take(j).push(x) + s.skip(j) =~= s.push(x));
    } else {
        let d = s.drop_last();
        assert(s.last().0 > x.0);
        assert forall|k: int| j <= k < d.len() implies (#[trigger] d[k]).0 > x.0 by {
            assert(d[k] == s[k]);
        }
        lemma_insert_pair_at(d, x, j);
        assert(d.take(j) =~= s.take(j));
        assert(d.skip(j).push(s.last()) =~= s.skip(j));
        assert((d.take(j).push(x) + d.skip(j)).push(s.last()) =~= s.take(j).push(x) + s.skip(j));
    }
}

/// Sorting keeps the number of pairs.
proof fn lemma_sort_pairs_len(s: Seq<(i32, i32)>)
    ensures
        sort_pairs(s).len() == s.len(),
    decreases s.len(),
{
    if s.len() > 0 {
        lemma_sort_pairs_len(s.drop_last());
        lemma_insert_pair_len(sort_pairs(s.drop_last()), s.last());
    }
}

/// Inserting adds one pair.
proof fn lemma_insert_pair_len(s: Seq<(i32, i32)>, x: (i32, i32))
    ensures
        insert_pair(s, x).len() == s.len() + 1,
    decreases s.len(),
{
    if s.len() > 0 && s.last().0 > x.0 {
        lemma_insert_pair_len(s.drop_last(), x);
    }
}

/// Sorting pairs whose keys never decrease leaves them as they are.
pub proof fn lemma_sort_sorted_pairs(s: Seq<(i32, i32)>)
    requires
        keys_sorted(s),
    ensures
        sort_pairs(s) == s,
    decreases s.len(),
{
    if s.len() > 0 {
        let d = s.drop_last();
        assert(keys_sorted(d)) by {
            assert forall|i: int, j: int| 0 <= i < j < d.len() implies (#[trigger] d[i]).0 <= (#[trigger] d[j]).0 by {
                assert(d[i] == s[i] && d[j] == s[j]);
            }
        }
        lemma_sort_sorted_pairs(d);
        if d.len() > 0 {
            assert(d.last() == s[s.len() - 2]);
        }
        assert(d.push(s.last()) =~= s);
    }
}

/// Sorts pairs by key, keeping the order of pairs with the same key.
fn sorted_pairs(pairs: &Vec<(i32, i32)>) -> (r: Vec<(i32, i32)>)
    ensures
        r@ == sort_pairs(pairs@),
{
    let mut r: Vec<(i32, i32)> = Vec::new();
    let mut i: usize = 0;
    assert(pairs@.take(0) =~= Seq::<(i32, i32)>::empty());
    while i < pairs.len()
        invariant
            i <= pairs@.len(),
            r@ == sort_pairs(pairs@.take(i as int)),
        decreases pairs@.len() - i,
    {
        let x = pairs[i];
        let mut j = r.len();
        while j > 0 && r[j - 1].0 > x.0
            invariant
                j <= r@.len(),
                forall|k: int| j <= k < r@.len() ==> (#[trigger] r@[k]).0 > x.0,
            decreases j,
        {
            j = j - 1;
        }
        proof {
            lemma_insert_pair_at(r@, x, j as int);
            assert(pairs@.take(i + 1).drop_last() =~= pairs@.take(i as int));
            assert(pairs@.take(i + 1).last() == x);
        }
        let ghost before = r@;
        r.insert(j, x);
        assert(r@ =~= before.take(j as int).push(x) + before.skip(j as int));
        i = i + 1;
    }
    assert(pairs@.take(pairs@.len() as int) =~= pairs@);
    r
}

/// The bytes that writing an instruction at `pos` gives: its encoding, with the pairs of a
/// lookup switch sorted by key.
pub open spec fn written_encoding(insn: RawInstruction, pos: int) -> Seq<u8> {
    match insn {
        RawInstruction::LookupSwitch { default, match_offsets } => seq![insn.opcode_of()] + zeros(
            switch_padding(pos),
        ) + be32(default as u32) + be32(match_offsets@.len() as u32) + pair_words(sort_pairs(match_offsets@)),
        _ => encoding(insn, pos),
    }
}

/// Appends zero bytes until the length is a multiple of four.
fn pad_to_word(out: &mut Vec<u8>)
    requires
        old(out)@.len() >= 1,
    ensures
        final(out)@ == old(out)@ + zeros(switch_padding(old(out)@.len() - 1)),
{
    let ghost start = out@;
    while out.len() % 4 != 0
        invariant
            start.len() >= 1,
            start.len() <= out@.len() <= start.len() + 3,
            out@ == start + zeros(out@.len() - start.len()),
            out@.len() - start.len() <= switch_padding(start.len() - 1),
            (out@.len() - start.len() == switch_padding(start.len() - 1)) ==> out@.len() % 4 == 0,
        decreases 3 - (out@.len() - start.len()),
    {
        out.push(0);
        assert(out@ =~= start + zeros(out@.len() - start.len()));
    }
}

impl RawInstruction {
    /// Writes the instruction at the end of `out`, at the position `out.len()`.
    ///
    /// # Errors
    /// When a lookup switch has more pairs than a count can give.
    pub fn write_one(&self, out: &mut Vec<u8>) -> (r: Result<(), GenerationError>)
        ensures
            r is Err <==> (*self matches RawInstruction::LookupSwitch { match_offsets, .. }
                && match_offsets@.len() > i32::MAX),
            r is Ok ==> final(out)@ == old(out)@ + written_encoding(*self, old(out)@.len() as int),
            r matches Err(e) ==> e.kind_of() == GenerationErrorKind::OutOfRange,
    {
        let ghost start = out@;
        let ghost pos = start.len() as int;
        let op = self.opcode();
        out.push(op);
        match self {
            RawInstruction::IInc { index, constant } => {
                out.push(*index);
                out.push(*constant as u8);
            },
            RawInstruction::InvokeInterface { method_index, count } => {
                push_u16(out, *method_index);
                out.push(*count);
                out.push(0);
            },
            RawInstruction::InvokeDynamic { dynamic_index } => {
                push_u16(out, *dynamic_index);
                out.push(0);
                out.push(0);
            },
            RawInstruction::MultiANewArray { index, dimensions } => {
                push_u16(out, *index);
                out.push(*dimensions);
            },
            RawInstruction::Wide(w) => {
                out.push(w.opcode());
                push_u16(out, w.index());
                if let RawWideInstruction::IInc { increment, .. } = w {
                    push_u16(out, *increment as u16);
                }
            },
            RawInstruction::TableSwitch { default, low, high, jump_offsets } => {
                pad_to_word(out);
                push_u32(out, *default as u32);
                push_u32(out, *low as u32);
                push_u32(out, *high as u32);
                let ghost before = out@;
                let mut k: usize = 0;
                while k < jump_offsets.len()
                    invariant
                        k <= jump_offsets@.len(),
                        out@ == before + words(jump_offsets@.take(k as int)),
                    decreases jump_offsets@.len() - k,
                {
                    push_u32(out, jump_offsets[k] as u32);
                    proof {
                        assert(jump_offsets@.take(k + 1).drop_last() =~= jump_offsets@.take(k as int));
                    }
                    k = k + 1;
                }
                assert(jump_offsets@.take(k as int) =~= jump_offsets@);
            },
            RawInstruction::LookupSwitch { default, match_offsets } => {
                pad_to_word(out);
                push_u32(out, *default as u32);
                if match_offsets.len() > 0x7FFF_FFFF {
                    return Err(
                        GenerationError::new(
                            "out of range integral type conversion attempted".to_owned(),
                            GenerationErrorKind::OutOfRange,
                        ),
                    );
                }
                push_u32(out, match_offsets.len() as u32);
                let sorted = sorted_pairs(match_offsets);
                let ghost before = out@;
                let mut k: usize = 0;
                while k < sorted.len()
                    invariant
                        k <= sorted@.len(),
                        out@ == before + pair_words(sorted@.take(k as int)),
                    decreases sorted@.len() - k,
                {
                    let (key, offset) = sorted[k];
                    push_u32(out, key as u32);
                    push_u32(out, offset as u32);
                    proof {
                        assert(sorted@.take(k + 1).drop_last() =~= sorted@.take(k as int));
                    }
                    k = k + 1;
                }
                assert(sorted@.take(k as int) =~= sorted@);
            },
            _ => {
                match get_shape(self) {
                    OperandShape::Byte => out.push(get_byte_operand(self)),
                    OperandShape::Short => push_u16(out, get_short_operand(self)),
                    OperandShape::Offset16 => push_u16(out, get_offset16_operand(self) as u16),
                    OperandShape::Offset32 => push_u32(out, get_offset32_operand(self) as u32),
                    _ => {},
                }
            },
        }
        assert(out@ =~= start + written_encoding(*self, pos));
        Ok(())
    }
}

/// The bytes that writing an instruction at `pos` gives hold it there, whatever comes before
/// and after them; so reading them back gives the instruction. A lookup switch comes back
/// with its pairs sorted by key, so it is itself only when they already are.
pub proof fn lemma_write_then_read(insn: RawInstruction, prefix: Seq<u8>, suffix: Seq<u8>)
    requires
        readable(insn),
        insn matches RawInstruction::LookupSwitch { match_offsets, .. } ==> keys_sorted(match_offsets@),
    ensures
        written_encoding(insn, prefix.len() as int) == encoding(insn, prefix.len() as int),
        fits(prefix + written_encoding(insn, prefix.len() as int) + suffix, prefix.len() as int, insn),
{
    let pos = prefix.len() as int;
    let e = encoding(insn, pos);
    if let RawInstruction::LookupSwitch { match_offsets, .. } = insn {
        lemma_sort_sorted_pairs(match_offsets@);
        let pad = switch_padding(pos);
        let at = pos + 1 + pad + 4;
        lemma_u32_of_be32(match_offsets@.len() as u32);
        let b = prefix + e + suffix;
        assert(b.subrange(at, at + 4) =~= be32(match_offsets@.len() as u32)) by {
            assert(e.subrange(5 + pad, 9 + pad) =~= be32(match_offsets@.len() as u32));
        }
        assert((match_offsets@.len() as u32) as i32 == match_offsets@.len()) by {
            let n = match_offsets@.len() as u32;
            assert(n <= 0x7fff_ffff ==> (n as i32) as int == n as int) by (bit_vector);
        }
    }
    assert(written_encoding(insn, pos) == e);
    let b = prefix + e + suffix;
    assert forall|i: int| 0 <= i < e.len() && !is_ignored(insn, pos, i) implies b[pos + i] == #[trigger] e[i] by {
        assert(b[pos + i] == (prefix + e)[pos + i]);
    }
}

/// The number of bytes that an instruction at `pos` takes, or `None` when it cannot be
/// computed: a table switch whose bounds do not give between zero and 65535 offsets, or a
/// lookup switch with more than 65535 pairs.
pub open spec fn size_of(insn: RawInstruction, pos: int) -> Option<int> {
    match insn {
        RawInstruction::TableSwitch { low, high, .. } => {
            let n = high - low + 1;
            if 0 <= n <= u16::MAX {
                Some(1 + switch_padding(pos) + 12 + 4 * n)
            } else {
                None
            }
        },
        RawInstruction::LookupSwitch { match_offsets, .. } => {
            let n = match_offsets@.len();
            if n <= u16::MAX {
                Some(1 + switch_padding(pos) + 8 + 8 * n)
            } else {
                None
            }
        },
        RawInstruction::Wide(RawWideInstruction::IInc { .. }) => Some(6),
        RawInstruction::Wide(_) => Some(4),
        _ => match shape(insn) {
            OperandShape::Plain | OperandShape::Invalid => Some(1),
            OperandShape::Byte => Some(2),
            OperandShape::Short | OperandShape::Offset16 | OperandShape::Increment => Some(3),
            OperandShape::MultiArray => Some(4),
            _ => Some(5),
        },
    }
}

/// The size of an instruction that can be read back is the length of its encoding.
pub proof fn lemma_size_of_encoding(insn: RawInstruction, pos: int)
    requires
        readable(insn),
        size_of(insn, pos) is Some,
    ensures
        size_of(insn, pos)->0 == encoding(insn, pos).len(),
{
    match insn {
        RawInstruction::TableSwitch { low, high, jump_offsets, .. } => {
            lemma_words_len(jump_offsets@);
            assert(table_count(low, high) == high - low + 1);
            let e = encoding(insn, pos);
            assert(e.len() == 1 + zeros(switch_padding(pos)).len() + 12 + words(jump_offsets@).len());
            assert(e.len() == 13 + switch_padding(pos) + 4 * (high - low + 1));
            assert(size_of(insn, pos) == Some(13 + switch_padding(pos) + 4 * (high - low + 1)));
            assert(size_of(insn, pos) == Some(e.len() as int));
        },
        RawInstruction::LookupSwitch { match_offsets, .. } => {
            lemma_pair_words_len(match_offsets@);
            let e = encoding(insn, pos);
            assert(e.len() == 1 + zeros(switch_padding(pos)).len() + 8 + pair_words(match_offsets@).len());
        },
        RawInstruction::Wide(w) => {
            assert(encoding(insn, pos).len() == if w is IInc { 6int } else { 4int });
        },
        RawInstruction::IInc { .. } => assert(encoding(insn, pos).len() == 3),
        RawInstruction::InvokeInterface { .. } => assert(encoding(insn, pos).len() == 5),
        RawInstruction::InvokeDynamic { .. } => assert(encoding(insn, pos).len() == 5),
        RawInstruction::MultiANewArray { .. } => assert(encoding(insn, pos).len() == 4),
        _ => {
            let op = insn.opcode_of();
            let e = encoding(insn, pos);
            match shape(insn) {
                OperandShape::Byte => assert(e =~= seq![op, byte_operand(insn)]),
                OperandShape::Short => assert(e =~= seq![op] + be16(short_operand(insn))),
                OperandShape::Offset16 => assert(e =~= seq![op] + be16(offset16_operand(insn) as u16)),
                OperandShape::Offset32 => assert(e =~= seq![op] + be32(offset32_operand(insn) as u32)),
                OperandShape::Plain => assert(e =~= seq![op]),
                _ => {},
            }
        },
    }
}

impl RawInstruction {
    /// Returns the number of bytes occupied by the instruction given its location in the
    /// instruction list.
    ///
    /// # Errors
    /// When the number of offsets of a table switch, or of pairs of a lookup switch, is out of
    /// the range of a `u16`.
    pub fn num_bytes(&self, pc: ProgramCounter) -> (r: Result<u16, GenerationError>)
        requires
            *self matches RawInstruction::TableSwitch { low, high, .. } ==> i32::MIN <= high - low && high - low + 1 <= i32::MAX
                && (0 <= high - low + 1 <= u16::MAX ==> 13 + switch_padding(pc@ as int) + 4 * (high - low + 1)
                <= u16::MAX),
            *self matches RawInstruction::LookupSwitch { match_offsets, .. } ==> (match_offsets@.len() <= u16::MAX
                ==> 9 + switch_padding(pc@ as int) + 8 * match_offsets@.len() <= u16::MAX),
        ensures
            r is Ok <==> size_of(*self, pc@ as int) is Some,
            r matches Ok(n) ==> size_of(*self, pc@ as int) == Some(n as int),
            r matches Err(e) ==> e.kind_of() == GenerationErrorKind::Other,
    {
        let p: u16 = pc.into();
        match self {
            RawInstruction::TableSwitch { low, high, .. } => {
                let n: i32 = *high - *low + 1;
                if n < 0 || n > 0xFFFF {
                    return Err(GenerationError::other("Invalid jump offset".to_owned()));
                }
                let padding: u16 = (4 - (p % 4 + 1) % 4) % 4;
                assert(padding == switch_padding(p as int));
                let entries = n as u16;
                Ok(1 + padding + 12 + 4 * entries)
            },
            RawInstruction::LookupSwitch { match_offsets, .. } => {
                if match_offsets.len() > 0xFFFF {
                    return Err(GenerationError::other("Invalid jump offset".to_owned()));
                }
                let padding: u16 = (4 - (p % 4 + 1) % 4) % 4;
                assert(padding == switch_padding(p as int));
                let entries = match_offsets.len() as u16;
                Ok(1 + padding + 8 + 8 * entries)
            },
            RawInstruction::Wide(RawWideInstruction::IInc { .. }) => Ok(6),
            RawInstruction::Wide(_) => Ok(4),
            _ => match get_shape(self) {
                OperandShape::Plain | OperandShape::Invalid => Ok(1),
                OperandShape::Byte => Ok(2),
                OperandShape::Short | OperandShape::Offset16 | OperandShape::Increment => Ok(3),
                OperandShape::MultiArray => Ok(4),
                _ => Ok(5),
            },
        }
    }
}

/// Whether the instructions, each at its location, are what `bytes` hold from the start up to
/// `end`: the first at the start, each next one where the previous one ends, all readable.
pub open spec fn decodes_upto(bytes: Seq<u8>, entries: Seq<(ProgramCounter, RawInstruction)>, end: int) -> bool {
    &&& forall|i: int|
        0 <= i < entries.len() ==> fits(bytes, (#[trigger] entries[i]).0@ as int, entries[i].1) && readable(
            entries[i].1,
        )
    &&& forall|i: int|
        0 <= i && i + 1 < entries.len() ==> (#[trigger] entries[i + 1]).0@ == entries[i].0@ + encoding(
            entries[i].1,
            entries[i].0@ as int,
        ).len()
    &&& entries.len() == 0 ==> end == 0
    &&& entries.len() > 0 ==> entries[0].0@ == 0 && end == entries.last().0@ + encoding(
        entries.last().1,
        entries.last().0@ as int,
    ).len()
}

/// Whether two lists of instructions are the same: the same locations with the same
/// instructions.
pub open spec fn same_entries(a: Seq<(ProgramCounter, RawInstruction)>, b: Seq<(ProgramCounter, RawInstruction)>) -> bool {
    &&& a.len() == b.len()
    &&& forall|i: int| 0 <= i < a.len() ==> (#[trigger] a[i]).0 == b[i].0 && same_instruction(a[i].1, b[i].1)
}

/// Whether the instructions read so far, up to `pos`, are the first ones of `es`, which decode
/// the bytes up to `end`: `pos` is where the next one of `es` starts, or `end` when there is
/// none.
pub open spec fn follows(
    read: Seq<(ProgramCounter, RawInstruction)>,
    es: Seq<(ProgramCounter, RawInstruction)>,
    pos: int,
    end: int,
) -> bool {
    &&& read.len() <= es.len()
    &&& forall|i: int| 0 <= i < read.len() ==> (#[trigger] read[i]).0 == es[i].0 && same_instruction(read[i].1, es[i].1)
    &&& read.len() < es.len() ==> es[read.len() as int].0@ == pos
    &&& read.len() == es.len() ==> pos == end
}

/// When reading reaches the end of the bytes, what was read is all of any list that decodes
/// them.
proof fn lemma_follows_at_end(
    b: Seq<u8>,
    read: Seq<(ProgramCounter, RawInstruction)>,
    es: Seq<(ProgramCounter, RawInstruction)>,
    pos: int,
)
    requires
        decodes_upto(b, es, b.len() as int),
        follows(read, es, pos, b.len() as int),
        pos == b.len(),
    ensures
        same_entries(read, es),
{
    if read.len() < es.len() {
        let k = read.len() as int;
        assert(fits(b, es[k].0@ as int, es[k].1));
        lemma_encoding_nonempty(es[k].1, es[k].0@ as int);
    }
}

/// Reading one more instruction at `pos` keeps following any list that decodes the bytes.
proof fn lemma_follows_step(
    b: Seq<u8>,
    read: Seq<(ProgramCounter, RawInstruction)>,
    es: Seq<(ProgramCounter, RawInstruction)>,
    pos: int,
    pc: ProgramCounter,
    insn: RawInstruction,
    next: int,
)
    requires
        decodes_upto(b, es, b.len() as int),
        follows(read, es, pos, b.len() as int),
        0 <= pos < b.len(),
        read_outcome_ok(b, pos, Ok(Some((pc, insn, next as usize)))),
        next == pos + encoding(insn, pos).len(),
    ensures
        follows(read.push((pc, insn)), es, next, b.len() as int),
{
    broadcast use crate::jvm::code::pc::group_pc_facts;

    let k = read.len() as int;
    if k == es.len() {
        assert(pos == b.len());
    }
    assert(k < es.len());
    assert(fits(b, es[k].0@ as int, es[k].1) && readable(es[k].1));
    assert(same_instruction(insn, es[k].1));
    lemma_same_encoding(insn, es[k].1, pos);
    assert(pc == es[k].0);
    let r2 = read.push((pc, insn));
    assert forall|i: int| 0 <= i < r2.len() implies (#[trigger] r2[i]).0 == es[i].0 && same_instruction(r2[i].1, es[i].1) by {
        if i < k {
            assert(r2[i] == read[i]);
        }
    }
    if k + 1 < es.len() {
        assert(es[k + 1].0@ == es[k].0@ + encoding(es[k].1, es[k].0@ as int).len());
    }
}

/// Where reading fails, no list that the instructions read so far follow decodes the bytes.
proof fn lemma_follows_stuck(
    b: Seq<u8>,
    read: Seq<(ProgramCounter, RawInstruction)>,
    es: Seq<(ProgramCounter, RawInstruction)>,
    pos: int,
)
    requires
        0 <= pos <= b.len() <= u16::MAX,
        pos < b.len(),
        forall|insn: RawInstruction| !(#[trigger] fits(b, pos, insn) && readable(insn)),
    ensures
        !(decodes_upto(b, es, b.len() as int) && follows(read, es, pos, b.len() as int)),
{
    let k = read.len() as int;
    if decodes_upto(b, es, b.len() as int) && follows(read, es, pos, b.len() as int) && k < es.len() {
        assert(fits(b, es[k].0@ as int, es[k].1) && readable(es[k].1));
    }
}

/// An instruction takes at least its opcode.
proof fn lemma_encoding_nonempty(insn: RawInstruction, pos: int)
    ensures
        encoding(insn, pos).len() >= 1,
{
    assert(encoding(insn, pos)[0] == insn.opcode_of());
}

/// The same instructions have the same bytes.
proof fn lemma_same_encoding(a: RawInstruction, b: RawInstruction, pos: int)
    requires
        same_instruction(a, b),
    ensures
        encoding(a, pos) == encoding(b, pos),
{
}

/// The bytes that writing the first `k` instructions gives, each at the position where the
/// previous one ends.
pub open spec fn written_upto(insns: Seq<RawInstruction>, k: int) -> Seq<u8>
    decreases k,
{
    if k <= 0 {
        Seq::empty()
    } else {
        let w = written_upto(insns, k - 1);
        w + written_encoding(insns[k - 1], w.len() as int)
    }
}

/// Whether writing the instruction fails: a lookup switch with more pairs than a count can
/// give.
pub open spec fn unwritable(insn: RawInstruction) -> bool {
    insn matches RawInstruction::LookupSwitch { match_offsets, .. } && match_offsets@.len() > i32::MAX
}

impl InstructionList<RawInstruction> {
    /// Parses a list of [`RawInstruction`]s from the given bytes.
    ///
    /// # Errors
    /// When the bytes, read from the start, reach a position where they hold no instruction,
    /// or one beyond the range of a program counter.
    pub fn from_bytes(bytes: Vec<u8>) -> (r: Result<InstructionList<RawInstruction>, ParseError>)
        ensures
            r matches Ok(list) ==> decodes_upto(bytes@, list.entries(), bytes@.len() as int),
            r is Err ==> exists|es: Seq<(ProgramCounter, RawInstruction)>, p: int|
                decodes_upto(bytes@, es, p) && p <= bytes@.len() && (p > u16::MAX || (p < bytes@.len()
                    && forall|insn: RawInstruction| !(#[trigger] fits(bytes@, p, insn) && readable(insn)))),
            forall|es: Seq<(ProgramCounter, RawInstruction)>|
                bytes@.len() <= u16::MAX && #[trigger] decodes_upto(bytes@, es, bytes@.len() as int) ==> (r matches Ok(list) && same_entries(
                    list.entries(),
                    es,
                )),
    {
        let ghost b = bytes@;
        let mut entries: Vec<(ProgramCounter, RawInstruction)> = Vec::new();
        let mut pos: usize = 0;
        loop
            invariant
                b == bytes@,
                pos <= b.len(),
                decodes_upto(b, entries@, pos as int),
                forall|i: int| 0 <= i < entries@.len() ==> (#[trigger] entries@[i]).0@ < pos,
                pcs_increasing(entries@),
                forall|es: Seq<(ProgramCounter, RawInstruction)>|
                    b.len() <= u16::MAX && #[trigger] decodes_upto(b, es, b.len() as int) ==> follows(entries@, es, pos as int, b.len() as int),
            ensures
                decodes_upto(b, entries@, pos as int),
                pos == b.len(),
                pcs_increasing(entries@),
                forall|es: Seq<(ProgramCounter, RawInstruction)>|
                    b.len() <= u16::MAX && #[trigger] decodes_upto(b, es, b.len() as int) ==> same_entries(entries@, es),
            decreases b.len() - pos,
        {
            match read_one(bytes.as_slice(), pos) {
                Ok(None) => {
                    proof {
                        assert forall|es: Seq<(ProgramCounter, RawInstruction)>|
                            b.len() <= u16::MAX && #[trigger] decodes_upto(b, es, b.len() as int) implies same_entries(entries@, es) by {
                            lemma_follows_at_end(b, entries@, es, pos as int);
                        }
                    }
                    break;
                },
                Ok(Some((pc, insn, next))) => {
                    let ghost before = entries@;
                    let ghost e = (pc, insn);
                    entries.push((pc, insn));
                    proof {
                        assert forall|es: Seq<(ProgramCounter, RawInstruction)>|
                            b.len() <= u16::MAX && #[trigger] decodes_upto(b, es, b.len() as int) implies follows(entries@, es, next as int, b.len() as int) by {
                            lemma_follows_step(b, before, es, pos as int, pc, insn, next as int);
                            assert(entries@ == before.push((pc, insn)));
                        }
                        assert forall|i: int| 0 <= i < entries@.len() implies fits(b, (#[trigger] entries@[i]).0@ as int, entries@[i].1)
                            && readable(entries@[i].1) by {
                            if i < before.len() {
                                assert(entries@[i] == before[i]);
                            }
                        }
                        assert forall|i: int| 0 <= i && i + 1 < entries@.len() implies (#[trigger] entries@[i + 1]).0@
                            == entries@[i].0@ + encoding(entries@[i].1, entries@[i].0@ as int).len() by {
                            if i + 1 < before.len() {
                                assert(entries@[i] == before[i]);
                                assert(entries@[i + 1] == before[i + 1]);
                            } else {
                                assert(entries@[i] == before.last());
                            }
                        }
                        assert forall|i: int, j: int| 0 <= i < j < entries@.len() implies (#[trigger] entries@[i]).0@
                            < (#[trigger] entries@[j]).0@ by {
                            if j < before.len() {
                                assert(entries@[i] == before[i]);
                                assert(entries@[j] == before[j]);
                            } else {
                                assert(entries@[i] == before[i]);
                            }
                        }
                    }
                    pos = next;
                },
                Err(e) => {
                    proof {
                        if pos <= u16::MAX && pos < b.len() {
                            assert forall|insn: RawInstruction| !(#[trigger] fits(b, pos as int, insn) && readable(insn)) by {
                            }
                        }
                        assert(decodes_upto(b, entries@, pos as int));
                        assert forall|es: Seq<(ProgramCounter, RawInstruction)>|
                            b.len() <= u16::MAX && #[trigger] decodes_upto(b, es, b.len() as int) implies false by {
                            lemma_follows_stuck(b, entries@, es, pos as int);
                            assert(follows(entries@, es, pos as int, b.len() as int));
                        }
                    }
                    return Err(e);
                },
            }
        }
        Ok(InstructionList::from_sorted(entries))
    }

    /// Writes the instructions to the end of `writer`, each at the position, counted from
    /// where writing starts, where the previous one ends.
    ///
    /// # Errors
    /// When an instruction cannot be written: a lookup switch with more pairs than a count can
    /// give. What was written before it stays.
    pub fn to_writer(&self, writer: &mut Vec<u8>) -> (r: Result<(), GenerationError>)
        ensures
            r is Err <==> exists|i: int| 0 <= i < self.entries().len() && unwritable(#[trigger] self.entries()[i].1),
            r is Ok ==> final(writer)@ == old(writer)@ + written_upto(
                self.entries().map_values(|e: (ProgramCounter, RawInstruction)| e.1),
                self.entries().len() as int,
            ),
            final(writer)@.subrange(0, old(writer)@.len() as int) == old(writer)@,
    {
        let ghost insns = self.entries().map_values(|e: (ProgramCounter, RawInstruction)| e.1);
        let items = self.iter();
        let mut buf: Vec<u8> = Vec::new();
        let mut k: usize = 0;
        while k < items.len()
            invariant
                k <= items@.len(),
                items@.len() == self.entries().len(),
                forall|i: int| 0 <= i < items@.len() ==> *(#[trigger] items@[i]).1 == self.entries()[i].1,
                insns == self.entries().map_values(|e: (ProgramCounter, RawInstruction)| e.1),
                buf@ == written_upto(insns, k as int),
                writer@ == old(writer)@,
                forall|i: int| 0 <= i < k ==> !unwritable(#[trigger] self.entries()[i].1),
            decreases items@.len() - k,
        {
            let insn: &RawInstruction = items[k].1;
            assert(*insn == self.entries()[k as int].1);
            match insn.write_one(&mut buf) {
                Ok(()) => {},
                Err(e) => {
                    let ghost old_len = writer@.len();
                    let ghost old_writer = writer@;
                    writer.append(&mut buf);
                    assert(writer@.subrange(0, old_len as int) =~= old_writer);
                    assert(unwritable(self.entries()[k as int].1));
                    return Err(e);
                },
            }
            assert(insns[k as int] == self.entries()[k as int].1);
            k = k + 1;
        }
        let ghost old_writer = writer@;
        writer.append(&mut buf);
        assert(writer@.subrange(0, old_writer.len() as int) =~= old_writer);
        Ok(())
    }
}

/// What writing the first `j` instructions gives begins what writing more of them gives.
proof fn lemma_written_prefix(insns: Seq<RawInstruction>, j: int, n: int)
    requires
        0 <= j <= n,
    ensures
        written_upto(insns, j).len() <= written_upto(insns, n).len(),
        written_upto(insns, n).subrange(0, written_upto(insns, j).len() as int) == written_upto(insns, j),
    decreases n - j,
{
    if j < n {
        lemma_written_prefix(insns, j, n - 1);
        let w = written_upto(insns, n - 1);
        assert(written_upto(insns, n) == w + written_encoding(insns[n - 1], w.len() as int));
        assert(written_upto(insns, n).subrange(0, written_upto(insns, j).len() as int) =~= w.subrange(
            0,
            written_upto(insns, j).len() as int,
        ));
    } else {
        assert(written_upto(insns, n).subrange(0, written_upto(insns, n).len() as int) =~= written_upto(insns, n));
    }
}

/// Whether the instructions can be written and read back as they are, each at the position
/// where writing the previous ones ends: they are readable, the pairs of each lookup switch
/// are sorted by key, and each location is that position.
pub open spec fn canonical(entries: Seq<(ProgramCounter, RawInstruction)>) -> bool {
    forall|i: int|
        0 <= i < entries.len() ==> {
            &&& readable((#[trigger] entries[i]).1)
            &&& (entries[i].1 matches RawInstruction::LookupSwitch { match_offsets, .. } ==> keys_sorted(
                match_offsets@,
            ))
            &&& entries[i].0@ == written_upto(
                entries.map_values(|e: (ProgramCounter, RawInstruction)| e.1),
                i,
            ).len()
        }
}

/// The bytes that writing a list of instructions gives hold each of them at the position
/// where writing the ones before ends.
proof fn lemma_entry_written(insns: Seq<RawInstruction>, i: int, n: int)
    requires
        0 <= i < n <= insns.len(),
        readable(insns[i]),
        insns[i] matches RawInstruction::LookupSwitch { match_offsets, .. } ==> keys_sorted(match_offsets@),
    ensures
        fits(written_upto(insns, n), written_upto(insns, i).len() as int, insns[i]),
        written_upto(insns, i + 1).len() == written_upto(insns, i).len() + encoding(
            insns[i],
            written_upto(insns, i).len() as int,
        ).len(),
{
    let insn = insns[i];
    let bytes = written_upto(insns, n);
    let prefix = written_upto(insns, i);
    let next = written_upto(insns, i + 1);
    lemma_written_prefix(insns, i + 1, n);
    let suffix = bytes.subrange(next.len() as int, bytes.len() as int);
    lemma_write_then_read(insn, prefix, suffix);
    assert(next == prefix + written_encoding(insn, prefix.len() as int));
    assert(bytes =~= next + suffix) by {
        assert(bytes.subrange(0, next.len() as int) == next);
    }
}

/// Reading back what writing a list of instructions gives yields the list: the bytes hold
/// each instruction at its location, one after the other, up to their end.
pub proof fn lemma_list_write_then_read(entries: Seq<(ProgramCounter, RawInstruction)>)
    requires
        canonical(entries),
    ensures
        decodes_upto(
            written_upto(
                entries.map_values(|e: (ProgramCounter, RawInstruction)| e.1),
                entries.len() as int,
            ),
            entries,
            written_upto(
                entries.map_values(|e: (ProgramCounter, RawInstruction)| e.1),
                entries.len() as int,
            ).len() as int,
        ),
{
    let insns = entries.map_values(|e: (ProgramCounter, RawInstruction)| e.1);
    let n = entries.len() as int;
    let bytes = written_upto(insns, n);
    assert forall|i: int| 0 <= i < entries.len() implies fits(bytes, (#[trigger] entries[i]).0@ as int, entries[i].1)
        && readable(entries[i].1) && written_upto(insns, i + 1).len() == entries[i].0@ + encoding(
        entries[i].1,
        entries[i].0@ as int,
    ).len() by {
        assert(insns[i] == entries[i].1);
        lemma_entry_written(insns, i, n);
    }
    assert forall|i: int| 0 <= i && i + 1 < entries.len() implies (#[trigger] entries[i + 1]).0@ == entries[i].0@
        + encoding(entries[i].1, entries[i].0@ as int).len() by {
        assert(insns[i] == entries[i].1);
        lemma_entry_written(insns, i, n);
    }
    if n > 0 {
        assert(insns[n - 1] == entries[n - 1].1);
        lemma_entry_written(insns, n - 1, n);
        assert(entries[0].0@ == written_upto(insns, 0).len());
    }
}

} // verus!
