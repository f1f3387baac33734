//! JVM instructions, with the operands that they take from the constant pool.
use vstd::prelude::*;

use crate::jvm::code::pc::{hex_digit, pc_text, push_hex_digit, ProgramCounter};
use crate::jvm::references::{ClassRef, FieldRef, MethodRef};
use crate::jvm::text::{
    constant_shown, constant_text, descriptor_text, field_ref_text, field_type_text, method_ref_text, primitive_text,
    push_constant, push_descriptor_text, push_field_ref_text, push_field_type_text, push_method_ref_text,
    push_primitive_text,
};
use crate::jvm::ConstantValue;
use crate::types::{FieldType, MethodDescriptor, PrimitiveType};

verus! {

/// A JVM instruction.
#[derive(Debug, PartialEq, Clone)]
pub enum Instruction {
    /// The `nop` instruction.
    Nop,
    /// The `aconst_null` instruction.
    AConstNull,
    /// The `iconst_m1` instruction.
    IConstM1,
    /// The `iconst_0` instruction.
    IConst0,
    /// The `iconst_1` instruction.
    IConst1,
    /// The `iconst_2` instruction.
    IConst2,
    /// The `iconst_3` instruction.
    IConst3,
    /// The `iconst_4` instruction.
    IConst4,
    /// The `iconst_5` instruction.
    IConst5,
    /// The `lconst_0` instruction.
    LConst0,
    /// The `lconst_1` instruction.
    LConst1,
    /// The `fconst_0` instruction.
    FConst0,
    /// The `fconst_1` instruction.
    FConst1,
    /// The `fconst_2` instruction.
    FConst2,
    /// The `dconst_0` instruction.
    DConst0,
    /// The `dconst_1` instruction.
    DConst1,
    /// The `bipush` instruction.
    BiPush(u8),
    /// The `sipush` instruction.
    SiPush(u16),
    /// The `ldc` instruction.
    Ldc(ConstantValue),
    /// The `ldc_w` instruction.
    LdcW(ConstantValue),
    /// The `ldc2_w` instruction.
    Ldc2W(ConstantValue),
    /// The `iload` instruction.
    ILoad(u8),
    /// The `lload` instruction.
    LLoad(u8),
    /// The `fload` instruction.
    FLoad(u8),
    /// The `dload` instruction.
    DLoad(u8),
    /// The `aload` instruction.
    ALoad(u8),
    /// The `iload_0` instruction.
    ILoad0,
    /// The `iload_1` instruction.
    ILoad1,
    /// The `iload_2` instruction.
    ILoad2,
    /// The `iload_3` instruction.
    ILoad3,
    /// The `lload_0` instruction.
    LLoad0,
    /// The `lload_1` instruction.
    LLoad1,
    /// The `lload_2` instruction.
    LLoad2,
    /// The `lload_3` instruction.
    LLoad3,
    /// The `fload_0` instruction.
    FLoad0,
    /// The `fload_1` instruction.
    FLoad1,
    /// The `fload_2` instruction.
    FLoad2,
    /// The `fload_3` instruction.
    FLoad3,
    /// The `dload_0` instruction.
    DLoad0,
    /// The `dload_1` instruction.
    DLoad1,
    /// The `dload_2` instruction.
    DLoad2,
    /// The `dload_3` instruction.
    DLoad3,
    /// The `aload_0` instruction.
    ALoad0,
    /// The `aload_1` instruction.
    ALoad1,
    /// The `aload_2` instruction.
    ALoad2,
    /// The `aload_3` instruction.
    ALoad3,
    /// The `iaload` instruction.
    IALoad,
    /// The `laload` instruction.
    LALoad,
    /// The `faload` instruction.
    FALoad,
    /// The `daload` instruction.
    DALoad,
    /// The `aaload` instruction.
    AALoad,
    /// The `baload` instruction.
    BALoad,
    /// The `caload` instruction.
    CALoad,
    /// The `saload` instruction.
    SALoad,
    /// The `istore` instruction.
    IStore(u8),
    /// The `lstore` instruction.
    LStore(u8),
    /// The `fstore` instruction.
    FStore(u8),
    /// The `dstore` instruction.
    DStore(u8),
    /// The `astore` instruction.
    AStore(u8),
    /// The `istore_0` instruction.
    IStore0,
    /// The `istore_1` instruction.
    IStore1,
    /// The `istore_2` instruction.
    IStore2,
    /// The `istore_3` instruction.
    IStore3,
    /// The `lstore_0` instruction.
    LStore0,
    /// The `lstore_1` instruction.
    LStore1,
    /// The `lstore_2` instruction.
    LStore2,
    /// The `lstore_3` instruction.
    LStore3,
    /// The `fstore_0` instruction.
    FStore0,
    /// The `fstore_1` instruction.
    FStore1,
    /// The `fstore_2` instruction.
    FStore2,
    /// The `fstore_3` instruction.
    FStore3,
    /// The `dstore_0` instruction.
    DStore0,
    /// The `dstore_1` instruction.
    DStore1,
    /// The `dstore_2` instruction.
    DStore2,
    /// The `dstore_3` instruction.
    DStore3,
    /// The `astore_0` instruction.
    AStore0,
    /// The `astore_1` instruction.
    AStore1,
    /// The `astore_2` instruction.
    AStore2,
    /// The `astore_3` instruction.
    AStore3,
    /// The `iastore` instruction.
    IAStore,
    /// The `lastore` instruction.
    LAStore,
    /// The `fastore` instruction.
    FAStore,
    /// The `dastore` instruction.
    DAStore,
    /// The `aastore` instruction.
    AAStore,
    /// The `bastore` instruction.
    BAStore,
    /// The `castore` instruction.
    CAStore,
    /// The `sastore` instruction.
    SAStore,
    /// The `pop` instruction.
    Pop,
    /// The `pop2` instruction.
    Pop2,
    /// The `dup` instruction.
    Dup,
    /// The `dup_x1` instruction.
    DupX1,
    /// The `dup_x2` instruction.
    DupX2,
    /// The `dup2` instruction.
    Dup2,
    /// The `dup2_x1` instruction.
    Dup2X1,
    /// The `dup2_x2` instruction.
    Dup2X2,
    /// The `swap` instruction.
    Swap,
    /// The `iadd` instruction.
    IAdd,
    /// The `ladd` instruction.
    LAdd,
    /// The `fadd` instruction.
    FAdd,
    /// The `dadd` instruction.
    DAdd,
    /// The `isub` instruction.
    ISub,
    /// The `lsub` instruction.
    LSub,
    /// The `fsub` instruction.
    FSub,
    /// The `dsub` instruction.
    DSub,
    /// The `imul` instruction.
    IMul,
    /// The `lmul` instruction.
    LMul,
    /// The `fmul` instruction.
    FMul,
    /// The `dmul` instruction.
    DMul,
    /// The `idiv` instruction.
    IDiv,
    /// The `ldiv` instruction.
    LDiv,
    /// The `fdiv` instruction.
    FDiv,
    /// The `ddiv` instruction.
    DDiv,
    /// The `irem` instruction.
    IRem,
    /// The `lrem` instruction.
    LRem,
    /// The `frem` instruction.
    FRem,
    /// The `drem` instruction.
    DRem,
    /// The `ineg` instruction.
    INeg,
    /// The `lneg` instruction.
    LNeg,
    /// The `fneg` instruction.
    FNeg,
    /// The `dneg` instruction.
    DNeg,
    /// The `ishl` instruction.
    IShl,
    /// The `lshl` instruction.
    LShl,
    /// The `ishr` instruction.
    IShr,
    /// The `lshr` instruction.
    LShr,
    /// The `iushr` instruction.
    IUShr,
    /// The `lushr` instruction.
    LUShr,
    /// The `iand` instruction.
    IAnd,
    /// The `land` instruction.
    LAnd,
    /// The `ior` instruction.
    IOr,
    /// The `lor` instruction.
    LOr,
    /// The `ixor` instruction.
    IXor,
    /// The `lxor` instruction.
    LXor,
    /// The `iinc` instruction.
    IInc(u8, i32),
    /// The `i2l` instruction.
    I2L,
    /// The `i2f` instruction.
    I2F,
    /// The `i2d` instruction.
    I2D,
    /// The `l2i` instruction.
    L2I,
    /// The `l2f` instruction.
    L2F,
    /// The `l2d` instruction.
    L2D,
    /// The `f2i` instruction.
    F2I,
    /// The `f2l` instruction.
    F2L,
    /// The `f2d` instruction.
    F2D,
    /// The `d2i` instruction.
    D2I,
    /// The `d2l` instruction.
    D2L,
    /// The `d2f` instruction.
    D2F,
    /// The `i2b` instruction.
    I2B,
    /// The `i2c` instruction.
    I2C,
    /// The `i2s` instruction.
    I2S,
    /// The `lcmp` instruction.
    LCmp,
    /// The `fcmpl` instruction.
    FCmpL,
    /// The `fcmpg` instruction.
    FCmpG,
    /// The `dcmpl` instruction.
    DCmpL,
    /// The `dcmpg` instruction.
    DCmpG,
    /// The `ifeq` instruction.
    IfEq(ProgramCounter),
    /// The `ifne` instruction.
    IfNe(ProgramCounter),
    /// The `iflt` instruction.
    IfLt(ProgramCounter),
    /// The `ifge` instruction.
    IfGe(ProgramCounter),
    /// The `ifgt` instruction.
    IfGt(ProgramCounter),
    /// The `ifle` instruction.
    IfLe(ProgramCounter),
    /// The `if_icmpeq` instruction.
    IfICmpEq(ProgramCounter),
    /// The `if_icmpne` instruction.
    IfICmpNe(ProgramCounter),
    /// The `if_icmplt` instruction.
    IfICmpLt(ProgramCounter),
    /// The `if_icmpge` instruction.
    IfICmpGe(ProgramCounter),
    /// The `if_icmpgt` instruction.
    IfICmpGt(ProgramCounter),
    /// The `if_icmple` instruction.
    IfICmpLe(ProgramCounter),
    /// The `if_acmpeq` instruction.
    IfACmpEq(ProgramCounter),
    /// The `if_acmpne` instruction.
    IfACmpNe(ProgramCounter),
    /// The `goto` instruction.
    Goto(ProgramCounter),
    /// The `jsr` instruction.
    Jsr(ProgramCounter),
    /// The `ret` instruction.
    Ret(u8),
    /// The `tableswitch` instruction: the targets of the keys from `range_start` to `range_end`, in order.
    TableSwitch { range_start: i32, range_end: i32, jump_targets: Vec<ProgramCounter>, default: ProgramCounter },
    /// The `lookupswitch` instruction: the targets of the keys, in increasing order of keys.
    LookupSwitch { default: ProgramCounter, match_targets: Vec<(i32, ProgramCounter)> },
    /// The `ireturn` instruction.
    IReturn,
    /// The `lreturn` instruction.
    LReturn,
    /// The `freturn` instruction.
    FReturn,
    /// The `dreturn` instruction.
    DReturn,
    /// The `areturn` instruction.
    AReturn,
    /// The `return` instruction.
    Return,
    /// The `getstatic` instruction.
    GetStatic(FieldRef),
    /// The `putstatic` instruction.
    PutStatic(FieldRef),
    /// The `getfield` instruction.
    GetField(FieldRef),
    /// The `putfield` instruction.
    PutField(FieldRef),
    /// The `invokevirtual` instruction.
    InvokeVirtual(MethodRef),
    /// The `invokespecial` instruction.
    InvokeSpecial(MethodRef),
    /// The `invokestatic` instruction.
    InvokeStatic(MethodRef),
    /// The `invokeinterface` instruction.
    InvokeInterface(MethodRef, u8),
    /// The `invokedynamic` instruction.
    InvokeDynamic { bootstrap_method_index: u16, name: String, descriptor: MethodDescriptor },
    /// The `new` instruction.
    New(ClassRef),
    /// The `newarray` instruction.
    NewArray(PrimitiveType),
    /// The `anewarray` instruction.
    ANewArray(ClassRef),
    /// The `arraylength` instruction.
    ArrayLength,
    /// The `athrow` instruction.
    AThrow,
    /// The `checkcast` instruction.
    CheckCast(FieldType),
    /// The `instanceof` instruction.
    InstanceOf(FieldType),
    /// The `monitorenter` instruction.
    MonitorEnter,
    /// The `monitorexit` instruction.
    MonitorExit,
    /// An instruction with the `wide` prefix.
    Wide(WideInstruction),
    /// The `multianewarray` instruction.
    MultiANewArray(FieldType, u8),
    /// The `ifnull` instruction.
    IfNull(ProgramCounter),
    /// The `ifnonnull` instruction.
    IfNonNull(ProgramCounter),
    /// The `goto_w` instruction.
    GotoW(ProgramCounter),
    /// The `jsr_w` instruction.
    JsrW(ProgramCounter),
    /// The `breakpoint` instruction.
    Breakpoint,
    /// The `impdep1` instruction.
    ImpDep1,
    /// The `impdep2` instruction.
    ImpDep2,
}

/// An instruction with the `wide` prefix, whose index takes 16 bits.
#[derive(Debug, PartialEq, Eq, Structural, Clone, Copy)]
pub enum WideInstruction {
    /// `iload` with a wide index.
    ILoad(u16),
    /// `lload` with a wide index.
    LLoad(u16),
    /// `fload` with a wide index.
    FLoad(u16),
    /// `dload` with a wide index.
    DLoad(u16),
    /// `aload` with a wide index.
    ALoad(u16),
    /// `istore` with a wide index.
    IStore(u16),
    /// `lstore` with a wide index.
    LStore(u16),
    /// `fstore` with a wide index.
    FStore(u16),
    /// `dstore` with a wide index.
    DStore(u16),
    /// `astore` with a wide index.
    AStore(u16),
    /// `iinc` with a wide index and a wide constant.
    IInc(u16, i32),
    /// `ret` with a wide index.
    Ret(u16),
}

/// The opcode of an instruction.
pub open spec fn opcode_of(i: Instruction) -> u8 {
    match i {
        Instruction::Nop => 0x00,
        Instruction::AConstNull => 0x01,
        Instruction::IConstM1 => 0x02,
        Instruction::IConst0 => 0x03,
        Instruction::IConst1 => 0x04,
        Instruction::IConst2 => 0x05,
        Instruction::IConst3 => 0x06,
        Instruction::IConst4 => 0x07,
        Instruction::IConst5 => 0x08,
        Instruction::LConst0 => 0x09,
        Instruction::LConst1 => 0x0a,
        Instruction::FConst0 => 0x0b,
        Instruction::FConst1 => 0x0c,
        Instruction::FConst2 => 0x0d,
        Instruction::DConst0 => 0x0e,
        Instruction::DConst1 => 0x0f,
        Instruction::BiPush(_) => 0x10,
        Instruction::SiPush(_) => 0x11,
        Instruction::Ldc(_) => 0x12,
        Instruction::LdcW(_) => 0x13,
        Instruction::Ldc2W(_) => 0x14,
        Instruction::ILoad(_) => 0x15,
        Instruction::LLoad(_) => 0x16,
        Instruction::FLoad(_) => 0x17,
        Instruction::DLoad(_) => 0x18,
        Instruction::ALoad(_) => 0x19,
        Instruction::ILoad0 => 0x1a,
        Instruction::ILoad1 => 0x1b,
        Instruction::ILoad2 => 0x1c,
        Instruction::ILoad3 => 0x1d,
        Instruction::LLoad0 => 0x1e,
        Instruction::LLoad1 => 0x1f,
        Instruction::LLoad2 => 0x20,
        Instruction::LLoad3 => 0x21,
        Instruction::FLoad0 => 0x22,
        Instruction::FLoad1 => 0x23,
        Instruction::FLoad2 => 0x24,
        Instruction::FLoad3 => 0x25,
        Instruction::DLoad0 => 0x26,
        Instruction::DLoad1 => 0x27,
        Instruction::DLoad2 => 0x28,
        Instruction::DLoad3 => 0x29,
        Instruction::ALoad0 => 0x2a,
        Instruction::ALoad1 => 0x2b,
        Instruction::ALoad2 => 0x2c,
        Instruction::ALoad3 => 0x2d,
        Instruction::IALoad => 0x2e,
        Instruction::LALoad => 0x2f,
        Instruction::FALoad => 0x30,
        Instruction::DALoad => 0x31,
        Instruction::AALoad => 0x32,
        Instruction::BALoad => 0x33,
        Instruction::CALoad => 0x34,
        Instruction::SALoad => 0x35,
        Instruction::IStore(_) => 0x36,
        Instruction::LStore(_) => 0x37,
        Instruction::FStore(_) => 0x38,
        Instruction::DStore(_) => 0x39,
        Instruction::AStore(_) => 0x3a,
        Instruction::IStore0 => 0x3b,
        Instruction::IStore1 => 0x3c,
        Instruction::IStore2 => 0x3d,
        Instruction::IStore3 => 0x3e,
        Instruction::LStore0 => 0x3f,
        Instruction::LStore1 => 0x40,
        Instruction::LStore2 => 0x41,
        Instruction::LStore3 => 0x42,
        Instruction::FStore0 => 0x43,
        Instruction::FStore1 => 0x44,
        Instruction::FStore2 => 0x45,
        Instruction::FStore3 => 0x46,
        Instruction::DStore0 => 0x47,
        Instruction::DStore1 => 0x48,
        Instruction::DStore2 => 0x49,
        Instruction::DStore3 => 0x4a,
        Instruction::AStore0 => 0x4b,
        Instruction::AStore1 => 0x4c,
        Instruction::AStore2 => 0x4d,
        Instruction::AStore3 => 0x4e,
        Instruction::IAStore => 0x4f,
        Instruction::LAStore => 0x50,
        Instruction::FAStore => 0x51,
        Instruction::DAStore => 0x52,
        Instruction::AAStore => 0x53,
        Instruction::BAStore => 0x54,
        Instruction::CAStore => 0x55,
        Instruction::SAStore => 0x56,
        Instruction::Pop => 0x57,
        Instruction::Pop2 => 0x58,
        Instruction::Dup => 0x59,
        Instruction::DupX1 => 0x5a,
        Instruction::DupX2 => 0x5b,
        Instruction::Dup2 => 0x5c,
        Instruction::Dup2X1 => 0x5d,
        Instruction::Dup2X2 => 0x5e,
        Instruction::Swap => 0x5f,
        Instruction::IAdd => 0x60,
        Instruction::LAdd => 0x61,
        Instruction::FAdd => 0x62,
        Instruction::DAdd => 0x63,
        Instruction::ISub => 0x64,
        Instruction::LSub => 0x65,
        Instruction::FSub => 0x66,
        Instruction::DSub => 0x67,
        Instruction::IMul => 0x68,
        Instruction::LMul => 0x69,
        Instruction::FMul => 0x6a,
        Instruction::DMul => 0x6b,
        Instruction::IDiv => 0x6c,
        Instruction::LDiv => 0x6d,
        Instruction::FDiv => 0x6e,
        Instruction::DDiv => 0x6f,
        Instruction::IRem => 0x70,
        Instruction::LRem => 0x71,
        Instruction::FRem => 0x72,
        Instruction::DRem => 0x73,
        Instruction::INeg => 0x74,
        Instruction::LNeg => 0x75,
        Instruction::FNeg => 0x76,
        Instruction::DNeg => 0x77,
        Instruction::IShl => 0x78,
        Instruction::LShl => 0x79,
        Instruction::IShr => 0x7a,
        Instruction::LShr => 0x7b,
        Instruction::IUShr => 0x7c,
        Instruction::LUShr => 0x7d,
        Instruction::IAnd => 0x7e,
        Instruction::LAnd => 0x7f,
        Instruction::IOr => 0x80,
        Instruction::LOr => 0x81,
        Instruction::IXor => 0x82,
        Instruction::LXor => 0x83,
        Instruction::IInc(_, _) => 0x84,
        Instruction::I2L => 0x85,
        Instruction::I2F => 0x86,
        Instruction::I2D => 0x87,
        Instruction::L2I => 0x88,
        Instruction::L2F => 0x89,
        Instruction::L2D => 0x8a,
        Instruction::F2I => 0x8b,
        Instruction::F2L => 0x8c,
        Instruction::F2D => 0x8d,
        Instruction::D2I => 0x8e,
        Instruction::D2L => 0x8f,
        Instruction::D2F => 0x90,
        Instruction::I2B => 0x91,
        Instruction::I2C => 0x92,
        Instruction::I2S => 0x93,
        Instruction::LCmp => 0x94,
        Instruction::FCmpL => 0x95,
        Instruction::FCmpG => 0x96,
        Instruction::DCmpL => 0x97,
        Instruction::DCmpG => 0x98,
        Instruction::IfEq(_) => 0x99,
        Instruction::IfNe(_) => 0x9a,
        Instruction::IfLt(_) => 0x9b,
        Instruction::IfGe(_) => 0x9c,
        Instruction::IfGt(_) => 0x9d,
        Instruction::IfLe(_) => 0x9e,
        Instruction::IfICmpEq(_) => 0x9f,
        Instruction::IfICmpNe(_) => 0xa0,
        Instruction::IfICmpLt(_) => 0xa1,
        Instruction::IfICmpGe(_) => 0xa2,
        Instruction::IfICmpGt(_) => 0xa3,
        Instruction::IfICmpLe(_) => 0xa4,
        Instruction::IfACmpEq(_) => 0xa5,
        Instruction::IfACmpNe(_) => 0xa6,
        Instruction::Goto(_) => 0xa7,
        Instruction::Jsr(_) => 0xa8,
        Instruction::Ret(_) => 0xa9,
        Instruction::TableSwitch { .. } => 0xaa,
        Instruction::LookupSwitch { .. } => 0xab,
        Instruction::IReturn => 0xac,
        Instruction::LReturn => 0xad,
        Instruction::FReturn => 0xae,
        Instruction::DReturn => 0xaf,
        Instruction::AReturn => 0xb0,
        Instruction::Return => 0xb1,
        Instruction::GetStatic(_) => 0xb2,
        Instruction::PutStatic(_) => 0xb3,
        Instruction::GetField(_) => 0xb4,
        Instruction::PutField(_) => 0xb5,
        Instruction::InvokeVirtual(_) => 0xb6,
        Instruction::InvokeSpecial(_) => 0xb7,
        Instruction::InvokeStatic(_) => 0xb8,
        Instruction::InvokeInterface(_, _) => 0xb9,
        Instruction::InvokeDynamic { .. } => 0xba,
        Instruction::New(_) => 0xbb,
        Instruction::NewArray(_) => 0xbc,
        Instruction::ANewArray(_) => 0xbd,
        Instruction::ArrayLength => 0xbe,
        Instruction::AThrow => 0xbf,
        Instruction::CheckCast(_) => 0xc0,
        Instruction::InstanceOf(_) => 0xc1,
        Instruction::MonitorEnter => 0xc2,
        Instruction::MonitorExit => 0xc3,
        Instruction::Wide(_) => 0xc4,
        Instruction::MultiANewArray(_, _) => 0xc5,
        Instruction::IfNull(_) => 0xc6,
        Instruction::IfNonNull(_) => 0xc7,
        Instruction::GotoW(_) => 0xc8,
        Instruction::JsrW(_) => 0xc9,
        Instruction::Breakpoint => 0xca,
        Instruction::ImpDep1 => 0xfe,
        Instruction::ImpDep2 => 0xff,
    }
}

/// The mnemonic of an instruction.
pub open spec fn name_of(i: Instruction) -> Seq<char> {
    match i {
        Instruction::Nop => "nop"@,
        Instruction::AConstNull => "aconst_null"@,
        Instruction::IConstM1 => "iconst_m1"@,
        Instruction::IConst0 => "iconst_0"@,
        Instruction::IConst1 => "iconst_1"@,
        Instruction::IConst2 => "iconst_2"@,
        Instruction::IConst3 => "iconst_3"@,
        Instruction::IConst4 => "iconst_4"@,
        Instruction::IConst5 => "iconst_5"@,
        Instruction::LConst0 => "lconst_0"@,
        Instruction::LConst1 => "lconst_1"@,
        Instruction::FConst0 => "fconst_0"@,
        Instruction::FConst1 => "fconst_1"@,
        Instruction::FConst2 => "fconst_2"@,
        Instruction::DConst0 => "dconst_0"@,
        Instruction::DConst1 => "dconst_1"@,
        Instruction::BiPush(_) => "bipush"@,
        Instruction::SiPush(_) => "sipush"@,
        Instruction::Ldc(_) => "ldc"@,
        Instruction::LdcW(_) => "ldc_w"@,
        Instruction::Ldc2W(_) => "ldc2_w"@,
        Instruction::ILoad(_) => "iload"@,
        Instruction::LLoad(_) => "lload"@,
        Instruction::FLoad(_) => "fload"@,
        Instruction::DLoad(_) => "dload"@,
        Instruction::ALoad(_) => "aload"@,
        Instruction::ILoad0 => "iload_0"@,
        Instruction::ILoad1 => "iload_1"@,
        Instruction::ILoad2 => "iload_2"@,
        Instruction::ILoad3 => "iload_3"@,
        Instruction::LLoad0 => "lload_0"@,
        Instruction::LLoad1 => "lload_1"@,
        Instruction::LLoad2 => "lload_2"@,
        Instruction::LLoad3 => "lload_3"@,
        Instruction::FLoad0 => "fload_0"@,
        Instruction::FLoad1 => "fload_1"@,
        Instruction::FLoad2 => "fload_2"@,
        Instruction::FLoad3 => "fload_3"@,
        Instruction::DLoad0 => "dload_0"@,
        Instruction::DLoad1 => "dload_1"@,
        Instruction::DLoad2 => "dload_2"@,
        Instruction::DLoad3 => "dload_3"@,
        Instruction::ALoad0 => "aload_0"@,
        Instruction::ALoad1 => "aload_1"@,
        Instruction::ALoad2 => "aload_2"@,
        Instruction::ALoad3 => "aload_3"@,
        Instruction::IALoad => "iaload"@,
        Instruction::LALoad => "laload"@,
        Instruction::FALoad => "faload"@,
        Instruction::DALoad => "daload"@,
        Instruction::AALoad => "aaload"@,
        Instruction::BALoad => "baload"@,
        Instruction::CALoad => "caload"@,
        Instruction::SALoad => "saload"@,
        Instruction::IStore(_) => "istore"@,
        Instruction::LStore(_) => "lstore"@,
        Instruction::FStore(_) => "fstore"@,
        Instruction::DStore(_) => "dstore"@,
        Instruction::AStore(_) => "astore"@,
        Instruction::IStore0 => "istore_0"@,
        Instruction::IStore1 => "istore_1"@,
        Instruction::IStore2 => "istore_2"@,
        Instruction::IStore3 => "istore_3"@,
        Instruction::LStore0 => "lstore_0"@,
        Instruction::LStore1 => "lstore_1"@,
        Instruction::LStore2 => "lstore_2"@,
        Instruction::LStore3 => "lstore_3"@,
        Instruction::FStore0 => "fstore_0"@,
        Instruction::FStore1 => "fstore_1"@,
        Instruction::FStore2 => "fstore_2"@,
        Instruction::FStore3 => "fstore_3"@,
        Instruction::DStore0 => "dstore_0"@,
        Instruction::DStore1 => "dstore_1"@,
        Instruction::DStore2 => "dstore_2"@,
        Instruction::DStore3 => "dstore_3"@,
        Instruction::AStore0 => "astore_0"@,
        Instruction::AStore1 => "astore_1"@,
        Instruction::AStore2 => "astore_2"@,
        Instruction::AStore3 => "astore_3"@,
        Instruction::IAStore => "iastore"@,
        Instruction::LAStore => "lastore"@,
        Instruction::FAStore => "fastore"@,
        Instruction::DAStore => "dastore"@,
        Instruction::AAStore => "aastore"@,
        Instruction::BAStore => "bastore"@,
        Instruction::CAStore => "castore"@,
        Instruction::SAStore => "sastore"@,
        Instruction::Pop => "pop"@,
        Instruction::Pop2 => "pop2"@,
        Instruction::Dup => "dup"@,
        Instruction::DupX1 => "dup_x1"@,
        Instruction::DupX2 => "dup_x2"@,
        Instruction::Dup2 => "dup2"@,
        Instruction::Dup2X1 => "dup2_x1"@,
        Instruction::Dup2X2 => "dup2_x2"@,
        Instruction::Swap => "swap"@,
        Instruction::IAdd => "iadd"@,
        Instruction::LAdd => "ladd"@,
        Instruction::FAdd => "fadd"@,
        Instruction::DAdd => "dadd"@,
        Instruction::ISub => "isub"@,
        Instruction::LSub => "lsub"@,
        Instruction::FSub => "fsub"@,
        Instruction::DSub => "dsub"@,
        Instruction::IMul => "imul"@,
        Instruction::LMul => "lmul"@,
        Instruction::FMul => "fmul"@,
        Instruction::DMul => "dmul"@,
        Instruction::IDiv => "idiv"@,
        Instruction::LDiv => "ldiv"@,
        Instruction::FDiv => "fdiv"@,
        Instruction::DDiv => "ddiv"@,
        Instruction::IRem => "irem"@,
        Instruction::LRem => "lrem"@,
        Instruction::FRem => "frem"@,
        Instruction::DRem => "drem"@,
        Instruction::INeg => "ineg"@,
        Instruction::LNeg => "lneg"@,
        Instruction::FNeg => "fneg"@,
        Instruction::DNeg => "dneg"@,
        Instruction::IShl => "ishl"@,
        Instruction::LShl => "lshl"@,
        Instruction::IShr => "ishr"@,
        Instruction::LShr => "lshr"@,
        Instruction::IUShr => "iushr"@,
        Instruction::LUShr => "lushr"@,
        Instruction::IAnd => "iand"@,
        Instruction::LAnd => "land"@,
        Instruction::IOr => "ior"@,
        Instruction::LOr => "lor"@,
        Instruction::IXor => "ixor"@,
        Instruction::LXor => "lxor"@,
        Instruction::IInc(_, _) => "iinc"@,
        Instruction::I2L => "i2l"@,
        Instruction::I2F => "i2f"@,
        Instruction::I2D => "i2d"@,
        Instruction::L2I => "l2i"@,
        Instruction::L2F => "l2f"@,
        Instruction::L2D => "l2d"@,
        Instruction::F2I => "f2i"@,
        Instruction::F2L => "f2l"@,
        Instruction::F2D => "f2d"@,
        Instruction::D2I => "d2i"@,
        Instruction::D2L => "d2l"@,
        Instruction::D2F => "d2f"@,
        Instruction::I2B => "i2b"@,
        Instruction::I2C => "i2c"@,
        Instruction::I2S => "i2s"@,
        Instruction::LCmp => "lcmp"@,
        Instruction::FCmpL => "fcmpl"@,
        Instruction::FCmpG => "fcmpg"@,
        Instruction::DCmpL => "dcmpl"@,
        Instruction::DCmpG => "dcmpg"@,
        Instruction::IfEq(_) => "ifeq"@,
        Instruction::IfNe(_) => "ifne"@,
        Instruction::IfLt(_) => "iflt"@,
        Instruction::IfGe(_) => "ifge"@,
        Instruction::IfGt(_) => "ifgt"@,
        Instruction::IfLe(_) => "ifle"@,
        Instruction::IfICmpEq(_) => "if_icmpeq"@,
        Instruction::IfICmpNe(_) => "if_icmpne"@,
        Instruction::IfICmpLt(_) => "if_icmplt"@,
        Instruction::IfICmpGe(_) => "if_icmpge"@,
        Instruction::IfICmpGt(_) => "if_icmpgt"@,
        Instruction::IfICmpLe(_) => "if_icmple"@,
        Instruction::IfACmpEq(_) => "if_acmpeq"@,
        Instruction::IfACmpNe(_) => "if_acmpne"@,
        Instruction::Goto(_) => "goto"@,
        Instruction::Jsr(_) => "jsr"@,
        Instruction::Ret(_) => "ret"@,
        Instruction::TableSwitch { .. } => "tableswitch"@,
        Instruction::LookupSwitch { .. } => "lookupswitch"@,
        Instruction::IReturn => "ireturn"@,
        Instruction::LReturn => "lreturn"@,
        Instruction::FReturn => "freturn"@,
        Instruction::DReturn => "dreturn"@,
        Instruction::AReturn => "areturn"@,
        Instruction::Return => "return"@,
        Instruction::GetStatic(_) => "getstatic"@,
        Instruction::PutStatic(_) => "putstatic"@,
        Instruction::GetField(_) => "getfield"@,
        Instruction::PutField(_) => "putfield"@,
        Instruction::InvokeVirtual(_) => "invokevirtual"@,
        Instruction::InvokeSpecial(_) => "invokespecial"@,
        Instruction::InvokeStatic(_) => "invokestatic"@,
        Instruction::InvokeInterface(_, _) => "invokeinterface"@,
        Instruction::InvokeDynamic { .. } => "invokedynamic"@,
        Instruction::New(_) => "new"@,
        Instruction::NewArray(_) => "newarray"@,
        Instruction::ANewArray(_) => "anewarray"@,
        Instruction::ArrayLength => "arraylength"@,
        Instruction::AThrow => "athrow"@,
        Instruction::CheckCast(_) => "checkcast"@,
        Instruction::InstanceOf(_) => "instanceof"@,
        Instruction::MonitorEnter => "monitorenter"@,
        Instruction::MonitorExit => "monitorexit"@,
        Instruction::Wide(_) => "wide"@,
        Instruction::MultiANewArray(_, _) => "multianewarray"@,
        Instruction::IfNull(_) => "ifnull"@,
        Instruction::IfNonNull(_) => "ifnonnull"@,
        Instruction::GotoW(_) => "goto_w"@,
        Instruction::JsrW(_) => "jsr_w"@,
        Instruction::Breakpoint => "breakpoint"@,
        Instruction::ImpDep1 => "impdep1"@,
        Instruction::ImpDep2 => "impdep2"@,
    }
}

/// The mnemonic that the JVM specification gives to each opcode (chapter 6), and the empty
/// text for a byte that is no opcode.
pub open spec fn mnemonic(op: u8) -> Seq<char> {
    match op {
        0 => "nop"@,
        1 => "aconst_null"@,
        2 => "iconst_m1"@,
        3 => "iconst_0"@,
        4 => "iconst_1"@,
        5 => "iconst_2"@,
        6 => "iconst_3"@,
        7 => "iconst_4"@,
        8 => "iconst_5"@,
        9 => "lconst_0"@,
        10 => "lconst_1"@,
        11 => "fconst_0"@,
        12 => "fconst_1"@,
        13 => "fconst_2"@,
        14 => "dconst_0"@,
        15 => "dconst_1"@,
        16 => "bipush"@,
        17 => "sipush"@,
        18 => "ldc"@,
        19 => "ldc_w"@,
        20 => "ldc2_w"@,
        21 => "iload"@,
        22 => "lload"@,
        23 => "fload"@,
        24 => "dload"@,
        25 => "aload"@,
        26 => "iload_0"@,
        27 => "iload_1"@,
        28 => "iload_2"@,
        29 => "iload_3"@,
        30 => "lload_0"@,
        31 => "lload_1"@,
        32 => "lload_2"@,
        33 => "lload_3"@,
        34 => "fload_0"@,
        35 => "fload_1"@,
        36 => "fload_2"@,
        37 => "fload_3"@,
        38 => "dload_0"@,
        39 => "dload_1"@,
        40 => "dload_2"@,
        41 => "dload_3"@,
        42 => "aload_0"@,
        43 => "aload_1"@,
        44 => "aload_2"@,
        45 => "aload_3"@,
        46 => "iaload"@,
        47 => "laload"@,
        48 => "faload"@,
        49 => "daload"@,
        50 => "aaload"@,
        51 => "baload"@,
        52 => "caload"@,
        53 => "saload"@,
        54 => "istore"@,
        55 => "lstore"@,
        56 => "fstore"@,
        57 => "dstore"@,
        58 => "astore"@,
        59 => "istore_0"@,
        60 => "istore_1"@,
        61 => "istore_2"@,
        62 => "istore_3"@,
        63 => "lstore_0"@,
        64 => "lstore_1"@,
        65 => "lstore_2"@,
        66 => "lstore_3"@,
        67 => "fstore_0"@,
        68 => "fstore_1"@,
        69 => "fstore_2"@,
        70 => "fstore_3"@,
        71 => "dstore_0"@,
        72 => "dstore_1"@,
        73 => "dstore_2"@,
        74 => "dstore_3"@,
        75 => "astore_0"@,
        76 => "astore_1"@,
        77 => "astore_2"@,
        78 => "astore_3"@,
        79 => "iastore"@,
        80 => "lastore"@,
        81 => "fastore"@,
        82 => "dastore"@,
        83 => "aastore"@,
        84 => "bastore"@,
        85 => "castore"@,
        86 => "sastore"@,
        87 => "pop"@,
        88 => "pop2"@,
        89 => "dup"@,
        90 => "dup_x1"@,
        91 => "dup_x2"@,
        92 => "dup2"@,
        93 => "dup2_x1"@,
        94 => "dup2_x2"@,
        95 => "swap"@,
        96 => "iadd"@,
        97 => "ladd"@,
        98 => "fadd"@,
        99 => "dadd"@,
        100 => "isub"@,
        101 => "lsub"@,
        102 => "fsub"@,
        103 => "dsub"@,
        104 => "imul"@,
        105 => "lmul"@,
        106 => "fmul"@,
        107 => "dmul"@,
        108 => "idiv"@,
        109 => "ldiv"@,
        110 => "fdiv"@,
        111 => "ddiv"@,
        112 => "irem"@,
        113 => "lrem"@,
        114 => "frem"@,
        115 => "drem"@,
        116 => "ineg"@,
        117 => "lneg"@,
        118 => "fneg"@,
        119 => "dneg"@,
        120 => "ishl"@,
        121 => "lshl"@,
        122 => "ishr"@,
        123 => "lshr"@,
        124 => "iushr"@,
        125 => "lushr"@,
        126 => "iand"@,
        127 => "land"@,
        128 => "ior"@,
        129 => "lor"@,
        130 => "ixor"@,
        131 => "lxor"@,
        132 => "iinc"@,
        133 => "i2l"@,
        134 => "i2f"@,
        135 => "i2d"@,
        136 => "l2i"@,
        137 => "l2f"@,
        138 => "l2d"@,
        139 => "f2i"@,
        140 => "f2l"@,
        141 => "f2d"@,
        142 => "d2i"@,
        143 => "d2l"@,
        144 => "d2f"@,
        145 => "i2b"@,
        146 => "i2c"@,
        147 => "i2s"@,
        148 => "lcmp"@,
        149 => "fcmpl"@,
        150 => "fcmpg"@,
        151 => "dcmpl"@,
        152 => "dcmpg"@,
        153 => "ifeq"@,
        154 => "ifne"@,
        155 => "iflt"@,
        156 => "ifge"@,
        157 => "ifgt"@,
        158 => "ifle"@,
        159 => "if_icmpeq"@,
        160 => "if_icmpne"@,
        161 => "if_icmplt"@,
        162 => "if_icmpge"@,
        163 => "if_icmpgt"@,
        164 => "if_icmple"@,
        165 => "if_acmpeq"@,
        166 => "if_acmpne"@,
        167 => "goto"@,
        168 => "jsr"@,
        169 => "ret"@,
        170 => "tableswitch"@,
        171 => "lookupswitch"@,
        172 => "ireturn"@,
        173 => "lreturn"@,
        174 => "freturn"@,
        175 => "dreturn"@,
        176 => "areturn"@,
        177 => "return"@,
        178 => "getstatic"@,
        179 => "putstatic"@,
        180 => "getfield"@,
        181 => "putfield"@,
        182 => "invokevirtual"@,
        183 => "invokespecial"@,
        184 => "invokestatic"@,
        185 => "invokeinterface"@,
        186 => "invokedynamic"@,
        187 => "new"@,
        188 => "newarray"@,
        189 => "anewarray"@,
        190 => "arraylength"@,
        191 => "athrow"@,
        192 => "checkcast"@,
        193 => "instanceof"@,
        194 => "monitorenter"@,
        195 => "monitorexit"@,
        196 => "wide"@,
        197 => "multianewarray"@,
        198 => "ifnull"@,
        199 => "ifnonnull"@,
        200 => "goto_w"@,
        201 => "jsr_w"@,
        202 => "breakpoint"@,
        254 => "impdep1"@,
        255 => "impdep2"@,
        _ => Seq::empty(),
    }
}

/// The name of an instruction is the mnemonic of its opcode: naming and encoding agree with
/// the table of the JVM specification for every instruction.
pub proof fn lemma_name_is_mnemonic_of_opcode(i: Instruction)
    ensures
        name_of(i) == mnemonic(opcode_of(i)),
{
}

/// Two instructions with the same opcode have the same name: the opcode of an instruction
/// fixes its kind.
pub proof fn lemma_same_opcode_same_name(i: Instruction, j: Instruction)
    requires
        opcode_of(i) == opcode_of(j),
    ensures
        name_of(i) == name_of(j),
{
    lemma_name_is_mnemonic_of_opcode(i);
    lemma_name_is_mnemonic_of_opcode(j);
}

impl Instruction {
    /// Gets the opcode.
    pub fn opcode(&self) -> (r: u8)
        ensures
            r == opcode_of(*self),
            mnemonic(r) == name_of(*self),
    {
        proof {
            lemma_name_is_mnemonic_of_opcode(*self);
        }
        match self {
            Instruction::Nop => 0x00,
            Instruction::AConstNull => 0x01,
            Instruction::IConstM1 => 0x02,
            Instruction::IConst0 => 0x03,
            Instruction::IConst1 => 0x04,
            Instruction::IConst2 => 0x05,
            Instruction::IConst3 => 0x06,
            Instruction::IConst4 => 0x07,
            Instruction::IConst5 => 0x08,
            Instruction::LConst0 => 0x09,
            Instruction::LConst1 => 0x0a,
            Instruction::FConst0 => 0x0b,
            Instruction::FConst1 => 0x0c,
            Instruction::FConst2 => 0x0d,
            Instruction::DConst0 => 0x0e,
            Instruction::DConst1 => 0x0f,
            Instruction::BiPush(_) => 0x10,
            Instruction::SiPush(_) => 0x11,
            Instruction::Ldc(_) => 0x12,
            Instruction::LdcW(_) => 0x13,
            Instruction::Ldc2W(_) => 0x14,
            Instruction::ILoad(_) => 0x15,
            Instruction::LLoad(_) => 0x16,
            Instruction::FLoad(_) => 0x17,
            Instruction::DLoad(_) => 0x18,
            Instruction::ALoad(_) => 0x19,
            Instruction::ILoad0 => 0x1a,
            Instruction::ILoad1 => 0x1b,
            Instruction::ILoad2 => 0x1c,
            Instruction::ILoad3 => 0x1d,
            Instruction::LLoad0 => 0x1e,
            Instruction::LLoad1 => 0x1f,
            Instruction::LLoad2 => 0x20,
            Instruction::LLoad3 => 0x21,
            Instruction::FLoad0 => 0x22,
            Instruction::FLoad1 => 0x23,
            Instruction::FLoad2 => 0x24,
            Instruction::FLoad3 => 0x25,
            Instruction::DLoad0 => 0x26,
            Instruction::DLoad1 => 0x27,
            Instruction::DLoad2 => 0x28,
            Instruction::DLoad3 => 0x29,
            Instruction::ALoad0 => 0x2a,
            Instruction::ALoad1 => 0x2b,
            Instruction::ALoad2 => 0x2c,
            Instruction::ALoad3 => 0x2d,
            Instruction::IALoad => 0x2e,
            Instruction::LALoad => 0x2f,
            Instruction::FALoad => 0x30,
            Instruction::DALoad => 0x31,
            Instruction::AALoad => 0x32,
            Instruction::BALoad => 0x33,
            Instruction::CALoad => 0x34,
            Instruction::SALoad => 0x35,
            Instruction::IStore(_) => 0x36,
            Instruction::LStore(_) => 0x37,
            Instruction::FStore(_) => 0x38,
            Instruction::DStore(_) => 0x39,
            Instruction::AStore(_) => 0x3a,
            Instruction::IStore0 => 0x3b,
            Instruction::IStore1 => 0x3c,
            Instruction::IStore2 => 0x3d,
            Instruction::IStore3 => 0x3e,
            Instruction::LStore0 => 0x3f,
            Instruction::LStore1 => 0x40,
            Instruction::LStore2 => 0x41,
            Instruction::LStore3 => 0x42,
            Instruction::FStore0 => 0x43,
            Instruction::FStore1 => 0x44,
            Instruction::FStore2 => 0x45,
            Instruction::FStore3 => 0x46,
            Instruction::DStore0 => 0x47,
            Instruction::DStore1 => 0x48,
            Instruction::DStore2 => 0x49,
            Instruction::DStore3 => 0x4a,
            Instruction::AStore0 => 0x4b,
            Instruction::AStore1 => 0x4c,
            Instruction::AStore2 => 0x4d,
            Instruction::AStore3 => 0x4e,
            Instruction::IAStore => 0x4f,
            Instruction::LAStore => 0x50,
            Instruction::FAStore => 0x51,
            Instruction::DAStore => 0x52,
            Instruction::AAStore => 0x53,
            Instruction::BAStore => 0x54,
            Instruction::CAStore => 0x55,
            Instruction::SAStore => 0x56,
            Instruction::Pop => 0x57,
            Instruction::Pop2 => 0x58,
            Instruction::Dup => 0x59,
            Instruction::DupX1 => 0x5a,
            Instruction::DupX2 => 0x5b,
            Instruction::Dup2 => 0x5c,
            Instruction::Dup2X1 => 0x5d,
            Instruction::Dup2X2 => 0x5e,
            Instruction::Swap => 0x5f,
            Instruction::IAdd => 0x60,
            Instruction::LAdd => 0x61,
            Instruction::FAdd => 0x62,
            Instruction::DAdd => 0x63,
            Instruction::ISub => 0x64,
            Instruction::LSub => 0x65,
            Instruction::FSub => 0x66,
            Instruction::DSub => 0x67,
            Instruction::IMul => 0x68,
            Instruction::LMul => 0x69,
            Instruction::FMul => 0x6a,
            Instruction::DMul => 0x6b,
            Instruction::IDiv => 0x6c,
            Instruction::LDiv => 0x6d,
            Instruction::FDiv => 0x6e,
            Instruction::DDiv => 0x6f,
            Instruction::IRem => 0x70,
            Instruction::LRem => 0x71,
            Instruction::FRem => 0x72,
            Instruction::DRem => 0x73,
            Instruction::INeg => 0x74,
            Instruction::LNeg => 0x75,
            Instruction::FNeg => 0x76,
            Instruction::DNeg => 0x77,
            Instruction::IShl => 0x78,
            Instruction::LShl => 0x79,
            Instruction::IShr => 0x7a,
            Instruction::LShr => 0x7b,
            Instruction::IUShr => 0x7c,
            Instruction::LUShr => 0x7d,
            Instruction::IAnd => 0x7e,
            Instruction::LAnd => 0x7f,
            Instruction::IOr => 0x80,
            Instruction::LOr => 0x81,
            Instruction::IXor => 0x82,
            Instruction::LXor => 0x83,
            Instruction::IInc(_, _) => 0x84,
            Instruction::I2L => 0x85,
            Instruction::I2F => 0x86,
            Instruction::I2D => 0x87,
            Instruction::L2I => 0x88,
            Instruction::L2F => 0x89,
            Instruction::L2D => 0x8a,
            Instruction::F2I => 0x8b,
            Instruction::F2L => 0x8c,
            Instruction::F2D => 0x8d,
            Instruction::D2I => 0x8e,
            Instruction::D2L => 0x8f,
            Instruction::D2F => 0x90,
            Instruction::I2B => 0x91,
            Instruction::I2C => 0x92,
            Instruction::I2S => 0x93,
            Instruction::LCmp => 0x94,
            Instruction::FCmpL => 0x95,
            Instruction::FCmpG => 0x96,
            Instruction::DCmpL => 0x97,
            Instruction::DCmpG => 0x98,
            Instruction::IfEq(_) => 0x99,
            Instruction::IfNe(_) => 0x9a,
            Instruction::IfLt(_) => 0x9b,
            Instruction::IfGe(_) => 0x9c,
            Instruction::IfGt(_) => 0x9d,
            Instruction::IfLe(_) => 0x9e,
            Instruction::IfICmpEq(_) => 0x9f,
            Instruction::IfICmpNe(_) => 0xa0,
            Instruction::IfICmpLt(_) => 0xa1,
            Instruction::IfICmpGe(_) => 0xa2,
            Instruction::IfICmpGt(_) => 0xa3,
            Instruction::IfICmpLe(_) => 0xa4,
            Instruction::IfACmpEq(_) => 0xa5,
            Instruction::IfACmpNe(_) => 0xa6,
            Instruction::Goto(_) => 0xa7,
            Instruction::Jsr(_) => 0xa8,
            Instruction::Ret(_) => 0xa9,
            Instruction::TableSwitch { .. } => 0xaa,
            Instruction::LookupSwitch { .. } => 0xab,
            Instruction::IReturn => 0xac,
            Instruction::LReturn => 0xad,
            Instruction::FReturn => 0xae,
            Instruction::DReturn => 0xaf,
            Instruction::AReturn => 0xb0,
            Instruction::Return => 0xb1,
            Instruction::GetStatic(_) => 0xb2,
            Instruction::PutStatic(_) => 0xb3,
            Instruction::GetField(_) => 0xb4,
            Instruction::PutField(_) => 0xb5,
            Instruction::InvokeVirtual(_) => 0xb6,
            Instruction::InvokeSpecial(_) => 0xb7,
            Instruction::InvokeStatic(_) => 0xb8,
            Instruction::InvokeInterface(_, _) => 0xb9,
            Instruction::InvokeDynamic { .. } => 0xba,
            Instruction::New(_) => 0xbb,
            Instruction::NewArray(_) => 0xbc,
            Instruction::ANewArray(_) => 0xbd,
            Instruction::ArrayLength => 0xbe,
            Instruction::AThrow => 0xbf,
            Instruction::CheckCast(_) => 0xc0,
            Instruction::InstanceOf(_) => 0xc1,
            Instruction::MonitorEnter => 0xc2,
            Instruction::MonitorExit => 0xc3,
            Instruction::Wide(_) => 0xc4,
            Instruction::MultiANewArray(_, _) => 0xc5,
            Instruction::IfNull(_) => 0xc6,
            Instruction::IfNonNull(_) => 0xc7,
            Instruction::GotoW(_) => 0xc8,
            Instruction::JsrW(_) => 0xc9,
            Instruction::Breakpoint => 0xca,
            Instruction::ImpDep1 => 0xfe,
            Instruction::ImpDep2 => 0xff,
        }
    }

    /// Gets the name of the instruction.
    pub fn name(&self) -> (r: &'static str)
        ensures
            r@ == name_of(*self),
            r@ == mnemonic(opcode_of(*self)),
    {
        proof {
            lemma_name_is_mnemonic_of_opcode(*self);
            reveal_strlit("aaload");
            reveal_strlit("aastore");
            reveal_strlit("aconst_null");
            reveal_strlit("aload");
            reveal_strlit("aload_0");
            reveal_strlit("aload_1");
            reveal_strlit("aload_2");
            reveal_strlit("aload_3");
            reveal_strlit("anewarray");
            reveal_strlit("areturn");
            reveal_strlit("arraylength");
            reveal_strlit("astore");
            reveal_strlit("astore_0");
            reveal_strlit("astore_1");
            reveal_strlit("astore_2");
            reveal_strlit("astore_3");
            reveal_strlit("athrow");
            reveal_strlit("baload");
            reveal_strlit("bastore");
            reveal_strlit("bipush");
            reveal_strlit("breakpoint");
            reveal_strlit("caload");
            reveal_strlit("castore");
            reveal_strlit("checkcast");
            reveal_strlit("d2f");
            reveal_strlit("d2i");
            reveal_strlit("d2l");
            reveal_strlit("dadd");
            reveal_strlit("daload");
            reveal_strlit("dastore");
            reveal_strlit("dcmpg");
            reveal_strlit("dcmpl");
            reveal_strlit("dconst_0");
            reveal_strlit("dconst_1");
            reveal_strlit("ddiv");
            reveal_strlit("dload");
            reveal_strlit("dload_0");
            reveal_strlit("dload_1");
            reveal_strlit("dload_2");
            reveal_strlit("dload_3");
            reveal_strlit("dmul");
            reveal_strlit("dneg");
            reveal_strlit("drem");
            reveal_strlit("dreturn");
            reveal_strlit("dstore");
            reveal_strlit("dstore_0");
            reveal_strlit("dstore_1");
            reveal_strlit("dstore_2");
            reveal_strlit("dstore_3");
            reveal_strlit("dsub");
            reveal_strlit("dup");
            reveal_strlit("dup2");
            reveal_strlit("dup2_x1");
            reveal_strlit("dup2_x2");
            reveal_strlit("dup_x1");
            reveal_strlit("dup_x2");
            reveal_strlit("f2d");
            reveal_strlit("f2i");
            reveal_strlit("f2l");
            reveal_strlit("fadd");
            reveal_strlit("faload");
            reveal_strlit("fastore");
            reveal_strlit("fcmpg");
            reveal_strlit("fcmpl");
            reveal_strlit("fconst_0");
            reveal_strlit("fconst_1");
            reveal_strlit("fconst_2");
            reveal_strlit("fdiv");
            reveal_strlit("fload");
            reveal_strlit("fload_0");
            reveal_strlit("fload_1");
            reveal_strlit("fload_2");
            reveal_strlit("fload_3");
            reveal_strlit("fmul");
            reveal_strlit("fneg");
            reveal_strlit("frem");
            reveal_strlit("freturn");
            reveal_strlit("fstore");
            reveal_strlit("fstore_0");
            reveal_strlit("fstore_1");
            reveal_strlit("fstore_2");
            reveal_strlit("fstore_3");
            reveal_strlit("fsub");
            reveal_strlit("getfield");
            reveal_strlit("getstatic");
            reveal_strlit("goto");
            reveal_strlit("goto_w");
            reveal_strlit("i2b");
            reveal_strlit("i2c");
            reveal_strlit("i2d");
            reveal_strlit("i2f");
            reveal_strlit("i2l");
            reveal_strlit("i2s");
            reveal_strlit("iadd");
            reveal_strlit("iaload");
            reveal_strlit("iand");
            reveal_strlit("iastore");
            reveal_strlit("iconst_0");
            reveal_strlit("iconst_1");
            reveal_strlit("iconst_2");
            reveal_strlit("iconst_3");
            reveal_strlit("iconst_4");
            reveal_strlit("iconst_5");
            reveal_strlit("iconst_m1");
            reveal_strlit("idiv");
            reveal_strlit("if_acmpeq");
            reveal_strlit("if_acmpne");
            reveal_strlit("if_icmpeq");
            reveal_strlit("if_icmpge");
            reveal_strlit("if_icmpgt");
            reveal_strlit("if_icmple");
            reveal_strlit("if_icmplt");
            reveal_strlit("if_icmpne");
            reveal_strlit("ifeq");
            reveal_strlit("ifge");
            reveal_strlit("ifgt");
            reveal_strlit("ifle");
            reveal_strlit("iflt");
            reveal_strlit("ifne");
            reveal_strlit("ifnonnull");
            reveal_strlit("ifnull");
            reveal_strlit("iinc");
            reveal_strlit("iload");
            reveal_strlit("iload_0");
            reveal_strlit("iload_1");
            reveal_strlit("iload_2");
            reveal_strlit("iload_3");
            reveal_strlit("impdep1");
            reveal_strlit("impdep2");
            reveal_strlit("imul");
            reveal_strlit("ineg");
            reveal_strlit("instanceof");
            reveal_strlit("invokedynamic");
            reveal_strlit("invokeinterface");
            reveal_strlit("invokespecial");
            reveal_strlit("invokestatic");
            reveal_strlit("invokevirtual");
            reveal_strlit("ior");
            reveal_strlit("irem");
            reveal_strlit("ireturn");
            reveal_strlit("ishl");
            reveal_strlit("ishr");
            reveal_strlit("istore");
            reveal_strlit("istore_0");
            reveal_strlit("istore_1");
            reveal_strlit("istore_2");
            reveal_strlit("istore_3");
            reveal_strlit("isub");
            reveal_strlit("iushr");
            reveal_strlit("ixor");
            reveal_strlit("jsr");
            reveal_strlit("jsr_w");
            reveal_strlit("l2d");
            reveal_strlit("l2f");
            reveal_strlit("l2i");
            reveal_strlit("ladd");
            reveal_strlit("laload");
            reveal_strlit("land");
            reveal_strlit("lastore");
            reveal_strlit("lcmp");
            reveal_strlit("lconst_0");
            reveal_strlit("lconst_1");
            reveal_strlit("ldc");
            reveal_strlit("ldc2_w");
            reveal_strlit("ldc_w");
            reveal_strlit("ldiv");
            reveal_strlit("lload");
            reveal_strlit("lload_0");
            reveal_strlit("lload_1");
            reveal_strlit("lload_2");
            reveal_strlit("lload_3");
            reveal_strlit("lmul");
            reveal_strlit("lneg");
            reveal_strlit("lookupswitch");
            reveal_strlit("lor");
            reveal_strlit("lrem");
            reveal_strlit("lreturn");
            reveal_strlit("lshl");
            reveal_strlit("lshr");
            reveal_strlit("lstore");
            reveal_strlit("lstore_0");
            reveal_strlit("lstore_1");
            reveal_strlit("lstore_2");
            reveal_strlit("lstore_3");
            reveal_strlit("lsub");
            reveal_strlit("lushr");
            reveal_strlit("lxor");
            reveal_strlit("monitorenter");
            reveal_strlit("monitorexit");
            reveal_strlit("multianewarray");
            reveal_strlit("new");
            reveal_strlit("newarray");
            reveal_strlit("nop");
            reveal_strlit("pop");
            reveal_strlit("pop2");
            reveal_strlit("putfield");
            reveal_strlit("putstatic");
            reveal_strlit("ret");
            reveal_strlit("return");
            reveal_strlit("saload");
            reveal_strlit("sastore");
            reveal_strlit("sipush");
            reveal_strlit("swap");
            reveal_strlit("tableswitch");
            reveal_strlit("wide");
        }
        match self {
            Instruction::Nop => "nop",
            Instruction::AConstNull => "aconst_null",
            Instruction::IConstM1 => "iconst_m1",
            Instruction::IConst0 => "iconst_0",
            Instruction::IConst1 => "iconst_1",
            Instruction::IConst2 => "iconst_2",
            Instruction::IConst3 => "iconst_3",
            Instruction::IConst4 => "iconst_4",
            Instruction::IConst5 => "iconst_5",
            Instruction::LConst0 => "lconst_0",
            Instruction::LConst1 => "lconst_1",
            Instruction::FConst0 => "fconst_0",
            Instruction::FConst1 => "fconst_1",
            Instruction::FConst2 => "fconst_2",
            Instruction::DConst0 => "dconst_0",
            Instruction::DConst1 => "dconst_1",
            Instruction::BiPush(_) => "bipush",
            Instruction::SiPush(_) => "sipush",
            Instruction::Ldc(_) => "ldc",
            Instruction::LdcW(_) => "ldc_w",
            Instruction::Ldc2W(_) => "ldc2_w",
            Instruction::ILoad(_) => "iload",
            Instruction::LLoad(_) => "lload",
            Instruction::FLoad(_) => "fload",
            Instruction::DLoad(_) => "dload",
            Instruction::ALoad(_) => "aload",
            Instruction::ILoad0 => "iload_0",
            Instruction::ILoad1 => "iload_1",
            Instruction::ILoad2 => "iload_2",
            Instruction::ILoad3 => "iload_3",
            Instruction::LLoad0 => "lload_0",
            Instruction::LLoad1 => "lload_1",
            Instruction::LLoad2 => "lload_2",
            Instruction::LLoad3 => "lload_3",
            Instruction::FLoad0 => "fload_0",
            Instruction::FLoad1 => "fload_1",
            Instruction::FLoad2 => "fload_2",
            Instruction::FLoad3 => "fload_3",
            Instruction::DLoad0 => "dload_0",
            Instruction::DLoad1 => "dload_1",
            Instruction::DLoad2 => "dload_2",
            Instruction::DLoad3 => "dload_3",
            Instruction::ALoad0 => "aload_0",
            Instruction::ALoad1 => "aload_1",
            Instruction::ALoad2 => "aload_2",
            Instruction::ALoad3 => "aload_3",
            Instruction::IALoad => "iaload",
            Instruction::LALoad => "laload",
            Instruction::FALoad => "faload",
            Instruction::DALoad => "daload",
            Instruction::AALoad => "aaload",
            Instruction::BALoad => "baload",
            Instruction::CALoad => "caload",
            Instruction::SALoad => "saload",
            Instruction::IStore(_) => "istore",
            Instruction::LStore(_) => "lstore",
            Instruction::FStore(_) => "fstore",
            Instruction::DStore(_) => "dstore",
            Instruction::AStore(_) => "astore",
            Instruction::IStore0 => "istore_0",
            Instruction::IStore1 => "istore_1",
            Instruction::IStore2 => "istore_2",
            Instruction::IStore3 => "istore_3",
            Instruction::LStore0 => "lstore_0",
            Instruction::LStore1 => "lstore_1",
            Instruction::LStore2 => "lstore_2",
            Instruction::LStore3 => "lstore_3",
            Instruction::FStore0 => "fstore_0",
            Instruction::FStore1 => "fstore_1",
            Instruction::FStore2 => "fstore_2",
            Instruction::FStore3 => "fstore_3",
            Instruction::DStore0 => "dstore_0",
            Instruction::DStore1 => "dstore_1",
            Instruction::DStore2 => "dstore_2",
            Instruction::DStore3 => "dstore_3",
            Instruction::AStore0 => "astore_0",
            Instruction::AStore1 => "astore_1",
            Instruction::AStore2 => "astore_2",
            Instruction::AStore3 => "astore_3",
            Instruction::IAStore => "iastore",
            Instruction::LAStore => "lastore",
            Instruction::FAStore => "fastore",
            Instruction::DAStore => "dastore",
            Instruction::AAStore => "aastore",
            Instruction::BAStore => "bastore",
            Instruction::CAStore => "castore",
            Instruction::SAStore => "sastore",
            Instruction::Pop => "pop",
            Instruction::Pop2 => "pop2",
            Instruction::Dup => "dup",
            Instruction::DupX1 => "dup_x1",
            Instruction::DupX2 => "dup_x2",
            Instruction::Dup2 => "dup2",
            Instruction::Dup2X1 => "dup2_x1",
            Instruction::Dup2X2 => "dup2_x2",
            Instruction::Swap => "swap",
            Instruction::IAdd => "iadd",
            Instruction::LAdd => "ladd",
            Instruction::FAdd => "fadd",
            Instruction::DAdd => "dadd",
            Instruction::ISub => "isub",
            Instruction::LSub => "lsub",
            Instruction::FSub => "fsub",
            Instruction::DSub => "dsub",
            Instruction::IMul => "imul",
            Instruction::LMul => "lmul",
            Instruction::FMul => "fmul",
            Instruction::DMul => "dmul",
            Instruction::IDiv => "idiv",
            Instruction::LDiv => "ldiv",
            Instruction::FDiv => "fdiv",
            Instruction::DDiv => "ddiv",
            Instruction::IRem => "irem",
            Instruction::LRem => "lrem",
            Instruction::FRem => "frem",
            Instruction::DRem => "drem",
            Instruction::INeg => "ineg",
            Instruction::LNeg => "lneg",
            Instruction::FNeg => "fneg",
            Instruction::DNeg => "dneg",
            Instruction::IShl => "ishl",
            Instruction::LShl => "lshl",
            Instruction::IShr => "ishr",
            Instruction::LShr => "lshr",
            Instruction::IUShr => "iushr",
            Instruction::LUShr => "lushr",
            Instruction::IAnd => "iand",
            Instruction::LAnd => "land",
            Instruction::IOr => "ior",
            Instruction::LOr => "lor",
            Instruction::IXor => "ixor",
            Instruction::LXor => "lxor",
            Instruction::IInc(_, _) => "iinc",
            Instruction::I2L => "i2l",
            Instruction::I2F => "i2f",
            Instruction::I2D => "i2d",
            Instruction::L2I => "l2i",
            Instruction::L2F => "l2f",
            Instruction::L2D => "l2d",
            Instruction::F2I => "f2i",
            Instruction::F2L => "f2l",
            Instruction::F2D => "f2d",
            Instruction::D2I => "d2i",
            Instruction::D2L => "d2l",
            Instruction::D2F => "d2f",
            Instruction::I2B => "i2b",
            Instruction::I2C => "i2c",
            Instruction::I2S => "i2s",
            Instruction::LCmp => "lcmp",
            Instruction::FCmpL => "fcmpl",
            Instruction::FCmpG => "fcmpg",
            Instruction::DCmpL => "dcmpl",
            Instruction::DCmpG => "dcmpg",
            Instruction::IfEq(_) => "ifeq",
            Instruction::IfNe(_) => "ifne",
            Instruction::IfLt(_) => "iflt",
            Instruction::IfGe(_) => "ifge",
            Instruction::IfGt(_) => "ifgt",
            Instruction::IfLe(_) => "ifle",
            Instruction::IfICmpEq(_) => "if_icmpeq",
            Instruction::IfICmpNe(_) => "if_icmpne",
            Instruction::IfICmpLt(_) => "if_icmplt",
            Instruction::IfICmpGe(_) => "if_icmpge",
            Instruction::IfICmpGt(_) => "if_icmpgt",
            Instruction::IfICmpLe(_) => "if_icmple",
            Instruction::IfACmpEq(_) => "if_acmpeq",
            Instruction::IfACmpNe(_) => "if_acmpne",
            Instruction::Goto(_) => "goto",
            Instruction::Jsr(_) => "jsr",
            Instruction::Ret(_) => "ret",
            Instruction::TableSwitch { .. } => "tableswitch",
            Instruction::LookupSwitch { .. } => "lookupswitch",
            Instruction::IReturn => "ireturn",
            Instruction::LReturn => "lreturn",
            Instruction::FReturn => "freturn",
            Instruction::DReturn => "dreturn",
            Instruction::AReturn => "areturn",
            Instruction::Return => "return",
            Instruction::GetStatic(_) => "getstatic",
            Instruction::PutStatic(_) => "putstatic",
            Instruction::GetField(_) => "getfield",
            Instruction::PutField(_) => "putfield",
            Instruction::InvokeVirtual(_) => "invokevirtual",
            Instruction::InvokeSpecial(_) => "invokespecial",
            Instruction::InvokeStatic(_) => "invokestatic",
            Instruction::InvokeInterface(_, _) => "invokeinterface",
            Instruction::InvokeDynamic { .. } => "invokedynamic",
            Instruction::New(_) => "new",
            Instruction::NewArray(_) => "newarray",
            Instruction::ANewArray(_) => "anewarray",
            Instruction::ArrayLength => "arraylength",
            Instruction::AThrow => "athrow",
            Instruction::CheckCast(_) => "checkcast",
            Instruction::InstanceOf(_) => "instanceof",
            Instruction::MonitorEnter => "monitorenter",
            Instruction::MonitorExit => "monitorexit",
            Instruction::Wide(_) => "wide",
            Instruction::MultiANewArray(_, _) => "multianewarray",
            Instruction::IfNull(_) => "ifnull",
            Instruction::IfNonNull(_) => "ifnonnull",
            Instruction::GotoW(_) => "goto_w",
            Instruction::JsrW(_) => "jsr_w",
            Instruction::Breakpoint => "breakpoint",
            Instruction::ImpDep1 => "impdep1",
            Instruction::ImpDep2 => "impdep2",
        }
    }
}

/// The decimal digits of a natural number.
pub open spec fn digits(n: nat) -> Seq<char>
    decreases n,
{
    if n < 10 {
        seq![hex_digit(n as int)]
    } else {
        digits(n / 10).push(hex_digit((n % 10) as int))
    }
}

/// The decimal text of an integer, with a leading `-` when it is negative.
pub open spec fn decimal(v: int) -> Seq<char> {
    if v < 0 {
        seq!['-'] + digits((-v) as nat)
    } else {
        digits(v as nat)
    }
}

/// Appends the decimal digits of `n`.
fn push_digits(s: &mut String, n: u64)
    ensures
        final(s)@ == old(s)@ + digits(n as nat),
    decreases n,
{
    if n >= 10 {
        push_digits(s, n / 10);
    }
    let d: u16 = (n % 10) as u16;
    push_hex_digit(s, d);
    assert(s@ =~= old(s)@ + digits(n as nat));
}

/// Appends the decimal text of `v`.
pub fn push_decimal(s: &mut String, v: i64)
    requires
        v > i64::MIN,
    ensures
        final(s)@ == old(s)@ + decimal(v as int),
{
    if v < 0 {
        proof {
            reveal_strlit("-");
        }
        s.append("-");
        let m: u64 = (-v) as u64;
        push_digits(s, m);
        assert(s@ =~= old(s)@ + decimal(v as int));
    } else {
        push_digits(s, v as u64);
    }
}

/// Appends the decimal text of a 64-bit value.
pub fn push_i64(s: &mut String, v: i64)
    ensures
        final(s)@ == old(s)@ + decimal(v as int),
{
    if v < 0 {
        proof {
            reveal_strlit("-");
        }
        s.append("-");
        let m: u64 = (-(v as i128)) as u64;
        assert(m as int == -(v as int));
        push_digits(s, m);
        assert(s@ =~= old(s)@ + decimal(v as int));
    } else {
        push_digits(s, v as u64);
    }
}

/// The text of an instruction with the `wide` prefix.
pub open spec fn wide_text(w: WideInstruction) -> Seq<char> {
    match w {
        WideInstruction::ILoad(i) => "iload "@ + decimal(i as int),
        WideInstruction::LLoad(i) => "lload "@ + decimal(i as int),
        WideInstruction::FLoad(i) => "fload "@ + decimal(i as int),
        WideInstruction::DLoad(i) => "dload "@ + decimal(i as int),
        WideInstruction::ALoad(i) => "aload "@ + decimal(i as int),
        WideInstruction::IStore(i) => "istore "@ + decimal(i as int),
        WideInstruction::LStore(i) => "lstore "@ + decimal(i as int),
        WideInstruction::FStore(i) => "fstore "@ + decimal(i as int),
        WideInstruction::DStore(i) => "dstore "@ + decimal(i as int),
        WideInstruction::AStore(i) => "astore "@ + decimal(i as int),
        WideInstruction::IInc(i, v) => "iinc "@ + decimal(i as int) + " "@ + decimal(v as int),
        WideInstruction::Ret(i) => "ret "@ + decimal(i as int),
    }
}

impl WideInstruction {
    /// Formats the instruction, e.g., `iinc 500 50`.
    pub fn to_string(&self) -> (r: String)
        ensures
            r@ == wide_text(*self),
    {
        let mut s = String::new();
        match self {
            WideInstruction::ILoad(i) => { s.append("iload "); push_decimal(&mut s, *i as i64); },
            WideInstruction::LLoad(i) => { s.append("lload "); push_decimal(&mut s, *i as i64); },
            WideInstruction::FLoad(i) => { s.append("fload "); push_decimal(&mut s, *i as i64); },
            WideInstruction::DLoad(i) => { s.append("dload "); push_decimal(&mut s, *i as i64); },
            WideInstruction::ALoad(i) => { s.append("aload "); push_decimal(&mut s, *i as i64); },
            WideInstruction::IStore(i) => { s.append("istore "); push_decimal(&mut s, *i as i64); },
            WideInstruction::LStore(i) => { s.append("lstore "); push_decimal(&mut s, *i as i64); },
            WideInstruction::FStore(i) => { s.append("fstore "); push_decimal(&mut s, *i as i64); },
            WideInstruction::DStore(i) => { s.append("dstore "); push_decimal(&mut s, *i as i64); },
            WideInstruction::AStore(i) => { s.append("astore "); push_decimal(&mut s, *i as i64); },
            WideInstruction::IInc(i, v) => {
                s.append("iinc ");
                push_decimal(&mut s, *i as i64);
                s.append(" ");
                push_decimal(&mut s, *v as i64);
            },
            WideInstruction::Ret(i) => { s.append("ret "); push_decimal(&mut s, *i as i64); },
        }
        assert(s@ =~= wide_text(*self));
        s
    }
}

/// The lines that list the targets of a `tableswitch` whose keys start at `low`.
pub open spec fn table_lines(low: int, targets: Seq<ProgramCounter>) -> Seq<char>
    decreases targets.len(),
{
    if targets.len() == 0 {
        Seq::empty()
    } else {
        table_lines(low, targets.drop_last()) + "  "@ + decimal(low + targets.len() - 1) + ": "@ + pc_text(
            targets.last()@,
        ) + "\n"@
    }
}

/// The lines that list the keys and targets of a `lookupswitch`.
pub open spec fn lookup_lines(targets: Seq<(i32, ProgramCounter)>) -> Seq<char>
    decreases targets.len(),
{
    if targets.len() == 0 {
        Seq::empty()
    } else {
        lookup_lines(targets.drop_last()) + "  "@ + decimal(targets.last().0 as int) + ": "@ + pc_text(
            targets.last().1@,
        ) + "\n"@
    }
}

/// The number of keys from `low` to `high`.
pub open spec fn key_count(low: i32, high: i32) -> int {
    if low <= high {
        high - low + 1
    } else {
        0
    }
}

/// Whether an instruction can be formatted: any constant that it loads is not a
/// floating-point value, and a `tableswitch` has one target for each of its keys.
pub open spec fn displayable(i: Instruction) -> bool {
    match i {
        Instruction::TableSwitch { range_start, range_end, jump_targets, .. } => jump_targets@.len() == key_count(
            range_start,
            range_end,
        ),
        Instruction::Ldc(c) | Instruction::LdcW(c) | Instruction::Ldc2W(c) => constant_shown(c),
        _ => true,
    }
}

/// The text of an instruction: its name, followed by its operands.
pub open spec fn text_of(i: Instruction) -> Seq<char> {
    match i {
        Instruction::BiPush(v) => name_of(i) + " "@ + decimal(v as int),
        Instruction::SiPush(v) => name_of(i) + " "@ + decimal(v as int),
        Instruction::ILoad(x) | Instruction::LLoad(x) | Instruction::FLoad(x) | Instruction::DLoad(x) | Instruction::ALoad(x) | Instruction::IStore(x) | Instruction::LStore(x) | Instruction::FStore(x) | Instruction::DStore(x) | Instruction::AStore(x) | Instruction::Ret(x) => name_of(i) + " "@ + decimal(x as int),
        Instruction::IfEq(t) | Instruction::IfNe(t) | Instruction::IfLt(t) | Instruction::IfGe(t) | Instruction::IfGt(t) | Instruction::IfLe(t) | Instruction::IfICmpEq(t) | Instruction::IfICmpNe(t) | Instruction::IfICmpLt(t) | Instruction::IfICmpGe(t) | Instruction::IfICmpGt(t) | Instruction::IfICmpLe(t) | Instruction::IfACmpEq(t) | Instruction::IfACmpNe(t) | Instruction::Goto(t) | Instruction::Jsr(t) | Instruction::IfNull(t) | Instruction::IfNonNull(t) | Instruction::GotoW(t) | Instruction::JsrW(t) => name_of(i) + " "@ + pc_text(t@),
        Instruction::IInc(x, v) => name_of(i) + " "@ + decimal(x as int) + " "@ + decimal(v as int),
        Instruction::TableSwitch { range_start, range_end, jump_targets, default } => name_of(i) + " {\n  range: "@
            + decimal(range_start as int) + "..="@ + decimal(range_end as int) + "\n  default: "@ + pc_text(default@)
            + "\n"@ + table_lines(range_start as int, jump_targets@) + "}"@,
        Instruction::LookupSwitch { default, match_targets } => name_of(i) + " {\n  default: "@ + pc_text(default@)
            + "\n"@ + lookup_lines(match_targets@) + "}"@,
        Instruction::Wide(w) => name_of(i) + " "@ + wide_text(w),
        Instruction::New(c) | Instruction::ANewArray(c) => name_of(i) + " "@ + c.binary_name@,
        Instruction::Ldc(c) | Instruction::LdcW(c) | Instruction::Ldc2W(c) => name_of(i) + " "@ + constant_text(c),
        Instruction::GetStatic(f) | Instruction::PutStatic(f) | Instruction::GetField(f) | Instruction::PutField(f) => name_of(i)
            + " "@ + field_ref_text(f),
        Instruction::InvokeVirtual(m) | Instruction::InvokeSpecial(m) | Instruction::InvokeStatic(m) => name_of(i) + " "@
            + method_ref_text(m),
        Instruction::InvokeInterface(m, count) => name_of(i) + " "@ + method_ref_text(m) + " count "@ + decimal(
            count as int,
        ),
        Instruction::InvokeDynamic { bootstrap_method_index, name, descriptor } => name_of(i) + " #"@ + decimal(
            bootstrap_method_index as int,
        ) + " "@ + name@ + " "@ + descriptor_text(descriptor),
        Instruction::NewArray(p) => name_of(i) + " "@ + primitive_text(p),
        Instruction::CheckCast(t) | Instruction::InstanceOf(t) => name_of(i) + " "@ + field_type_text(t),
        Instruction::MultiANewArray(t, dims) => name_of(i) + " "@ + field_type_text(t) + " "@ + decimal(dims as int),
        _ => name_of(i),
    }
}

/// Appends the lines that list the targets of a `tableswitch` whose keys start at `low`.
fn push_table_lines(s: &mut String, low: i32, targets: &Vec<ProgramCounter>)
    requires
        low + targets@.len() - 1 <= i32::MAX,
    ensures
        final(s)@ == old(s)@ + table_lines(low as int, targets@),
{
    let mut k: usize = 0;
    assert(targets@.take(0) =~= Seq::<ProgramCounter>::empty());
    while k < targets.len()
        invariant
            k <= targets@.len(),
            low + targets@.len() - 1 <= i32::MAX,
            s@ == old(s)@ + table_lines(low as int, targets@.take(k as int)),
        decreases targets@.len() - k,
    {
        let ghost before = s@;
        s.append("  ");
        let value: i64 = low as i64 + k as i64;
        push_decimal(s, value);
        s.append(": ");
        s.append(targets[k].to_string().as_str());
        s.append("\n");
        proof {
            let t = targets@.take(k + 1);
            assert(t.drop_last() =~= targets@.take(k as int));
            assert(t.last() == targets@[k as int]);
            assert(s@ =~= old(s)@ + table_lines(low as int, t));
        }
        k = k + 1;
    }
    assert(targets@.take(k as int) =~= targets@);
}

/// Appends the lines that list the keys and targets of a `lookupswitch`.
fn push_lookup_lines(s: &mut String, targets: &Vec<(i32, ProgramCounter)>)
    ensures
        final(s)@ == old(s)@ + lookup_lines(targets@),
{
    let mut k: usize = 0;
    assert(targets@.take(0) =~= Seq::<(i32, ProgramCounter)>::empty());
    while k < targets.len()
        invariant
            k <= targets@.len(),
            s@ == old(s)@ + lookup_lines(targets@.take(k as int)),
        decreases targets@.len() - k,
    {
        s.append("  ");
        push_decimal(s, targets[k].0 as i64);
        s.append(": ");
        s.append(targets[k].1.to_string().as_str());
        s.append("\n");
        proof {
            let t = targets@.take(k + 1);
            assert(t.drop_last() =~= targets@.take(k as int));
            assert(t.last() == targets@[k as int]);
            assert(s@ =~= old(s)@ + lookup_lines(t));
        }
        k = k + 1;
    }
    assert(targets@.take(k as int) =~= targets@);
}

impl Instruction {
    /// Formats the instruction: its name followed by its operands, e.g., `iinc 10 5`,
    /// `wide iload 1000` or `goto #0000`.
    pub fn to_string(&self) -> (r: String)
        requires
            displayable(*self),
        ensures
            r@ == text_of(*self),
    {
        let mut s = String::new();
        s.append(self.name());
        match self {
            Instruction::BiPush(v) => { s.append(" "); push_decimal(&mut s, *v as i64); },
            Instruction::SiPush(v) => { s.append(" "); push_decimal(&mut s, *v as i64); },
            Instruction::ILoad(x) | Instruction::LLoad(x) | Instruction::FLoad(x) | Instruction::DLoad(x) | Instruction::ALoad(x) | Instruction::IStore(x) | Instruction::LStore(x) | Instruction::FStore(x) | Instruction::DStore(x) | Instruction::AStore(x) | Instruction::Ret(x) => { s.append(" "); push_decimal(&mut s, *x as i64); },
            Instruction::IfEq(t) | Instruction::IfNe(t) | Instruction::IfLt(t) | Instruction::IfGe(t) | Instruction::IfGt(t) | Instruction::IfLe(t) | Instruction::IfICmpEq(t) | Instruction::IfICmpNe(t) | Instruction::IfICmpLt(t) | Instruction::IfICmpGe(t) | Instruction::IfICmpGt(t) | Instruction::IfICmpLe(t) | Instruction::IfACmpEq(t) | Instruction::IfACmpNe(t) | Instruction::Goto(t) | Instruction::Jsr(t) | Instruction::IfNull(t) | Instruction::IfNonNull(t) | Instruction::GotoW(t) | Instruction::JsrW(t) => { s.append(" "); s.append(t.to_string().as_str()); },
            Instruction::IInc(x, v) => {
                s.append(" ");
                push_decimal(&mut s, *x as i64);
                s.append(" ");
                push_decimal(&mut s, *v as i64);
            },
            Instruction::TableSwitch { range_start, range_end, jump_targets, default } => {
                s.append(" {\n  range: ");
                push_decimal(&mut s, *range_start as i64);
                s.append("..=");
                push_decimal(&mut s, *range_end as i64);
                s.append("\n  default: ");
                s.append(default.to_string().as_str());
                s.append("\n");
                push_table_lines(&mut s, *range_start, jump_targets);
                s.append("}");
            },
            Instruction::LookupSwitch { default, match_targets } => {
                s.append(" {\n  default: ");
                s.append(default.to_string().as_str());
                s.append("\n");
                push_lookup_lines(&mut s, match_targets);
                s.append("}");
            },
            Instruction::Wide(w) => {
                s.append(" ");
                s.append(w.to_string().as_str());
            },
            Instruction::New(c) | Instruction::ANewArray(c) => {
                s.append(" ");
                s.append(c.binary_name.as_str());
            },
            Instruction::Ldc(c) | Instruction::LdcW(c) | Instruction::Ldc2W(c) => {
                s.append(" ");
                push_constant(&mut s, c);
            },
            Instruction::GetStatic(f) | Instruction::PutStatic(f) | Instruction::GetField(f) | Instruction::PutField(f) => {
                s.append(" ");
                push_field_ref_text(&mut s, f);
            },
            Instruction::InvokeVirtual(m) | Instruction::InvokeSpecial(m) | Instruction::InvokeStatic(m) => {
                s.append(" ");
                push_method_ref_text(&mut s, m);
            },
            Instruction::InvokeInterface(m, count) => {
                s.append(" ");
                push_method_ref_text(&mut s, m);
                s.append(" count ");
                push_i64(&mut s, *count as i64);
            },
            Instruction::InvokeDynamic { bootstrap_method_index, name, descriptor } => {
                s.append(" #");
                push_i64(&mut s, *bootstrap_method_index as i64);
                s.append(" ");
                s.append(name.as_str());
                s.append(" ");
                push_descriptor_text(&mut s, descriptor);
            },
            Instruction::NewArray(p) => {
                s.append(" ");
                push_primitive_text(&mut s, p);
            },
            Instruction::CheckCast(t) | Instruction::InstanceOf(t) => {
                s.append(" ");
                push_field_type_text(&mut s, t);
            },
            Instruction::MultiANewArray(t, dims) => {
                s.append(" ");
                push_field_type_text(&mut s, t);
                s.append(" ");
                push_i64(&mut s, *dims as i64);
            },
            _ => {},
        }
        assert(s@ =~= text_of(*self));
        s
    }
}

} // verus!
