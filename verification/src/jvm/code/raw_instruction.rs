//! Raw JVM instructions, as they are stored in a class file.
use vstd::prelude::*;

verus! {

/// A raw JVM instruction without the information from the constant pool.
#[derive(Debug, PartialEq, Clone)]
pub enum RawInstruction {
    /// The `Nop` instruction.
    Nop,
    /// The `AConstNull` instruction.
    AConstNull,
    /// The `IConstM1` instruction.
    IConstM1,
    /// The `IConst0` instruction.
    IConst0,
    /// The `IConst1` instruction.
    IConst1,
    /// The `IConst2` instruction.
    IConst2,
    /// The `IConst3` instruction.
    IConst3,
    /// The `IConst4` instruction.
    IConst4,
    /// The `IConst5` instruction.
    IConst5,
    /// The `LConst0` instruction.
    LConst0,
    /// The `LConst1` instruction.
    LConst1,
    /// The `FConst0` instruction.
    FConst0,
    /// The `FConst1` instruction.
    FConst1,
    /// The `FConst2` instruction.
    FConst2,
    /// The `DConst0` instruction.
    DConst0,
    /// The `DConst1` instruction.
    DConst1,
    /// The `BiPush` instruction.
    BiPush { value: u8 },
    /// The `SiPush` instruction.
    SiPush { value: u16 },
    /// The `Ldc` instruction.
    Ldc { const_index: u8 },
    /// The `LdcW` instruction.
    LdcW { const_index: u16 },
    /// The `Ldc2W` instruction.
    Ldc2W { const_index: u16 },
    /// The `ILoad` instruction.
    ILoad { index: u8 },
    /// The `LLoad` instruction.
    LLoad { index: u8 },
    /// The `FLoad` instruction.
    FLoad { index: u8 },
    /// The `DLoad` instruction.
    DLoad { index: u8 },
    /// The `ALoad` instruction.
    ALoad { index: u8 },
    /// The `ILoad0` instruction.
    ILoad0,
    /// The `ILoad1` instruction.
    ILoad1,
    /// The `ILoad2` instruction.
    ILoad2,
    /// The `ILoad3` instruction.
    ILoad3,
    /// The `LLoad0` instruction.
    LLoad0,
    /// The `LLoad1` instruction.
    LLoad1,
    /// The `LLoad2` instruction.
    LLoad2,
    /// The `LLoad3` instruction.
    LLoad3,
    /// The `FLoad0` instruction.
    FLoad0,
    /// The `FLoad1` instruction.
    FLoad1,
    /// The `FLoad2` instruction.
    FLoad2,
    /// The `FLoad3` instruction.
    FLoad3,
    /// The `DLoad0` instruction.
    DLoad0,
    /// The `DLoad1` instruction.
    DLoad1,
    /// The `DLoad2` instruction.
    DLoad2,
    /// The `DLoad3` instruction.
    DLoad3,
    /// The `ALoad0` instruction.
    ALoad0,
    /// The `ALoad1` instruction.
    ALoad1,
    /// The `ALoad2` instruction.
    ALoad2,
    /// The `ALoad3` instruction.
    ALoad3,
    /// The `IALoad` instruction.
    IALoad,
    /// The `LALoad` instruction.
    LALoad,
    /// The `FALoad` instruction.
    FALoad,
    /// The `DALoad` instruction.
    DALoad,
    /// The `AALoad` instruction.
    AALoad,
    /// The `BALoad` instruction.
    BALoad,
    /// The `CALoad` instruction.
    CALoad,
    /// The `SALoad` instruction.
    SALoad,
    /// The `IStore` instruction.
    IStore { index: u8 },
    /// The `LStore` instruction.
    LStore { index: u8 },
    /// The `FStore` instruction.
    FStore { index: u8 },
    /// The `DStore` instruction.
    DStore { index: u8 },
    /// The `AStore` instruction.
    AStore { index: u8 },
    /// The `IStore0` instruction.
    IStore0,
    /// The `IStore1` instruction.
    IStore1,
    /// The `IStore2` instruction.
    IStore2,
    /// The `IStore3` instruction.
    IStore3,
    /// The `LStore0` instruction.
    LStore0,
    /// The `LStore1` instruction.
    LStore1,
    /// The `LStore2` instruction.
    LStore2,
    /// The `LStore3` instruction.
    LStore3,
    /// The `FStore0` instruction.
    FStore0,
    /// The `FStore1` instruction.
    FStore1,
    /// The `FStore2` instruction.
    FStore2,
    /// The `FStore3` instruction.
    FStore3,
    /// The `DStore0` instruction.
    DStore0,
    /// The `DStore1` instruction.
    DStore1,
    /// The `DStore2` instruction.
    DStore2,
    /// The `DStore3` instruction.
    DStore3,
    /// The `AStore0` instruction.
    AStore0,
    /// The `AStore1` instruction.
    AStore1,
    /// The `AStore2` instruction.
    AStore2,
    /// The `AStore3` instruction.
    AStore3,
    /// The `IAStore` instruction.
    IAStore,
    /// The `LAStore` instruction.
    LAStore,
    /// The `FAStore` instruction.
    FAStore,
    /// The `DAStore` instruction.
    DAStore,
    /// The `AAStore` instruction.
    AAStore,
    /// The `BAStore` instruction.
    BAStore,
    /// The `CAStore` instruction.
    CAStore,
    /// The `SAStore` instruction.
    SAStore,
    /// The `Pop` instruction.
    Pop,
    /// The `Pop2` instruction.
    Pop2,
    /// The `Dup` instruction.
    Dup,
    /// The `DupX1` instruction.
    DupX1,
    /// The `DupX2` instruction.
    DupX2,
    /// The `Dup2` instruction.
    Dup2,
    /// The `Dup2X1` instruction.
    Dup2X1,
    /// The `Dup2X2` instruction.
    Dup2X2,
    /// The `Swap` instruction.
    Swap,
    /// The `IAdd` instruction.
    IAdd,
    /// The `LAdd` instruction.
    LAdd,
    /// The `FAdd` instruction.
    FAdd,
    /// The `DAdd` instruction.
    DAdd,
    /// The `ISub` instruction.
    ISub,
    /// The `LSub` instruction.
    LSub,
    /// The `FSub` instruction.
    FSub,
    /// The `DSub` instruction.
    DSub,
    /// The `IMul` instruction.
    IMul,
    /// The `LMul` instruction.
    LMul,
    /// The `FMul` instruction.
    FMul,
    /// The `DMul` instruction.
    DMul,
    /// The `IDiv` instruction.
    IDiv,
    /// The `LDiv` instruction.
    LDiv,
    /// The `FDiv` instruction.
    FDiv,
    /// The `DDiv` instruction.
    DDiv,
    /// The `IRem` instruction.
    IRem,
    /// The `LRem` instruction.
    LRem,
    /// The `FRem` instruction.
    FRem,
    /// The `DRem` instruction.
    DRem,
    /// The `INeg` instruction.
    INeg,
    /// The `LNeg` instruction.
    LNeg,
    /// The `FNeg` instruction.
    FNeg,
    /// The `DNeg` instruction.
    DNeg,
    /// The `IShl` instruction.
    IShl,
    /// The `LShl` instruction.
    LShl,
    /// The `IShr` instruction.
    IShr,
    /// The `LShr` instruction.
    LShr,
    /// The `IUShr` instruction.
    IUShr,
    /// The `LUShr` instruction.
    LUShr,
    /// The `IAnd` instruction.
    IAnd,
    /// The `LAnd` instruction.
    LAnd,
    /// The `IOr` instruction.
    IOr,
    /// The `LOr` instruction.
    LOr,
    /// The `IXor` instruction.
    IXor,
    /// The `LXor` instruction.
    LXor,
    /// The `IInc` instruction.
    IInc { index: u8, constant: i8 },
    /// The `I2L` instruction.
    I2L,
    /// The `I2F` instruction.
    I2F,
    /// The `I2D` instruction.
    I2D,
    /// The `L2I` instruction.
    L2I,
    /// The `L2F` instruction.
    L2F,
    /// The `L2D` instruction.
    L2D,
    /// The `F2I` instruction.
    F2I,
    /// The `F2L` instruction.
    F2L,
    /// The `F2D` instruction.
    F2D,
    /// The `D2I` instruction.
    D2I,
    /// The `D2L` instruction.
    D2L,
    /// The `D2F` instruction.
    D2F,
    /// The `I2B` instruction.
    I2B,
    /// The `I2C` instruction.
    I2C,
    /// The `I2S` instruction.
    I2S,
    /// The `LCmp` instruction.
    LCmp,
    /// The `FCmpL` instruction.
    FCmpL,
    /// The `FCmpG` instruction.
    FCmpG,
    /// The `DCmpL` instruction.
    DCmpL,
    /// The `DCmpG` instruction.
    DCmpG,
    /// The `IfEq` instruction.
    IfEq { offset: i16 },
    /// The `IfNe` instruction.
    IfNe { offset: i16 },
    /// The `IfLt` instruction.
    IfLt { offset: i16 },
    /// The `IfGe` instruction.
    IfGe { offset: i16 },
    /// The `IfGt` instruction.
    IfGt { offset: i16 },
    /// The `IfLe` instruction.
    IfLe { offset: i16 },
    /// The `IfICmpEq` instruction.
    IfICmpEq { offset: i16 },
    /// The `IfICmpNe` instruction.
    IfICmpNe { offset: i16 },
    /// The `IfICmpLt` instruction.
    IfICmpLt { offset: i16 },
    /// The `IfICmpGe` instruction.
    IfICmpGe { offset: i16 },
    /// The `IfICmpGt` instruction.
    IfICmpGt { offset: i16 },
    /// The `IfICmpLe` instruction.
    IfICmpLe { offset: i16 },
    /// The `IfACmpEq` instruction.
    IfACmpEq { offset: i16 },
    /// The `IfACmpNe` instruction.
    IfACmpNe { offset: i16 },
    /// The `Goto` instruction.
    Goto { offset: i16 },
    /// The `Jsr` instruction.
    Jsr { offset: i16 },
    /// The `Ret` instruction.
    Ret { index: u8 },
    /// The `TableSwitch` instruction.
    TableSwitch { default: i32, low: i32, high: i32, jump_offsets: Vec<i32> },
    /// The `LookupSwitch` instruction.
    LookupSwitch { default: i32, match_offsets: Vec<(i32, i32)> },
    /// The `IReturn` instruction.
    IReturn,
    /// The `LReturn` instruction.
    LReturn,
    /// The `FReturn` instruction.
    FReturn,
    /// The `DReturn` instruction.
    DReturn,
    /// The `AReturn` instruction.
    AReturn,
    /// The `Return` instruction.
    Return,
    /// The `GetStatic` instruction.
    GetStatic { field_ref_index: u16 },
    /// The `PutStatic` instruction.
    PutStatic { field_ref_index: u16 },
    /// The `GetField` instruction.
    GetField { field_ref_index: u16 },
    /// The `PutField` instruction.
    PutField { field_ref_index: u16 },
    /// The `InvokeVirtual` instruction.
    InvokeVirtual { method_index: u16 },
    /// The `InvokeSpecial` instruction.
    InvokeSpecial { method_index: u16 },
    /// The `InvokeStatic` instruction.
    InvokeStatic { method_index: u16 },
    /// The `InvokeInterface` instruction.
    InvokeInterface { method_index: u16, count: u8 },
    /// The `InvokeDynamic` instruction.
    InvokeDynamic { dynamic_index: u16 },
    /// The `New` instruction.
    New { index: u16 },
    /// The `NewArray` instruction.
    NewArray { atype: u8 },
    /// The `ANewArray` instruction.
    ANewArray { index: u16 },
    /// The `ArrayLength` instruction.
    ArrayLength,
    /// The `AThrow` instruction.
    AThrow,
    /// The `CheckCast` instruction.
    CheckCast { target_type_index: u16 },
    /// The `InstanceOf` instruction.
    InstanceOf { target_type_index: u16 },
    /// The `MonitorEnter` instruction.
    MonitorEnter,
    /// The `MonitorExit` instruction.
    MonitorExit,
    /// An instruction with a wide index.
    Wide(RawWideInstruction),
    /// The `MultiANewArray` instruction.
    MultiANewArray { index: u16, dimensions: u8 },
    /// The `IfNull` instruction.
    IfNull { offset: i16 },
    /// The `IfNonNull` instruction.
    IfNonNull { offset: i16 },
    /// The `GotoW` instruction.
    GotoW { offset: i32 },
    /// The `JsrW` instruction.
    JsrW { offset: i32 },
    /// The `Breakpoint` instruction.
    Breakpoint,
    /// The `ImpDep1` instruction.
    ImpDep1,
    /// The `ImpDep2` instruction.
    ImpDep2,
}

/// An instruction modified by the `wide` prefix, with a 16-bit index.
#[derive(Debug, PartialEq, Eq, Structural, Clone, Copy)]
pub enum RawWideInstruction {
    /// `iload` with a wide index.
    ILoad { index: u16 },
    /// `lload` with a wide index.
    LLoad { index: u16 },
    /// `fload` with a wide index.
    FLoad { index: u16 },
    /// `dload` with a wide index.
    DLoad { index: u16 },
    /// `aload` with a wide index.
    ALoad { index: u16 },
    /// `istore` with a wide index.
    IStore { index: u16 },
    /// `lstore` with a wide index.
    LStore { index: u16 },
    /// `fstore` with a wide index.
    FStore { index: u16 },
    /// `dstore` with a wide index.
    DStore { index: u16 },
    /// `astore` with a wide index.
    AStore { index: u16 },
    /// `ret` with a wide index.
    Ret { index: u16 },
    /// `iinc` with a wide index and a wide increment.
    IInc { index: u16, increment: i16 },
}

impl RawInstruction {
    /// The opcode of the instruction.
    pub open spec fn opcode_of(self) -> u8 {
        match self {
            RawInstruction::Nop => 0x00,
            RawInstruction::AConstNull => 0x01,
            RawInstruction::IConstM1 => 0x02,
            RawInstruction::IConst0 => 0x03,
            RawInstruction::IConst1 => 0x04,
            RawInstruction::IConst2 => 0x05,
            RawInstruction::IConst3 => 0x06,
            RawInstruction::IConst4 => 0x07,
            RawInstruction::IConst5 => 0x08,
            RawInstruction::LConst0 => 0x09,
            RawInstruction::LConst1 => 0x0A,
            RawInstruction::FConst0 => 0x0B,
            RawInstruction::FConst1 => 0x0C,
            RawInstruction::FConst2 => 0x0D,
            RawInstruction::DConst0 => 0x0E,
            RawInstruction::DConst1 => 0x0F,
            RawInstruction::BiPush { .. } => 0x10,
            RawInstruction::SiPush { .. } => 0x11,
            RawInstruction::Ldc { .. } => 0x12,
            RawInstruction::LdcW { .. } => 0x13,
            RawInstruction::Ldc2W { .. } => 0x14,
            RawInstruction::ILoad { .. } => 0x15,
            RawInstruction::LLoad { .. } => 0x16,
            RawInstruction::FLoad { .. } => 0x17,
            RawInstruction::DLoad { .. } => 0x18,
            RawInstruction::ALoad { .. } => 0x19,
            RawInstruction::ILoad0 => 0x1A,
            RawInstruction::ILoad1 => 0x1B,
            RawInstruction::ILoad2 => 0x1C,
            RawInstruction::ILoad3 => 0x1D,
            RawInstruction::LLoad0 => 0x1E,
            RawInstruction::LLoad1 => 0x1F,
            RawInstruction::LLoad2 => 0x20,
            RawInstruction::LLoad3 => 0x21,
            RawInstruction::FLoad0 => 0x22,
            RawInstruction::FLoad1 => 0x23,
            RawInstruction::FLoad2 => 0x24,
            RawInstruction::FLoad3 => 0x25,
            RawInstruction::DLoad0 => 0x26,
            RawInstruction::DLoad1 => 0x27,
            RawInstruction::DLoad2 => 0x28,
            RawInstruction::DLoad3 => 0x29,
            RawInstruction::ALoad0 => 0x2A,
            RawInstruction::ALoad1 => 0x2B,
            RawInstruction::ALoad2 => 0x2C,
            RawInstruction::ALoad3 => 0x2D,
            RawInstruction::IALoad => 0x2E,
            RawInstruction::LALoad => 0x2F,
            RawInstruction::FALoad => 0x30,
            RawInstruction::DALoad => 0x31,
            RawInstruction::AALoad => 0x32,
            RawInstruction::BALoad => 0x33,
            RawInstruction::CALoad => 0x34,
            RawInstruction::SALoad => 0x35,
            RawInstruction::IStore { .. } => 0x36,
            RawInstruction::LStore { .. } => 0x37,
            RawInstruction::FStore { .. } => 0x38,
            RawInstruction::DStore { .. } => 0x39,
            RawInstruction::AStore { .. } => 0x3A,
            RawInstruction::IStore0 => 0x3B,
            RawInstruction::IStore1 => 0x3C,
            RawInstruction::IStore2 => 0x3D,
            RawInstruction::IStore3 => 0x3E,
            RawInstruction::LStore0 => 0x3F,
            RawInstruction::LStore1 => 0x40,
            RawInstruction::LStore2 => 0x41,
            RawInstruction::LStore3 => 0x42,
            RawInstruction::FStore0 => 0x43,
            RawInstruction::FStore1 => 0x44,
            RawInstruction::FStore2 => 0x45,
            RawInstruction::FStore3 => 0x46,
            RawInstruction::DStore0 => 0x47,
            RawInstruction::DStore1 => 0x48,
            RawInstruction::DStore2 => 0x49,
            RawInstruction::DStore3 => 0x4A,
            RawInstruction::AStore0 => 0x4B,
            RawInstruction::AStore1 => 0x4C,
            RawInstruction::AStore2 => 0x4D,
            RawInstruction::AStore3 => 0x4E,
            RawInstruction::IAStore => 0x4F,
            RawInstruction::LAStore => 0x50,
            RawInstruction::FAStore => 0x51,
            RawInstruction::DAStore => 0x52,
            RawInstruction::AAStore => 0x53,
            RawInstruction::BAStore => 0x54,
            RawInstruction::CAStore => 0x55,
            RawInstruction::SAStore => 0x56,
            RawInstruction::Pop => 0x57,
            RawInstruction::Pop2 => 0x58,
            RawInstruction::Dup => 0x59,
            RawInstruction::DupX1 => 0x5A,
            RawInstruction::DupX2 => 0x5B,
            RawInstruction::Dup2 => 0x5C,
            RawInstruction::Dup2X1 => 0x5D,
            RawInstruction::Dup2X2 => 0x5E,
            RawInstruction::Swap => 0x5F,
            RawInstruction::IAdd => 0x60,
            RawInstruction::LAdd => 0x61,
            RawInstruction::FAdd => 0x62,
            RawInstruction::DAdd => 0x63,
            RawInstruction::ISub => 0x64,
            RawInstruction::LSub => 0x65,
            RawInstruction::FSub => 0x66,
            RawInstruction::DSub => 0x67,
            RawInstruction::IMul => 0x68,
            RawInstruction::LMul => 0x69,
            RawInstruction::FMul => 0x6A,
            RawInstruction::DMul => 0x6B,
            RawInstruction::IDiv => 0x6C,
            RawInstruction::LDiv => 0x6D,
            RawInstruction::FDiv => 0x6E,
            RawInstruction::DDiv => 0x6F,
            RawInstruction::IRem => 0x70,
            RawInstruction::LRem => 0x71,
            RawInstruction::FRem => 0x72,
            RawInstruction::DRem => 0x73,
            RawInstruction::INeg => 0x74,
            RawInstruction::LNeg => 0x75,
            RawInstruction::FNeg => 0x76,
            RawInstruction::DNeg => 0x77,
            RawInstruction::IShl => 0x78,
            RawInstruction::LShl => 0x79,
            RawInstruction::IShr => 0x7A,
            RawInstruction::LShr => 0x7B,
            RawInstruction::IUShr => 0x7C,
            RawInstruction::LUShr => 0x7D,
            RawInstruction::IAnd => 0x7E,
            RawInstruction::LAnd => 0x7F,
            RawInstruction::IOr => 0x80,
            RawInstruction::LOr => 0x81,
            RawInstruction::IXor => 0x82,
            RawInstruction::LXor => 0x83,
            RawInstruction::IInc { .. } => 0x84,
            RawInstruction::I2L => 0x85,
            RawInstruction::I2F => 0x86,
            RawInstruction::I2D => 0x87,
            RawInstruction::L2I => 0x88,
            RawInstruction::L2F => 0x89,
            RawInstruction::L2D => 0x8A,
            RawInstruction::F2I => 0x8B,
            RawInstruction::F2L => 0x8C,
            RawInstruction::F2D => 0x8D,
            RawInstruction::D2I => 0x8E,
            RawInstruction::D2L => 0x8F,
            RawInstruction::D2F => 0x90,
            RawInstruction::I2B => 0x91,
            RawInstruction::I2C => 0x92,
            RawInstruction::I2S => 0x93,
            RawInstruction::LCmp => 0x94,
            RawInstruction::FCmpL => 0x95,
            RawInstruction::FCmpG => 0x96,
            RawInstruction::DCmpL => 0x97,
            RawInstruction::DCmpG => 0x98,
            RawInstruction::IfEq { .. } => 0x99,
            RawInstruction::IfNe { .. } => 0x9A,
            RawInstruction::IfLt { .. } => 0x9B,
            RawInstruction::IfGe { .. } => 0x9C,
            RawInstruction::IfGt { .. } => 0x9D,
            RawInstruction::IfLe { .. } => 0x9E,
            RawInstruction::IfICmpEq { .. } => 0x9F,
            RawInstruction::IfICmpNe { .. } => 0xA0,
            RawInstruction::IfICmpLt { .. } => 0xA1,
            RawInstruction::IfICmpGe { .. } => 0xA2,
            RawInstruction::IfICmpGt { .. } => 0xA3,
            RawInstruction::IfICmpLe { .. } => 0xA4,
            RawInstruction::IfACmpEq { .. } => 0xA5,
            RawInstruction::IfACmpNe { .. } => 0xA6,
            RawInstruction::Goto { .. } => 0xA7,
            RawInstruction::Jsr { .. } => 0xA8,
            RawInstruction::Ret { .. } => 0xA9,
            RawInstruction::TableSwitch { .. } => 0xAA,
            RawInstruction::LookupSwitch { .. } => 0xAB,
            RawInstruction::IReturn => 0xAC,
            RawInstruction::LReturn => 0xAD,
            RawInstruction::FReturn => 0xAE,
            RawInstruction::DReturn => 0xAF,
            RawInstruction::AReturn => 0xB0,
            RawInstruction::Return => 0xB1,
            RawInstruction::GetStatic { .. } => 0xB2,
            RawInstruction::PutStatic { .. } => 0xB3,
            RawInstruction::GetField { .. } => 0xB4,
            RawInstruction::PutField { .. } => 0xB5,
            RawInstruction::InvokeVirtual { .. } => 0xB6,
            RawInstruction::InvokeSpecial { .. } => 0xB7,
            RawInstruction::InvokeStatic { .. } => 0xB8,
            RawInstruction::InvokeInterface { .. } => 0xB9,
            RawInstruction::InvokeDynamic { .. } => 0xBA,
            RawInstruction::New { .. } => 0xBB,
            RawInstruction::NewArray { .. } => 0xBC,
            RawInstruction::ANewArray { .. } => 0xBD,
            RawInstruction::ArrayLength => 0xBE,
            RawInstruction::AThrow => 0xBF,
            RawInstruction::CheckCast { .. } => 0xC0,
            RawInstruction::InstanceOf { .. } => 0xC1,
            RawInstruction::MonitorEnter => 0xC2,
            RawInstruction::MonitorExit => 0xC3,
            RawInstruction::Wide(..) => 0xC4,
            RawInstruction::MultiANewArray { .. } => 0xC5,
            RawInstruction::IfNull { .. } => 0xC6,
            RawInstruction::IfNonNull { .. } => 0xC7,
            RawInstruction::GotoW { .. } => 0xC8,
            RawInstruction::JsrW { .. } => 0xC9,
            RawInstruction::Breakpoint => 0xCA,
            RawInstruction::ImpDep1 => 0xFE,
            RawInstruction::ImpDep2 => 0xFF,
        }
    }

    /// Gets the opcode.
    pub fn opcode(&self) -> (r: u8)
        ensures
            r == self.opcode_of(),
    {
        match self {
            RawInstruction::Nop => 0x00,
            RawInstruction::AConstNull => 0x01,
            RawInstruction::IConstM1 => 0x02,
            RawInstruction::IConst0 => 0x03,
            RawInstruction::IConst1 => 0x04,
            RawInstruction::IConst2 => 0x05,
            RawInstruction::IConst3 => 0x06,
            RawInstruction::IConst4 => 0x07,
            RawInstruction::IConst5 => 0x08,
            RawInstruction::LConst0 => 0x09,
            RawInstruction::LConst1 => 0x0A,
            RawInstruction::FConst0 => 0x0B,
            RawInstruction::FConst1 => 0x0C,
            RawInstruction::FConst2 => 0x0D,
            RawInstruction::DConst0 => 0x0E,
            RawInstruction::DConst1 => 0x0F,
            RawInstruction::BiPush { .. } => 0x10,
            RawInstruction::SiPush { .. } => 0x11,
            RawInstruction::Ldc { .. } => 0x12,
            RawInstruction::LdcW { .. } => 0x13,
            RawInstruction::Ldc2W { .. } => 0x14,
            RawInstruction::ILoad { .. } => 0x15,
            RawInstruction::LLoad { .. } => 0x16,
            RawInstruction::FLoad { .. } => 0x17,
            RawInstruction::DLoad { .. } => 0x18,
            RawInstruction::ALoad { .. } => 0x19,
            RawInstruction::ILoad0 => 0x1A,
            RawInstruction::ILoad1 => 0x1B,
            RawInstruction::ILoad2 => 0x1C,
            RawInstruction::ILoad3 => 0x1D,
            RawInstruction::LLoad0 => 0x1E,
            RawInstruction::LLoad1 => 0x1F,
            RawInstruction::LLoad2 => 0x20,
            RawInstruction::LLoad3 => 0x21,
            RawInstruction::FLoad0 => 0x22,
            RawInstruction::FLoad1 => 0x23,
            RawInstruction::FLoad2 => 0x24,
            RawInstruction::FLoad3 => 0x25,
            RawInstruction::DLoad0 => 0x26,
            RawInstruction::DLoad1 => 0x27,
            RawInstruction::DLoad2 => 0x28,
            RawInstruction::DLoad3 => 0x29,
            RawInstruction::ALoad0 => 0x2A,
            RawInstruction::ALoad1 => 0x2B,
            RawInstruction::ALoad2 => 0x2C,
            RawInstruction::ALoad3 => 0x2D,
            RawInstruction::IALoad => 0x2E,
            RawInstruction::LALoad => 0x2F,
            RawInstruction::FALoad => 0x30,
            RawInstruction::DALoad => 0x31,
            RawInstruction::AALoad => 0x32,
            RawInstruction::BALoad => 0x33,
            RawInstruction::CALoad => 0x34,
            RawInstruction::SALoad => 0x35,
            RawInstruction::IStore { .. } => 0x36,
            RawInstruction::LStore { .. } => 0x37,
            RawInstruction::FStore { .. } => 0x38,
            RawInstruction::DStore { .. } => 0x39,
            RawInstruction::AStore { .. } => 0x3A,
            RawInstruction::IStore0 => 0x3B,
            RawInstruction::IStore1 => 0x3C,
            RawInstruction::IStore2 => 0x3D,
            RawInstruction::IStore3 => 0x3E,
            RawInstruction::LStore0 => 0x3F,
            RawInstruction::LStore1 => 0x40,
            RawInstruction::LStore2 => 0x41,
            RawInstruction::LStore3 => 0x42,
            RawInstruction::FStore0 => 0x43,
            RawInstruction::FStore1 => 0x44,
            RawInstruction::FStore2 => 0x45,
            RawInstruction::FStore3 => 0x46,
            RawInstruction::DStore0 => 0x47,
            RawInstruction::DStore1 => 0x48,
            RawInstruction::DStore2 => 0x49,
            RawInstruction::DStore3 => 0x4A,
            RawInstruction::AStore0 => 0x4B,
            RawInstruction::AStore1 => 0x4C,
            RawInstruction::AStore2 => 0x4D,
            RawInstruction::AStore3 => 0x4E,
            RawInstruction::IAStore => 0x4F,
            RawInstruction::LAStore => 0x50,
            RawInstruction::FAStore => 0x51,
            RawInstruction::DAStore => 0x52,
            RawInstruction::AAStore => 0x53,
            RawInstruction::BAStore => 0x54,
            RawInstruction::CAStore => 0x55,
            RawInstruction::SAStore => 0x56,
            RawInstruction::Pop => 0x57,
            RawInstruction::Pop2 => 0x58,
            RawInstruction::Dup => 0x59,
            RawInstruction::DupX1 => 0x5A,
            RawInstruction::DupX2 => 0x5B,
            RawInstruction::Dup2 => 0x5C,
            RawInstruction::Dup2X1 => 0x5D,
            RawInstruction::Dup2X2 => 0x5E,
            RawInstruction::Swap => 0x5F,
            RawInstruction::IAdd => 0x60,
            RawInstruction::LAdd => 0x61,
            RawInstruction::FAdd => 0x62,
            RawInstruction::DAdd => 0x63,
            RawInstruction::ISub => 0x64,
            RawInstruction::LSub => 0x65,
            RawInstruction::FSub => 0x66,
            RawInstruction::DSub => 0x67,
            RawInstruction::IMul => 0x68,
            RawInstruction::LMul => 0x69,
            RawInstruction::FMul => 0x6A,
            RawInstruction::DMul => 0x6B,
            RawInstruction::IDiv => 0x6C,
            RawInstruction::LDiv => 0x6D,
            RawInstruction::FDiv => 0x6E,
            RawInstruction::DDiv => 0x6F,
            RawInstruction::IRem => 0x70,
            RawInstruction::LRem => 0x71,
            RawInstruction::FRem => 0x72,
            RawInstruction::DRem => 0x73,
            RawInstruction::INeg => 0x74,
            RawInstruction::LNeg => 0x75,
            RawInstruction::FNeg => 0x76,
            RawInstruction::DNeg => 0x77,
            RawInstruction::IShl => 0x78,
            RawInstruction::LShl => 0x79,
            RawInstruction::IShr => 0x7A,
            RawInstruction::LShr => 0x7B,
            RawInstruction::IUShr => 0x7C,
            RawInstruction::LUShr => 0x7D,
            RawInstruction::IAnd => 0x7E,
            RawInstruction::LAnd => 0x7F,
            RawInstruction::IOr => 0x80,
            RawInstruction::LOr => 0x81,
            RawInstruction::IXor => 0x82,
            RawInstruction::LXor => 0x83,
            RawInstruction::IInc { .. } => 0x84,
            RawInstruction::I2L => 0x85,
            RawInstruction::I2F => 0x86,
            RawInstruction::I2D => 0x87,
            RawInstruction::L2I => 0x88,
            RawInstruction::L2F => 0x89,
            RawInstruction::L2D => 0x8A,
            RawInstruction::F2I => 0x8B,
            RawInstruction::F2L => 0x8C,
            RawInstruction::F2D => 0x8D,
            RawInstruction::D2I => 0x8E,
            RawInstruction::D2L => 0x8F,
            RawInstruction::D2F => 0x90,
            RawInstruction::I2B => 0x91,
            RawInstruction::I2C => 0x92,
            RawInstruction::I2S => 0x93,
            RawInstruction::LCmp => 0x94,
            RawInstruction::FCmpL => 0x95,
            RawInstruction::FCmpG => 0x96,
            RawInstruction::DCmpL => 0x97,
            RawInstruction::DCmpG => 0x98,
            RawInstruction::IfEq { .. } => 0x99,
            RawInstruction::IfNe { .. } => 0x9A,
            RawInstruction::IfLt { .. } => 0x9B,
            RawInstruction::IfGe { .. } => 0x9C,
            RawInstruction::IfGt { .. } => 0x9D,
            RawInstruction::IfLe { .. } => 0x9E,
            RawInstruction::IfICmpEq { .. } => 0x9F,
            RawInstruction::IfICmpNe { .. } => 0xA0,
            RawInstruction::IfICmpLt { .. } => 0xA1,
            RawInstruction::IfICmpGe { .. } => 0xA2,
            RawInstruction::IfICmpGt { .. } => 0xA3,
            RawInstruction::IfICmpLe { .. } => 0xA4,
            RawInstruction::IfACmpEq { .. } => 0xA5,
            RawInstruction::IfACmpNe { .. } => 0xA6,
            RawInstruction::Goto { .. } => 0xA7,
            RawInstruction::Jsr { .. } => 0xA8,
            RawInstruction::Ret { .. } => 0xA9,
            RawInstruction::TableSwitch { .. } => 0xAA,
            RawInstruction::LookupSwitch { .. } => 0xAB,
            RawInstruction::IReturn => 0xAC,
            RawInstruction::LReturn => 0xAD,
            RawInstruction::FReturn => 0xAE,
            RawInstruction::DReturn => 0xAF,
            RawInstruction::AReturn => 0xB0,
            RawInstruction::Return => 0xB1,
            RawInstruction::GetStatic { .. } => 0xB2,
            RawInstruction::PutStatic { .. } => 0xB3,
            RawInstruction::GetField { .. } => 0xB4,
            RawInstruction::PutField { .. } => 0xB5,
            RawInstruction::InvokeVirtual { .. } => 0xB6,
            RawInstruction::InvokeSpecial { .. } => 0xB7,
            RawInstruction::InvokeStatic { .. } => 0xB8,
            RawInstruction::InvokeInterface { .. } => 0xB9,
            RawInstruction::InvokeDynamic { .. } => 0xBA,
            RawInstruction::New { .. } => 0xBB,
            RawInstruction::NewArray { .. } => 0xBC,
            RawInstruction::ANewArray { .. } => 0xBD,
            RawInstruction::ArrayLength => 0xBE,
            RawInstruction::AThrow => 0xBF,
            RawInstruction::CheckCast { .. } => 0xC0,
            RawInstruction::InstanceOf { .. } => 0xC1,
            RawInstruction::MonitorEnter => 0xC2,
            RawInstruction::MonitorExit => 0xC3,
            RawInstruction::Wide(..) => 0xC4,
            RawInstruction::MultiANewArray { .. } => 0xC5,
            RawInstruction::IfNull { .. } => 0xC6,
            RawInstruction::IfNonNull { .. } => 0xC7,
            RawInstruction::GotoW { .. } => 0xC8,
            RawInstruction::JsrW { .. } => 0xC9,
            RawInstruction::Breakpoint => 0xCA,
            RawInstruction::ImpDep1 => 0xFE,
            RawInstruction::ImpDep2 => 0xFF,
        }
    }
}

impl RawWideInstruction {
    /// The opcode of the instruction that the `wide` prefix modifies.
    pub open spec fn opcode_of(self) -> u8 {
        match self {
            RawWideInstruction::ILoad { .. } => 0x15,
            RawWideInstruction::LLoad { .. } => 0x16,
            RawWideInstruction::FLoad { .. } => 0x17,
            RawWideInstruction::DLoad { .. } => 0x18,
            RawWideInstruction::ALoad { .. } => 0x19,
            RawWideInstruction::IStore { .. } => 0x36,
            RawWideInstruction::LStore { .. } => 0x37,
            RawWideInstruction::FStore { .. } => 0x38,
            RawWideInstruction::DStore { .. } => 0x39,
            RawWideInstruction::AStore { .. } => 0x3A,
            RawWideInstruction::Ret { .. } => 0xA9,
            RawWideInstruction::IInc { .. } => 0x84,
        }
    }

    /// The index of the local variable.
    pub open spec fn index_of(self) -> u16 {
        match self {
            RawWideInstruction::ILoad { index, .. } => index,
            RawWideInstruction::LLoad { index, .. } => index,
            RawWideInstruction::FLoad { index, .. } => index,
            RawWideInstruction::DLoad { index, .. } => index,
            RawWideInstruction::ALoad { index, .. } => index,
            RawWideInstruction::IStore { index, .. } => index,
            RawWideInstruction::LStore { index, .. } => index,
            RawWideInstruction::FStore { index, .. } => index,
            RawWideInstruction::DStore { index, .. } => index,
            RawWideInstruction::AStore { index, .. } => index,
            RawWideInstruction::Ret { index, .. } => index,
            RawWideInstruction::IInc { index, .. } => index,
        }
    }

    /// Gets the opcode of the instruction that the `wide` prefix modifies.
    pub fn opcode(&self) -> (r: u8)
        ensures
            r == self.opcode_of(),
    {
        match self {
            RawWideInstruction::ILoad { .. } => 0x15,
            RawWideInstruction::LLoad { .. } => 0x16,
            RawWideInstruction::FLoad { .. } => 0x17,
            RawWideInstruction::DLoad { .. } => 0x18,
            RawWideInstruction::ALoad { .. } => 0x19,
            RawWideInstruction::IStore { .. } => 0x36,
            RawWideInstruction::LStore { .. } => 0x37,
            RawWideInstruction::FStore { .. } => 0x38,
            RawWideInstruction::DStore { .. } => 0x39,
            RawWideInstruction::AStore { .. } => 0x3A,
            RawWideInstruction::Ret { .. } => 0xA9,
            RawWideInstruction::IInc { .. } => 0x84,
        }
    }

    /// Gets the index of the local variable.
    pub fn index(&self) -> (r: u16)
        ensures
            r == self.index_of(),
    {
        match self {
            RawWideInstruction::ILoad { index, .. } => *index,
            RawWideInstruction::LLoad { index, .. } => *index,
            RawWideInstruction::FLoad { index, .. } => *index,
            RawWideInstruction::DLoad { index, .. } => *index,
            RawWideInstruction::ALoad { index, .. } => *index,
            RawWideInstruction::IStore { index, .. } => *index,
            RawWideInstruction::LStore { index, .. } => *index,
            RawWideInstruction::FStore { index, .. } => *index,
            RawWideInstruction::DStore { index, .. } => *index,
            RawWideInstruction::AStore { index, .. } => *index,
            RawWideInstruction::Ret { index, .. } => *index,
            RawWideInstruction::IInc { index, .. } => *index,
        }
    }
}

} // verus!
