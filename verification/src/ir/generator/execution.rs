//! Execution of JVM instructions on an abstract frame, which gives Moka IR.
use vstd::prelude::*;

use crate::ir::expression::{
    ArrayOperation, Condition, ConversionOperation, Expression, FieldAccess, LockOperation, MathOperation,
    NaNTreatment,
};
use crate::ir::generator::jvm_frame::{
    agrees, all_agree, below_top, get_local_check, pop_args_outcome, pop_value_outcome, push_value_outcome,
    same_argument, set_local_outcome, shuffle_outcome, Entry, ExecutionError, JvmStackFrame, DUAL_SLOT,
    SINGLE_SLOT,
};
use crate::ir::generator::MokaIRBrewingError;
use crate::ir::moka_instruction::{Argument, Identifier, LocalValue, MokaInstruction};
use crate::jvm::code::instruction::key_count;
use crate::jvm::code::{Instruction, ProgramCounter, WideInstruction};
use crate::jvm::{ConstantValue, DoubleBits, FloatBits};
use crate::types::{FieldType, MethodDescriptor, ReturnType};

verus! {

/// The argument that refers to a local value.
pub open spec fn def_arg(def: LocalValue) -> Argument {
    Argument::Id(Identifier::Local(def))
}

/// The outcome of popping values one after the other, each taking two slots when its flag
/// holds: the values in the order they were popped, or the first error, and the stack after.
pub open spec fn pop_all(stack: Seq<Entry>, kinds: Seq<bool>) -> (Result<Seq<Argument>, ExecutionError>, Seq<Entry>)
    decreases kinds.len(),
{
    if kinds.len() == 0 {
        (Ok(Seq::empty()), stack)
    } else {
        let (first, rest) = pop_value_outcome(stack, kinds[0]);
        match first {
            Err(e) => (Err(e), rest),
            Ok(v) => {
                let (others, left) = pop_all(rest, kinds.drop_first());
                match others {
                    Err(e) => (Err(e), left),
                    Ok(vs) => (Ok(seq![v] + vs), left),
                }
            },
        }
    }
}

/// Popping gives one value for each flag.
pub proof fn lemma_pop_all_len(stack: Seq<Entry>, kinds: Seq<bool>)
    ensures
        pop_all(stack, kinds).0 matches Ok(vs) ==> vs.len() == kinds.len(),
    decreases kinds.len(),
{
    if kinds.len() > 0 {
        lemma_pop_all_len(pop_value_outcome(stack, kinds[0]).1, kinds.drop_first());
    }
}

/// Pops the values of `kinds` from position `i` on.
fn pop_values(frame: &mut JvmStackFrame, kinds: &Vec<bool>, i: usize) -> (r: Result<Vec<Argument>, ExecutionError>)
    requires
        i <= kinds@.len(),
    ensures
        frame_kept(*final(frame), *old(frame)),
        final(frame).locals() == old(frame).locals(),
        r matches Ok(v) ==> pop_all(old(frame).stack(), kinds@.skip(i as int)).0 == Ok::<Seq<Argument>, ExecutionError>(v@),
        r matches Err(e) ==> pop_all(old(frame).stack(), kinds@.skip(i as int)).0 == Err::<Seq<Argument>, ExecutionError>(e),
        final(frame).stack() == pop_all(old(frame).stack(), kinds@.skip(i as int)).1,
    decreases kinds@.len() - i,
{
    if i == kinds.len() {
        assert(kinds@.skip(i as int) =~= Seq::<bool>::empty());
        return Ok(Vec::new());
    }
    assert(kinds@.skip(i as int)[0] == kinds@[i as int]);
    assert(kinds@.skip(i as int).drop_first() =~= kinds@.skip(i + 1));
    let popped = if kinds[i] {
        frame.pop_value::<DUAL_SLOT>()
    } else {
        frame.pop_value::<SINGLE_SLOT>()
    };
    match popped {
        Err(e) => Err(e),
        Ok(v) => match pop_values(frame, kinds, i + 1) {
            Err(e) => Err(e),
            Ok(rest) => {
                let ghost r0 = rest@;
                let mut rest = rest;
                rest.insert(0, v);
                assert(rest@ =~= seq![v] + r0);
                Ok(rest)
            },
        },
    }
}

/// Whether two frames have the same limits and the same return addresses.
pub open spec fn frame_kept(a: JvmStackFrame, b: JvmStackFrame) -> bool {
    &&& a.max_locals_of() == b.max_locals_of()
    &&& a.max_stack_of() == b.max_stack_of()
    &&& a.ret_addresses() == b.ret_addresses()
}

/// The first value of a list of one.
fn take1(args: Vec<Argument>) -> (r: Argument)
    requires
        args@.len() == 1,
    ensures
        r == args@[0],
{
    let mut a = args;
    a.remove(0)
}

/// The two values of a list of two.
fn take2(args: Vec<Argument>) -> (r: (Argument, Argument))
    requires
        args@.len() == 2,
    ensures
        r.0 == args@[0],
        r.1 == args@[1],
{
    let mut a = args;
    let x = a.remove(0);
    let y = a.remove(0);
    (x, y)
}

/// The three values of a list of three.
fn take3(args: Vec<Argument>) -> (r: (Argument, Argument, Argument))
    requires
        args@.len() == 3,
    ensures
        r.0 == args@[0],
        r.1 == args@[1],
        r.2 == args@[2],
{
    let mut a = args;
    let x = a.remove(0);
    let y = a.remove(0);
    let z = a.remove(0);
    (x, y, z)
}

/// Whether the instruction only pops values, may push the value it defines, and gives an
/// instruction of Moka IR that is built from what it popped.
pub open spec fn is_standard(insn: Instruction) -> bool {
    match insn {
        Instruction::Nop
        | Instruction::Breakpoint
        | Instruction::ImpDep1
        | Instruction::ImpDep2
        | Instruction::AConstNull
        | Instruction::IConstM1
        | Instruction::IConst0
        | Instruction::IConst1
        | Instruction::IConst2
        | Instruction::IConst3
        | Instruction::IConst4
        | Instruction::IConst5
        | Instruction::LConst0
        | Instruction::LConst1
        | Instruction::FConst0
        | Instruction::FConst1
        | Instruction::FConst2
        | Instruction::DConst0
        | Instruction::DConst1
        | Instruction::BiPush(_)
        | Instruction::SiPush(_)
        | Instruction::Ldc(_)
        | Instruction::LdcW(_)
        | Instruction::Ldc2W(_)
        | Instruction::IALoad
        | Instruction::FALoad
        | Instruction::AALoad
        | Instruction::BALoad
        | Instruction::CALoad
        | Instruction::SALoad
        | Instruction::LALoad
        | Instruction::DALoad
        | Instruction::IAStore
        | Instruction::FAStore
        | Instruction::AAStore
        | Instruction::BAStore
        | Instruction::CAStore
        | Instruction::SAStore
        | Instruction::LAStore
        | Instruction::DAStore
        | Instruction::IAdd
        | Instruction::FAdd
        | Instruction::LAdd
        | Instruction::DAdd
        | Instruction::ISub
        | Instruction::FSub
        | Instruction::LSub
        | Instruction::DSub
        | Instruction::IMul
        | Instruction::FMul
        | Instruction::LMul
        | Instruction::DMul
        | Instruction::IDiv
        | Instruction::FDiv
        | Instruction::LDiv
        | Instruction::DDiv
        | Instruction::IRem
        | Instruction::FRem
        | Instruction::LRem
        | Instruction::DRem
        | Instruction::INeg
        | Instruction::FNeg
        | Instruction::LNeg
        | Instruction::DNeg
        | Instruction::IShl
        | Instruction::IShr
        | Instruction::IUShr
        | Instruction::IAnd
        | Instruction::IOr
        | Instruction::IXor
        | Instruction::LAnd
        | Instruction::LOr
        | Instruction::LXor
        | Instruction::LShl
        | Instruction::LShr
        | Instruction::LUShr
        | Instruction::I2F
        | Instruction::I2L
        | Instruction::I2D
        | Instruction::L2I
        | Instruction::L2F
        | Instruction::L2D
        | Instruction::F2I
        | Instruction::F2L
        | Instruction::F2D
        | Instruction::D2I
        | Instruction::D2L
        | Instruction::D2F
        | Instruction::I2B
        | Instruction::I2C
        | Instruction::I2S
        | Instruction::LCmp
        | Instruction::FCmpL
        | Instruction::FCmpG
        | Instruction::DCmpL
        | Instruction::DCmpG
        | Instruction::IfEq(_)
        | Instruction::IfNe(_)
        | Instruction::IfLt(_)
        | Instruction::IfGe(_)
        | Instruction::IfGt(_)
        | Instruction::IfLe(_)
        | Instruction::IfNull(_)
        | Instruction::IfNonNull(_)
        | Instruction::IfICmpEq(_)
        | Instruction::IfACmpEq(_)
        | Instruction::IfICmpNe(_)
        | Instruction::IfACmpNe(_)
        | Instruction::IfICmpGe(_)
        | Instruction::IfICmpLt(_)
        | Instruction::IfICmpGt(_)
        | Instruction::IfICmpLe(_)
        | Instruction::Goto(_)
        | Instruction::GotoW(_)
        | Instruction::LookupSwitch { .. }
        | Instruction::IReturn
        | Instruction::FReturn
        | Instruction::AReturn
        | Instruction::LReturn
        | Instruction::DReturn
        | Instruction::Return
        | Instruction::GetStatic(_)
        | Instruction::GetField(_)
        | Instruction::PutStatic(_)
        | Instruction::PutField(_)
        | Instruction::New(_)
        | Instruction::ANewArray(_)
        | Instruction::NewArray(_)
        | Instruction::ArrayLength
        | Instruction::AThrow
        | Instruction::CheckCast(_)
        | Instruction::InstanceOf(_)
        | Instruction::MonitorEnter
        | Instruction::MonitorExit => true,
        _ => false,
    }
}

/// The values that a standard instruction pops, in the order it pops them: whether each
/// takes two slots.
pub open spec fn pops_of(insn: Instruction) -> Seq<bool> {
    match insn {
        Instruction::Nop => seq![],
        Instruction::Breakpoint => seq![],
        Instruction::ImpDep1 => seq![],
        Instruction::ImpDep2 => seq![],
        Instruction::AConstNull => seq![],
        Instruction::IConstM1 => seq![],
        Instruction::IConst0 => seq![],
        Instruction::IConst1 => seq![],
        Instruction::IConst2 => seq![],
        Instruction::IConst3 => seq![],
        Instruction::IConst4 => seq![],
        Instruction::IConst5 => seq![],
        Instruction::LConst0 => seq![],
        Instruction::LConst1 => seq![],
        Instruction::FConst0 => seq![],
        Instruction::FConst1 => seq![],
        Instruction::FConst2 => seq![],
        Instruction::DConst0 => seq![],
        Instruction::DConst1 => seq![],
        Instruction::BiPush(_) => seq![],
        Instruction::SiPush(_) => seq![],
        Instruction::Ldc(_) => seq![],
        Instruction::LdcW(_) => seq![],
        Instruction::Ldc2W(_) => seq![],
        Instruction::IALoad => seq![false, false],
        Instruction::FALoad => seq![false, false],
        Instruction::AALoad => seq![false, false],
        Instruction::BALoad => seq![false, false],
        Instruction::CALoad => seq![false, false],
        Instruction::SALoad => seq![false, false],
        Instruction::LALoad => seq![false, false],
        Instruction::DALoad => seq![false, false],
        Instruction::IAStore => seq![false, false, false],
        Instruction::FAStore => seq![false, false, false],
        Instruction::AAStore => seq![false, false, false],
        Instruction::BAStore => seq![false, false, false],
        Instruction::CAStore => seq![false, false, false],
        Instruction::SAStore => seq![false, false, false],
        Instruction::LAStore => seq![true, false, false],
        Instruction::DAStore => seq![true, false, false],
        Instruction::IAdd => seq![false, false],
        Instruction::FAdd => seq![false, false],
        Instruction::LAdd => seq![true, true],
        Instruction::DAdd => seq![true, true],
        Instruction::ISub => seq![false, false],
        Instruction::FSub => seq![false, false],
        Instruction::LSub => seq![true, true],
        Instruction::DSub => seq![true, true],
        Instruction::IMul => seq![false, false],
        Instruction::FMul => seq![false, false],
        Instruction::LMul => seq![true, true],
        Instruction::DMul => seq![true, true],
        Instruction::IDiv => seq![false, false],
        Instruction::FDiv => seq![false, false],
        Instruction::LDiv => seq![true, true],
        Instruction::DDiv => seq![true, true],
        Instruction::IRem => seq![false, false],
        Instruction::FRem => seq![false, false],
        Instruction::LRem => seq![true, true],
        Instruction::DRem => seq![true, true],
        Instruction::INeg => seq![false],
        Instruction::FNeg => seq![false],
        Instruction::LNeg => seq![true],
        Instruction::DNeg => seq![true],
        Instruction::IShl => seq![false, false],
        Instruction::IShr => seq![false, false],
        Instruction::IUShr => seq![false, false],
        Instruction::IAnd => seq![false, false],
        Instruction::IOr => seq![false, false],
        Instruction::IXor => seq![false, false],
        Instruction::LAnd => seq![true, true],
        Instruction::LOr => seq![true, true],
        Instruction::LXor => seq![true, true],
        Instruction::LShl => seq![false, true],
        Instruction::LShr => seq![false, true],
        Instruction::LUShr => seq![false, true],
        Instruction::I2F => seq![false],
        Instruction::I2L => seq![false],
        Instruction::I2D => seq![false],
        Instruction::L2I => seq![true],
        Instruction::L2F => seq![true],
        Instruction::L2D => seq![true],
        Instruction::F2I => seq![false],
        Instruction::F2L => seq![false],
        Instruction::F2D => seq![false],
        Instruction::D2I => seq![true],
        Instruction::D2L => seq![true],
        Instruction::D2F => seq![true],
        Instruction::I2B => seq![false],
        Instruction::I2C => seq![false],
        Instruction::I2S => seq![false],
        Instruction::LCmp => seq![true, true],
        Instruction::FCmpL => seq![false, false],
        Instruction::FCmpG => seq![false, false],
        Instruction::DCmpL => seq![true, true],
        Instruction::DCmpG => seq![true, true],
        Instruction::IfEq(_) => seq![false],
        Instruction::IfNe(_) => seq![false],
        Instruction::IfLt(_) => seq![false],
        Instruction::IfGe(_) => seq![false],
        Instruction::IfGt(_) => seq![false],
        Instruction::IfLe(_) => seq![false],
        Instruction::IfNull(_) => seq![false],
        Instruction::IfNonNull(_) => seq![false],
        Instruction::IfICmpEq(_) => seq![false, false],
        Instruction::IfACmpEq(_) => seq![false, false],
        Instruction::IfICmpNe(_) => seq![false, false],
        Instruction::IfACmpNe(_) => seq![false, false],
        Instruction::IfICmpGe(_) => seq![false, false],
        Instruction::IfICmpLt(_) => seq![false, false],
        Instruction::IfICmpGt(_) => seq![false, false],
        Instruction::IfICmpLe(_) => seq![false, false],
        Instruction::Goto(_) => seq![],
        Instruction::GotoW(_) => seq![],
        Instruction::LookupSwitch { .. } => seq![false],
        Instruction::IReturn => seq![false],
        Instruction::FReturn => seq![false],
        Instruction::AReturn => seq![false],
        Instruction::LReturn => seq![true],
        Instruction::DReturn => seq![true],
        Instruction::Return => seq![],
        Instruction::GetStatic(_) => seq![],
        Instruction::GetField(_) => seq![false],
        Instruction::PutStatic(f) => seq![f.field_type.is_dual_slot()],
        Instruction::PutField(f) => seq![f.field_type.is_dual_slot(), false],
        Instruction::New(_) => seq![],
        Instruction::ANewArray(_) => seq![false],
        Instruction::NewArray(_) => seq![false],
        Instruction::ArrayLength => seq![false],
        Instruction::AThrow => seq![false],
        Instruction::CheckCast(_) => seq![false],
        Instruction::InstanceOf(_) => seq![false],
        Instruction::MonitorEnter => seq![false],
        Instruction::MonitorExit => seq![false],
        _ => Seq::empty(),
    }
}

/// Whether a standard instruction pushes the value it defines, and whether that value takes
/// two slots.
pub open spec fn push_of(insn: Instruction) -> Option<bool> {
    match insn {
        Instruction::Nop => None,
        Instruction::Breakpoint => None,
        Instruction::ImpDep1 => None,
        Instruction::ImpDep2 => None,
        Instruction::AConstNull => Some(false),
        Instruction::IConstM1 => Some(false),
        Instruction::IConst0 => Some(false),
        Instruction::IConst1 => Some(false),
        Instruction::IConst2 => Some(false),
        Instruction::IConst3 => Some(false),
        Instruction::IConst4 => Some(false),
        Instruction::IConst5 => Some(false),
        Instruction::LConst0 => Some(true),
        Instruction::LConst1 => Some(true),
        Instruction::FConst0 => Some(false),
        Instruction::FConst1 => Some(false),
        Instruction::FConst2 => Some(false),
        Instruction::DConst0 => Some(true),
        Instruction::DConst1 => Some(true),
        Instruction::BiPush(_) => Some(false),
        Instruction::SiPush(_) => Some(false),
        Instruction::Ldc(_) => Some(false),
        Instruction::LdcW(_) => Some(false),
        Instruction::Ldc2W(_) => Some(true),
        Instruction::IALoad => Some(false),
        Instruction::FALoad => Some(false),
        Instruction::AALoad => Some(false),
        Instruction::BALoad => Some(false),
        Instruction::CALoad => Some(false),
        Instruction::SALoad => Some(false),
        Instruction::LALoad => Some(true),
        Instruction::DALoad => Some(true),
        Instruction::IAStore => None,
        Instruction::FAStore => None,
        Instruction::AAStore => None,
        Instruction::BAStore => None,
        Instruction::CAStore => None,
        Instruction::SAStore => None,
        Instruction::LAStore => None,
        Instruction::DAStore => None,
        Instruction::IAdd => Some(false),
        Instruction::FAdd => Some(false),
        Instruction::LAdd => Some(true),
        Instruction::DAdd => Some(true),
        Instruction::ISub => Some(false),
        Instruction::FSub => Some(false),
        Instruction::LSub => Some(true),
        Instruction::DSub => Some(true),
        Instruction::IMul => Some(false),
        Instruction::FMul => Some(false),
        Instruction::LMul => Some(true),
        Instruction::DMul => Some(true),
        Instruction::IDiv => Some(false),
        Instruction::FDiv => Some(false),
        Instruction::LDiv => Some(true),
        Instruction::DDiv => Some(true),
        Instruction::IRem => Some(false),
        Instruction::FRem => Some(false),
        Instruction::LRem => Some(true),
        Instruction::DRem => Some(true),
        Instruction::INeg => Some(false),
        Instruction::FNeg => Some(false),
        Instruction::LNeg => Some(true),
        Instruction::DNeg => Some(true),
        Instruction::IShl => Some(false),
        Instruction::IShr => Some(false),
        Instruction::IUShr => Some(false),
        Instruction::IAnd => Some(false),
        Instruction::IOr => Some(false),
        Instruction::IXor => Some(false),
        Instruction::LAnd => Some(true),
        Instruction::LOr => Some(true),
        Instruction::LXor => Some(true),
        Instruction::LShl => Some(true),
        Instruction::LShr => Some(true),
        Instruction::LUShr => Some(true),
        Instruction::I2F => Some(false),
        Instruction::I2L => Some(true),
        Instruction::I2D => Some(true),
        Instruction::L2I => Some(false),
        Instruction::L2F => Some(false),
        Instruction::L2D => Some(true),
        Instruction::F2I => Some(false),
        Instruction::F2L => Some(true),
        Instruction::F2D => Some(true),
        Instruction::D2I => Some(false),
        Instruction::D2L => Some(true),
        Instruction::D2F => Some(false),
        Instruction::I2B => Some(false),
        Instruction::I2C => Some(false),
        Instruction::I2S => Some(false),
        Instruction::LCmp => Some(false),
        Instruction::FCmpL => Some(false),
        Instruction::FCmpG => Some(false),
        Instruction::DCmpL => Some(false),
        Instruction::DCmpG => Some(false),
        Instruction::IfEq(_) => None,
        Instruction::IfNe(_) => None,
        Instruction::IfLt(_) => None,
        Instruction::IfGe(_) => None,
        Instruction::IfGt(_) => None,
        Instruction::IfLe(_) => None,
        Instruction::IfNull(_) => None,
        Instruction::IfNonNull(_) => None,
        Instruction::IfICmpEq(_) => None,
        Instruction::IfACmpEq(_) => None,
        Instruction::IfICmpNe(_) => None,
        Instruction::IfACmpNe(_) => None,
        Instruction::IfICmpGe(_) => None,
        Instruction::IfICmpLt(_) => None,
        Instruction::IfICmpGt(_) => None,
        Instruction::IfICmpLe(_) => None,
        Instruction::Goto(_) => None,
        Instruction::GotoW(_) => None,
        Instruction::LookupSwitch { .. } => None,
        Instruction::IReturn => None,
        Instruction::FReturn => None,
        Instruction::AReturn => None,
        Instruction::LReturn => None,
        Instruction::DReturn => None,
        Instruction::Return => None,
        Instruction::GetStatic(f) => Some(f.field_type.is_dual_slot()),
        Instruction::GetField(f) => Some(f.field_type.is_dual_slot()),
        Instruction::PutStatic(_) => None,
        Instruction::PutField(_) => None,
        Instruction::New(_) => Some(false),
        Instruction::ANewArray(_) => Some(false),
        Instruction::NewArray(_) => Some(false),
        Instruction::ArrayLength => Some(false),
        Instruction::AThrow => None,
        Instruction::CheckCast(_) => Some(false),
        Instruction::InstanceOf(_) => Some(false),
        Instruction::MonitorEnter => None,
        Instruction::MonitorExit => None,
        _ => None,
    }
}

/// The instruction of Moka IR that a standard instruction gives, from the local value it
/// defines and the values it popped, in the order it popped them.
pub open spec fn ir_of(insn: Instruction, def: LocalValue, args: Seq<Argument>) -> MokaInstruction {
    match insn {
        Instruction::Nop => MokaInstruction::Nop,
        Instruction::Breakpoint => MokaInstruction::Nop,
        Instruction::ImpDep1 => MokaInstruction::Nop,
        Instruction::ImpDep2 => MokaInstruction::Nop,
        Instruction::AConstNull => MokaInstruction::Definition { value: def, expr: Expression::Const(ConstantValue::Null) },
        Instruction::IConstM1 => MokaInstruction::Definition { value: def, expr: Expression::Const(ConstantValue::Integer(-1i32)) },
        Instruction::IConst0 => MokaInstruction::Definition { value: def, expr: Expression::Const(ConstantValue::Integer(0i32)) },
        Instruction::IConst1 => MokaInstruction::Definition { value: def, expr: Expression::Const(ConstantValue::Integer(1i32)) },
        Instruction::IConst2 => MokaInstruction::Definition { value: def, expr: Expression::Const(ConstantValue::Integer(2i32)) },
        Instruction::IConst3 => MokaInstruction::Definition { value: def, expr: Expression::Const(ConstantValue::Integer(3i32)) },
        Instruction::IConst4 => MokaInstruction::Definition { value: def, expr: Expression::Const(ConstantValue::Integer(4i32)) },
        Instruction::IConst5 => MokaInstruction::Definition { value: def, expr: Expression::Const(ConstantValue::Integer(5i32)) },
        Instruction::LConst0 => MokaInstruction::Definition { value: def, expr: Expression::Const(ConstantValue::Long(0i64)) },
        Instruction::LConst1 => MokaInstruction::Definition { value: def, expr: Expression::Const(ConstantValue::Long(1i64)) },
        Instruction::FConst0 => MokaInstruction::Definition { value: def, expr: Expression::Const(ConstantValue::Float(FloatBits(0x0000_0000u32))) },
        Instruction::FConst1 => MokaInstruction::Definition { value: def, expr: Expression::Const(ConstantValue::Float(FloatBits(0x3f80_0000u32))) },
        Instruction::FConst2 => MokaInstruction::Definition { value: def, expr: Expression::Const(ConstantValue::Float(FloatBits(0x4000_0000u32))) },
        Instruction::DConst0 => MokaInstruction::Definition { value: def, expr: Expression::Const(ConstantValue::Double(DoubleBits(0u64))) },
        Instruction::DConst1 => MokaInstruction::Definition { value: def, expr: Expression::Const(ConstantValue::Double(DoubleBits(0x3ff0_0000_0000_0000u64))) },
        Instruction::BiPush(v) => MokaInstruction::Definition { value: def, expr: Expression::Const(ConstantValue::Integer(v as i32)) },
        Instruction::SiPush(v) => MokaInstruction::Definition { value: def, expr: Expression::Const(ConstantValue::Integer(v as i32)) },
        Instruction::Ldc(c) => MokaInstruction::Definition { value: def, expr: Expression::Const(c) },
        Instruction::LdcW(c) => MokaInstruction::Definition { value: def, expr: Expression::Const(c) },
        Instruction::Ldc2W(c) => MokaInstruction::Definition { value: def, expr: Expression::Const(c) },
        Instruction::IALoad => MokaInstruction::Definition { value: def, expr: Expression::Array(ArrayOperation::Read { array_ref: args[1], index: args[0] }) },
        Instruction::FALoad => MokaInstruction::Definition { value: def, expr: Expression::Array(ArrayOperation::Read { array_ref: args[1], index: args[0] }) },
        Instruction::AALoad => MokaInstruction::Definition { value: def, expr: Expression::Array(ArrayOperation::Read { array_ref: args[1], index: args[0] }) },
        Instruction::BALoad => MokaInstruction::Definition { value: def, expr: Expression::Array(ArrayOperation::Read { array_ref: args[1], index: args[0] }) },
        Instruction::CALoad => MokaInstruction::Definition { value: def, expr: Expression::Array(ArrayOperation::Read { array_ref: args[1], index: args[0] }) },
        Instruction::SALoad => MokaInstruction::Definition { value: def, expr: Expression::Array(ArrayOperation::Read { array_ref: args[1], index: args[0] }) },
        Instruction::LALoad => MokaInstruction::Definition { value: def, expr: Expression::Array(ArrayOperation::Read { array_ref: args[1], index: args[0] }) },
        Instruction::DALoad => MokaInstruction::Definition { value: def, expr: Expression::Array(ArrayOperation::Read { array_ref: args[1], index: args[0] }) },
        Instruction::IAStore => MokaInstruction::Definition { value: def, expr: Expression::Array(ArrayOperation::Write { array_ref: args[2], index: args[1], value: args[0] }) },
        Instruction::FAStore => MokaInstruction::Definition { value: def, expr: Expression::Array(ArrayOperation::Write { array_ref: args[2], index: args[1], value: args[0] }) },
        Instruction::AAStore => MokaInstruction::Definition { value: def, expr: Expression::Array(ArrayOperation::Write { array_ref: args[2], index: args[1], value: args[0] }) },
        Instruction::BAStore => MokaInstruction::Definition { value: def, expr: Expression::Array(ArrayOperation::Write { array_ref: args[2], index: args[1], value: args[0] }) },
        Instruction::CAStore => MokaInstruction::Definition { value: def, expr: Expression::Array(ArrayOperation::Write { array_ref: args[2], index: args[1], value: args[0] }) },
        Instruction::SAStore => MokaInstruction::Definition { value: def, expr: Expression::Array(ArrayOperation::Write { array_ref: args[2], index: args[1], value: args[0] }) },
        Instruction::LAStore => MokaInstruction::Definition { value: def, expr: Expression::Array(ArrayOperation::Write { array_ref: args[2], index: args[1], value: args[0] }) },
        Instruction::DAStore => MokaInstruction::Definition { value: def, expr: Expression::Array(ArrayOperation::Write { array_ref: args[2], index: args[1], value: args[0] }) },
        Instruction::IAdd => MokaInstruction::Definition { value: def, expr: Expression::Math(MathOperation::Add(args[1], args[0])) },
        Instruction::FAdd => MokaInstruction::Definition { value: def, expr: Expression::Math(MathOperation::Add(args[1], args[0])) },
        Instruction::LAdd => MokaInstruction::Definition { value: def, expr: Expression::Math(MathOperation::Add(args[1], args[0])) },
        Instruction::DAdd => MokaInstruction::Definition { value: def, expr: Expression::Math(MathOperation::Add(args[1], args[0])) },
        Instruction::ISub => MokaInstruction::Definition { value: def, expr: Expression::Math(MathOperation::Subtract(args[1], args[0])) },
        Instruction::FSub => MokaInstruction::Definition { value: def, expr: Expression::Math(MathOperation::Subtract(args[1], args[0])) },
        Instruction::LSub => MokaInstruction::Definition { value: def, expr: Expression::Math(MathOperation::Subtract(args[1], args[0])) },
        Instruction::DSub => MokaInstruction::Definition { value: def, expr: Expression::Math(MathOperation::Subtract(args[1], args[0])) },
        Instruction::IMul => MokaInstruction::Definition { value: def, expr: Expression::Math(MathOperation::Multiply(args[1], args[0])) },
        Instruction::FMul => MokaInstruction::Definition { value: def, expr: Expression::Math(MathOperation::Multiply(args[1], args[0])) },
        Instruction::LMul => MokaInstruction::Definition { value: def, expr: Expression::Math(MathOperation::Multiply(args[1], args[0])) },
        Instruction::DMul => MokaInstruction::Definition { value: def, expr: Expression::Math(MathOperation::Multiply(args[1], args[0])) },
        Instruction::IDiv => MokaInstruction::Definition { value: def, expr: Expression::Math(MathOperation::Divide(args[1], args[0])) },
        Instruction::FDiv => MokaInstruction::Definition { value: def, expr: Expression::Math(MathOperation::Divide(args[1], args[0])) },
        Instruction::LDiv => MokaInstruction::Definition { value: def, expr: Expression::Math(MathOperation::Divide(args[1], args[0])) },
        Instruction::DDiv => MokaInstruction::Definition { value: def, expr: Expression::Math(MathOperation::Divide(args[1], args[0])) },
        Instruction::IRem => MokaInstruction::Definition { value: def, expr: Expression::Math(MathOperation::Remainder(args[1], args[0])) },
        Instruction::FRem => MokaInstruction::Definition { value: def, expr: Expression::Math(MathOperation::Remainder(args[1], args[0])) },
        Instruction::LRem => MokaInstruction::Definition { value: def, expr: Expression::Math(MathOperation::Remainder(args[1], args[0])) },
        Instruction::DRem => MokaInstruction::Definition { value: def, expr: Expression::Math(MathOperation::Remainder(args[1], args[0])) },
        Instruction::INeg => MokaInstruction::Definition { value: def, expr: Expression::Math(MathOperation::Negate(args[0])) },
        Instruction::FNeg => MokaInstruction::Definition { value: def, expr: Expression::Math(MathOperation::Negate(args[0])) },
        Instruction::LNeg => MokaInstruction::Definition { value: def, expr: Expression::Math(MathOperation::Negate(args[0])) },
        Instruction::DNeg => MokaInstruction::Definition { value: def, expr: Expression::Math(MathOperation::Negate(args[0])) },
        Instruction::IShl => MokaInstruction::Definition { value: def, expr: Expression::Math(MathOperation::ShiftLeft(args[1], args[0])) },
        Instruction::IShr => MokaInstruction::Definition { value: def, expr: Expression::Math(MathOperation::ShiftRight(args[1], args[0])) },
        Instruction::IUShr => MokaInstruction::Definition { value: def, expr: Expression::Math(MathOperation::LogicalShiftRight(args[1], args[0])) },
        Instruction::IAnd => MokaInstruction::Definition { value: def, expr: Expression::Math(MathOperation::BitwiseAnd(args[1], args[0])) },
        Instruction::IOr => MokaInstruction::Definition { value: def, expr: Expression::Math(MathOperation::BitwiseOr(args[1], args[0])) },
        Instruction::IXor => MokaInstruction::Definition { value: def, expr: Expression::Math(MathOperation::BitwiseXor(args[1], args[0])) },
        Instruction::LAnd => MokaInstruction::Definition { value: def, expr: Expression::Math(MathOperation::BitwiseAnd(args[1], args[0])) },
        Instruction::LOr => MokaInstruction::Definition { value: def, expr: Expression::Math(MathOperation::BitwiseOr(args[1], args[0])) },
        Instruction::LXor => MokaInstruction::Definition { value: def, expr: Expression::Math(MathOperation::BitwiseXor(args[1], args[0])) },
        Instruction::LShl => MokaInstruction::Definition { value: def, expr: Expression::Math(MathOperation::ShiftLeft(args[1], args[0])) },
        Instruction::LShr => MokaInstruction::Definition { value: def, expr: Expression::Math(MathOperation::ShiftRight(args[1], args[0])) },
        Instruction::LUShr => MokaInstruction::Definition { value: def, expr: Expression::Math(MathOperation::LogicalShiftRight(args[1], args[0])) },
        Instruction::I2F => MokaInstruction::Definition { value: def, expr: Expression::Conversion(ConversionOperation::Int2Float(args[0])) },
        Instruction::I2L => MokaInstruction::Definition { value: def, expr: Expression::Conversion(ConversionOperation::Int2Long(args[0])) },
        Instruction::I2D => MokaInstruction::Definition { value: def, expr: Expression::Conversion(ConversionOperation::Int2Double(args[0])) },
        Instruction::L2I => MokaInstruction::Definition { value: def, expr: Expression::Conversion(ConversionOperation::Long2Int(args[0])) },
        Instruction::L2F => MokaInstruction::Definition { value: def, expr: Expression::Conversion(ConversionOperation::Long2Float(args[0])) },
        Instruction::L2D => MokaInstruction::Definition { value: def, expr: Expression::Conversion(ConversionOperation::Long2Double(args[0])) },
        Instruction::F2I => MokaInstruction::Definition { value: def, expr: Expression::Conversion(ConversionOperation::Float2Int(args[0])) },
        Instruction::F2L => MokaInstruction::Definition { value: def, expr: Expression::Conversion(ConversionOperation::Float2Long(args[0])) },
        Instruction::F2D => MokaInstruction::Definition { value: def, expr: Expression::Conversion(ConversionOperation::Float2Double(args[0])) },
        Instruction::D2I => MokaInstruction::Definition { value: def, expr: Expression::Conversion(ConversionOperation::Double2Int(args[0])) },
        Instruction::D2L => MokaInstruction::Definition { value: def, expr: Expression::Conversion(ConversionOperation::Double2Long(args[0])) },
        Instruction::D2F => MokaInstruction::Definition { value: def, expr: Expression::Conversion(ConversionOperation::Double2Float(args[0])) },
        Instruction::I2B => MokaInstruction::Definition { value: def, expr: Expression::Conversion(ConversionOperation::Int2Byte(args[0])) },
        Instruction::I2C => MokaInstruction::Definition { value: def, expr: Expression::Conversion(ConversionOperation::Int2Char(args[0])) },
        Instruction::I2S => MokaInstruction::Definition { value: def, expr: Expression::Conversion(ConversionOperation::Int2Short(args[0])) },
        Instruction::LCmp => MokaInstruction::Definition { value: def, expr: Expression::Math(MathOperation::LongComparison(args[1], args[0])) },
        Instruction::FCmpL => MokaInstruction::Definition { value: def, expr: Expression::Math(MathOperation::FloatingPointComparison(args[1], args[0], NaNTreatment::IsSmallest)) },
        Instruction::FCmpG => MokaInstruction::Definition { value: def, expr: Expression::Math(MathOperation::FloatingPointComparison(args[1], args[0], NaNTreatment::IsLargest)) },
        Instruction::DCmpL => MokaInstruction::Definition { value: def, expr: Expression::Math(MathOperation::FloatingPointComparison(args[1], args[0], NaNTreatment::IsSmallest)) },
        Instruction::DCmpG => MokaInstruction::Definition { value: def, expr: Expression::Math(MathOperation::FloatingPointComparison(args[1], args[0], NaNTreatment::IsLargest)) },
        Instruction::IfEq(t) => MokaInstruction::Jump { condition: Some(Condition::IsZero(args[0])), target: t },
        Instruction::IfNe(t) => MokaInstruction::Jump { condition: Some(Condition::IsNonZero(args[0])), target: t },
        Instruction::IfLt(t) => MokaInstruction::Jump { condition: Some(Condition::IsNegative(args[0])), target: t },
        Instruction::IfGe(t) => MokaInstruction::Jump { condition: Some(Condition::IsNonNegative(args[0])), target: t },
        Instruction::IfGt(t) => MokaInstruction::Jump { condition: Some(Condition::IsPositive(args[0])), target: t },
        Instruction::IfLe(t) => MokaInstruction::Jump { condition: Some(Condition::IsNonPositive(args[0])), target: t },
        Instruction::IfNull(t) => MokaInstruction::Jump { condition: Some(Condition::IsNull(args[0])), target: t },
        Instruction::IfNonNull(t) => MokaInstruction::Jump { condition: Some(Condition::IsNotNull(args[0])), target: t },
        Instruction::IfICmpEq(t) => MokaInstruction::Jump { condition: Some(Condition::Equal(args[1], args[0])), target: t },
        Instruction::IfACmpEq(t) => MokaInstruction::Jump { condition: Some(Condition::Equal(args[1], args[0])), target: t },
        Instruction::IfICmpNe(t) => MokaInstruction::Jump { condition: Some(Condition::NotEqual(args[1], args[0])), target: t },
        Instruction::IfACmpNe(t) => MokaInstruction::Jump { condition: Some(Condition::NotEqual(args[1], args[0])), target: t },
        Instruction::IfICmpGe(t) => MokaInstruction::Jump { condition: Some(Condition::GreaterThanOrEqual(args[1], args[0])), target: t },
        Instruction::IfICmpLt(t) => MokaInstruction::Jump { condition: Some(Condition::LessThan(args[1], args[0])), target: t },
        Instruction::IfICmpGt(t) => MokaInstruction::Jump { condition: Some(Condition::GreaterThan(args[1], args[0])), target: t },
        Instruction::IfICmpLe(t) => MokaInstruction::Jump { condition: Some(Condition::LessThanOrEqual(args[1], args[0])), target: t },
        Instruction::Goto(t) => MokaInstruction::Jump { condition: None, target: t },
        Instruction::GotoW(t) => MokaInstruction::Jump { condition: None, target: t },
        Instruction::LookupSwitch { default, match_targets } => MokaInstruction::Switch { match_value: args[0], branches: match_targets, default },
        Instruction::IReturn => MokaInstruction::Return(Some(args[0])),
        Instruction::FReturn => MokaInstruction::Return(Some(args[0])),
        Instruction::AReturn => MokaInstruction::Return(Some(args[0])),
        Instruction::LReturn => MokaInstruction::Return(Some(args[0])),
        Instruction::DReturn => MokaInstruction::Return(Some(args[0])),
        Instruction::Return => MokaInstruction::Return(None),
        Instruction::GetStatic(f) => MokaInstruction::Definition { value: def, expr: Expression::Field(FieldAccess::ReadStatic { field: f }) },
        Instruction::GetField(f) => MokaInstruction::Definition { value: def, expr: Expression::Field(FieldAccess::ReadInstance { object_ref: args[0], field: f }) },
        Instruction::PutStatic(f) => MokaInstruction::Definition { value: def, expr: Expression::Field(FieldAccess::WriteStatic { field: f, value: args[0] }) },
        Instruction::PutField(f) => MokaInstruction::Definition { value: def, expr: Expression::Field(FieldAccess::WriteInstance { object_ref: args[1], field: f, value: args[0] }) },
        Instruction::New(c) => MokaInstruction::Definition { value: def, expr: Expression::New(c) },
        Instruction::ANewArray(c) => MokaInstruction::Definition { value: def, expr: Expression::Array(ArrayOperation::New { element_type: FieldType::Object(c), length: args[0] }) },
        Instruction::NewArray(p) => MokaInstruction::Definition { value: def, expr: Expression::Array(ArrayOperation::New { element_type: FieldType::Base(p), length: args[0] }) },
        Instruction::ArrayLength => MokaInstruction::Definition { value: def, expr: Expression::Array(ArrayOperation::Length { array_ref: args[0] }) },
        Instruction::AThrow => MokaInstruction::Definition { value: def, expr: Expression::Throw(args[0]) },
        Instruction::CheckCast(t) => MokaInstruction::Definition { value: def, expr: Expression::Conversion(ConversionOperation::CheckCast(args[0], t)) },
        Instruction::InstanceOf(t) => MokaInstruction::Definition { value: def, expr: Expression::Conversion(ConversionOperation::InstanceOf(args[0], t)) },
        Instruction::MonitorEnter => MokaInstruction::Definition { value: def, expr: Expression::Synchronization(LockOperation::Acquire(args[0])) },
        Instruction::MonitorExit => MokaInstruction::Definition { value: def, expr: Expression::Synchronization(LockOperation::Release(args[0])) },
        _ => MokaInstruction::Nop,
    }
}

/// Checks whether the instruction is standard.
fn standard(insn: &Instruction) -> (r: bool)
    ensures
        r == is_standard(*insn),
{
    match insn {
        Instruction::Nop
        | Instruction::Breakpoint
        | Instruction::ImpDep1
        | Instruction::ImpDep2
        | Instruction::AConstNull
        | Instruction::IConstM1
        | Instruction::IConst0
        | Instruction::IConst1
        | Instruction::IConst2
        | Instruction::IConst3
        | Instruction::IConst4
        | Instruction::IConst5
        | Instruction::LConst0
        | Instruction::LConst1
        | Instruction::FConst0
        | Instruction::FConst1
        | Instruction::FConst2
        | Instruction::DConst0
        | Instruction::DConst1
        | Instruction::BiPush(_)
        | Instruction::SiPush(_)
        | Instruction::Ldc(_)
        | Instruction::LdcW(_)
        | Instruction::Ldc2W(_)
        | Instruction::IALoad
        | Instruction::FALoad
        | Instruction::AALoad
        | Instruction::BALoad
        | Instruction::CALoad
        | Instruction::SALoad
        | Instruction::LALoad
        | Instruction::DALoad
        | Instruction::IAStore
        | Instruction::FAStore
        | Instruction::AAStore
        | Instruction::BAStore
        | Instruction::CAStore
        | Instruction::SAStore
        | Instruction::LAStore
        | Instruction::DAStore
        | Instruction::IAdd
        | Instruction::FAdd
        | Instruction::LAdd
        | Instruction::DAdd
        | Instruction::ISub
        | Instruction::FSub
        | Instruction::LSub
        | Instruction::DSub
        | Instruction::IMul
        | Instruction::FMul
        | Instruction::LMul
        | Instruction::DMul
        | Instruction::IDiv
        | Instruction::FDiv
        | Instruction::LDiv
        | Instruction::DDiv
        | Instruction::IRem
        | Instruction::FRem
        | Instruction::LRem
        | Instruction::DRem
        | Instruction::INeg
        | Instruction::FNeg
        | Instruction::LNeg
        | Instruction::DNeg
        | Instruction::IShl
        | Instruction::IShr
        | Instruction::IUShr
        | Instruction::IAnd
        | Instruction::IOr
        | Instruction::IXor
        | Instruction::LAnd
        | Instruction::LOr
        | Instruction::LXor
        | Instruction::LShl
        | Instruction::LShr
        | Instruction::LUShr
        | Instruction::I2F
        | Instruction::I2L
        | Instruction::I2D
        | Instruction::L2I
        | Instruction::L2F
        | Instruction::L2D
        | Instruction::F2I
        | Instruction::F2L
        | Instruction::F2D
        | Instruction::D2I
        | Instruction::D2L
        | Instruction::D2F
        | Instruction::I2B
        | Instruction::I2C
        | Instruction::I2S
        | Instruction::LCmp
        | Instruction::FCmpL
        | Instruction::FCmpG
        | Instruction::DCmpL
        | Instruction::DCmpG
        | Instruction::IfEq(_)
        | Instruction::IfNe(_)
        | Instruction::IfLt(_)
        | Instruction::IfGe(_)
        | Instruction::IfGt(_)
        | Instruction::IfLe(_)
        | Instruction::IfNull(_)
        | Instruction::IfNonNull(_)
        | Instruction::IfICmpEq(_)
        | Instruction::IfACmpEq(_)
        | Instruction::IfICmpNe(_)
        | Instruction::IfACmpNe(_)
        | Instruction::IfICmpGe(_)
        | Instruction::IfICmpLt(_)
        | Instruction::IfICmpGt(_)
        | Instruction::IfICmpLe(_)
        | Instruction::Goto(_)
        | Instruction::GotoW(_)
        | Instruction::LookupSwitch { .. }
        | Instruction::IReturn
        | Instruction::FReturn
        | Instruction::AReturn
        | Instruction::LReturn
        | Instruction::DReturn
        | Instruction::Return
        | Instruction::GetStatic(_)
        | Instruction::GetField(_)
        | Instruction::PutStatic(_)
        | Instruction::PutField(_)
        | Instruction::New(_)
        | Instruction::ANewArray(_)
        | Instruction::NewArray(_)
        | Instruction::ArrayLength
        | Instruction::AThrow
        | Instruction::CheckCast(_)
        | Instruction::InstanceOf(_)
        | Instruction::MonitorEnter
        | Instruction::MonitorExit => true,
        _ => false,
    }
}

/// The values that a standard instruction pops.
fn pop_kinds(insn: &Instruction) -> (r: Vec<bool>)
    ensures
        r@ == pops_of(*insn),
{
    let r = match insn {
        Instruction::Nop => vec![],
        Instruction::Breakpoint => vec![],
        Instruction::ImpDep1 => vec![],
        Instruction::ImpDep2 => vec![],
        Instruction::AConstNull => vec![],
        Instruction::IConstM1 => vec![],
        Instruction::IConst0 => vec![],
        Instruction::IConst1 => vec![],
        Instruction::IConst2 => vec![],
        Instruction::IConst3 => vec![],
        Instruction::IConst4 => vec![],
        Instruction::IConst5 => vec![],
        Instruction::LConst0 => vec![],
        Instruction::LConst1 => vec![],
        Instruction::FConst0 => vec![],
        Instruction::FConst1 => vec![],
        Instruction::FConst2 => vec![],
        Instruction::DConst0 => vec![],
        Instruction::DConst1 => vec![],
        Instruction::BiPush(_) => vec![],
        Instruction::SiPush(_) => vec![],
        Instruction::Ldc(_) => vec![],
        Instruction::LdcW(_) => vec![],
        Instruction::Ldc2W(_) => vec![],
        Instruction::IALoad => vec![false, false],
        Instruction::FALoad => vec![false, false],
        Instruction::AALoad => vec![false, false],
        Instruction::BALoad => vec![false, false],
        Instruction::CALoad => vec![false, false],
        Instruction::SALoad => vec![false, false],
        Instruction::LALoad => vec![false, false],
        Instruction::DALoad => vec![false, false],
        Instruction::IAStore => vec![false, false, false],
        Instruction::FAStore => vec![false, false, false],
        Instruction::AAStore => vec![false, false, false],
        Instruction::BAStore => vec![false, false, false],
        Instruction::CAStore => vec![false, false, false],
        Instruction::SAStore => vec![false, false, false],
        Instruction::LAStore => vec![true, false, false],
        Instruction::DAStore => vec![true, false, false],
        Instruction::IAdd => vec![false, false],
        Instruction::FAdd => vec![false, false],
        Instruction::LAdd => vec![true, true],
        Instruction::DAdd => vec![true, true],
        Instruction::ISub => vec![false, false],
        Instruction::FSub => vec![false, false],
        Instruction::LSub => vec![true, true],
        Instruction::DSub => vec![true, true],
        Instruction::IMul => vec![false, false],
        Instruction::FMul => vec![false, false],
        Instruction::LMul => vec![true, true],
        Instruction::DMul => vec![true, true],
        Instruction::IDiv => vec![false, false],
        Instruction::FDiv => vec![false, false],
        Instruction::LDiv => vec![true, true],
        Instruction::DDiv => vec![true, true],
        Instruction::IRem => vec![false, false],
        Instruction::FRem => vec![false, false],
        Instruction::LRem => vec![true, true],
        Instruction::DRem => vec![true, true],
        Instruction::INeg => vec![false],
        Instruction::FNeg => vec![false],
        Instruction::LNeg => vec![true],
        Instruction::DNeg => vec![true],
        Instruction::IShl => vec![false, false],
        Instruction::IShr => vec![false, false],
        Instruction::IUShr => vec![false, false],
        Instruction::IAnd => vec![false, false],
        Instruction::IOr => vec![false, false],
        Instruction::IXor => vec![false, false],
        Instruction::LAnd => vec![true, true],
        Instruction::LOr => vec![true, true],
        Instruction::LXor => vec![true, true],
        Instruction::LShl => vec![false, true],
        Instruction::LShr => vec![false, true],
        Instruction::LUShr => vec![false, true],
        Instruction::I2F => vec![false],
        Instruction::I2L => vec![false],
        Instruction::I2D => vec![false],
        Instruction::L2I => vec![true],
        Instruction::L2F => vec![true],
        Instruction::L2D => vec![true],
        Instruction::F2I => vec![false],
        Instruction::F2L => vec![false],
        Instruction::F2D => vec![false],
        Instruction::D2I => vec![true],
        Instruction::D2L => vec![true],
        Instruction::D2F => vec![true],
        Instruction::I2B => vec![false],
        Instruction::I2C => vec![false],
        Instruction::I2S => vec![false],
        Instruction::LCmp => vec![true, true],
        Instruction::FCmpL => vec![false, false],
        Instruction::FCmpG => vec![false, false],
        Instruction::DCmpL => vec![true, true],
        Instruction::DCmpG => vec![true, true],
        Instruction::IfEq(_) => vec![false],
        Instruction::IfNe(_) => vec![false],
        Instruction::IfLt(_) => vec![false],
        Instruction::IfGe(_) => vec![false],
        Instruction::IfGt(_) => vec![false],
        Instruction::IfLe(_) => vec![false],
        Instruction::IfNull(_) => vec![false],
        Instruction::IfNonNull(_) => vec![false],
        Instruction::IfICmpEq(_) => vec![false, false],
        Instruction::IfACmpEq(_) => vec![false, false],
        Instruction::IfICmpNe(_) => vec![false, false],
        Instruction::IfACmpNe(_) => vec![false, false],
        Instruction::IfICmpGe(_) => vec![false, false],
        Instruction::IfICmpLt(_) => vec![false, false],
        Instruction::IfICmpGt(_) => vec![false, false],
        Instruction::IfICmpLe(_) => vec![false, false],
        Instruction::Goto(_) => vec![],
        Instruction::GotoW(_) => vec![],
        Instruction::LookupSwitch { .. } => vec![false],
        Instruction::IReturn => vec![false],
        Instruction::FReturn => vec![false],
        Instruction::AReturn => vec![false],
        Instruction::LReturn => vec![true],
        Instruction::DReturn => vec![true],
        Instruction::Return => vec![],
        Instruction::GetStatic(_) => vec![],
        Instruction::GetField(_) => vec![false],
        Instruction::PutStatic(f) => vec![f.field_type.dual_slot()],
        Instruction::PutField(f) => vec![f.field_type.dual_slot(), false],
        Instruction::New(_) => vec![],
        Instruction::ANewArray(_) => vec![false],
        Instruction::NewArray(_) => vec![false],
        Instruction::ArrayLength => vec![false],
        Instruction::AThrow => vec![false],
        Instruction::CheckCast(_) => vec![false],
        Instruction::InstanceOf(_) => vec![false],
        Instruction::MonitorEnter => vec![false],
        Instruction::MonitorExit => vec![false],
        _ => Vec::new(),
    };
    assert(r@ =~= pops_of(*insn));
    r
}

/// Whether a standard instruction pushes the value it defines.
fn push_kind(insn: &Instruction) -> (r: Option<bool>)
    ensures
        r == push_of(*insn),
{
    match insn {
        Instruction::Nop => None,
        Instruction::Breakpoint => None,
        Instruction::ImpDep1 => None,
        Instruction::ImpDep2 => None,
        Instruction::AConstNull => Some(false),
        Instruction::IConstM1 => Some(false),
        Instruction::IConst0 => Some(false),
        Instruction::IConst1 => Some(false),
        Instruction::IConst2 => Some(false),
        Instruction::IConst3 => Some(false),
        Instruction::IConst4 => Some(false),
        Instruction::IConst5 => Some(false),
        Instruction::LConst0 => Some(true),
        Instruction::LConst1 => Some(true),
        Instruction::FConst0 => Some(false),
        Instruction::FConst1 => Some(false),
        Instruction::FConst2 => Some(false),
        Instruction::DConst0 => Some(true),
        Instruction::DConst1 => Some(true),
        Instruction::BiPush(_) => Some(false),
        Instruction::SiPush(_) => Some(false),
        Instruction::Ldc(_) => Some(false),
        Instruction::LdcW(_) => Some(false),
        Instruction::Ldc2W(_) => Some(true),
        Instruction::IALoad => Some(false),
        Instruction::FALoad => Some(false),
        Instruction::AALoad => Some(false),
        Instruction::BALoad => Some(false),
        Instruction::CALoad => Some(false),
        Instruction::SALoad => Some(false),
        Instruction::LALoad => Some(true),
        Instruction::DALoad => Some(true),
        Instruction::IAStore => None,
        Instruction::FAStore => None,
        Instruction::AAStore => None,
        Instruction::BAStore => None,
        Instruction::CAStore => None,
        Instruction::SAStore => None,
        Instruction::LAStore => None,
        Instruction::DAStore => None,
        Instruction::IAdd => Some(false),
        Instruction::FAdd => Some(false),
        Instruction::LAdd => Some(true),
        Instruction::DAdd => Some(true),
        Instruction::ISub => Some(false),
        Instruction::FSub => Some(false),
        Instruction::LSub => Some(true),
        Instruction::DSub => Some(true),
        Instruction::IMul => Some(false),
        Instruction::FMul => Some(false),
        Instruction::LMul => Some(true),
        Instruction::DMul => Some(true),
        Instruction::IDiv => Some(false),
        Instruction::FDiv => Some(false),
        Instruction::LDiv => Some(true),
        Instruction::DDiv => Some(true),
        Instruction::IRem => Some(false),
        Instruction::FRem => Some(false),
        Instruction::LRem => Some(true),
        Instruction::DRem => Some(true),
        Instruction::INeg => Some(false),
        Instruction::FNeg => Some(false),
        Instruction::LNeg => Some(true),
        Instruction::DNeg => Some(true),
        Instruction::IShl => Some(false),
        Instruction::IShr => Some(false),
        Instruction::IUShr => Some(false),
        Instruction::IAnd => Some(false),
        Instruction::IOr => Some(false),
        Instruction::IXor => Some(false),
        Instruction::LAnd => Some(true),
        Instruction::LOr => Some(true),
        Instruction::LXor => Some(true),
        Instruction::LShl => Some(true),
        Instruction::LShr => Some(true),
        Instruction::LUShr => Some(true),
        Instruction::I2F => Some(false),
        Instruction::I2L => Some(true),
        Instruction::I2D => Some(true),
        Instruction::L2I => Some(false),
        Instruction::L2F => Some(false),
        Instruction::L2D => Some(true),
        Instruction::F2I => Some(false),
        Instruction::F2L => Some(true),
        Instruction::F2D => Some(true),
        Instruction::D2I => Some(false),
        Instruction::D2L => Some(true),
        Instruction::D2F => Some(false),
        Instruction::I2B => Some(false),
        Instruction::I2C => Some(false),
        Instruction::I2S => Some(false),
        Instruction::LCmp => Some(false),
        Instruction::FCmpL => Some(false),
        Instruction::FCmpG => Some(false),
        Instruction::DCmpL => Some(false),
        Instruction::DCmpG => Some(false),
        Instruction::IfEq(_) => None,
        Instruction::IfNe(_) => None,
        Instruction::IfLt(_) => None,
        Instruction::IfGe(_) => None,
        Instruction::IfGt(_) => None,
        Instruction::IfLe(_) => None,
        Instruction::IfNull(_) => None,
        Instruction::IfNonNull(_) => None,
        Instruction::IfICmpEq(_) => None,
        Instruction::IfACmpEq(_) => None,
        Instruction::IfICmpNe(_) => None,
        Instruction::IfACmpNe(_) => None,
        Instruction::IfICmpGe(_) => None,
        Instruction::IfICmpLt(_) => None,
        Instruction::IfICmpGt(_) => None,
        Instruction::IfICmpLe(_) => None,
        Instruction::Goto(_) => None,
        Instruction::GotoW(_) => None,
        Instruction::LookupSwitch { .. } => None,
        Instruction::IReturn => None,
        Instruction::FReturn => None,
        Instruction::AReturn => None,
        Instruction::LReturn => None,
        Instruction::DReturn => None,
        Instruction::Return => None,
        Instruction::GetStatic(f) => Some(f.field_type.dual_slot()),
        Instruction::GetField(f) => Some(f.field_type.dual_slot()),
        Instruction::PutStatic(_) => None,
        Instruction::PutField(_) => None,
        Instruction::New(_) => Some(false),
        Instruction::ANewArray(_) => Some(false),
        Instruction::NewArray(_) => Some(false),
        Instruction::ArrayLength => Some(false),
        Instruction::AThrow => None,
        Instruction::CheckCast(_) => Some(false),
        Instruction::InstanceOf(_) => Some(false),
        Instruction::MonitorEnter => None,
        Instruction::MonitorExit => None,
        _ => None,
    }
}

/// Builds the instruction of Moka IR that a standard instruction gives.
fn make_ir(insn: Instruction, def: LocalValue, args: Vec<Argument>) -> (r: MokaInstruction)
    requires
        is_standard(insn),
        args@.len() == pops_of(insn).len(),
    ensures
        r == ir_of(insn, def, args@),
{
    let ghost a = args@;
    match insn {
        Instruction::Nop => MokaInstruction::Nop,
        Instruction::Breakpoint => MokaInstruction::Nop,
        Instruction::ImpDep1 => MokaInstruction::Nop,
        Instruction::ImpDep2 => MokaInstruction::Nop,
        Instruction::AConstNull => MokaInstruction::Definition { value: def, expr: Expression::Const(ConstantValue::Null) },
        Instruction::IConstM1 => MokaInstruction::Definition { value: def, expr: Expression::Const(ConstantValue::Integer(-1i32)) },
        Instruction::IConst0 => MokaInstruction::Definition { value: def, expr: Expression::Const(ConstantValue::Integer(0i32)) },
        Instruction::IConst1 => MokaInstruction::Definition { value: def, expr: Expression::Const(ConstantValue::Integer(1i32)) },
        Instruction::IConst2 => MokaInstruction::Definition { value: def, expr: Expression::Const(ConstantValue::Integer(2i32)) },
        Instruction::IConst3 => MokaInstruction::Definition { value: def, expr: Expression::Const(ConstantValue::Integer(3i32)) },
        Instruction::IConst4 => MokaInstruction::Definition { value: def, expr: Expression::Const(ConstantValue::Integer(4i32)) },
        Instruction::IConst5 => MokaInstruction::Definition { value: def, expr: Expression::Const(ConstantValue::Integer(5i32)) },
        Instruction::LConst0 => MokaInstruction::Definition { value: def, expr: Expression::Const(ConstantValue::Long(0i64)) },
        Instruction::LConst1 => MokaInstruction::Definition { value: def, expr: Expression::Const(ConstantValue::Long(1i64)) },
        Instruction::FConst0 => MokaInstruction::Definition { value: def, expr: Expression::Const(ConstantValue::Float(FloatBits(0x0000_0000u32))) },
        Instruction::FConst1 => MokaInstruction::Definition { value: def, expr: Expression::Const(ConstantValue::Float(FloatBits(0x3f80_0000u32))) },
        Instruction::FConst2 => MokaInstruction::Definition { value: def, expr: Expression::Const(ConstantValue::Float(FloatBits(0x4000_0000u32))) },
        Instruction::DConst0 => MokaInstruction::Definition { value: def, expr: Expression::Const(ConstantValue::Double(DoubleBits(0u64))) },
        Instruction::DConst1 => MokaInstruction::Definition { value: def, expr: Expression::Const(ConstantValue::Double(DoubleBits(0x3ff0_0000_0000_0000u64))) },
        Instruction::BiPush(v) => MokaInstruction::Definition { value: def, expr: Expression::Const(ConstantValue::Integer(v as i32)) },
        Instruction::SiPush(v) => MokaInstruction::Definition { value: def, expr: Expression::Const(ConstantValue::Integer(v as i32)) },
        Instruction::Ldc(c) => MokaInstruction::Definition { value: def, expr: Expression::Const(c) },
        Instruction::LdcW(c) => MokaInstruction::Definition { value: def, expr: Expression::Const(c) },
        Instruction::Ldc2W(c) => MokaInstruction::Definition { value: def, expr: Expression::Const(c) },
        Instruction::IALoad => {
            let (a0, a1) = take2(args);
            MokaInstruction::Definition { value: def, expr: Expression::Array(ArrayOperation::Read { array_ref: a1, index: a0 }) }
        },
        Instruction::FALoad => {
            let (a0, a1) = take2(args);
            MokaInstruction::Definition { value: def, expr: Expression::Array(ArrayOperation::Read { array_ref: a1, index: a0 }) }
        },
        Instruction::AALoad => {
            let (a0, a1) = take2(args);
            MokaInstruction::Definition { value: def, expr: Expression::Array(ArrayOperation::Read { array_ref: a1, index: a0 }) }
        },
        Instruction::BALoad => {
            let (a0, a1) = take2(args);
            MokaInstruction::Definition { value: def, expr: Expression::Array(ArrayOperation::Read { array_ref: a1, index: a0 }) }
        },
        Instruction::CALoad => {
            let (a0, a1) = take2(args);
            MokaInstruction::Definition { value: def, expr: Expression::Array(ArrayOperation::Read { array_ref: a1, index: a0 }) }
        },
        Instruction::SALoad => {
            let (a0, a1) = take2(args);
            MokaInstruction::Definition { value: def, expr: Expression::Array(ArrayOperation::Read { array_ref: a1, index: a0 }) }
        },
        Instruction::LALoad => {
            let (a0, a1) = take2(args);
            MokaInstruction::Definition { value: def, expr: Expression::Array(ArrayOperation::Read { array_ref: a1, index: a0 }) }
        },
        Instruction::DALoad => {
            let (a0, a1) = take2(args);
            MokaInstruction::Definition { value: def, expr: Expression::Array(ArrayOperation::Read { array_ref: a1, index: a0 }) }
        },
        Instruction::IAStore => {
            let (a0, a1, a2) = take3(args);
            MokaInstruction::Definition { value: def, expr: Expression::Array(ArrayOperation::Write { array_ref: a2, index: a1, value: a0 }) }
        },
        Instruction::FAStore => {
            let (a0, a1, a2) = take3(args);
            MokaInstruction::Definition { value: def, expr: Expression::Array(ArrayOperation::Write { array_ref: a2, index: a1, value: a0 }) }
        },
        Instruction::AAStore => {
            let (a0, a1, a2) = take3(args);
            MokaInstruction::Definition { value: def, expr: Expression::Array(ArrayOperation::Write { array_ref: a2, index: a1, value: a0 }) }
        },
        Instruction::BAStore => {
            let (a0, a1, a2) = take3(args);
            MokaInstruction::Definition { value: def, expr: Expression::Array(ArrayOperation::Write { array_ref: a2, index: a1, value: a0 }) }
        },
        Instruction::CAStore => {
            let (a0, a1, a2) = take3(args);
            MokaInstruction::Definition { value: def, expr: Expression::Array(ArrayOperation::Write { array_ref: a2, index: a1, value: a0 }) }
        },
        Instruction::SAStore => {
            let (a0, a1, a2) = take3(args);
            MokaInstruction::Definition { value: def, expr: Expression::Array(ArrayOperation::Write { array_ref: a2, index: a1, value: a0 }) }
        },
        Instruction::LAStore => {
            let (a0, a1, a2) = take3(args);
            MokaInstruction::Definition { value: def, expr: Expression::Array(ArrayOperation::Write { array_ref: a2, index: a1, value: a0 }) }
        },
        Instruction::DAStore => {
            let (a0, a1, a2) = take3(args);
            MokaInstruction::Definition { value: def, expr: Expression::Array(ArrayOperation::Write { array_ref: a2, index: a1, value: a0 }) }
        },
        Instruction::IAdd => {
            let (a0, a1) = take2(args);
            MokaInstruction::Definition { value: def, expr: Expression::Math(MathOperation::Add(a1, a0)) }
        },
        Instruction::FAdd => {
            let (a0, a1) = take2(args);
            MokaInstruction::Definition { value: def, expr: Expression::Math(MathOperation::Add(a1, a0)) }
        },
        Instruction::LAdd => {
            let (a0, a1) = take2(args);
            MokaInstruction::Definition { value: def, expr: Expression::Math(MathOperation::Add(a1, a0)) }
        },
        Instruction::DAdd => {
            let (a0, a1) = take2(args);
            MokaInstruction::Definition { value: def, expr: Expression::Math(MathOperation::Add(a1, a0)) }
        },
        Instruction::ISub => {
            let (a0, a1) = take2(args);
            MokaInstruction::Definition { value: def, expr: Expression::Math(MathOperation::Subtract(a1, a0)) }
        },
        Instruction::FSub => {
            let (a0, a1) = take2(args);
            MokaInstruction::Definition { value: def, expr: Expression::Math(MathOperation::Subtract(a1, a0)) }
        },
        Instruction::LSub => {
            let (a0, a1) = take2(args);
            MokaInstruction::Definition { value: def, expr: Expression::Math(MathOperation::Subtract(a1, a0)) }
        },
        Instruction::DSub => {
            let (a0, a1) = take2(args);
            MokaInstruction::Definition { value: def, expr: Expression::Math(MathOperation::Subtract(a1, a0)) }
        },
        Instruction::IMul => {
            let (a0, a1) = take2(args);
            MokaInstruction::Definition { value: def, expr: Expression::Math(MathOperation::Multiply(a1, a0)) }
        },
        Instruction::FMul => {
            let (a0, a1) = take2(args);
            MokaInstruction::Definition { value: def, expr: Expression::Math(MathOperation::Multiply(a1, a0)) }
        },
        Instruction::LMul => {
            let (a0, a1) = take2(args);
            MokaInstruction::Definition { value: def, expr: Expression::Math(MathOperation::Multiply(a1, a0)) }
        },
        Instruction::DMul => {
            let (a0, a1) = take2(args);
            MokaInstruction::Definition { value: def, expr: Expression::Math(MathOperation::Multiply(a1, a0)) }
        },
        Instruction::IDiv => {
            let (a0, a1) = take2(args);
            MokaInstruction::Definition { value: def, expr: Expression::Math(MathOperation::Divide(a1, a0)) }
        },
        Instruction::FDiv => {
            let (a0, a1) = take2(args);
            MokaInstruction::Definition { value: def, expr: Expression::Math(MathOperation::Divide(a1, a0)) }
        },
        Instruction::LDiv => {
            let (a0, a1) = take2(args);
            MokaInstruction::Definition { value: def, expr: Expression::Math(MathOperation::Divide(a1, a0)) }
        },
        Instruction::DDiv => {
            let (a0, a1) = take2(args);
            MokaInstruction::Definition { value: def, expr: Expression::Math(MathOperation::Divide(a1, a0)) }
        },
        Instruction::IRem => {
            let (a0, a1) = take2(args);
            MokaInstruction::Definition { value: def, expr: Expression::Math(MathOperation::Remainder(a1, a0)) }
        },
        Instruction::FRem => {
            let (a0, a1) = take2(args);
            MokaInstruction::Definition { value: def, expr: Expression::Math(MathOperation::Remainder(a1, a0)) }
        },
        Instruction::LRem => {
            let (a0, a1) = take2(args);
            MokaInstruction::Definition { value: def, expr: Expression::Math(MathOperation::Remainder(a1, a0)) }
        },
        Instruction::DRem => {
            let (a0, a1) = take2(args);
            MokaInstruction::Definition { value: def, expr: Expression::Math(MathOperation::Remainder(a1, a0)) }
        },
        Instruction::INeg => {
            let a0 = take1(args);
            MokaInstruction::Definition { value: def, expr: Expression::Math(MathOperation::Negate(a0)) }
        },
        Instruction::FNeg => {
            let a0 = take1(args);
            MokaInstruction::Definition { value: def, expr: Expression::Math(MathOperation::Negate(a0)) }
        },
        Instruction::LNeg => {
            let a0 = take1(args);
            MokaInstruction::Definition { value: def, expr: Expression::Math(MathOperation::Negate(a0)) }
        },
        Instruction::DNeg => {
            let a0 = take1(args);
            MokaInstruction::Definition { value: def, expr: Expression::Math(MathOperation::Negate(a0)) }
        },
        Instruction::IShl => {
            let (a0, a1) = take2(args);
            MokaInstruction::Definition { value: def, expr: Expression::Math(MathOperation::ShiftLeft(a1, a0)) }
        },
        Instruction::IShr => {
            let (a0, a1) = take2(args);
            MokaInstruction::Definition { value: def, expr: Expression::Math(MathOperation::ShiftRight(a1, a0)) }
        },
        Instruction::IUShr => {
            let (a0, a1) = take2(args);
            MokaInstruction::Definition { value: def, expr: Expression::Math(MathOperation::LogicalShiftRight(a1, a0)) }
        },
        Instruction::IAnd => {
            let (a0, a1) = take2(args);
            MokaInstruction::Definition { value: def, expr: Expression::Math(MathOperation::BitwiseAnd(a1, a0)) }
        },
        Instruction::IOr => {
            let (a0, a1) = take2(args);
            MokaInstruction::Definition { value: def, expr: Expression::Math(MathOperation::BitwiseOr(a1, a0)) }
        },
        Instruction::IXor => {
            let (a0, a1) = take2(args);
            MokaInstruction::Definition { value: def, expr: Expression::Math(MathOperation::BitwiseXor(a1, a0)) }
        },
        Instruction::LAnd => {
            let (a0, a1) = take2(args);
            MokaInstruction::Definition { value: def, expr: Expression::Math(MathOperation::BitwiseAnd(a1, a0)) }
        },
        Instruction::LOr => {
            let (a0, a1) = take2(args);
            MokaInstruction::Definition { value: def, expr: Expression::Math(MathOperation::BitwiseOr(a1, a0)) }
        },
        Instruction::LXor => {
            let (a0, a1) = take2(args);
            MokaInstruction::Definition { value: def, expr: Expression::Math(MathOperation::BitwiseXor(a1, a0)) }
        },
        Instruction::LShl => {
            let (a0, a1) = take2(args);
            MokaInstruction::Definition { value: def, expr: Expression::Math(MathOperation::ShiftLeft(a1, a0)) }
        },
        Instruction::LShr => {
            let (a0, a1) = take2(args);
            MokaInstruction::Definition { value: def, expr: Expression::Math(MathOperation::ShiftRight(a1, a0)) }
        },
        Instruction::LUShr => {
            let (a0, a1) = take2(args);
            MokaInstruction::Definition { value: def, expr: Expression::Math(MathOperation::LogicalShiftRight(a1, a0)) }
        },
        Instruction::I2F => {
            let a0 = take1(args);
            MokaInstruction::Definition { value: def, expr: Expression::Conversion(ConversionOperation::Int2Float(a0)) }
        },
        Instruction::I2L => {
            let a0 = take1(args);
            MokaInstruction::Definition { value: def, expr: Expression::Conversion(ConversionOperation::Int2Long(a0)) }
        },
        Instruction::I2D => {
            let a0 = take1(args);
            MokaInstruction::Definition { value: def, expr: Expression::Conversion(ConversionOperation::Int2Double(a0)) }
        },
        Instruction::L2I => {
            let a0 = take1(args);
            MokaInstruction::Definition { value: def, expr: Expression::Conversion(ConversionOperation::Long2Int(a0)) }
        },
        Instruction::L2F => {
            let a0 = take1(args);
            MokaInstruction::Definition { value: def, expr: Expression::Conversion(ConversionOperation::Long2Float(a0)) }
        },
        Instruction::L2D => {
            let a0 = take1(args);
            MokaInstruction::Definition { value: def, expr: Expression::Conversion(ConversionOperation::Long2Double(a0)) }
        },
        Instruction::F2I => {
            let a0 = take1(args);
            MokaInstruction::Definition { value: def, expr: Expression::Conversion(ConversionOperation::Float2Int(a0)) }
        },
        Instruction::F2L => {
            let a0 = take1(args);
            MokaInstruction::Definition { value: def, expr: Expression::Conversion(ConversionOperation::Float2Long(a0)) }
        },
        Instruction::F2D => {
            let a0 = take1(args);
            MokaInstruction::Definition { value: def, expr: Expression::Conversion(ConversionOperation::Float2Double(a0)) }
        },
        Instruction::D2I => {
            let a0 = take1(args);
            MokaInstruction::Definition { value: def, expr: Expression::Conversion(ConversionOperation::Double2Int(a0)) }
        },
        Instruction::D2L => {
            let a0 = take1(args);
            MokaInstruction::Definition { value: def, expr: Expression::Conversion(ConversionOperation::Double2Long(a0)) }
        },
        Instruction::D2F => {
            let a0 = take1(args);
            MokaInstruction::Definition { value: def, expr: Expression::Conversion(ConversionOperation::Double2Float(a0)) }
        },
        Instruction::I2B => {
            let a0 = take1(args);
            MokaInstruction::Definition { value: def, expr: Expression::Conversion(ConversionOperation::Int2Byte(a0)) }
        },
        Instruction::I2C => {
            let a0 = take1(args);
            MokaInstruction::Definition { value: def, expr: Expression::Conversion(ConversionOperation::Int2Char(a0)) }
        },
        Instruction::I2S => {
            let a0 = take1(args);
            MokaInstruction::Definition { value: def, expr: Expression::Conversion(ConversionOperation::Int2Short(a0)) }
        },
        Instruction::LCmp => {
            let (a0, a1) = take2(args);
            MokaInstruction::Definition { value: def, expr: Expression::Math(MathOperation::LongComparison(a1, a0)) }
        },
        Instruction::FCmpL => {
            let (a0, a1) = take2(args);
            MokaInstruction::Definition { value: def, expr: Expression::Math(MathOperation::FloatingPointComparison(a1, a0, NaNTreatment::IsSmallest)) }
        },
        Instruction::FCmpG => {
            let (a0, a1) = take2(args);
            MokaInstruction::Definition { value: def, expr: Expression::Math(MathOperation::FloatingPointComparison(a1, a0, NaNTreatment::IsLargest)) }
        },
        Instruction::DCmpL => {
            let (a0, a1) = take2(args);
            MokaInstruction::Definition { value: def, expr: Expression::Math(MathOperation::FloatingPointComparison(a1, a0, NaNTreatment::IsSmallest)) }
        },
        Instruction::DCmpG => {
            let (a0, a1) = take2(args);
            MokaInstruction::Definition { value: def, expr: Expression::Math(MathOperation::FloatingPointComparison(a1, a0, NaNTreatment::IsLargest)) }
        },
        Instruction::IfEq(t) => {
            let a0 = take1(args);
            MokaInstruction::Jump { condition: Some(Condition::IsZero(a0)), target: t }
        },
        Instruction::IfNe(t) => {
            let a0 = take1(args);
            MokaInstruction::Jump { condition: Some(Condition::IsNonZero(a0)), target: t }
        },
        Instruction::IfLt(t) => {
            let a0 = take1(args);
            MokaInstruction::Jump { condition: Some(Condition::IsNegative(a0)), target: t }
        },
        Instruction::IfGe(t) => {
            let a0 = take1(args);
            MokaInstruction::Jump { condition: Some(Condition::IsNonNegative(a0)), target: t }
        },
        Instruction::IfGt(t) => {
            let a0 = take1(args);
            MokaInstruction::Jump { condition: Some(Condition::IsPositive(a0)), target: t }
        },
        Instruction::IfLe(t) => {
            let a0 = take1(args);
            MokaInstruction::Jump { condition: Some(Condition::IsNonPositive(a0)), target: t }
        },
        Instruction::IfNull(t) => {
            let a0 = take1(args);
            MokaInstruction::Jump { condition: Some(Condition::IsNull(a0)), target: t }
        },
        Instruction::IfNonNull(t) => {
            let a0 = take1(args);
            MokaInstruction::Jump { condition: Some(Condition::IsNotNull(a0)), target: t }
        },
        Instruction::IfICmpEq(t) => {
            let (a0, a1) = take2(args);
            MokaInstruction::Jump { condition: Some(Condition::Equal(a1, a0)), target: t }
        },
        Instruction::IfACmpEq(t) => {
            let (a0, a1) = take2(args);
            MokaInstruction::Jump { condition: Some(Condition::Equal(a1, a0)), target: t }
        },
        Instruction::IfICmpNe(t) => {
            let (a0, a1) = take2(args);
            MokaInstruction::Jump { condition: Some(Condition::NotEqual(a1, a0)), target: t }
        },
        Instruction::IfACmpNe(t) => {
            let (a0, a1) = take2(args);
            MokaInstruction::Jump { condition: Some(Condition::NotEqual(a1, a0)), target: t }
        },
        Instruction::IfICmpGe(t) => {
            let (a0, a1) = take2(args);
            MokaInstruction::Jump { condition: Some(Condition::GreaterThanOrEqual(a1, a0)), target: t }
        },
        Instruction::IfICmpLt(t) => {
            let (a0, a1) = take2(args);
            MokaInstruction::Jump { condition: Some(Condition::LessThan(a1, a0)), target: t }
        },
        Instruction::IfICmpGt(t) => {
            let (a0, a1) = take2(args);
            MokaInstruction::Jump { condition: Some(Condition::GreaterThan(a1, a0)), target: t }
        },
        Instruction::IfICmpLe(t) => {
            let (a0, a1) = take2(args);
            MokaInstruction::Jump { condition: Some(Condition::LessThanOrEqual(a1, a0)), target: t }
        },
        Instruction::Goto(t) => MokaInstruction::Jump { condition: None, target: t },
        Instruction::GotoW(t) => MokaInstruction::Jump { condition: None, target: t },
        Instruction::LookupSwitch { default, match_targets } => {
            let a0 = take1(args);
            MokaInstruction::Switch { match_value: a0, branches: match_targets, default }
        },
        Instruction::IReturn => {
            let a0 = take1(args);
            MokaInstruction::Return(Some(a0))
        },
        Instruction::FReturn => {
            let a0 = take1(args);
            MokaInstruction::Return(Some(a0))
        },
        Instruction::AReturn => {
            let a0 = take1(args);
            MokaInstruction::Return(Some(a0))
        },
        Instruction::LReturn => {
            let a0 = take1(args);
            MokaInstruction::Return(Some(a0))
        },
        Instruction::DReturn => {
            let a0 = take1(args);
            MokaInstruction::Return(Some(a0))
        },
        Instruction::Return => MokaInstruction::Return(None),
        Instruction::GetStatic(f) => MokaInstruction::Definition { value: def, expr: Expression::Field(FieldAccess::ReadStatic { field: f }) },
        Instruction::GetField(f) => {
            let a0 = take1(args);
            MokaInstruction::Definition { value: def, expr: Expression::Field(FieldAccess::ReadInstance { object_ref: a0, field: f }) }
        },
        Instruction::PutStatic(f) => {
            let a0 = take1(args);
            MokaInstruction::Definition { value: def, expr: Expression::Field(FieldAccess::WriteStatic { field: f, value: a0 }) }
        },
        Instruction::PutField(f) => {
            let (a0, a1) = take2(args);
            MokaInstruction::Definition { value: def, expr: Expression::Field(FieldAccess::WriteInstance { object_ref: a1, field: f, value: a0 }) }
        },
        Instruction::New(c) => MokaInstruction::Definition { value: def, expr: Expression::New(c) },
        Instruction::ANewArray(c) => {
            let a0 = take1(args);
            MokaInstruction::Definition { value: def, expr: Expression::Array(ArrayOperation::New { element_type: FieldType::Object(c), length: a0 }) }
        },
        Instruction::NewArray(p) => {
            let a0 = take1(args);
            MokaInstruction::Definition { value: def, expr: Expression::Array(ArrayOperation::New { element_type: FieldType::Base(p), length: a0 }) }
        },
        Instruction::ArrayLength => {
            let a0 = take1(args);
            MokaInstruction::Definition { value: def, expr: Expression::Array(ArrayOperation::Length { array_ref: a0 }) }
        },
        Instruction::AThrow => {
            let a0 = take1(args);
            MokaInstruction::Definition { value: def, expr: Expression::Throw(a0) }
        },
        Instruction::CheckCast(t) => {
            let a0 = take1(args);
            MokaInstruction::Definition { value: def, expr: Expression::Conversion(ConversionOperation::CheckCast(a0, t)) }
        },
        Instruction::InstanceOf(t) => {
            let a0 = take1(args);
            MokaInstruction::Definition { value: def, expr: Expression::Conversion(ConversionOperation::InstanceOf(a0, t)) }
        },
        Instruction::MonitorEnter => {
            let a0 = take1(args);
            MokaInstruction::Definition { value: def, expr: Expression::Synchronization(LockOperation::Acquire(a0)) }
        },
        Instruction::MonitorExit => {
            let a0 = take1(args);
            MokaInstruction::Definition { value: def, expr: Expression::Synchronization(LockOperation::Release(a0)) }
        },
        _ => MokaInstruction::Nop,
    }
}

/// The outcome of a standard instruction: it pops its values, pushes the value it defines if
/// it does, and gives the instruction of Moka IR built from what it popped; or the first
/// error. The stack after comes with it.
pub open spec fn standard_outcome(insn: Instruction, def: LocalValue, stack: Seq<Entry>, max: int) -> (
    Result<MokaInstruction, ExecutionError>,
    Seq<Entry>,
) {
    let (popped, rest) = pop_all(stack, pops_of(insn));
    match popped {
        Err(e) => (Err(e), rest),
        Ok(args) => match push_of(insn) {
            None => (Ok(ir_of(insn, def, args)), rest),
            Some(dual) => {
                let (pushed, after) = push_value_outcome(rest, def_arg(def), dual, max);
                match pushed {
                    Err(e) => (Err(e), after),
                    Ok(()) => (Ok(ir_of(insn, def, args)), after),
                }
            },
        },
    }
}

/// The local variable that a load reads: its index, and whether it takes two slots.
pub open spec fn load_of(insn: Instruction) -> Option<(int, bool)> {
    match insn {
        Instruction::ILoad(i) | Instruction::FLoad(i) | Instruction::ALoad(i) => Some((i as int, false)),
        Instruction::LLoad(i) | Instruction::DLoad(i) => Some((i as int, true)),
        Instruction::ILoad0 | Instruction::FLoad0 | Instruction::ALoad0 => Some((0, false)),
        Instruction::ILoad1 | Instruction::FLoad1 | Instruction::ALoad1 => Some((1, false)),
        Instruction::ILoad2 | Instruction::FLoad2 | Instruction::ALoad2 => Some((2, false)),
        Instruction::ILoad3 | Instruction::FLoad3 | Instruction::ALoad3 => Some((3, false)),
        Instruction::LLoad0 | Instruction::DLoad0 => Some((0, true)),
        Instruction::LLoad1 | Instruction::DLoad1 => Some((1, true)),
        Instruction::LLoad2 | Instruction::DLoad2 => Some((2, true)),
        Instruction::LLoad3 | Instruction::DLoad3 => Some((3, true)),
        Instruction::Wide(WideInstruction::ILoad(i)) | Instruction::Wide(WideInstruction::FLoad(i))
        | Instruction::Wide(WideInstruction::ALoad(i)) => Some((i as int, false)),
        Instruction::Wide(WideInstruction::LLoad(i)) | Instruction::Wide(WideInstruction::DLoad(i)) => Some(
            (i as int, true),
        ),
        _ => None,
    }
}

/// The local variable that a store writes: its index, and whether it takes two slots.
pub open spec fn store_of(insn: Instruction) -> Option<(int, bool)> {
    match insn {
        Instruction::IStore(i) | Instruction::FStore(i) | Instruction::AStore(i) => Some((i as int, false)),
        Instruction::LStore(i) | Instruction::DStore(i) => Some((i as int, true)),
        Instruction::IStore0 | Instruction::FStore0 | Instruction::AStore0 => Some((0, false)),
        Instruction::IStore1 | Instruction::FStore1 | Instruction::AStore1 => Some((1, false)),
        Instruction::IStore2 | Instruction::FStore2 | Instruction::AStore2 => Some((2, false)),
        Instruction::IStore3 | Instruction::FStore3 | Instruction::AStore3 => Some((3, false)),
        Instruction::LStore0 | Instruction::DStore0 => Some((0, true)),
        Instruction::LStore1 | Instruction::DStore1 => Some((1, true)),
        Instruction::LStore2 | Instruction::DStore2 => Some((2, true)),
        Instruction::LStore3 | Instruction::DStore3 => Some((3, true)),
        Instruction::Wide(WideInstruction::IStore(i)) | Instruction::Wide(WideInstruction::FStore(i))
        | Instruction::Wide(WideInstruction::AStore(i)) => Some((i as int, false)),
        Instruction::Wide(WideInstruction::LStore(i)) | Instruction::Wide(WideInstruction::DStore(i)) => Some(
            (i as int, true),
        ),
        _ => None,
    }
}

/// Finds the local variable that a load reads.
fn load_kind(insn: &Instruction) -> (r: Option<(u16, bool)>)
    ensures
        r matches Some((i, d)) ==> load_of(*insn) == Some((i as int, d)),
        r is None ==> load_of(*insn) is None,
{
    match insn {
        Instruction::ILoad(i) | Instruction::FLoad(i) | Instruction::ALoad(i) => Some((*i as u16, false)),
        Instruction::LLoad(i) | Instruction::DLoad(i) => Some((*i as u16, true)),
        Instruction::ILoad0 | Instruction::FLoad0 | Instruction::ALoad0 => Some((0, false)),
        Instruction::ILoad1 | Instruction::FLoad1 | Instruction::ALoad1 => Some((1, false)),
        Instruction::ILoad2 | Instruction::FLoad2 | Instruction::ALoad2 => Some((2, false)),
        Instruction::ILoad3 | Instruction::FLoad3 | Instruction::ALoad3 => Some((3, false)),
        Instruction::LLoad0 | Instruction::DLoad0 => Some((0, true)),
        Instruction::LLoad1 | Instruction::DLoad1 => Some((1, true)),
        Instruction::LLoad2 | Instruction::DLoad2 => Some((2, true)),
        Instruction::LLoad3 | Instruction::DLoad3 => Some((3, true)),
        Instruction::Wide(WideInstruction::ILoad(i)) | Instruction::Wide(WideInstruction::FLoad(i))
        | Instruction::Wide(WideInstruction::ALoad(i)) => Some((*i, false)),
        Instruction::Wide(WideInstruction::LLoad(i)) | Instruction::Wide(WideInstruction::DLoad(i)) => Some((*i, true)),
        _ => None,
    }
}

/// Finds the local variable that a store writes.
fn store_kind(insn: &Instruction) -> (r: Option<(u16, bool)>)
    ensures
        r matches Some((i, d)) ==> store_of(*insn) == Some((i as int, d)),
        r is None ==> store_of(*insn) is None,
{
    match insn {
        Instruction::IStore(i) | Instruction::FStore(i) | Instruction::AStore(i) => Some((*i as u16, false)),
        Instruction::LStore(i) | Instruction::DStore(i) => Some((*i as u16, true)),
        Instruction::IStore0 | Instruction::FStore0 | Instruction::AStore0 => Some((0, false)),
        Instruction::IStore1 | Instruction::FStore1 | Instruction::AStore1 => Some((1, false)),
        Instruction::IStore2 | Instruction::FStore2 | Instruction::AStore2 => Some((2, false)),
        Instruction::IStore3 | Instruction::FStore3 | Instruction::AStore3 => Some((3, false)),
        Instruction::LStore0 | Instruction::DStore0 => Some((0, true)),
        Instruction::LStore1 | Instruction::DStore1 => Some((1, true)),
        Instruction::LStore2 | Instruction::DStore2 => Some((2, true)),
        Instruction::LStore3 | Instruction::DStore3 => Some((3, true)),
        Instruction::Wide(WideInstruction::IStore(i)) | Instruction::Wide(WideInstruction::FStore(i))
        | Instruction::Wide(WideInstruction::AStore(i)) => Some((*i, false)),
        Instruction::Wide(WideInstruction::LStore(i)) | Instruction::Wide(WideInstruction::DStore(i)) => Some((*i, true)),
        _ => None,
    }
}

/// The local variable that an `iinc` increments, and by how much.
pub open spec fn iinc_of(insn: Instruction) -> Option<(u16, i32)> {
    match insn {
        Instruction::IInc(i, c) => Some((i as u16, c)),
        Instruction::Wide(WideInstruction::IInc(i, c)) => Some((i, c)),
        _ => None,
    }
}

/// The local variable that a `ret` reads its return address from.
pub open spec fn ret_of(insn: Instruction) -> Option<u16> {
    match insn {
        Instruction::Ret(i) => Some(i as u16),
        Instruction::Wide(WideInstruction::Ret(i)) => Some(i),
        _ => None,
    }
}

/// The subroutine that a `jsr` calls.
pub open spec fn jsr_of(insn: Instruction) -> Option<ProgramCounter> {
    match insn {
        Instruction::Jsr(t) | Instruction::JsrW(t) => Some(t),
        _ => None,
    }
}

/// The stack operation of an instruction that rearranges the top of the stack: how many
/// entries it pops, and what it pushes then.
pub open spec fn shuffle_of(insn: Instruction, s: Seq<Entry>) -> Option<(int, Seq<Entry>)> {
    match insn {
        Instruction::Pop => Some((1, Seq::empty())),
        Instruction::Pop2 => Some((2, Seq::empty())),
        Instruction::Dup => Some((1, seq![below_top(s, 0), below_top(s, 0)])),
        Instruction::DupX1 => Some((2, seq![below_top(s, 0), below_top(s, 1), below_top(s, 0)])),
        Instruction::DupX2 => Some((3, seq![below_top(s, 0), below_top(s, 2), below_top(s, 1), below_top(s, 0)])),
        Instruction::Dup2 => Some((2, seq![below_top(s, 1), below_top(s, 0), below_top(s, 1), below_top(s, 0)])),
        Instruction::Dup2X1 => Some(
            (3, seq![below_top(s, 1), below_top(s, 0), below_top(s, 2), below_top(s, 1), below_top(s, 0)]),
        ),
        Instruction::Dup2X2 => Some(
            (
                4,
                seq![
                    below_top(s, 1),
                    below_top(s, 0),
                    below_top(s, 3),
                    below_top(s, 2),
                    below_top(s, 1),
                    below_top(s, 0),
                ],
            ),
        ),
        Instruction::Swap => Some((2, seq![below_top(s, 0), below_top(s, 1)])),
        _ => None,
    }
}

/// The descriptor of the method that an invocation calls, and whether it pops the object the
/// method is called on.
pub open spec fn invoke_of(insn: Instruction) -> Option<(MethodDescriptor, bool)> {
    match insn {
        Instruction::InvokeVirtual(m) | Instruction::InvokeSpecial(m) | Instruction::InvokeInterface(m, _) => Some(
            (m.descriptor, true),
        ),
        Instruction::InvokeStatic(m) => Some((m.descriptor, false)),
        Instruction::InvokeDynamic { descriptor, .. } => Some((descriptor, false)),
        _ => None,
    }
}

/// The outcome of an invocation: it pops the arguments, then the object the method is called
/// on if it has one, and pushes the value it defines when the method returns a value. On
/// success it gives the object and the arguments, in order.
pub open spec fn call_outcome(stack: Seq<Entry>, desc: MethodDescriptor, has_this: bool, def: LocalValue, max: int) -> (
    Result<(Option<Argument>, Seq<Argument>), ExecutionError>,
    Seq<Entry>,
) {
    let (popped, s1) = pop_args_outcome(stack, desc.parameters_types@);
    match popped {
        Err(e) => (Err(e), s1),
        Ok(args) => {
            let (this_r, s2) = if has_this {
                match pop_value_outcome(s1, false) {
                    (Ok(o), s) => (Ok(Some(o)), s),
                    (Err(e), s) => (Err(e), s),
                }
            } else {
                (Ok(None), s1)
            };
            match this_r {
                Err(e) => (Err(e), s2),
                Ok(this) => match desc.return_type {
                    ReturnType::Returns(t) => {
                        let (pushed, s3) = push_value_outcome(s2, def_arg(def), t.is_dual_slot(), max);
                        match pushed {
                            Err(e) => (Err(e), s3),
                            Ok(()) => (Ok((this, args)), s3),
                        }
                    },
                    ReturnType::Void => (Ok((this, args)), s2),
                },
            }
        },
    }
}

/// Whether `expr` is what an invocation gives from the object and the arguments it popped.
pub open spec fn is_call_of(insn: Instruction, expr: Expression, this: Option<Argument>, args: Seq<Argument>) -> bool {
    match insn {
        Instruction::InvokeVirtual(m) | Instruction::InvokeSpecial(m) | Instruction::InvokeInterface(m, _)
        | Instruction::InvokeStatic(m) => expr matches Expression::Call { method, this: t, args: a } && method == m
            && t == this && a@ == args,
        Instruction::InvokeDynamic { bootstrap_method_index, name, descriptor } => expr matches Expression::Closure {
            name: n,
            captures,
            bootstrap_method_index: b,
            closure_descriptor: d,
        } && n == name && captures@ == args && b == bootstrap_method_index && d == descriptor,
        _ => false,
    }
}

/// The branches of a `tableswitch`: the keys from `low` on, each with its target, as many as
/// there are both keys and targets.
pub open spec fn table_branches(low: i32, high: i32, targets: Seq<ProgramCounter>) -> Seq<(i32, ProgramCounter)> {
    let n = if targets.len() < key_count(low, high) {
        targets.len() as int
    } else {
        key_count(low, high)
    };
    Seq::new(n as nat, |k: int| ((low + k) as i32, targets[k]))
}

/// Builds the branches of a `tableswitch`.
fn switch_branches(low: i32, high: i32, targets: &Vec<ProgramCounter>) -> (r: Vec<(i32, ProgramCounter)>)
    ensures
        r@ == table_branches(low, high, targets@),
{
    let count: u64 = if low <= high {
        (high as i64 - low as i64 + 1) as u64
    } else {
        0
    };
    let n: usize = if (targets.len() as u64) < count {
        targets.len()
    } else {
        count as usize
    };
    let ghost want = table_branches(low, high, targets@);
    let mut r: Vec<(i32, ProgramCounter)> = Vec::new();
    let mut k: usize = 0;
    while k < n
        invariant
            k <= n,
            n == want.len(),
            n <= targets@.len(),
            n <= key_count(low, high),
            want == table_branches(low, high, targets@),
            r@ == want.take(k as int),
        decreases n - k,
    {
        let key: i32 = (low as i64 + k as i64) as i32;
        r.push((key, targets[k]));
        assert(r@ =~= want.take(k + 1));
        k = k + 1;
    }
    assert(r@ =~= want);
    r
}

/// Pushing two values that are copies of each other gives the same result and stacks that are
/// copies of each other.
proof fn lemma_push_agrees(stack: Seq<Entry>, v: Argument, a: Argument, dual: bool, max: int)
    requires
        same_argument(v, a),
    ensures
        push_value_outcome(stack, v, dual, max).0 == push_value_outcome(stack, a, dual, max).0,
        all_agree(push_value_outcome(stack, v, dual, max).1, push_value_outcome(stack, a, dual, max).1),
{
    let x = push_value_outcome(stack, v, dual, max).1;
    let y = push_value_outcome(stack, a, dual, max).1;
    assert forall|i: int| 0 <= i < x.len() implies agrees(#[trigger] x[i], y[i]) by {
        if i < stack.len() {
            assert(x[i] == stack[i] && y[i] == stack[i]);
            crate::ir::generator::jvm_frame::lemma_agrees_equivalence(stack[i], stack[i], stack[i]);
        }
    }
}

/// The frame keeps its sizes and return addresses.
pub open spec fn frame_kept_by(
    insn: Instruction,
    pc: ProgramCounter,
    next_pc: Option<ProgramCounter>,
    before: JvmStackFrame,
    after: JvmStackFrame,
    r: Result<MokaInstruction, MokaIRBrewingError>,
) -> bool {
    frame_kept(after, before)
}

/// The locals stay as they are, unless the instruction writes one.
pub open spec fn locals_kept_by(
    insn: Instruction,
    pc: ProgramCounter,
    next_pc: Option<ProgramCounter>,
    before: JvmStackFrame,
    after: JvmStackFrame,
    r: Result<MokaInstruction, MokaIRBrewingError>,
) -> bool {
    store_of(insn) is None && iinc_of(insn) is None
            ==> after.locals() == before.locals()
}

/// An instruction that pops operands and pushes its result works as its kind says.
pub open spec fn standard_step(
    insn: Instruction,
    pc: ProgramCounter,
    next_pc: Option<ProgramCounter>,
    before: JvmStackFrame,
    after: JvmStackFrame,
    r: Result<MokaInstruction, MokaIRBrewingError>,
) -> bool {
    is_standard(insn) ==> ({
            let def = LocalValue::from_index(pc@);
            let (res, s) = standard_outcome(insn, def, before.stack(), before.max_stack_of() as int);
            &&& after.stack() == s
            &&& res matches Ok(ir) ==> r == Ok::<MokaInstruction, MokaIRBrewingError>(ir)
            &&& res matches Err(e) ==> r == Err::<MokaInstruction, MokaIRBrewingError>(MokaIRBrewingError::ExecutionError(e))
        })
}

/// A load pushes a copy of the local it reads.
pub open spec fn load_step(
    insn: Instruction,
    pc: ProgramCounter,
    next_pc: Option<ProgramCounter>,
    before: JvmStackFrame,
    after: JvmStackFrame,
    r: Result<MokaInstruction, MokaIRBrewingError>,
) -> bool {
    load_of(insn) matches Some((idx, dual)) ==> ({
            let check = get_local_check(before.locals(), idx, dual);
            &&& check matches Err(e) ==> r == Err::<MokaInstruction, MokaIRBrewingError>(MokaIRBrewingError::ExecutionError(e))
                && after.stack() == before.stack()
            &&& check is Ok ==> ({
                let (pushed, s) = push_value_outcome(before.stack(), before.locals()[idx]->Value_0, dual, before.max_stack_of() as int);
                &&& all_agree(after.stack(), s)
                &&& pushed matches Err(e) ==> r == Err::<MokaInstruction, MokaIRBrewingError>(MokaIRBrewingError::ExecutionError(e))
                &&& pushed is Ok ==> r == Ok::<MokaInstruction, MokaIRBrewingError>(MokaInstruction::Nop)
            })
        })
}

/// A store pops a value into a local.
pub open spec fn store_step(
    insn: Instruction,
    pc: ProgramCounter,
    next_pc: Option<ProgramCounter>,
    before: JvmStackFrame,
    after: JvmStackFrame,
    r: Result<MokaInstruction, MokaIRBrewingError>,
) -> bool {
    store_of(insn) matches Some((idx, dual)) ==> ({
            let (popped, s) = pop_value_outcome(before.stack(), dual);
            &&& after.stack() == s
            &&& popped matches Err(e) ==> r == Err::<MokaInstruction, MokaIRBrewingError>(MokaIRBrewingError::ExecutionError(e))
                && after.locals() == before.locals()
            &&& popped matches Ok(v) ==> ({
                let (written, l) = set_local_outcome(before.locals(), idx, v, dual);
                &&& after.locals() == l
                &&& written matches Err(e) ==> r == Err::<MokaInstruction, MokaIRBrewingError>(MokaIRBrewingError::ExecutionError(e))
                &&& written is Ok ==> r == Ok::<MokaInstruction, MokaIRBrewingError>(MokaInstruction::Nop)
            })
        })
}

/// `iinc` defines the local anew as the sum of its value and the constant.
pub open spec fn iinc_step(
    insn: Instruction,
    pc: ProgramCounter,
    next_pc: Option<ProgramCounter>,
    before: JvmStackFrame,
    after: JvmStackFrame,
    r: Result<MokaInstruction, MokaIRBrewingError>,
) -> bool {
    iinc_of(insn) matches Some((idx, c)) ==> ({
            let check = get_local_check(before.locals(), idx as int, false);
            &&& after.stack() == before.stack()
            &&& check matches Err(e) ==> r == Err::<MokaInstruction, MokaIRBrewingError>(MokaIRBrewingError::ExecutionError(e))
                && after.locals() == before.locals()
            &&& check is Ok ==> after.locals() == before.locals().update(idx as int, Entry::Value(def_arg(LocalValue::from_index(pc@))))
                && (r matches Ok(MokaInstruction::Definition { value, expr: Expression::Math(MathOperation::Increment(base, k)) })
                && value == LocalValue::from_index(pc@) && k == c && same_argument(base, before.locals()[idx as int]->Value_0))
        })
}

/// `ret` returns to the address that the local holds.
pub open spec fn ret_step(
    insn: Instruction,
    pc: ProgramCounter,
    next_pc: Option<ProgramCounter>,
    before: JvmStackFrame,
    after: JvmStackFrame,
    r: Result<MokaInstruction, MokaIRBrewingError>,
) -> bool {
    ret_of(insn) matches Some(idx) ==> ({
            let check = get_local_check(before.locals(), idx as int, false);
            &&& after.stack() == before.stack()
            &&& check matches Err(e) ==> r == Err::<MokaInstruction, MokaIRBrewingError>(MokaIRBrewingError::ExecutionError(e))
            &&& check is Ok ==> (r matches Ok(MokaInstruction::SubroutineRet(v)) && same_argument(v, before.locals()[idx as int]->Value_0))
        })
}

/// A stack shuffle moves copies of the entries on top of the stack.
pub open spec fn shuffle_step(
    insn: Instruction,
    pc: ProgramCounter,
    next_pc: Option<ProgramCounter>,
    before: JvmStackFrame,
    after: JvmStackFrame,
    r: Result<MokaInstruction, MokaIRBrewingError>,
) -> bool {
    shuffle_of(insn, before.stack()) matches Some((k, pushes)) ==> ({
            let (res, s) = shuffle_outcome(before.stack(), k, pushes, before.max_stack_of() as int);
            &&& all_agree(after.stack(), s)
            &&& res matches Err(e) ==> r == Err::<MokaInstruction, MokaIRBrewingError>(MokaIRBrewingError::ExecutionError(e))
            &&& res is Ok ==> r == Ok::<MokaInstruction, MokaIRBrewingError>(MokaInstruction::Nop)
        })
}

/// An invocation pops its receiver and arguments and defines its result.
pub open spec fn invoke_step(
    insn: Instruction,
    pc: ProgramCounter,
    next_pc: Option<ProgramCounter>,
    before: JvmStackFrame,
    after: JvmStackFrame,
    r: Result<MokaInstruction, MokaIRBrewingError>,
) -> bool {
    invoke_of(insn) matches Some((desc, has_this)) ==> ({
            let def = LocalValue::from_index(pc@);
            let (res, s) = call_outcome(before.stack(), desc, has_this, def, before.max_stack_of() as int);
            &&& after.stack() == s
            &&& res matches Err(e) ==> r == Err::<MokaInstruction, MokaIRBrewingError>(MokaIRBrewingError::ExecutionError(e))
            &&& res matches Ok((this, args)) ==> (r matches Ok(MokaInstruction::Definition { value, expr }) && value == def
                && is_call_of(insn, expr, this, args))
        })
}

/// `jsr` pushes its return address and jumps to the subroutine.
pub open spec fn jsr_step(
    insn: Instruction,
    pc: ProgramCounter,
    next_pc: Option<ProgramCounter>,
    before: JvmStackFrame,
    after: JvmStackFrame,
    r: Result<MokaInstruction, MokaIRBrewingError>,
) -> bool {
    jsr_of(insn) matches Some(t) ==> ({
            let def = LocalValue::from_index(pc@);
            let (pushed, s) = push_value_outcome(before.stack(), def_arg(def), false, before.max_stack_of() as int);
            &&& next_pc is None ==> r == Err::<MokaInstruction, MokaIRBrewingError>(MokaIRBrewingError::MalformedControlFlow)
                && after.stack() == before.stack()
            &&& next_pc matches Some(n) ==> after.stack() == s && (pushed matches Err(e) ==> r == Err::<
                MokaInstruction,
                MokaIRBrewingError,
            >(MokaIRBrewingError::ExecutionError(e))) && (pushed is Ok ==> r == Ok::<MokaInstruction, MokaIRBrewingError>(
                MokaInstruction::Definition { value: def, expr: Expression::Subroutine { return_address: n, target: t } },
            ))
        })
}

/// `multianewarray` pops the lengths of the dimensions and pushes the new array.
pub open spec fn multianewarray_step(
    insn: Instruction,
    pc: ProgramCounter,
    next_pc: Option<ProgramCounter>,
    before: JvmStackFrame,
    after: JvmStackFrame,
    r: Result<MokaInstruction, MokaIRBrewingError>,
) -> bool {
    insn matches Instruction::MultiANewArray(t, dim) ==> ({
            let def = LocalValue::from_index(pc@);
            let (popped, s1) = pop_all(before.stack(), Seq::new(dim as nat, |i: int| false));
            &&& popped matches Err(e) ==> r == Err::<MokaInstruction, MokaIRBrewingError>(MokaIRBrewingError::ExecutionError(e))
                && after.stack() == s1
            &&& popped matches Ok(counts) ==> ({
                let (pushed, s2) = push_value_outcome(s1, def_arg(def), false, before.max_stack_of() as int);
                &&& after.stack() == s2
                &&& pushed matches Err(e) ==> r == Err::<MokaInstruction, MokaIRBrewingError>(MokaIRBrewingError::ExecutionError(e))
                &&& pushed is Ok ==> (r matches Ok(MokaInstruction::Definition { value, expr: Expression::Array(ArrayOperation::NewMultiDim { element_type, dimensions }) })
                    && value == def && element_type == t && dimensions@ == counts.reverse())
            })
        })
}

/// `tableswitch` pops the value that it switches on.
pub open spec fn tableswitch_step(
    insn: Instruction,
    pc: ProgramCounter,
    next_pc: Option<ProgramCounter>,
    before: JvmStackFrame,
    after: JvmStackFrame,
    r: Result<MokaInstruction, MokaIRBrewingError>,
) -> bool {
    insn matches Instruction::TableSwitch { range_start, range_end, jump_targets, default } ==> ({
            let (popped, s) = pop_value_outcome(before.stack(), false);
            &&& after.stack() == s
            &&& popped matches Err(e) ==> r == Err::<MokaInstruction, MokaIRBrewingError>(MokaIRBrewingError::ExecutionError(e))
            &&& popped matches Ok(v) ==> (r matches Ok(MokaInstruction::Switch { match_value, branches, default: d })
                && match_value == v && d == default && branches@ == table_branches(range_start, range_end, jump_targets@))
        })
}

/// What executing `insn` at `pc` does: `before` is the frame it starts from, `after` the
/// frame it leaves, and `r` what it gives.
pub open spec fn executes(
    insn: Instruction,
    pc: ProgramCounter,
    next_pc: Option<ProgramCounter>,
    before: JvmStackFrame,
    after: JvmStackFrame,
    r: Result<MokaInstruction, MokaIRBrewingError>,
) -> bool {
    &&& frame_kept_by(insn, pc, next_pc, before, after, r)
    &&& locals_kept_by(insn, pc, next_pc, before, after, r)
    &&& standard_step(insn, pc, next_pc, before, after, r)
    &&& load_step(insn, pc, next_pc, before, after, r)
    &&& store_step(insn, pc, next_pc, before, after, r)
    &&& iinc_step(insn, pc, next_pc, before, after, r)
    &&& ret_step(insn, pc, next_pc, before, after, r)
    &&& shuffle_step(insn, pc, next_pc, before, after, r)
    &&& invoke_step(insn, pc, next_pc, before, after, r)
    &&& jsr_step(insn, pc, next_pc, before, after, r)
    &&& multianewarray_step(insn, pc, next_pc, before, after, r)
    &&& tableswitch_step(insn, pc, next_pc, before, after, r)
}

/// Executes an instruction at `pc` on `frame`, and gives the instruction of Moka IR that it
/// corresponds to. `next_pc` is the location of the next instruction, if there is one: it is
/// where a subroutine called by `jsr` returns to.
///
/// # Errors
/// The error of the first operation on the frame that fails, or
/// [`MokaIRBrewingError::MalformedControlFlow`] for a `jsr` with no instruction after it.
#[verifier::rlimit(50)]
pub fn run_instruction(insn: Instruction, pc: ProgramCounter, next_pc: Option<ProgramCounter>, frame: &mut JvmStackFrame) -> (r: Result<MokaInstruction, MokaIRBrewingError>)
    ensures
        frame_kept_by(insn, pc, next_pc, *old(frame), *final(frame), r),
        locals_kept_by(insn, pc, next_pc, *old(frame), *final(frame), r),
        standard_step(insn, pc, next_pc, *old(frame), *final(frame), r),
        load_step(insn, pc, next_pc, *old(frame), *final(frame), r),
        store_step(insn, pc, next_pc, *old(frame), *final(frame), r),
        iinc_step(insn, pc, next_pc, *old(frame), *final(frame), r),
        ret_step(insn, pc, next_pc, *old(frame), *final(frame), r),
        shuffle_step(insn, pc, next_pc, *old(frame), *final(frame), r),
        invoke_step(insn, pc, next_pc, *old(frame), *final(frame), r),
        jsr_step(insn, pc, next_pc, *old(frame), *final(frame), r),
        multianewarray_step(insn, pc, next_pc, *old(frame), *final(frame), r),
        tableswitch_step(insn, pc, next_pc, *old(frame), *final(frame), r),
{
    let def = LocalValue::new(pc.into());
    if standard(&insn) {
        let kinds = pop_kinds(&insn);
        let args = match pop_values(frame, &kinds, 0) {
            Ok(a) => a,
            Err(e) => {
                assert(kinds@.skip(0) =~= kinds@);
                return Err(MokaIRBrewingError::ExecutionError(e));
            },
        };
        proof {
            assert(kinds@.skip(0) =~= kinds@);
            lemma_pop_all_len(old(frame).stack(), kinds@);
        }
        match push_kind(&insn) {
            Some(dual) => {
                let pushed = if dual {
                    frame.push_value::<DUAL_SLOT>(def.as_argument())
                } else {
                    frame.push_value::<SINGLE_SLOT>(def.as_argument())
                };
                if let Err(e) = pushed {
                    return Err(MokaIRBrewingError::ExecutionError(e));
                }
            },
            None => {},
        }
        return Ok(make_ir(insn, def, args));
    }
    if let Some((idx, dual)) = load_kind(&insn) {
        let value = if dual {
            frame.get_local::<DUAL_SLOT>(idx)
        } else {
            frame.get_local::<SINGLE_SLOT>(idx)
        };
        let value = match value {
            Ok(v) => v,
            Err(e) => return Err(MokaIRBrewingError::ExecutionError(e)),
        };
        proof {
            lemma_push_agrees(frame.stack(), value, frame.locals()[idx as int]->Value_0, dual, frame.max_stack_of() as int);
        }
        let pushed = if dual {
            frame.push_value::<DUAL_SLOT>(value)
        } else {
            frame.push_value::<SINGLE_SLOT>(value)
        };
        proof {
            let s = frame.stack();
            assert forall|i: int| 0 <= i < s.len() implies agrees(#[trigger] s[i], s[i]) by {
                crate::ir::generator::jvm_frame::lemma_agrees_equivalence(s[i], s[i], s[i]);
            }
        }
        return match pushed {
            Ok(()) => Ok(MokaInstruction::Nop),
            Err(e) => Err(MokaIRBrewingError::ExecutionError(e)),
        };
    }
    if let Some((idx, dual)) = store_kind(&insn) {
        let value = if dual {
            frame.pop_value::<DUAL_SLOT>()
        } else {
            frame.pop_value::<SINGLE_SLOT>()
        };
        let value = match value {
            Ok(v) => v,
            Err(e) => return Err(MokaIRBrewingError::ExecutionError(e)),
        };
        let written = if dual {
            frame.set_local::<DUAL_SLOT>(idx, value)
        } else {
            frame.set_local::<SINGLE_SLOT>(idx, value)
        };
        return match written {
            Ok(()) => Ok(MokaInstruction::Nop),
            Err(e) => Err(MokaIRBrewingError::ExecutionError(e)),
        };
    }
    match insn {
        Instruction::IInc(idx, c) => increment(frame, idx as u16, c, def),
        Instruction::Wide(WideInstruction::IInc(idx, c)) => increment(frame, idx, c, def),
        Instruction::Ret(idx) => match frame.get_local::<SINGLE_SLOT>(idx as u16) {
            Ok(v) => Ok(MokaInstruction::SubroutineRet(v)),
            Err(e) => Err(MokaIRBrewingError::ExecutionError(e)),
        },
        Instruction::Wide(WideInstruction::Ret(idx)) => match frame.get_local::<SINGLE_SLOT>(idx) {
            Ok(v) => Ok(MokaInstruction::SubroutineRet(v)),
            Err(e) => Err(MokaIRBrewingError::ExecutionError(e)),
        },
        Instruction::Pop => nop_or(frame.pop()),
        Instruction::Pop2 => nop_or(frame.pop2()),
        Instruction::Dup => nop_or(frame.dup()),
        Instruction::DupX1 => nop_or(frame.dup_x1()),
        Instruction::DupX2 => nop_or(frame.dup_x2()),
        Instruction::Dup2 => nop_or(frame.dup2()),
        Instruction::Dup2X1 => nop_or(frame.dup2_x1()),
        Instruction::Dup2X2 => nop_or(frame.dup2_x2()),
        Instruction::Swap => nop_or(frame.swap()),
        Instruction::InvokeVirtual(m) | Instruction::InvokeSpecial(m) | Instruction::InvokeInterface(m, _) => {
            let (this, args) = match call_stack(frame, &m.descriptor, true, def) {
                Ok(p) => p,
                Err(e) => return Err(MokaIRBrewingError::ExecutionError(e)),
            };
            Ok(MokaInstruction::Definition { value: def, expr: Expression::Call { method: m, this, args } })
        },
        Instruction::InvokeStatic(m) => {
            let (this, args) = match call_stack(frame, &m.descriptor, false, def) {
                Ok(p) => p,
                Err(e) => return Err(MokaIRBrewingError::ExecutionError(e)),
            };
            Ok(MokaInstruction::Definition { value: def, expr: Expression::Call { method: m, this, args } })
        },
        Instruction::InvokeDynamic { bootstrap_method_index, name, descriptor } => {
            let (_, args) = match call_stack(frame, &descriptor, false, def) {
                Ok(p) => p,
                Err(e) => return Err(MokaIRBrewingError::ExecutionError(e)),
            };
            Ok(
                MokaInstruction::Definition {
                    value: def,
                    expr: Expression::Closure {
                        name,
                        captures: args,
                        bootstrap_method_index,
                        closure_descriptor: descriptor,
                    },
                },
            )
        },
        Instruction::Jsr(target) | Instruction::JsrW(target) => {
            let next = match next_pc {
                Some(n) => n,
                None => return Err(MokaIRBrewingError::MalformedControlFlow),
            };
            match frame.push_value::<SINGLE_SLOT>(def.as_argument()) {
                Ok(()) => Ok(
                    MokaInstruction::Definition {
                        value: def,
                        expr: Expression::Subroutine { return_address: next, target },
                    },
                ),
                Err(e) => Err(MokaIRBrewingError::ExecutionError(e)),
            }
        },
        Instruction::MultiANewArray(element_type, dimension) => {
            let kinds = all_single(dimension);
            let counts = match pop_values(frame, &kinds, 0) {
                Ok(a) => a,
                Err(e) => {
                    assert(kinds@.skip(0) =~= kinds@);
                    return Err(MokaIRBrewingError::ExecutionError(e));
                },
            };
            assert(kinds@.skip(0) =~= kinds@);
            let dimensions = reversed(counts);
            match frame.push_value::<SINGLE_SLOT>(def.as_argument()) {
                Ok(()) => Ok(
                    MokaInstruction::Definition {
                        value: def,
                        expr: Expression::Array(ArrayOperation::NewMultiDim { element_type, dimensions }),
                    },
                ),
                Err(e) => Err(MokaIRBrewingError::ExecutionError(e)),
            }
        },
        Instruction::TableSwitch { range_start, range_end, jump_targets, default } => {
            let condition = match frame.pop_value::<SINGLE_SLOT>() {
                Ok(v) => v,
                Err(e) => return Err(MokaIRBrewingError::ExecutionError(e)),
            };
            let branches = switch_branches(range_start, range_end, &jump_targets);
            Ok(MokaInstruction::Switch { match_value: condition, default, branches })
        },
        _ => Ok(MokaInstruction::Nop),
    }
}

/// The arguments in the opposite order: the counts of `multianewarray`, popped last dimension
/// first, in the order of the dimensions.
fn reversed(v: Vec<Argument>) -> (r: Vec<Argument>)
    ensures
        r@ == v@.reverse(),
{
    let mut v = v;
    let ghost orig = v@;
    let mut r: Vec<Argument> = Vec::new();
    while v.len() > 0
        invariant
            r@ + v@.reverse() == orig.reverse(),
        decreases v@.len(),
    {
        let ghost before = v@;
        let x = v.pop().unwrap();
        proof {
            assert(before =~= v@.push(x));
            assert(before.reverse() =~= seq![x] + v@.reverse());
        }
        r.push(x);
        assert(r@ + v@.reverse() =~= orig.reverse());
    }
    assert(v@.reverse() =~= Seq::<Argument>::empty());
    assert(r@ =~= orig.reverse());
    r
}

/// Gives a no-op, or the error of a stack operation.
fn nop_or(r: Result<(), ExecutionError>) -> (res: Result<MokaInstruction, MokaIRBrewingError>)
    ensures
        r is Ok ==> res == Ok::<MokaInstruction, MokaIRBrewingError>(MokaInstruction::Nop),
        r matches Err(e) ==> res == Err::<MokaInstruction, MokaIRBrewingError>(MokaIRBrewingError::ExecutionError(e)),
{
    match r {
        Ok(()) => Ok(MokaInstruction::Nop),
        Err(e) => Err(MokaIRBrewingError::ExecutionError(e)),
    }
}

/// A list of `n` flags that all say one slot.
fn all_single(n: u8) -> (r: Vec<bool>)
    ensures
        r@ == Seq::new(n as nat, |i: int| false),
{
    let mut r: Vec<bool> = Vec::new();
    let mut k: u8 = 0;
    while k < n
        invariant
            k <= n,
            r@ == Seq::new(k as nat, |i: int| false),
        decreases n - k,
    {
        r.push(false);
        k = k + 1;
        assert(r@ =~= Seq::new(k as nat, |i: int| false));
    }
    r
}

/// Increments a local variable: reads it, and writes the value defined in its place.
fn increment(frame: &mut JvmStackFrame, idx: u16, c: i32, def: LocalValue) -> (r: Result<MokaInstruction, MokaIRBrewingError>)
    ensures
        frame_kept(*final(frame), *old(frame)),
        final(frame).stack() == old(frame).stack(),
        get_local_check(old(frame).locals(), idx as int, false) matches Err(e) ==> r == Err::<MokaInstruction, MokaIRBrewingError>(
            MokaIRBrewingError::ExecutionError(e),
        ) && final(frame).locals() == old(frame).locals(),
        get_local_check(old(frame).locals(), idx as int, false) is Ok ==> final(frame).locals() == old(frame).locals().update(
            idx as int,
            Entry::Value(def_arg(def)),
        ) && (r matches Ok(MokaInstruction::Definition { value, expr: Expression::Math(MathOperation::Increment(base, k)) })
            && value == def && k == c && same_argument(base, old(frame).locals()[idx as int]->Value_0)),
{
    let base = match frame.get_local::<SINGLE_SLOT>(idx) {
        Ok(v) => v,
        Err(e) => return Err(MokaIRBrewingError::ExecutionError(e)),
    };
    match frame.set_local::<SINGLE_SLOT>(idx, def.as_argument()) {
        Ok(()) => {},
        Err(e) => return Err(MokaIRBrewingError::ExecutionError(e)),
    }
    Ok(MokaInstruction::Definition { value: def, expr: Expression::Math(MathOperation::Increment(base, c)) })
}

/// Pops the arguments of a call and the object it is called on, if it has one, and pushes the
/// value defined when the method returns a value.
fn call_stack(frame: &mut JvmStackFrame, desc: &MethodDescriptor, has_this: bool, def: LocalValue) -> (r: Result<
    (Option<Argument>, Vec<Argument>),
    ExecutionError,
>)
    ensures
        frame_kept(*final(frame), *old(frame)),
        final(frame).locals() == old(frame).locals(),
        final(frame).stack() == call_outcome(old(frame).stack(), *desc, has_this, def, old(frame).max_stack_of() as int).1,
        r matches Ok((this, args)) ==> call_outcome(old(frame).stack(), *desc, has_this, def, old(frame).max_stack_of() as int).0
            == Ok::<(Option<Argument>, Seq<Argument>), ExecutionError>((this, args@)),
        r matches Err(e) ==> call_outcome(old(frame).stack(), *desc, has_this, def, old(frame).max_stack_of() as int).0
            == Err::<(Option<Argument>, Seq<Argument>), ExecutionError>(e),
{
    let args = frame.pop_args(desc)?;
    let this = if has_this {
        match frame.pop_value::<SINGLE_SLOT>() {
            Ok(v) => Some(v),
            Err(e) => return Err(e),
        }
    } else {
        None
    };
    match &desc.return_type {
        ReturnType::Returns(t) => frame.typed_push(t, def.as_argument())?,
        ReturnType::Void => {},
    }
    Ok((this, args))
}

} // verus!
