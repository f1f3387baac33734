use mokapot::ir::expression::{ArrayOperation, Condition, Expression, MathOperation};
use mokapot::ir::generator::execution::run_instruction;
use mokapot::ir::generator::jvm_frame::{SINGLE_SLOT, DUAL_SLOT};
use mokapot::ir::generator::{ExecutionError, JvmStackFrame, MokaIRBrewingError};
use mokapot::ir::{Argument, Identifier, LocalValue, MokaInstruction};
use mokapot::jvm::code::{Instruction, ProgramCounter, WideInstruction};
use mokapot::jvm::{ConstantValue, FloatBits};
use mokapot::types::{FieldType, MethodDescriptor, PrimitiveType, ReturnType};

fn local(i: u16) -> Argument {
    Argument::Id(Identifier::Local(LocalValue::new(i)))
}

fn frame(max_locals: u16, max_stack: u16) -> JvmStackFrame {
    let desc = MethodDescriptor { parameters_types: vec![], return_type: ReturnType::Void };
    JvmStackFrame::new(true, &desc, max_locals, max_stack).unwrap()
}

fn run(insn: Instruction, pc: u16, f: &mut JvmStackFrame) -> Result<MokaInstruction, MokaIRBrewingError> {
    run_instruction(insn, ProgramCounter::new(pc), None, f)
}

#[test]
fn constants_define_values() {
    let mut f = frame(0, 4);
    let ir = run(Instruction::IConst3, 7, &mut f).unwrap();
    assert_eq!(
        ir,
        MokaInstruction::Definition { value: LocalValue::new(7), expr: Expression::Const(ConstantValue::Integer(3)) }
    );
    let ir = run(Instruction::FConst1, 8, &mut f).unwrap();
    assert_eq!(
        ir,
        MokaInstruction::Definition {
            value: LocalValue::new(8),
            expr: Expression::Const(ConstantValue::Float(FloatBits(1.0f32.to_bits()))),
        }
    );
    let ir = run(Instruction::BiPush(200), 9, &mut f).unwrap();
    assert_eq!(
        ir,
        MokaInstruction::Definition { value: LocalValue::new(9), expr: Expression::Const(ConstantValue::Integer(200)) }
    );
    assert_eq!(f.pop_value::<SINGLE_SLOT>(), Ok(local(9)));
    assert_eq!(f.pop_value::<SINGLE_SLOT>(), Ok(local(8)));
    assert_eq!(f.pop_value::<SINGLE_SLOT>(), Ok(local(7)));
}

#[test]
fn binary_math_uses_operands_in_order() {
    let mut f = frame(0, 4);
    run(Instruction::IConst1, 0, &mut f).unwrap();
    run(Instruction::IConst2, 1, &mut f).unwrap();
    let ir = run(Instruction::ISub, 2, &mut f).unwrap();
    assert_eq!(
        ir,
        MokaInstruction::Definition {
            value: LocalValue::new(2),
            expr: Expression::Math(MathOperation::Subtract(local(0), local(1))),
        }
    );
    assert_eq!(f.pop_value::<SINGLE_SLOT>(), Ok(local(2)));
    assert_eq!(f.pop_value::<SINGLE_SLOT>(), Err(ExecutionError::StackUnderflow));
}

#[test]
fn dual_slot_values_take_two_slots() {
    let mut f = frame(0, 4);
    run(Instruction::LConst1, 0, &mut f).unwrap();
    run(Instruction::LConst0, 1, &mut f).unwrap();
    let ir = run(Instruction::LAdd, 2, &mut f).unwrap();
    assert_eq!(
        ir,
        MokaInstruction::Definition {
            value: LocalValue::new(2),
            expr: Expression::Math(MathOperation::Add(local(0), local(1))),
        }
    );
    assert_eq!(f.pop_value::<DUAL_SLOT>(), Ok(local(2)));
}

#[test]
fn errors_of_the_frame_come_through() {
    let mut f = frame(0, 1);
    assert_eq!(run(Instruction::IAdd, 0, &mut f), Err(MokaIRBrewingError::ExecutionError(ExecutionError::StackUnderflow)));
    let mut f = frame(0, 1);
    assert_eq!(run(Instruction::LConst0, 0, &mut f), Err(MokaIRBrewingError::ExecutionError(ExecutionError::StackOverflow)));
    let mut f = frame(0, 1);
    assert_eq!(
        run(Instruction::Jsr(ProgramCounter::new(9)), 0, &mut f),
        Err(MokaIRBrewingError::MalformedControlFlow)
    );
}

#[test]
fn loads_and_stores_move_values() {
    let mut f = frame(3, 4);
    run(Instruction::IConst0, 0, &mut f).unwrap();
    assert_eq!(run(Instruction::IStore2, 1, &mut f), Ok(MokaInstruction::Nop));
    assert_eq!(run(Instruction::Wide(WideInstruction::ILoad(2)), 2, &mut f), Ok(MokaInstruction::Nop));
    assert_eq!(f.pop_value::<SINGLE_SLOT>(), Ok(local(0)));
    assert_eq!(
        run(Instruction::ILoad(0), 3, &mut f),
        Err(MokaIRBrewingError::ExecutionError(ExecutionError::LocalUninitialized))
    );
    let ir = run(Instruction::IInc(2, -1), 4, &mut f).unwrap();
    assert_eq!(
        ir,
        MokaInstruction::Definition {
            value: LocalValue::new(4),
            expr: Expression::Math(MathOperation::Increment(local(0), -1)),
        }
    );
    assert_eq!(f.get_local::<SINGLE_SLOT>(2), Ok(local(4)));
}

#[test]
fn jumps_and_switches() {
    let mut f = frame(0, 4);
    run(Instruction::IConst0, 0, &mut f).unwrap();
    run(Instruction::IConst1, 1, &mut f).unwrap();
    let ir = run(Instruction::IfICmpLt(ProgramCounter::new(20)), 2, &mut f).unwrap();
    assert_eq!(
        ir,
        MokaInstruction::Jump { condition: Some(Condition::LessThan(local(0), local(1))), target: ProgramCounter::new(20) }
    );
    run(Instruction::IConst2, 3, &mut f).unwrap();
    let ir = run(
        Instruction::TableSwitch {
            range_start: 5,
            range_end: 6,
            jump_targets: vec![ProgramCounter::new(30), ProgramCounter::new(31)],
            default: ProgramCounter::new(32),
        },
        4,
        &mut f,
    )
    .unwrap();
    assert_eq!(
        ir,
        MokaInstruction::Switch {
            match_value: local(3),
            branches: vec![(5, ProgramCounter::new(30)), (6, ProgramCounter::new(31))],
            default: ProgramCounter::new(32),
        }
    );
    let ir = run_instruction(Instruction::Jsr(ProgramCounter::new(40)), ProgramCounter::new(5), Some(ProgramCounter::new(8)), &mut f)
        .unwrap();
    assert_eq!(
        ir,
        MokaInstruction::Definition {
            value: LocalValue::new(5),
            expr: Expression::Subroutine { return_address: ProgramCounter::new(8), target: ProgramCounter::new(40) },
        }
    );
}

#[test]
fn arrays_and_returns() {
    let mut f = frame(0, 4);
    run(Instruction::IConst2, 0, &mut f).unwrap();
    run(Instruction::IConst3, 1, &mut f).unwrap();
    let ir = run(Instruction::MultiANewArray(FieldType::Base(PrimitiveType::Int), 2), 2, &mut f).unwrap();
    assert_eq!(
        ir,
        MokaInstruction::Definition {
            value: LocalValue::new(2),
            expr: Expression::Array(ArrayOperation::NewMultiDim {
                element_type: FieldType::Base(PrimitiveType::Int),
                dimensions: vec![local(0), local(1)],
            }),
        }
    );
    assert_eq!(run(Instruction::AReturn, 3, &mut f), Ok(MokaInstruction::Return(Some(local(2)))));
    assert_eq!(run(Instruction::Return, 4, &mut f), Ok(MokaInstruction::Return(None)));
}
