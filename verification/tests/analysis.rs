use mokapot::ir::control_flow::{CFGNode, ControlTransfer};
use mokapot::ir::data_flow::DefUseChain;
use mokapot::ir::expression::{Condition, Expression, MathOperation};
use mokapot::ir::generator::analysis::{analyze_location, entry_fact, exception_edges, merge_facts, successors};
use mokapot::ir::generator::jvm_frame::SINGLE_SLOT;
use mokapot::ir::generator::{ExecutionError, JvmStackFrame, MokaIRBrewingError};
use mokapot::ir::{Argument, Identifier, LocalValue, MokaInstruction};
use mokapot::jvm::code::{ExceptionTableEntry, Instruction, InstructionList, MethodBody, ProgramCounter};
use mokapot::jvm::references::ClassRef;
use mokapot::jvm::ConstantValue;
use mokapot::types::{FieldType, MethodDescriptor, PrimitiveType, ReturnType};

fn pc(n: u16) -> ProgramCounter {
    ProgramCounter::new(n)
}

fn local(i: u16) -> Argument {
    Argument::Id(Identifier::Local(LocalValue::new(i)))
}

fn frame(max_locals: u16, max_stack: u16) -> JvmStackFrame {
    let desc = MethodDescriptor { parameters_types: vec![], return_type: ReturnType::Void };
    JvmStackFrame::new(true, &desc, max_locals, max_stack).unwrap()
}

fn handler(start: u16, end: u16, at: u16, class: Option<&str>) -> ExceptionTableEntry {
    ExceptionTableEntry {
        covered_start: pc(start),
        covered_end: pc(end),
        handler_pc: pc(at),
        catch_type: class.map(|c| ClassRef::new(c.to_owned())),
    }
}

fn class_names(t: &ControlTransfer) -> Vec<String> {
    match t {
        ControlTransfer::Exception(cs) => cs.iter().map(|c| c.binary_name.clone()).collect(),
        _ => panic!("not an exception edge"),
    }
}

#[test]
fn def_use_chain_finds_definitions_and_uses() {
    let mut list: InstructionList<MokaInstruction> = InstructionList::new();
    list.insert(
        pc(0),
        MokaInstruction::Definition { value: LocalValue::new(0), expr: Expression::Const(ConstantValue::Integer(1)) },
    );
    list.insert(
        pc(1),
        MokaInstruction::Definition {
            value: LocalValue::new(1),
            expr: Expression::Math(MathOperation::Add(local(0), local(0))),
        },
    );
    list.insert(pc(2), MokaInstruction::Return(Some(local(1))));
    let chain = DefUseChain::new(&list);
    assert_eq!(chain.defined_at(&LocalValue::new(0)), Some(pc(0)));
    assert_eq!(chain.defined_at(&LocalValue::new(1)), Some(pc(1)));
    assert_eq!(chain.defined_at(&LocalValue::new(2)), None);
    assert_eq!(chain.used_at(&Identifier::Local(LocalValue::new(0))), vec![pc(1)]);
    assert_eq!(chain.used_at(&Identifier::Local(LocalValue::new(1))), vec![pc(2)]);
    assert_eq!(chain.used_at(&Identifier::This), Vec::<ProgramCounter>::new());
}

#[test]
fn exception_edges_group_handlers() {
    let table = vec![
        handler(0, 10, 20, Some("java/io/IOException")),
        handler(0, 10, 20, Some("java/lang/RuntimeException")),
        handler(3, 4, 30, None),
        handler(6, 10, 40, Some("java/lang/Error")),
    ];
    let f = frame(2, 2);
    let edges = exception_edges(&table, pc(5), &f);
    assert_eq!(edges.len(), 1);
    assert_eq!(edges[0].0, pc(5));
    assert_eq!(edges[0].1, pc(20));
    assert_eq!(class_names(&edges[0].2), vec!["java/io/IOException", "java/lang/RuntimeException"]);
    let mut g = edges[0].3.same_frame();
    assert_eq!(g.pop_value::<SINGLE_SLOT>(), Ok(Argument::Id(Identifier::CaughtException)));

    let edges = exception_edges(&table, pc(3), &f);
    assert_eq!(edges.len(), 2);
    let mut targets: Vec<u16> = edges.iter().map(|e| e.1.into()).collect();
    targets.sort();
    assert_eq!(targets, vec![20, 30]);
    for e in &edges {
        if e.1 == pc(30) {
            assert_eq!(class_names(&e.2), vec!["java/lang/Throwable"]);
        }
    }
    assert!(exception_edges(&table, pc(11), &f).is_empty());
}

#[test]
fn conditional_jump_has_both_branches() {
    let ir = MokaInstruction::Jump { condition: Some(Condition::IsZero(local(0))), target: pc(9) };
    let edges = successors(&ir, pc(2), Some(pc(3)), &vec![], frame(1, 1)).unwrap();
    assert_eq!(edges.len(), 2);
    assert_eq!((edges[0].0, edges[0].1), (pc(2), pc(9)));
    assert_eq!((edges[1].0, edges[1].1), (pc(2), pc(3)));
    let shown = format!("{:?}", edges[0].2);
    assert!(shown.starts_with("Conditional"));
    assert!(shown.contains("Positive(Equal(Variable(Id(Local(LocalValue(0)))), Constant(Integer(0))))"));
    let shown = format!("{:?}", edges[1].2);
    assert!(shown.contains("Positive(NotEqual(Variable(Id(Local(LocalValue(0)))), Constant(Integer(0))))"));
    let r = successors(&ir, pc(2), None, &vec![], frame(1, 1));
    assert!(matches!(r, Err(MokaIRBrewingError::MalformedControlFlow)));
}

#[test]
fn switch_has_a_default_edge() {
    let ir = MokaInstruction::Switch { match_value: local(0), branches: vec![(1, pc(10)), (5, pc(20))], default: pc(30) };
    let edges = successors(&ir, pc(4), None, &vec![], frame(1, 1)).unwrap();
    assert_eq!(edges.len(), 3);
    assert_eq!(edges[0].1, pc(10));
    assert_eq!(edges[1].1, pc(20));
    assert_eq!(edges[2].1, pc(30));
    let shown = format!("{:?}", edges[2].2);
    assert!(shown.starts_with("Conditional"));
    assert!(shown.contains("Positive(NotEqual(Variable(Id(Local(LocalValue(0)))), Constant(Integer(1))))"));
    assert!(shown.contains("Positive(NotEqual(Variable(Id(Local(LocalValue(0)))), Constant(Integer(5))))"));
    let shown = format!("{:?}", edges[1].2);
    assert!(shown.contains("Positive(Equal(Variable(Id(Local(LocalValue(0)))), Constant(Integer(5))))"));
}

#[test]
fn return_and_goto_edges() {
    let edges = successors(&MokaInstruction::Return(None), pc(4), Some(pc(5)), &vec![], frame(1, 1)).unwrap();
    assert!(edges.is_empty());
    let ir = MokaInstruction::Jump { condition: None, target: pc(0) };
    let edges = successors(&ir, pc(4), None, &vec![], frame(1, 1)).unwrap();
    assert_eq!(edges.len(), 1);
    assert_eq!(edges[0].1, pc(0));
    assert!(matches!(edges[0].2, ControlTransfer::Unconditional));
}

#[test]
fn analyze_location_runs_and_links() {
    let table = vec![handler(0, 3, 8, Some("java/lang/ArithmeticException"))];
    let mut f = frame(0, 2);
    f.push_value::<SINGLE_SLOT>(local(0)).unwrap();
    f.push_value::<SINGLE_SLOT>(local(1)).unwrap();
    let (ir, edges) = analyze_location(Instruction::IDiv, pc(2), Some(pc(3)), &table, &f).unwrap();
    assert_eq!(
        ir,
        MokaInstruction::Definition {
            value: LocalValue::new(2),
            expr: Expression::Math(MathOperation::Divide(local(0), local(1))),
        }
    );
    assert_eq!(edges.len(), 2);
    assert_eq!(edges[0].1, pc(8));
    assert_eq!(edges[1].1, pc(3));
    assert!(matches!(edges[1].2, ControlTransfer::Unconditional));
    let mut g = edges[1].3.same_frame();
    assert_eq!(g.pop_value::<SINGLE_SLOT>(), Ok(local(2)));
    assert!(g.pop_value::<SINGLE_SLOT>().is_err());

    let r = analyze_location(Instruction::IConst0, pc(9), None, &vec![], &frame(0, 1));
    assert!(matches!(r, Err(MokaIRBrewingError::MalformedControlFlow)));
    let r = analyze_location(Instruction::IAdd, pc(9), Some(pc(10)), &vec![], &frame(0, 1));
    assert!(matches!(r, Err(MokaIRBrewingError::ExecutionError(_))));
}

#[test]
fn cfg_node_parts() {
    let n = CFGNode(pc(3), pc(7));
    assert_eq!(n.id(), pc(3));
    assert_eq!(*n.weight(), pc(7));
}

fn body(instructions: Vec<(ProgramCounter, Instruction)>, max_locals: u16) -> MethodBody {
    MethodBody {
        instructions: InstructionList::from_sorted(instructions),
        max_stack: 2,
        max_locals,
        exception_table: vec![],
        line_number_table: None,
        local_variable_table: None,
        stack_map_table: None,
        runtime_visible_type_annotations: vec![],
        runtime_invisible_type_annotations: vec![],
        free_attributes: vec![],
    }
}

#[test]
fn entry_fact_starts_at_the_first_instruction() {
    let desc = MethodDescriptor {
        parameters_types: vec![FieldType::Base(PrimitiveType::Long), FieldType::Base(PrimitiveType::Int)],
        return_type: ReturnType::Void,
    };
    let b = body(vec![(pc(3), Instruction::Nop), (pc(4), Instruction::Return)], 5);
    let (start, mut f) = entry_fact(false, &desc, &b).unwrap();
    assert_eq!(start, pc(3));
    assert_eq!(f.get_local::<SINGLE_SLOT>(0), Ok(Argument::Id(Identifier::This)));
    assert_eq!(f.get_local::<SINGLE_SLOT>(3), Ok(Argument::Id(Identifier::Arg(1))));
    assert!(f.pop_value::<SINGLE_SLOT>().is_err());
    let r = entry_fact(false, &desc, &body(vec![], 5));
    assert!(matches!(r, Err(MokaIRBrewingError::MalformedControlFlow)));
    let r = entry_fact(false, &desc, &body(vec![(pc(0), Instruction::Return)], 3));
    assert!(matches!(r, Err(MokaIRBrewingError::ExecutionError(ExecutionError::LocalLimitExceed))));
}

#[test]
fn merge_facts_reports_mismatches() {
    let mut a = frame(1, 2);
    a.push_value::<SINGLE_SLOT>(local(0)).unwrap();
    let mut b = frame(1, 2);
    b.push_value::<SINGLE_SLOT>(local(1)).unwrap();
    let mut m = merge_facts(&a, b).unwrap();
    let top = m.pop_value::<SINGLE_SLOT>().unwrap();
    assert_eq!(top.to_string(), "Phi(%0, %1)");
    let r = merge_facts(&a, frame(1, 2));
    assert!(matches!(r, Err(MokaIRBrewingError::MergeError(ExecutionError::StackSizeMismatch))));
    let r = merge_facts(&a, frame(2, 2));
    assert!(matches!(r, Err(MokaIRBrewingError::MergeError(ExecutionError::LocalLimitMismatch))));
}
