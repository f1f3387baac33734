use mokapot::ir::generator::jvm_frame::{Entry, ExecutionError, JvmStackFrame, DUAL_SLOT, SINGLE_SLOT};
use mokapot::ir::{Argument, Identifier, IdentifierSet, LocalValue};
use mokapot::types::{FieldType, MethodDescriptor, PrimitiveType, ReturnType};

fn local(i: u16) -> Argument {
    Argument::Id(Identifier::Local(LocalValue::new(i)))
}

fn void_desc() -> MethodDescriptor {
    MethodDescriptor { parameters_types: vec![], return_type: ReturnType::Void }
}

fn frame(capacity: u16) -> JvmStackFrame {
    JvmStackFrame::new(true, &void_desc(), 0, capacity).unwrap()
}

#[test]
fn jvm_frame_merge_value_ref() {
    let lhs = Entry::Value(local(0));
    let rhs = Entry::Value(local(1));
    let result = Entry::merge(lhs, rhs);
    assert_eq!(
        result,
        Entry::Value(Argument::Phi(IdentifierSet::from_ids(&[
            Identifier::Local(LocalValue::new(0)),
            Identifier::Local(LocalValue::new(1)),
        ])))
    );
}

#[test]
fn jvm_frame_merge_same_value_ref() {
    let result = Entry::merge(Entry::Value(local(0)), Entry::Value(local(0)));
    assert_eq!(result, Entry::Value(local(0)));
}

#[test]
fn entry_tests_merge_value_ref() {
    let lhs = Entry::Value(local(0));
    let rhs = Entry::Value(local(1));
    let result = Entry::merge(lhs, rhs);
    assert_eq!(
        result,
        Entry::Value(Argument::Phi(IdentifierSet::from_ids(&[
            Identifier::Local(LocalValue::new(0)),
            Identifier::Local(LocalValue::new(1)),
        ])))
    );
}

#[test]
fn entry_tests_merge_same_value_ref() {
    let result = Entry::merge(Entry::Value(local(0)), Entry::Value(local(0)));
    assert_eq!(result, Entry::Value(local(0)));
}

#[test]
fn merge_keeps_left_on_kind_mismatch_and_fills_uninitialized() {
    assert_eq!(Entry::merge(Entry::Top, Entry::Value(local(3))), Entry::Top);
    assert_eq!(Entry::merge(Entry::UninitializedLocal, Entry::Top), Entry::Top);
    assert_eq!(Entry::merge(Entry::Value(local(2)), Entry::UninitializedLocal), Entry::Value(local(2)));
}

#[test]
fn args_locals_checking() {
    // "([ID)I"
    let desc = MethodDescriptor {
        parameters_types: vec![
            FieldType::Array(Box::new(FieldType::Base(PrimitiveType::Int))),
            FieldType::Base(PrimitiveType::Double),
        ],
        return_type: ReturnType::Returns(FieldType::Base(PrimitiveType::Int)),
    };
    let too_small_locals = JvmStackFrame::new(false, &desc, 2, 2);
    assert!(too_small_locals.is_err());
    let correct = JvmStackFrame::new(false, &desc, 4, 2);
    assert!(correct.is_ok());
}

#[test]
fn locals_hold_this_and_arguments() {
    let desc = MethodDescriptor {
        parameters_types: vec![FieldType::Base(PrimitiveType::Long), FieldType::Base(PrimitiveType::Int)],
        return_type: ReturnType::Void,
    };
    let frame = JvmStackFrame::new(false, &desc, 5, 0).unwrap();
    assert_eq!(frame.get_local::<SINGLE_SLOT>(0), Ok(Argument::Id(Identifier::This)));
    assert_eq!(frame.get_local::<DUAL_SLOT>(1), Ok(Argument::Id(Identifier::Arg(0))));
    assert_eq!(frame.get_local::<SINGLE_SLOT>(2), Err(ExecutionError::ValueMismatch));
    assert_eq!(frame.get_local::<SINGLE_SLOT>(3), Ok(Argument::Id(Identifier::Arg(1))));
    assert_eq!(frame.get_local::<SINGLE_SLOT>(4), Err(ExecutionError::LocalUninitialized));
    assert_eq!(frame.get_local::<SINGLE_SLOT>(5), Err(ExecutionError::LocalLimitExceed));
}

#[test]
fn set_then_get_local() {
    let mut frame = JvmStackFrame::new(true, &void_desc(), 3, 0).unwrap();
    assert_eq!(frame.set_local::<DUAL_SLOT>(1, local(7)), Ok(()));
    assert_eq!(frame.get_local::<DUAL_SLOT>(1), Ok(local(7)));
    assert_eq!(frame.set_local::<DUAL_SLOT>(2, local(8)), Err(ExecutionError::LocalLimitExceed));
    assert_eq!(frame.set_local::<SINGLE_SLOT>(3, local(8)), Err(ExecutionError::LocalLimitExceed));
}

#[test]
fn push_pop() {
    let args: Vec<Argument> = (0..5).map(local).collect();
    let mut frame = frame(5);
    for arg in &args {
        frame.push_value::<SINGLE_SLOT>(arg.clone()).expect("Fail to push");
    }
    for arg in args.iter().rev() {
        assert_eq!(frame.pop_value::<SINGLE_SLOT>(), Ok(arg.clone()));
    }
}

#[test]
fn push_pop_dual_slot_and_mismatch() {
    let mut frame = frame(2);
    frame.push_value::<DUAL_SLOT>(local(1)).unwrap();
    assert_eq!(frame.push_value::<SINGLE_SLOT>(local(2)), Err(ExecutionError::StackOverflow));
    assert_eq!(frame.pop_value::<DUAL_SLOT>(), Ok(local(1)));
    frame.push_value::<DUAL_SLOT>(local(3)).unwrap();
    frame.pop_value::<SINGLE_SLOT>().unwrap();
    assert_eq!(frame.pop_value::<SINGLE_SLOT>(), Err(ExecutionError::ValueMismatch));
}

#[test]
fn overflow_and_underflow() {
    let mut frame = frame(1);
    frame.push_value::<SINGLE_SLOT>(local(0)).unwrap();
    assert_eq!(frame.push_value::<SINGLE_SLOT>(local(1)), Err(ExecutionError::StackOverflow));
    frame.pop().unwrap();
    assert_eq!(frame.pop(), Err(ExecutionError::StackUnderflow));
    assert_eq!(frame.pop_value::<SINGLE_SLOT>(), Err(ExecutionError::StackUnderflow));
}

#[test]
fn jvm_dup_x1_and_swap() {
    let mut frame = frame(3);
    frame.push_value::<SINGLE_SLOT>(local(2)).unwrap();
    frame.push_value::<SINGLE_SLOT>(local(1)).unwrap();
    frame.dup_x1().unwrap();
    assert_eq!(frame.pop_value::<SINGLE_SLOT>(), Ok(local(1)));
    assert_eq!(frame.pop_value::<SINGLE_SLOT>(), Ok(local(2)));
    assert_eq!(frame.pop_value::<SINGLE_SLOT>(), Ok(local(1)));
    frame.push_value::<SINGLE_SLOT>(local(2)).unwrap();
    frame.push_value::<SINGLE_SLOT>(local(1)).unwrap();
    frame.swap().unwrap();
    assert_eq!(frame.pop_value::<SINGLE_SLOT>(), Ok(local(2)));
    assert_eq!(frame.pop_value::<SINGLE_SLOT>(), Ok(local(1)));
}

#[test]
fn jvm_dup2_x2_two_dual_values() {
    let mut frame = frame(6);
    frame.push_value::<DUAL_SLOT>(local(2)).unwrap();
    frame.push_value::<DUAL_SLOT>(local(1)).unwrap();
    frame.dup2_x2().unwrap();
    assert_eq!(frame.pop_value::<DUAL_SLOT>(), Ok(local(1)));
    assert_eq!(frame.pop_value::<DUAL_SLOT>(), Ok(local(2)));
    assert_eq!(frame.pop_value::<DUAL_SLOT>(), Ok(local(1)));
}

#[test]
fn dup_on_full_stack_overflows() {
    let mut frame = frame(1);
    frame.push_value::<SINGLE_SLOT>(local(0)).unwrap();
    assert_eq!(frame.dup(), Err(ExecutionError::StackOverflow));
    assert_eq!(frame.dup2(), Err(ExecutionError::StackUnderflow));
}

#[test]
fn pop_args_in_order() {
    let desc = MethodDescriptor {
        parameters_types: vec![FieldType::Base(PrimitiveType::Int), FieldType::Base(PrimitiveType::Double)],
        return_type: ReturnType::Void,
    };
    let mut frame = frame(3);
    frame.push_value::<SINGLE_SLOT>(local(1)).unwrap();
    frame.typed_push(&FieldType::Base(PrimitiveType::Double), local(2)).unwrap();
    assert_eq!(frame.pop_args(&desc), Ok(vec![local(1), local(2)]));
    assert_eq!(frame.pop_args(&desc), Err(ExecutionError::StackUnderflow));
}

#[test]
fn merge_frames() {
    let mut a = frame(1);
    let mut b = frame(1);
    a.push_value::<SINGLE_SLOT>(local(0)).unwrap();
    b.push_value::<SINGLE_SLOT>(local(1)).unwrap();
    a.add_ret_address(3.into());
    b.add_ret_address(4.into());
    let mut merged = a.merge(b).unwrap();
    let mut rets = merged.ret_address_list();
    rets.sort();
    assert_eq!(rets, vec![3.into(), 4.into()]);
    assert_eq!(
        merged.pop_value::<SINGLE_SLOT>(),
        Ok(Argument::Phi(IdentifierSet::from_ids(&[
            Identifier::Local(LocalValue::new(0)),
            Identifier::Local(LocalValue::new(1)),
        ])))
    );
    let c = frame(1);
    let mut d = frame(1);
    d.push_value::<SINGLE_SLOT>(local(1)).unwrap();
    assert!(matches!(c.merge(d), Err(ExecutionError::StackSizeMismatch)));
    let e = JvmStackFrame::new(true, &void_desc(), 1, 1).unwrap();
    assert!(matches!(frame(1).merge(e), Err(ExecutionError::LocalLimitMismatch)));
}
