use mokapot::ir::expression::{
    ArrayOperation, Condition, ConversionOperation, Expression, FieldAccess, LockOperation, MathOperation,
    NaNTreatment,
};
use mokapot::ir::{Argument, Identifier, IdentifierSet, LocalValue, MokaInstruction};
use mokapot::jvm::code::ProgramCounter;
use mokapot::jvm::references::{ClassRef, FieldRef, MethodRef};
use mokapot::jvm::{ConstantValue, JavaString};
use mokapot::types::{FieldType, MethodDescriptor, PrimitiveType, ReturnType};

fn local(i: u16) -> Argument {
    Argument::Id(Identifier::Local(LocalValue::new(i)))
}

#[test]
fn identifiers_and_arguments() {
    assert_eq!(Identifier::This.to_string(), "%this");
    assert_eq!(Identifier::Arg(2).to_string(), "%arg2");
    assert_eq!(Identifier::Local(LocalValue::new(17)).to_string(), "%17");
    assert_eq!(Identifier::CaughtException.to_string(), "%caught_exception");
    assert_eq!(LocalValue::new(0).to_string(), "%0");
    let phi = Argument::Phi(IdentifierSet::from_ids(&[
        Identifier::Local(LocalValue::new(3)),
        Identifier::This,
        Identifier::Arg(1),
    ]));
    assert_eq!(phi.to_string(), "Phi(%this, %arg1, %3)");
    assert_eq!(local(4).to_string(), "%4");
}

#[test]
fn conditions_and_math() {
    assert_eq!(Condition::GreaterThanOrEqual(local(1), local(2)).to_string(), "%1 >= %2");
    assert_eq!(Condition::IsNull(local(1)).to_string(), "%1 == null");
    assert_eq!(Condition::IsNonPositive(local(1)).to_string(), "%1 <= 0");
    assert_eq!(MathOperation::Remainder(local(1), local(2)).to_string(), "%1 mod %2");
    assert_eq!(MathOperation::Increment(local(1), -5).to_string(), "%1 + -5");
    assert_eq!(MathOperation::Negate(local(1)).to_string(), "-%1");
    assert_eq!(MathOperation::LogicalShiftRight(local(1), local(2)).to_string(), "%1 >>> %2");
    assert_eq!(
        MathOperation::FloatingPointComparison(local(1), local(2), NaNTreatment::IsSmallest).to_string(),
        "cmp(%1, %2) NaN == Min"
    );
}

#[test]
fn expressions() {
    assert_eq!(ConversionOperation::Int2Char(local(1)).to_string(), "%1 as char");
    assert_eq!(
        ArrayOperation::Write { array_ref: local(1), index: local(2), value: local(3) }.to_string(),
        "%1[%2] = %3"
    );
    assert_eq!(ArrayOperation::Length { array_ref: local(1) }.to_string(), "array_len(%1)");
    let field = FieldRef {
        owner: ClassRef::new("a/B".to_owned()),
        name: "count".to_owned(),
        field_type: FieldType::Base(PrimitiveType::Int),
    };
    assert_eq!(
        FieldAccess::WriteInstance { object_ref: local(1), field, value: local(2) }.to_string(),
        "write %1.count, %2"
    );
    assert_eq!(LockOperation::Acquire(local(1)).to_string(), "acquire %1");
    assert_eq!(ConstantValue::Integer(-7).to_string(), "int(-7)");
    assert_eq!(ConstantValue::Long(i64::MIN).to_string(), "long(-9223372036854775808)");
    assert_eq!(ConstantValue::Null.to_string(), "null");
    assert_eq!(ConstantValue::Class(ClassRef::new("java/lang/String".to_owned())).to_string(), "java/lang/String.class");
    assert_eq!(JavaString::Utf8("hi".to_owned()).to_string(), "String(\"hi\")");
    assert_eq!(JavaString::InvalidUtf8(vec![0xC0, 0x0A]).to_string(), "String(0xC0 0x0A) // Invalid UTF-8");
    assert_eq!(Expression::New(ClassRef::new("a/B".to_owned())).to_string(), "new a/B");
    assert_eq!(Expression::Throw(local(9)).to_string(), "throw %9");
    assert_eq!(
        Expression::Subroutine { return_address: ProgramCounter::new(3), target: ProgramCounter::new(16) }.to_string(),
        "subroutine #0010, return to #0003"
    );
}

#[test]
fn instructions() {
    assert_eq!(MokaInstruction::Nop.to_string(), "nop");
    assert_eq!(
        MokaInstruction::Definition {
            value: LocalValue::new(2),
            expr: Expression::Math(MathOperation::Add(local(0), local(1))),
        }
        .to_string(),
        "%2 = %0 + %1"
    );
    assert_eq!(
        MokaInstruction::Jump { condition: Some(Condition::IsZero(local(0))), target: ProgramCounter::new(10) }
            .to_string(),
        "if %0 == 0 goto #000A"
    );
    assert_eq!(MokaInstruction::Jump { condition: None, target: ProgramCounter::new(1) }.to_string(), "goto #0001");
    assert_eq!(
        MokaInstruction::Switch {
            match_value: local(0),
            branches: vec![(1, ProgramCounter::new(20)), (2, ProgramCounter::new(30))],
            default: ProgramCounter::new(40),
        }
        .to_string(),
        "switch %0 { #0028, else => 1 => #0014, 2 => #001E }"
    );
    assert_eq!(MokaInstruction::Return(None).to_string(), "return");
    assert_eq!(MokaInstruction::Return(Some(local(3))).to_string(), "return %3");
    assert_eq!(MokaInstruction::SubroutineRet(local(3)).to_string(), "subroutine_ret %3");
}

fn string_type() -> FieldType {
    FieldType::Object(ClassRef::new("java/lang/String".to_owned()))
}

#[test]
fn texts_that_name_types_fields_and_methods() {
    let field = FieldRef { owner: ClassRef::new("a/C".to_owned()), name: "count".to_owned(), field_type: FieldType::Base(PrimitiveType::Int) };
    assert_eq!(FieldAccess::ReadStatic { field: field.clone() }.to_string(), "read a/C.count");
    assert_eq!(FieldAccess::WriteStatic { field, value: local(4) }.to_string(), "write a/C.count, %4");
    assert_eq!(
        ArrayOperation::New { element_type: FieldType::Base(PrimitiveType::Byte), length: local(1) }.to_string(),
        "new byte[%1]"
    );
    assert_eq!(
        ArrayOperation::NewMultiDim { element_type: string_type(), dimensions: vec![local(1), local(2)] }.to_string(),
        "new java/lang/String[%1, %2]"
    );
    assert_eq!(ConversionOperation::CheckCast(local(0), string_type()).to_string(), "%0 as java/lang/String");
    assert_eq!(
        ConversionOperation::InstanceOf(local(0), FieldType::Array(Box::new(string_type()))).to_string(),
        "%0 is java/lang/String[]"
    );
    let method = MethodRef {
        owner: ClassRef::new("a/C".to_owned()),
        name: "get".to_owned(),
        descriptor: MethodDescriptor { parameters_types: vec![FieldType::Base(PrimitiveType::Int)], return_type: ReturnType::Returns(string_type()) },
    };
    let call = Expression::Call { method: method.clone(), this: None, args: vec![local(1), local(2)] };
    assert_eq!(call.to_string(), "call java/lang/String a/C::get(%1, %2)");
    let call = Expression::Call { method, this: Some(Argument::Id(Identifier::This)), args: vec![] };
    assert_eq!(call.to_string(), "call java/lang/String %this@a/C::get()");
    let closure = Expression::Closure {
        name: "run".to_owned(),
        captures: vec![local(3)],
        bootstrap_method_index: 2,
        closure_descriptor: MethodDescriptor { parameters_types: vec![], return_type: ReturnType::Void },
    };
    assert_eq!(closure.to_string(), "closure void run#2(%3)");
}
