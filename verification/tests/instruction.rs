use mokapot::jvm::code::{Instruction, InstructionList, MethodBody, ProgramCounter, WideInstruction};
use mokapot::jvm::class::MethodHandle;
use mokapot::jvm::references::{ClassRef, FieldRef, MethodRef};
use mokapot::jvm::{ConstantValue, JavaString};
use mokapot::types::{FieldType, MethodDescriptor, PrimitiveType, ReturnType};

#[test]
fn instruction_test_opcode() {
    assert_eq!(Instruction::Nop.opcode(), 0x00);
    assert_eq!(Instruction::AConstNull.opcode(), 0x01);
    assert_eq!(Instruction::IConstM1.opcode(), 0x02);
    assert_eq!(Instruction::ILoad(233).opcode(), 0x15);
}

#[test]
fn instruction_test_display() {
    assert_eq!(Instruction::Nop.to_string(), "nop");
    assert_eq!(Instruction::AConstNull.to_string(), "aconst_null");
    assert_eq!(Instruction::ILoad(5).to_string(), "iload 5");
    assert_eq!(Instruction::BiPush(42).to_string(), "bipush 42");
    assert_eq!(Instruction::IInc(10, 5).to_string(), "iinc 10 5");

    assert_eq!(Instruction::Wide(WideInstruction::ILoad(1000)).to_string(), "wide iload 1000");
    assert_eq!(Instruction::Wide(WideInstruction::IInc(500, 50)).to_string(), "wide iinc 500 50");

    let if_eq_str = Instruction::IfEq(ProgramCounter::zero()).to_string();
    assert_eq!(if_eq_str, "ifeq #0000");

    let goto_str = Instruction::Goto(ProgramCounter::zero()).to_string();
    assert_eq!(goto_str, "goto #0000");
}

#[test]
fn instruction_at() {
    let body = MethodBody {
        instructions: InstructionList::from_sorted(vec![
            (ProgramCounter::new(0), Instruction::Nop),
            (ProgramCounter::new(1), Instruction::IConst0),
            (ProgramCounter::new(2), Instruction::IConst1),
        ]),
        max_stack: 0,
        max_locals: 0,
        exception_table: vec![],
        line_number_table: None,
        local_variable_table: None,
        stack_map_table: None,
        runtime_visible_type_annotations: vec![],
        runtime_invisible_type_annotations: vec![],
        free_attributes: vec![],
    };
    assert_eq!(Some(&Instruction::IConst0), body.instruction_at(ProgramCounter::new(1)));
    assert_eq!(None, body.instruction_at(ProgramCounter::new(3)));
}

#[test]
fn names_of_instructions() {
    assert_eq!(Instruction::IConst5.name(), "iconst_5");
    assert_eq!(Instruction::InvokeDynamic {
        bootstrap_method_index: 0,
        name: "run".to_owned(),
        descriptor: mokapot::types::MethodDescriptor {
            parameters_types: vec![],
            return_type: mokapot::types::ReturnType::Void,
        },
    }
    .name(), "invokedynamic");
    assert_eq!(Instruction::ImpDep2.name(), "impdep2");
    assert_eq!(Instruction::ImpDep2.opcode(), 0xff);
    assert_eq!(Instruction::Breakpoint.opcode(), 0xca);
    assert_eq!(Instruction::JsrW(ProgramCounter::zero()).opcode(), 0xc9);
}

#[test]
fn display_of_negative_and_wide_operands() {
    assert_eq!(Instruction::IInc(3, -128).to_string(), "iinc 3 -128");
    assert_eq!(Instruction::SiPush(65535).to_string(), "sipush 65535");
    assert_eq!(Instruction::Wide(WideInstruction::Ret(65535)).to_string(), "wide ret 65535");
    assert_eq!(WideInstruction::IInc(1, -2147483648).to_string(), "iinc 1 -2147483648");
    assert_eq!(Instruction::IfICmpLt(ProgramCounter::new(0xabc)).to_string(), "if_icmplt #0ABC");
}

#[test]
fn display_of_switches() {
    let table = Instruction::TableSwitch {
        range_start: -1,
        range_end: 1,
        jump_targets: vec![ProgramCounter::new(10), ProgramCounter::new(20), ProgramCounter::new(30)],
        default: ProgramCounter::new(40),
    };
    assert_eq!(
        table.to_string(),
        "tableswitch {\n  range: -1..=1\n  default: #0028\n  -1: #000A\n  0: #0014\n  1: #001E\n}"
    );
    let lookup = Instruction::LookupSwitch {
        default: ProgramCounter::new(5),
        match_targets: vec![(-7, ProgramCounter::new(1)), (100, ProgramCounter::new(2))],
    };
    assert_eq!(lookup.to_string(), "lookupswitch {\n  default: #0005\n  -7: #0001\n  100: #0002\n}");
}

#[test]
fn display_of_class_and_constant_operands() {
    let new = Instruction::New(ClassRef::new("java/util/List".to_owned()));
    assert_eq!(new.to_string(), "new java/util/List");
    let ldc = Instruction::Ldc(ConstantValue::String(JavaString::Utf8("x".to_owned())));
    assert_eq!(ldc.to_string(), "ldc String(\"x\")");
    let ldc2 = Instruction::Ldc2W(ConstantValue::Long(-3));
    assert_eq!(ldc2.to_string(), "ldc2_w long(-3)");
}

fn object(name: &str) -> FieldType {
    FieldType::Object(ClassRef::new(name.to_owned()))
}

fn descriptor() -> MethodDescriptor {
    MethodDescriptor {
        parameters_types: vec![FieldType::Base(PrimitiveType::Int), FieldType::Array(Box::new(object("java/lang/String")))],
        return_type: ReturnType::Returns(FieldType::Base(PrimitiveType::Boolean)),
    }
}

#[test]
fn display_of_field_and_method_instructions() {
    let field = FieldRef {
        owner: ClassRef::new("java/lang/System".to_owned()),
        name: "out".to_owned(),
        field_type: object("java/io/PrintStream"),
    };
    assert_eq!(Instruction::GetStatic(field.clone()).to_string(), "getstatic java/lang/System.out");
    assert_eq!(Instruction::PutField(field).to_string(), "putfield java/lang/System.out");
    let method = MethodRef { owner: ClassRef::new("A".to_owned()), name: "run".to_owned(), descriptor: descriptor() };
    assert_eq!(Instruction::InvokeVirtual(method.clone()).to_string(), "invokevirtual A::run");
    assert_eq!(Instruction::InvokeInterface(method, 3).to_string(), "invokeinterface A::run count 3");
    let indy = Instruction::InvokeDynamic { bootstrap_method_index: 7, name: "apply".to_owned(), descriptor: descriptor() };
    assert_eq!(indy.to_string(), "invokedynamic #7 apply (I[Ljava/lang/String;)Z");
    let void = MethodDescriptor { parameters_types: vec![], return_type: ReturnType::Void };
    let indy = Instruction::InvokeDynamic { bootstrap_method_index: 0, name: "x".to_owned(), descriptor: void };
    assert_eq!(indy.to_string(), "invokedynamic #0 x ()V");
}

#[test]
fn display_of_type_instructions() {
    assert_eq!(Instruction::NewArray(PrimitiveType::Long).to_string(), "newarray long");
    assert_eq!(Instruction::CheckCast(object("java/lang/String")).to_string(), "checkcast java/lang/String");
    let matrix = FieldType::Array(Box::new(FieldType::Array(Box::new(FieldType::Base(PrimitiveType::Double)))));
    assert_eq!(Instruction::InstanceOf(matrix.clone()).to_string(), "instanceof double[][]");
    assert_eq!(Instruction::MultiANewArray(matrix, 2).to_string(), "multianewarray double[][] 2");
}

#[test]
fn display_of_handle_type_and_dynamic_constants() {
    let method = MethodRef {
        owner: ClassRef::new("p/Q\"x".to_owned()),
        name: "m\n\u{1}".to_owned(),
        descriptor: descriptor(),
    };
    let handle = MethodHandle::RefInvokeStatic(method);
    let expected = format!("{:?}", handle);
    assert_eq!(ConstantValue::Handle(handle.clone()).to_string(), expected);
    assert_eq!(Instruction::Ldc(ConstantValue::Handle(handle)).to_string(), format!("ldc {}", expected));
    let field = FieldRef { owner: ClassRef::new("B".to_owned()), name: "f".to_owned(), field_type: FieldType::Base(PrimitiveType::Char) };
    let handle = MethodHandle::RefGetField(field);
    assert_eq!(ConstantValue::Handle(handle.clone()).to_string(), format!("{:?}", handle));
    assert_eq!(
        ConstantValue::Handle(handle).to_string(),
        "RefGetField(FieldRef { owner: ClassRef { binary_name: \"B\" }, name: \"f\", field_type: Base(Char) })"
    );
    assert_eq!(ConstantValue::MethodType(descriptor()).to_string(), format!("{:?}", descriptor()));
    let dynamic = ConstantValue::Dynamic(4, "CONST".to_owned(), object("java/lang/Integer"));
    assert_eq!(dynamic.to_string(), "Dynamic(4, CONST, java/lang/Integer)");
    assert_eq!(Instruction::LdcW(dynamic).to_string(), "ldc_w Dynamic(4, CONST, java/lang/Integer)");
}
