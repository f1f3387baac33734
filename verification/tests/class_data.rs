use core::ops::Range;

use mokapot::jvm::bytecode::ParsingErrorKind;
use mokapot::jvm::class::constant_pool::{ConstantPool, Entry};
use mokapot::jvm::class::BadConstantPoolIndex;
use mokapot::jvm::code::{LocalVariableId, LocalVariableTable, ProgramCounter};
use mokapot::jvm::JavaString;
use mokapot::types::{FieldType, PrimitiveType};

fn id(start: u16, end: u16, index: u16) -> LocalVariableId {
    LocalVariableId { effective_range: Range { start: ProgramCounter::new(start), end: ProgramCounter::new(end) }, index }
}

#[test]
fn local_variable_names_must_agree() {
    let mut table = LocalVariableTable::new();
    table.merge_type(id(0, 10, 1), "x".to_owned(), FieldType::Base(PrimitiveType::Int)).unwrap();
    table.merge_signature(id(0, 10, 1), "x".to_owned(), "TT;".to_owned()).unwrap();
    let e = table.merge_type(id(0, 10, 1), "y".to_owned(), FieldType::Base(PrimitiveType::Long)).unwrap_err();
    assert_eq!(e.kind(), ParsingErrorKind::Malformed);
    assert_eq!(e.message(), "Name of local variable does not match");
    table.merge_signature(id(0, 11, 1), "y".to_owned(), "TU;".to_owned()).unwrap();
}

#[test]
fn constant_pool_slots() {
    let pool = ConstantPool::from_entries(vec![
        Entry::Long(5),
        Entry::Utf8(JavaString::Utf8("a".to_owned())),
        Entry::Double(0),
        Entry::Integer(3),
    ]);
    assert!(matches!(pool.get_entry(1), Ok(Entry::Long(5))));
    assert_eq!(pool.get_entry(2).unwrap_err(), BadConstantPoolIndex(2));
    assert!(matches!(pool.get_entry(3), Ok(Entry::Utf8(_))));
    assert!(matches!(pool.get_entry(6), Ok(Entry::Integer(3))));
    assert_eq!(pool.get_entry(0).unwrap_err(), BadConstantPoolIndex(0));
    assert_eq!(pool.get_entry(7).unwrap_err(), BadConstantPoolIndex(7));
    assert_eq!(Entry::Float(0).constant_kind(), "CONSTANT_Float");
    assert_eq!(Entry::InterfaceMethodRef { class_index: 1, name_and_type_index: 2 }.constant_kind(), "CONSTANT_InterfaceMethodref");
}
