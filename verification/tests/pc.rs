use mokapot::jvm::code::{InvalidOffset, ProgramCounter};

#[test]
fn test_entry_point() {
    assert!(ProgramCounter::zero().is_entry_point());
    assert!(!ProgramCounter::from(1).is_entry_point());
}

#[test]
fn test_offset() {
    let pc = ProgramCounter::from(10);
    assert_eq!(pc + 5, Ok(ProgramCounter::from(15)));
    assert_eq!(pc + -5, Ok(ProgramCounter::from(5)));
    assert_eq!(pc + i32::MAX, Err(InvalidOffset));
}

#[test]
fn test_offset_i16() {
    let pc = ProgramCounter::from(u16::MAX - 10);
    assert_eq!(pc + 5i16, Ok(ProgramCounter::from(u16::MAX - 5)));
    assert_eq!(pc + -5i16, Ok(ProgramCounter::from(u16::MAX - 15)));
    assert_eq!(pc + i16::MAX, Err(InvalidOffset));
}

#[test]
fn test_default() {
    assert_eq!(ProgramCounter::default(), ProgramCounter::from(0));
}

#[test]
fn pc_test_display() {
    let pc = ProgramCounter::from(10);
    assert_eq!(pc.to_string(), "#000A");
}

#[test]
fn offset_methods_agree_with_operator() {
    let pc = ProgramCounter::from(100);
    assert_eq!(pc.offset(-100), Ok(ProgramCounter::zero()));
    assert_eq!(pc.offset(-101), Err(InvalidOffset));
    assert_eq!(pc.offset_i16(-1), Ok(ProgramCounter::from(99)));
    assert_eq!(pc + 65435u16, Ok(ProgramCounter::from(u16::MAX)));
    assert_eq!(pc + 65436u16, Err(InvalidOffset));
    assert_eq!(pc.into(), 100u16);
    assert_eq!(u16::from(pc), 100);
}

#[test]
fn display_uses_four_upper_case_hex_digits() {
    assert_eq!(ProgramCounter::from(0).to_string(), "#0000");
    assert_eq!(ProgramCounter::from(0xBEEF).to_string(), "#BEEF");
    assert_eq!(ProgramCounter::from(u16::MAX).to_string(), "#FFFF");
}
