//! The executable code of JVM methods.

pub mod instruction;
pub mod method_body;
pub mod pc;
pub mod raw_instruction;

pub use instruction::{Instruction, WideInstruction};
pub use method_body::{
    ExceptionTableEntry, InstructionList, LineNumberTableEntry, LocalVariableId, LocalVariableTable,
    LocalVariableTableEntry, MethodBody, StackMapFrame, VerificationTypeInfo,
};
pub use pc::{InvalidOffset, ProgramCounter};
pub use raw_instruction::{RawInstruction, RawWideInstruction};
