//! The conditions of conditional branches: the jump that a branch becomes tests what the JVM
//! tests.
use vstd::prelude::*;

use crate::ir::control_flow::path_condition::jump_condition_holds;
use crate::ir::generator::execution::ir_of;
use crate::ir::moka_instruction::{Argument, LocalValue, MokaInstruction};
use crate::jvm::code::instruction::opcode_of;
use crate::jvm::code::Instruction;

verus! {

/// Whether the conditional branch with opcode `op` jumps, as the JVM specification defines it
/// (chapter 6, `if<cond>`, `if_icmp<cond>`, `if_acmp<cond>`, `ifnull`, `ifnonnull`): `top` is
/// the value on top of the operand stack, `below` the one under it, and `top_is_null` whether
/// the reference on top is null.
pub open spec fn jvm_branch_taken(op: u8, below: int, top: int, top_is_null: bool) -> bool {
    if op == 0x99 {
        top == 0
    } else if op == 0x9a {
        top != 0
    } else if op == 0x9b {
        top < 0
    } else if op == 0x9c {
        top >= 0
    } else if op == 0x9d {
        top > 0
    } else if op == 0x9e {
        top <= 0
    } else if op == 0x9f || op == 0xa5 {
        below == top
    } else if op == 0xa0 || op == 0xa6 {
        below != top
    } else if op == 0xa1 {
        below < top
    } else if op == 0xa2 {
        below >= top
    } else if op == 0xa3 {
        below > top
    } else if op == 0xa4 {
        below <= top
    } else if op == 0xc6 {
        top_is_null
    } else {
        !top_is_null
    }
}

/// Whether an instruction is a conditional branch.
pub open spec fn is_conditional_branch(i: Instruction) -> bool {
    (0x99 <= opcode_of(i) <= 0xa6) || opcode_of(i) == 0xc6 || opcode_of(i) == 0xc7
}

/// A conditional branch becomes a jump whose condition holds exactly when the JVM takes the
/// branch, for every reading of the popped values: the arguments are given in the order they
/// were popped, the top of the stack first.
pub proof fn lemma_branch_condition_is_jvm_test(
    i: Instruction,
    def: LocalValue,
    args: Seq<Argument>,
    num: spec_fn(Argument) -> int,
    null: spec_fn(Argument) -> bool,
)
    requires
        is_conditional_branch(i),
        args.len() >= 2,
    ensures
        ir_of(i, def, args) matches MokaInstruction::Jump { condition: Some(c), .. } && jump_condition_holds(c, num, null)
            == jvm_branch_taken(opcode_of(i), num(args[1]), num(args[0]), null(args[0])),
{
}

} // verus!
