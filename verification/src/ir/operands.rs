//! The arguments that occur in the expressions and instructions of Moka IR, each listed where
//! it is written, and the laws that tie the identifiers an instruction uses to them.
use vstd::prelude::*;

use crate::ir::expression::array::ids_of_all;
use crate::ir::expression::{
    ArrayOperation, Condition, ConversionOperation, Expression, FieldAccess, LockOperation, MathOperation,
};
use crate::ir::moka_instruction::{Argument, Identifier, MokaInstruction};

verus! {

/// The arguments of a condition, left to right.
pub open spec fn condition_arguments(c: Condition) -> Seq<Argument> {
    match c {
        Condition::Equal(a, b) => seq![a, b],
        Condition::NotEqual(a, b) => seq![a, b],
        Condition::LessThan(a, b) => seq![a, b],
        Condition::LessThanOrEqual(a, b) => seq![a, b],
        Condition::GreaterThan(a, b) => seq![a, b],
        Condition::GreaterThanOrEqual(a, b) => seq![a, b],
        Condition::IsNull(a) => seq![a],
        Condition::IsNotNull(a) => seq![a],
        Condition::IsZero(a) => seq![a],
        Condition::IsNonZero(a) => seq![a],
        Condition::IsPositive(a) => seq![a],
        Condition::IsNegative(a) => seq![a],
        Condition::IsNonNegative(a) => seq![a],
        Condition::IsNonPositive(a) => seq![a],
    }
}

/// The arguments of an arithmetic operation, left to right.
pub open spec fn math_arguments(m: MathOperation) -> Seq<Argument> {
    match m {
        MathOperation::Add(a, b) => seq![a, b],
        MathOperation::Subtract(a, b) => seq![a, b],
        MathOperation::Multiply(a, b) => seq![a, b],
        MathOperation::Divide(a, b) => seq![a, b],
        MathOperation::Remainder(a, b) => seq![a, b],
        MathOperation::ShiftLeft(a, b) => seq![a, b],
        MathOperation::ShiftRight(a, b) => seq![a, b],
        MathOperation::LogicalShiftRight(a, b) => seq![a, b],
        MathOperation::BitwiseAnd(a, b) => seq![a, b],
        MathOperation::BitwiseOr(a, b) => seq![a, b],
        MathOperation::BitwiseXor(a, b) => seq![a, b],
        MathOperation::LongComparison(a, b) => seq![a, b],
        MathOperation::FloatingPointComparison(a, b, _) => seq![a, b],
        MathOperation::Negate(a) => seq![a],
        MathOperation::Increment(a, _) => seq![a],
    }
}

/// The arguments of an operation on an array, left to right.
pub open spec fn array_arguments(a: ArrayOperation) -> Seq<Argument> {
    match a {
        ArrayOperation::New { length, .. } => seq![length],
        ArrayOperation::NewMultiDim { dimensions, .. } => dimensions@,
        ArrayOperation::Read { array_ref, index } => seq![array_ref, index],
        ArrayOperation::Write { array_ref, index, value } => seq![array_ref, index, value],
        ArrayOperation::Length { array_ref } => seq![array_ref],
    }
}

/// The arguments of an access to a field: the object and the value written, where there are.
pub open spec fn field_arguments(f: FieldAccess) -> Seq<Argument> {
    match f {
        FieldAccess::ReadStatic { .. } => seq![],
        FieldAccess::WriteStatic { value, .. } => seq![value],
        FieldAccess::ReadInstance { object_ref, .. } => seq![object_ref],
        FieldAccess::WriteInstance { object_ref, value, .. } => seq![object_ref, value],
    }
}

/// The argument of a conversion.
pub open spec fn conversion_arguments(c: ConversionOperation) -> Seq<Argument> {
    match c {
        ConversionOperation::Int2Long(a) => seq![a],
        ConversionOperation::Int2Float(a) => seq![a],
        ConversionOperation::Int2Double(a) => seq![a],
        ConversionOperation::Long2Int(a) => seq![a],
        ConversionOperation::Long2Float(a) => seq![a],
        ConversionOperation::Long2Double(a) => seq![a],
        ConversionOperation::Float2Int(a) => seq![a],
        ConversionOperation::Float2Long(a) => seq![a],
        ConversionOperation::Float2Double(a) => seq![a],
        ConversionOperation::Double2Int(a) => seq![a],
        ConversionOperation::Double2Long(a) => seq![a],
        ConversionOperation::Double2Float(a) => seq![a],
        ConversionOperation::Int2Byte(a) => seq![a],
        ConversionOperation::Int2Char(a) => seq![a],
        ConversionOperation::Int2Short(a) => seq![a],
        ConversionOperation::CheckCast(a, _) => seq![a],
        ConversionOperation::InstanceOf(a, _) => seq![a],
    }
}

/// The argument of an operation on a monitor.
pub open spec fn lock_arguments(l: LockOperation) -> Seq<Argument> {
    match l {
        LockOperation::Acquire(a) => seq![a],
        LockOperation::Release(a) => seq![a],
    }
}

/// The arguments of an expression, left to right: the receiver of a call comes before the
/// arguments of the call.
pub open spec fn expression_arguments(e: Expression) -> Seq<Argument> {
    match e {
        Expression::Call { this: Some(t), args, .. } => seq![t] + args@,
        Expression::Call { this: None, args, .. } => args@,
        Expression::Closure { captures, .. } => captures@,
        Expression::Math(m) => math_arguments(m),
        Expression::Field(f) => field_arguments(f),
        Expression::Array(a) => array_arguments(a),
        Expression::Conversion(c) => conversion_arguments(c),
        Expression::Throw(a) => seq![a],
        Expression::Synchronization(l) => lock_arguments(l),
        Expression::Const(_) => seq![],
        Expression::New(_) => seq![],
        Expression::Subroutine { .. } => seq![],
    }
}

/// The arguments of an instruction: those of the expression it evaluates, of its jump
/// condition, the value a switch selects on, and the value it returns.
pub open spec fn instruction_arguments(i: MokaInstruction) -> Seq<Argument> {
    match i {
        MokaInstruction::Nop => seq![],
        MokaInstruction::Definition { expr, .. } => expression_arguments(expr),
        MokaInstruction::Jump { condition: Some(c), .. } => condition_arguments(c),
        MokaInstruction::Jump { condition: None, .. } => seq![],
        MokaInstruction::Switch { match_value, .. } => seq![match_value],
        MokaInstruction::Return(Some(a)) => seq![a],
        MokaInstruction::Return(None) => seq![],
        MokaInstruction::SubroutineRet(a) => seq![a],
    }
}

/// The identifiers of a list of arguments are those of its parts.
pub proof fn lemma_ids_of_concat(s: Seq<Argument>, t: Seq<Argument>)
    ensures
        ids_of_all(s + t) == ids_of_all(s).union(ids_of_all(t)),
    decreases t.len(),
{
    if t.len() == 0 {
        assert(s + t =~= s);
        assert(ids_of_all(s).union(Set::<Identifier>::empty()) =~= ids_of_all(s));
    } else {
        lemma_ids_of_concat(s, t.drop_last());
        assert((s + t).drop_last() =~= s + t.drop_last());
        assert((s + t).last() == t.last());
        assert(ids_of_all(s + t) =~= ids_of_all(s).union(ids_of_all(t)));
    }
}

/// The identifiers of a list of one, two or three arguments.
pub proof fn lemma_ids_of_short(a: Argument, b: Argument, c: Argument)
    ensures
        ids_of_all(seq![a]) == a.ids(),
        ids_of_all(seq![a, b]) == a.ids().union(b.ids()),
        ids_of_all(seq![a, b, c]) == a.ids().union(b.ids()).union(c.ids()),
        ids_of_all(Seq::<Argument>::empty()) == Set::<Identifier>::empty(),
{
    assert(ids_of_all(Seq::<Argument>::empty()) == Set::<Identifier>::empty());
    assert(seq![a].drop_last() =~= Seq::<Argument>::empty());
    assert(seq![a].last() == a);
    assert(ids_of_all(seq![a]) == ids_of_all(Seq::<Argument>::empty()).union(a.ids()));
    assert(Set::<Identifier>::empty().union(a.ids()) =~= a.ids());
    assert(seq![a, b].drop_last() =~= seq![a]);
    assert(seq![a, b].last() == b);
    assert(ids_of_all(seq![a, b]) == ids_of_all(seq![a]).union(b.ids()));
    assert(seq![a, b, c].drop_last() =~= seq![a, b]);
    assert(seq![a, b, c].last() == c);
    assert(ids_of_all(seq![a, b, c]) == ids_of_all(seq![a, b]).union(c.ids()));
}

/// A condition uses exactly the identifiers of its arguments.
pub proof fn lemma_condition_uses_its_arguments(c: Condition)
    ensures
        c.used_ids() == ids_of_all(condition_arguments(c)),
{
    match c {
        Condition::Equal(a, b) | Condition::NotEqual(a, b) | Condition::LessThan(a, b)
        | Condition::LessThanOrEqual(a, b) | Condition::GreaterThan(a, b) | Condition::GreaterThanOrEqual(a, b) => {
            lemma_ids_of_short(a, b, b);
        },
        Condition::IsNull(a) | Condition::IsNotNull(a) | Condition::IsZero(a) | Condition::IsNonZero(a)
        | Condition::IsPositive(a) | Condition::IsNegative(a) | Condition::IsNonNegative(a)
        | Condition::IsNonPositive(a) => {
            lemma_ids_of_short(a, a, a);
        },
    }
}

/// An expression uses exactly the identifiers of its arguments.
pub proof fn lemma_expression_uses_its_arguments(e: Expression)
    ensures
        e.used_ids() == ids_of_all(expression_arguments(e)),
{
    match e {
        Expression::Call { this: Some(t), args, .. } => {
            lemma_ids_of_concat(seq![t], args@);
            lemma_ids_of_short(t, t, t);
        },
        Expression::Math(m) => match m {
            MathOperation::Add(a, b) | MathOperation::Subtract(a, b) | MathOperation::Multiply(a, b)
            | MathOperation::Divide(a, b) | MathOperation::Remainder(a, b) | MathOperation::ShiftLeft(a, b)
            | MathOperation::ShiftRight(a, b) | MathOperation::LogicalShiftRight(a, b)
            | MathOperation::BitwiseAnd(a, b) | MathOperation::BitwiseOr(a, b) | MathOperation::BitwiseXor(a, b)
            | MathOperation::LongComparison(a, b) | MathOperation::FloatingPointComparison(a, b, _) => {
                lemma_ids_of_short(a, b, b);
            },
            MathOperation::Negate(a) | MathOperation::Increment(a, _) => {
                lemma_ids_of_short(a, a, a);
            },
        },
        Expression::Field(f) => match f {
            FieldAccess::ReadStatic { .. } => {
                assert(ids_of_all(Seq::<Argument>::empty()) == Set::<Identifier>::empty());
            },
            FieldAccess::WriteStatic { value, .. } => lemma_ids_of_short(value, value, value),
            FieldAccess::ReadInstance { object_ref, .. } => lemma_ids_of_short(object_ref, object_ref, object_ref),
            FieldAccess::WriteInstance { object_ref, value, .. } => lemma_ids_of_short(object_ref, value, value),
        },
        Expression::Array(a) => match a {
            ArrayOperation::New { length, .. } => lemma_ids_of_short(length, length, length),
            ArrayOperation::NewMultiDim { .. } => {},
            ArrayOperation::Read { array_ref, index } => lemma_ids_of_short(array_ref, index, index),
            ArrayOperation::Write { array_ref, index, value } => lemma_ids_of_short(array_ref, index, value),
            ArrayOperation::Length { array_ref } => lemma_ids_of_short(array_ref, array_ref, array_ref),
        },
        Expression::Conversion(c) => {
            let a = c.operand();
            lemma_ids_of_short(a, a, a);
        },
        Expression::Throw(a) => lemma_ids_of_short(a, a, a),
        Expression::Synchronization(l) => {
            let a = l.operand();
            lemma_ids_of_short(a, a, a);
        },
        _ => {
            assert(ids_of_all(Seq::<Argument>::empty()) == Set::<Identifier>::empty());
        },
    }
}

/// An instruction of Moka IR uses exactly the identifiers that occur in its arguments: those
/// of its expression, its jump condition, the value a switch selects on, and the value it
/// returns.
pub proof fn lemma_instruction_uses_its_arguments(i: MokaInstruction)
    ensures
        i.used_ids() == ids_of_all(instruction_arguments(i)),
{
    match i {
        MokaInstruction::Definition { expr, .. } => lemma_expression_uses_its_arguments(expr),
        MokaInstruction::Jump { condition: Some(c), .. } => lemma_condition_uses_its_arguments(c),
        MokaInstruction::Switch { match_value, .. } => lemma_ids_of_short(match_value, match_value, match_value),
        MokaInstruction::Return(Some(a)) => lemma_ids_of_short(a, a, a),
        MokaInstruction::SubroutineRet(a) => lemma_ids_of_short(a, a, a),
        _ => {
            assert(ids_of_all(Seq::<Argument>::empty()) == Set::<Identifier>::empty());
        },
    }
}

/// Every identifier of an argument of an instruction is one that the instruction uses.
pub proof fn lemma_argument_ids_are_used(i: MokaInstruction, k: int, id: Identifier)
    requires
        0 <= k < instruction_arguments(i).len(),
        instruction_arguments(i)[k].ids().contains(id),
    ensures
        i.used_ids().contains(id),
{
    lemma_instruction_uses_its_arguments(i);
    lemma_ids_of_member(instruction_arguments(i), k, id);
}

/// The identifiers of a list of arguments hold those of each argument.
pub proof fn lemma_ids_of_member(s: Seq<Argument>, k: int, id: Identifier)
    requires
        0 <= k < s.len(),
        s[k].ids().contains(id),
    ensures
        ids_of_all(s).contains(id),
    decreases s.len(),
{
    if k < s.len() - 1 {
        lemma_ids_of_member(s.drop_last(), k, id);
    }
}

} // verus!
