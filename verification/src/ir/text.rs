//! The text of Moka IR: how identifiers, arguments, expressions and instructions are shown.
//!
//! Constants of floating-point types are not shown; the functions here show every other
//! part of the language, and state in their `requires` which expressions they show.
use vstd::prelude::*;

use crate::ir::expression::{
    ArrayOperation, Condition, ConversionOperation, Expression, FieldAccess, LockOperation, MathOperation,
    NaNTreatment,
};
use crate::ir::moka_instruction::{Argument, Identifier, LocalValue, MokaInstruction};
use crate::jvm::code::instruction::{decimal, push_i64};
use crate::ir::control_flow::path_condition::jump_condition_holds;
use crate::jvm::code::pc::{pc_text, ProgramCounter};
use crate::jvm::text::{
    constant_shown, constant_text, field_ref_text, field_type_text, method_ref_text, push_constant, push_field_ref_text,
    push_field_type_text, push_method_ref_text, push_return_type_text, return_type_text,
};

verus! {

/// The text of a local value: `%` and its number.
pub open spec fn local_value_text(v: LocalValue) -> Seq<char> {
    "%"@ + decimal(v@ as int)
}

/// The text of an identifier.
pub open spec fn identifier_text(id: Identifier) -> Seq<char> {
    match id {
        Identifier::This => "%this"@,
        Identifier::Arg(n) => "%arg"@ + decimal(n as int),
        Identifier::Local(v) => local_value_text(v),
        Identifier::CaughtException => "%caught_exception"@,
    }
}

/// The texts of identifiers, separated by `, `.
pub open spec fn identifiers_text(ids: Seq<Identifier>) -> Seq<char>
    decreases ids.len(),
{
    if ids.len() == 0 {
        Seq::empty()
    } else if ids.len() == 1 {
        identifier_text(ids[0])
    } else {
        identifiers_text(ids.drop_last()) + ", "@ + identifier_text(ids.last())
    }
}

/// The text of an argument: the identifier, or `Phi(..)` with the identifiers it merges in
/// increasing order.
pub open spec fn argument_text(a: Argument) -> Seq<char> {
    match a {
        Argument::Id(id) => identifier_text(id),
        Argument::Phi(ids) => "Phi("@ + identifiers_text(ids.elements()) + ")"@,
    }
}

/// The texts of arguments, separated by `sep`.
pub open spec fn arguments_text(args: Seq<Argument>, sep: Seq<char>) -> Seq<char>
    decreases args.len(),
{
    if args.len() == 0 {
        Seq::empty()
    } else if args.len() == 1 {
        argument_text(args[0])
    } else {
        arguments_text(args.drop_last(), sep) + sep + argument_text(args.last())
    }
}

/// The text of two arguments around an operator.
pub open spec fn infix_text(a: Argument, op: Seq<char>, b: Argument) -> Seq<char> {
    argument_text(a) + op + argument_text(b)
}

/// The text of a condition.
pub open spec fn condition_text(c: Condition) -> Seq<char> {
    match c {
        Condition::Equal(a, b) => infix_text(a, " == "@, b),
        Condition::NotEqual(a, b) => infix_text(a, " != "@, b),
        Condition::LessThan(a, b) => infix_text(a, " < "@, b),
        Condition::LessThanOrEqual(a, b) => infix_text(a, " <= "@, b),
        Condition::GreaterThan(a, b) => infix_text(a, " > "@, b),
        Condition::GreaterThanOrEqual(a, b) => infix_text(a, " >= "@, b),
        Condition::IsNull(a) => argument_text(a) + " == null"@,
        Condition::IsNotNull(a) => argument_text(a) + " != null"@,
        Condition::IsZero(a) => argument_text(a) + " == 0"@,
        Condition::IsNonZero(a) => argument_text(a) + " != 0"@,
        Condition::IsPositive(a) => argument_text(a) + " > 0"@,
        Condition::IsNegative(a) => argument_text(a) + " < 0"@,
        Condition::IsNonNegative(a) => argument_text(a) + " >= 0"@,
        Condition::IsNonPositive(a) => argument_text(a) + " <= 0"@,
    }
}

/// The text of how a comparison of floating-point values treats NaN.
pub open spec fn nan_treatment_text(t: NaNTreatment) -> Seq<char> {
    match t {
        NaNTreatment::IsLargest => "NaN == Max"@,
        NaNTreatment::IsSmallest => "NaN == Min"@,
    }
}

/// The text of a mathematical operation.
pub open spec fn math_text(m: MathOperation) -> Seq<char> {
    match m {
        MathOperation::Add(a, b) => infix_text(a, " + "@, b),
        MathOperation::Subtract(a, b) => infix_text(a, " - "@, b),
        MathOperation::Multiply(a, b) => infix_text(a, " * "@, b),
        MathOperation::Divide(a, b) => infix_text(a, " / "@, b),
        MathOperation::Remainder(a, b) => infix_text(a, " mod "@, b),
        MathOperation::Negate(a) => "-"@ + argument_text(a),
        MathOperation::Increment(a, k) => argument_text(a) + " + "@ + decimal(k as int),
        MathOperation::ShiftLeft(a, b) => infix_text(a, " << "@, b),
        MathOperation::ShiftRight(a, b) => infix_text(a, " >> "@, b),
        MathOperation::LogicalShiftRight(a, b) => infix_text(a, " >>> "@, b),
        MathOperation::BitwiseAnd(a, b) => infix_text(a, " & "@, b),
        MathOperation::BitwiseOr(a, b) => infix_text(a, " | "@, b),
        MathOperation::BitwiseXor(a, b) => infix_text(a, " ^ "@, b),
        MathOperation::LongComparison(a, b) => "cmp("@ + infix_text(a, ", "@, b) + ")"@,
        MathOperation::FloatingPointComparison(a, b, t) => "cmp("@ + infix_text(a, ", "@, b) + ") "@
            + nan_treatment_text(t),
    }
}

/// Appends the text of an identifier.
fn push_identifier(s: &mut String, id: &Identifier)
    ensures
        final(s)@ == old(s)@ + identifier_text(*id),
{
    match id {
        Identifier::This => s.append("%this"),
        Identifier::Arg(n) => {
            s.append("%arg");
            push_i64(s, *n as i64);
            assert(s@ =~= old(s)@ + identifier_text(*id));
        },
        Identifier::Local(v) => {
            s.append("%");
            push_i64(s, v.index() as i64);
            assert(s@ =~= old(s)@ + identifier_text(*id));
        },
        Identifier::CaughtException => s.append("%caught_exception"),
    }
}

/// Appends the text of an argument.
fn push_argument(s: &mut String, a: &Argument)
    ensures
        final(s)@ == old(s)@ + argument_text(*a),
{
    match a {
        Argument::Id(id) => push_identifier(s, id),
        Argument::Phi(ids) => {
            let v = ids.to_vec();
            s.append("Phi(");
            let ghost head = s@;
            let mut k: usize = 0;
            assert(identifiers_text(v@.take(0)) == Seq::<char>::empty());
            assert(s@ =~= head + identifiers_text(v@.take(0)));
            while k < v.len()
                invariant
                    k <= v@.len(),
                    s@ == head + identifiers_text(v@.take(k as int)),
                decreases v@.len() - k,
            {
                let ghost before = v@.take(k as int);
                if k > 0 {
                    s.append(", ");
                }
                push_identifier(s, &v[k]);
                proof {
                    let after = v@.take(k + 1);
                    assert(after.drop_last() =~= before);
                    assert(after.last() == v@[k as int]);
                    if k == 0 {
                        assert(after =~= seq![v@[0]]);
                    }
                }
                assert(s@ =~= head + identifiers_text(v@.take(k + 1)));
                k = k + 1;
            }
            assert(v@.take(v@.len() as int) =~= v@);
            s.append(")");
            assert(s@ =~= old(s)@ + argument_text(*a));
        },
    }
}

/// Appends the texts of arguments, separated by `sep`.
fn push_arguments(s: &mut String, args: &Vec<Argument>, sep: &str)
    ensures
        final(s)@ == old(s)@ + arguments_text(args@, sep@),
{
    let ghost head = s@;
    let mut k: usize = 0;
    assert(arguments_text(args@.take(0), sep@) == Seq::<char>::empty());
    assert(s@ =~= head + arguments_text(args@.take(0), sep@));
    while k < args.len()
        invariant
            k <= args@.len(),
            s@ == head + arguments_text(args@.take(k as int), sep@),
        decreases args@.len() - k,
    {
        let ghost before = args@.take(k as int);
        if k > 0 {
            s.append(sep);
        }
        push_argument(s, &args[k]);
        proof {
            let after = args@.take(k + 1);
            assert(after.drop_last() =~= before);
            assert(after.last() == args@[k as int]);
            if k == 0 {
                assert(after =~= seq![args@[0]]);
            }
        }
        assert(s@ =~= head + arguments_text(args@.take(k + 1), sep@));
        k = k + 1;
    }
    assert(args@.take(args@.len() as int) =~= args@);
}

/// Appends the text of two arguments around an operator.
fn push_infix(s: &mut String, a: &Argument, op: &str, b: &Argument)
    ensures
        final(s)@ == old(s)@ + infix_text(*a, op@, *b),
{
    push_argument(s, a);
    s.append(op);
    push_argument(s, b);
    assert(s@ =~= old(s)@ + infix_text(*a, op@, *b));
}

/// Appends the text of an argument followed by a suffix.
fn push_postfix(s: &mut String, a: &Argument, suffix: &str)
    ensures
        final(s)@ == old(s)@ + argument_text(*a) + suffix@,
{
    push_argument(s, a);
    s.append(suffix);
}

/// Appends the text of a condition.
fn push_condition(s: &mut String, c: &Condition)
    ensures
        final(s)@ == old(s)@ + condition_text(*c),
{
    match c {
        Condition::Equal(a, b) => push_infix(s, a, " == ", b),
        Condition::NotEqual(a, b) => push_infix(s, a, " != ", b),
        Condition::LessThan(a, b) => push_infix(s, a, " < ", b),
        Condition::LessThanOrEqual(a, b) => push_infix(s, a, " <= ", b),
        Condition::GreaterThan(a, b) => push_infix(s, a, " > ", b),
        Condition::GreaterThanOrEqual(a, b) => push_infix(s, a, " >= ", b),
        Condition::IsNull(a) => push_postfix(s, a, " == null"),
        Condition::IsNotNull(a) => push_postfix(s, a, " != null"),
        Condition::IsZero(a) => push_postfix(s, a, " == 0"),
        Condition::IsNonZero(a) => push_postfix(s, a, " != 0"),
        Condition::IsPositive(a) => push_postfix(s, a, " > 0"),
        Condition::IsNegative(a) => push_postfix(s, a, " < 0"),
        Condition::IsNonNegative(a) => push_postfix(s, a, " >= 0"),
        Condition::IsNonPositive(a) => push_postfix(s, a, " <= 0"),
    }
}

/// Appends the text of a mathematical operation.
fn push_math(s: &mut String, m: &MathOperation)
    ensures
        final(s)@ == old(s)@ + math_text(*m),
{
    match m {
        MathOperation::Add(a, b) => push_infix(s, a, " + ", b),
        MathOperation::Subtract(a, b) => push_infix(s, a, " - ", b),
        MathOperation::Multiply(a, b) => push_infix(s, a, " * ", b),
        MathOperation::Divide(a, b) => push_infix(s, a, " / ", b),
        MathOperation::Remainder(a, b) => push_infix(s, a, " mod ", b),
        MathOperation::Negate(a) => {
            s.append("-");
            push_argument(s, a);
            assert(s@ =~= old(s)@ + math_text(*m));
        },
        MathOperation::Increment(a, k) => {
            push_argument(s, a);
            s.append(" + ");
            push_i64(s, *k as i64);
            assert(s@ =~= old(s)@ + math_text(*m));
        },
        MathOperation::ShiftLeft(a, b) => push_infix(s, a, " << ", b),
        MathOperation::ShiftRight(a, b) => push_infix(s, a, " >> ", b),
        MathOperation::LogicalShiftRight(a, b) => push_infix(s, a, " >>> ", b),
        MathOperation::BitwiseAnd(a, b) => push_infix(s, a, " & ", b),
        MathOperation::BitwiseOr(a, b) => push_infix(s, a, " | ", b),
        MathOperation::BitwiseXor(a, b) => push_infix(s, a, " ^ ", b),
        MathOperation::LongComparison(a, b) => {
            s.append("cmp(");
            push_infix(s, a, ", ", b);
            s.append(")");
            assert(s@ =~= old(s)@ + math_text(*m));
        },
        MathOperation::FloatingPointComparison(a, b, t) => {
            s.append("cmp(");
            push_infix(s, a, ", ", b);
            s.append(") ");
            match t {
                NaNTreatment::IsLargest => s.append("NaN == Max"),
                NaNTreatment::IsSmallest => s.append("NaN == Min"),
            }
            assert(s@ =~= old(s)@ + math_text(*m));
        },
    }
}

impl LocalValue {
    /// The text of the local value: `%` and its number.
    pub fn to_string(&self) -> (r: String)
        ensures
            r@ == local_value_text(*self),
    {
        let mut s = String::new();
        s.append("%");
        push_i64(&mut s, self.index() as i64);
        s
    }
}

impl Identifier {
    /// The text of the identifier: `%this`, `%arg` and the index of an argument, the text of a
    /// local value, or `%caught_exception`.
    pub fn to_string(&self) -> (r: String)
        ensures
            r@ == identifier_text(*self),
    {
        let mut s = String::new();
        push_identifier(&mut s, self);
        s
    }
}

impl Argument {
    /// The text of the argument.
    pub fn to_string(&self) -> (r: String)
        ensures
            r@ == argument_text(*self),
    {
        let mut s = String::new();
        push_argument(&mut s, self);
        s
    }
}

/// What a comparison operator, with the spaces around it, says of two numbers.
#[verifier::opaque]
pub open spec fn operator_holds(op: Seq<char>, x: int, y: int) -> bool {
    if op == " == "@ {
        x == y
    } else if op == " != "@ {
        x != y
    } else if op == " < "@ {
        x < y
    } else if op == " <= "@ {
        x <= y
    } else if op == " > "@ {
        x > y
    } else if op == " >= "@ {
        x >= y
    } else {
        false
    }
}

/// What a comparison operator, with the spaces around it, says of a value compared with
/// `null`: `==` that it is null, `!=` that it is not.
#[verifier::opaque]
pub open spec fn null_operator_holds(op: Seq<char>, is_null: bool) -> bool {
    if op == " == "@ {
        is_null
    } else if op == " != "@ {
        !is_null
    } else {
        false
    }
}

/// Whether `text` is `left`, an operator and `right`, with an operator that says of `x` and
/// `y` exactly `holds`.
pub open spec fn states_comparison(text: Seq<char>, left: Seq<char>, right: Seq<char>, x: int, y: int, holds: bool) -> bool {
    exists|op: Seq<char>| #![trigger operator_holds(op, x, y)] text == left + op + right && operator_holds(op, x, y) == holds
}

/// Whether `text` is `left`, an operator and `null`, with an operator that says of a value
/// whose nullness is `is_null` exactly `holds`.
pub open spec fn states_null_check(text: Seq<char>, left: Seq<char>, is_null: bool, holds: bool) -> bool {
    exists|op: Seq<char>| #![trigger null_operator_holds(op, is_null)] text == left + op + "null"@ && null_operator_holds(op, is_null) == holds
}

/// Whether the text of a condition is its left argument, an operator and its right side
/// (an argument, `0` or `null`), with an operator that says what the condition means: it
/// holds exactly when the condition does under the reading `num` and `null`.
pub open spec fn text_states_condition(
    c: Condition,
    num: spec_fn(Argument) -> int,
    null: spec_fn(Argument) -> bool,
) -> bool {
    match c {
        Condition::Equal(a, b) | Condition::NotEqual(a, b) | Condition::LessThan(a, b)
        | Condition::LessThanOrEqual(a, b) | Condition::GreaterThan(a, b) | Condition::GreaterThanOrEqual(a, b) => states_comparison(
            condition_text(c),
            argument_text(a),
            argument_text(b),
            num(a),
            num(b),
            jump_condition_holds(c, num, null),
        ),
        Condition::IsZero(a) | Condition::IsNonZero(a) | Condition::IsPositive(a) | Condition::IsNegative(a)
        | Condition::IsNonNegative(a) | Condition::IsNonPositive(a) => states_comparison(
            condition_text(c),
            argument_text(a),
            "0"@,
            num(a),
            0,
            jump_condition_holds(c, num, null),
        ),
        Condition::IsNull(a) | Condition::IsNotNull(a) => states_null_check(
            condition_text(c),
            argument_text(a),
            null(a),
            jump_condition_holds(c, num, null),
        ),
    }
}

/// The six comparison operators are different texts.
proof fn lemma_operators_distinct()
    ensures
        " == "@ != " != "@,
        " == "@ != " < "@,
        " == "@ != " <= "@,
        " == "@ != " > "@,
        " == "@ != " >= "@,
        " != "@ != " < "@,
        " != "@ != " <= "@,
        " != "@ != " > "@,
        " != "@ != " >= "@,
        " < "@ != " <= "@,
        " < "@ != " > "@,
        " < "@ != " >= "@,
        " <= "@ != " > "@,
        " <= "@ != " >= "@,
        " > "@ != " >= "@,
{
    reveal_strlit(" == ");
    reveal_strlit(" != ");
    reveal_strlit(" < ");
    reveal_strlit(" <= ");
    reveal_strlit(" > ");
    reveal_strlit(" >= ");
    assert(" == "@.len() == 4 && " != "@.len() == 4 && " <= "@.len() == 4 && " >= "@.len() == 4);
    assert(" < "@.len() == 3 && " > "@.len() == 3);
    assert(" == "@[1] == '=' && " != "@[1] == '!' && " <= "@[1] == '<' && " >= "@[1] == '>');
    assert(" < "@[1] == '<' && " > "@[1] == '>');
}

/// The text of every condition names the comparison it makes: its operator means, of the
/// numbers (or nullness) of its sides, exactly what the condition tests.
pub proof fn lemma_condition_text_states_condition(
    c: Condition,
    num: spec_fn(Argument) -> int,
    null: spec_fn(Argument) -> bool,
)
    ensures
        text_states_condition(c, num, null),
{
    lemma_operators_distinct();
    reveal(operator_holds);
    reveal(null_operator_holds);
    match c {
        Condition::Equal(a, b) => {
            assert(operator_holds(" == "@, num(a), num(b)) == jump_condition_holds(c, num, null));
        },
        Condition::NotEqual(a, b) => {
            assert(operator_holds(" != "@, num(a), num(b)) == jump_condition_holds(c, num, null));
        },
        Condition::LessThan(a, b) => {
            assert(operator_holds(" < "@, num(a), num(b)) == jump_condition_holds(c, num, null));
        },
        Condition::LessThanOrEqual(a, b) => {
            assert(operator_holds(" <= "@, num(a), num(b)) == jump_condition_holds(c, num, null));
        },
        Condition::GreaterThan(a, b) => {
            assert(operator_holds(" > "@, num(a), num(b)) == jump_condition_holds(c, num, null));
        },
        Condition::GreaterThanOrEqual(a, b) => {
            assert(operator_holds(" >= "@, num(a), num(b)) == jump_condition_holds(c, num, null));
        },
        Condition::IsZero(a) => {
            assert(condition_text(c) =~= argument_text(a) + " == "@ + "0"@) by {
                reveal_strlit(" == 0");
                reveal_strlit(" == ");
                reveal_strlit("0");
            }
            assert(operator_holds(" == "@, num(a), 0) == jump_condition_holds(c, num, null));
        },
        Condition::IsNonZero(a) => {
            assert(condition_text(c) =~= argument_text(a) + " != "@ + "0"@) by {
                reveal_strlit(" != 0");
                reveal_strlit(" != ");
                reveal_strlit("0");
            }
            assert(operator_holds(" != "@, num(a), 0) == jump_condition_holds(c, num, null));
        },
        Condition::IsPositive(a) => {
            assert(condition_text(c) =~= argument_text(a) + " > "@ + "0"@) by {
                reveal_strlit(" > 0");
                reveal_strlit(" > ");
                reveal_strlit("0");
            }
            assert(operator_holds(" > "@, num(a), 0) == jump_condition_holds(c, num, null));
        },
        Condition::IsNegative(a) => {
            assert(condition_text(c) =~= argument_text(a) + " < "@ + "0"@) by {
                reveal_strlit(" < 0");
                reveal_strlit(" < ");
                reveal_strlit("0");
            }
            assert(operator_holds(" < "@, num(a), 0) == jump_condition_holds(c, num, null));
        },
        Condition::IsNonNegative(a) => {
            assert(condition_text(c) =~= argument_text(a) + " >= "@ + "0"@) by {
                reveal_strlit(" >= 0");
                reveal_strlit(" >= ");
                reveal_strlit("0");
            }
            assert(operator_holds(" >= "@, num(a), 0) == jump_condition_holds(c, num, null));
        },
        Condition::IsNonPositive(a) => {
            assert(condition_text(c) =~= argument_text(a) + " <= "@ + "0"@) by {
                reveal_strlit(" <= 0");
                reveal_strlit(" <= ");
                reveal_strlit("0");
            }
            assert(operator_holds(" <= "@, num(a), 0) == jump_condition_holds(c, num, null));
        },
        Condition::IsNull(a) => {
            assert(condition_text(c) =~= argument_text(a) + " == "@ + "null"@) by {
                reveal_strlit(" == null");
                reveal_strlit(" == ");
                reveal_strlit("null");
            }
            assert(null_operator_holds(" == "@, null(a)) == jump_condition_holds(c, num, null));
        },
        Condition::IsNotNull(a) => {
            assert(condition_text(c) =~= argument_text(a) + " != "@ + "null"@) by {
                reveal_strlit(" != null");
                reveal_strlit(" != ");
                reveal_strlit("null");
            }
            assert(null_operator_holds(" != "@, null(a)) == jump_condition_holds(c, num, null));
        },
    }
}

impl Condition {
    /// The text of the condition.
    pub fn to_string(&self) -> (r: String)
        ensures
            r@ == condition_text(*self),
            forall|num: spec_fn(Argument) -> int, null: spec_fn(Argument) -> bool|
                #[trigger] text_states_condition(*self, num, null),
    {
        let mut s = String::new();
        push_condition(&mut s, self);
        proof {
            assert forall|num: spec_fn(Argument) -> int, null: spec_fn(Argument) -> bool|
                #[trigger] text_states_condition(*self, num, null) by {
                lemma_condition_text_states_condition(*self, num, null);
            }
        }
        s
    }
}

impl MathOperation {
    /// The text of the operation.
    pub fn to_string(&self) -> (r: String)
        ensures
            r@ == math_text(*self),
    {
        let mut s = String::new();
        push_math(&mut s, self);
        s
    }
}

/// The text of a conversion.
pub open spec fn conversion_text(c: ConversionOperation) -> Seq<char> {
    match c {
        ConversionOperation::Int2Long(a) => argument_text(a) + " as long"@,
        ConversionOperation::Int2Float(a) => argument_text(a) + " as float"@,
        ConversionOperation::Int2Double(a) => argument_text(a) + " as double"@,
        ConversionOperation::Long2Int(a) => argument_text(a) + " as int"@,
        ConversionOperation::Long2Float(a) => argument_text(a) + " as float"@,
        ConversionOperation::Long2Double(a) => argument_text(a) + " as double"@,
        ConversionOperation::Float2Int(a) => argument_text(a) + " as int"@,
        ConversionOperation::Float2Long(a) => argument_text(a) + " as long"@,
        ConversionOperation::Float2Double(a) => argument_text(a) + " as double"@,
        ConversionOperation::Double2Int(a) => argument_text(a) + " as int"@,
        ConversionOperation::Double2Long(a) => argument_text(a) + " as long"@,
        ConversionOperation::Double2Float(a) => argument_text(a) + " as float"@,
        ConversionOperation::Int2Byte(a) => argument_text(a) + " as byte"@,
        ConversionOperation::Int2Char(a) => argument_text(a) + " as char"@,
        ConversionOperation::Int2Short(a) => argument_text(a) + " as short"@,
        ConversionOperation::CheckCast(a, t) => argument_text(a) + " as "@ + field_type_text(t),
        ConversionOperation::InstanceOf(a, t) => argument_text(a) + " is "@ + field_type_text(t),
    }
}

/// The text of an operation on an array.
pub open spec fn array_text(a: ArrayOperation) -> Seq<char> {
    match a {
        ArrayOperation::Read { array_ref, index } => argument_text(array_ref) + "["@ + argument_text(index) + "]"@,
        ArrayOperation::Write { array_ref, index, value } => argument_text(array_ref) + "["@ + argument_text(index) + "] = "@
            + argument_text(value),
        ArrayOperation::Length { array_ref } => "array_len("@ + argument_text(array_ref) + ")"@,
        ArrayOperation::New { element_type, length } => "new "@ + field_type_text(element_type) + "["@ + argument_text(
            length,
        ) + "]"@,
        ArrayOperation::NewMultiDim { element_type, dimensions } => "new "@ + field_type_text(element_type) + "["@
            + arguments_text(dimensions@, ", "@) + "]"@,
    }
}

/// The text of an access to a field of an object.
pub open spec fn field_text(f: FieldAccess) -> Seq<char> {
    match f {
        FieldAccess::ReadInstance { object_ref, field } => "read "@ + argument_text(object_ref) + "."@ + field.name@,
        FieldAccess::WriteInstance { object_ref, field, value } => "write "@ + argument_text(object_ref) + "."@
            + field.name@ + ", "@ + argument_text(value),
        FieldAccess::ReadStatic { field } => "read "@ + field_ref_text(field),
        FieldAccess::WriteStatic { field, value } => "write "@ + field_ref_text(field) + ", "@ + argument_text(value),
    }
}

/// The text of an operation on a monitor.
pub open spec fn lock_text(l: LockOperation) -> Seq<char> {
    match l {
        LockOperation::Acquire(a) => "acquire "@ + argument_text(a),
        LockOperation::Release(a) => "release "@ + argument_text(a),
    }
}

/// The text of an expression.
pub open spec fn expression_text(e: Expression) -> Seq<char> {
    match e {
        Expression::Const(c) => constant_text(c),
        Expression::Subroutine { return_address, target } => "subroutine "@ + pc_text(target@) + ", return to "@ + pc_text(
            return_address@,
        ),
        Expression::Field(f) => field_text(f),
        Expression::Array(a) => array_text(a),
        Expression::Math(m) => math_text(m),
        Expression::Throw(a) => "throw "@ + argument_text(a),
        Expression::Synchronization(l) => lock_text(l),
        Expression::New(k) => "new "@ + k.binary_name@,
        Expression::Conversion(c) => conversion_text(c),
        Expression::Call { method, this: None, args } => "call "@ + return_type_text(method.descriptor.return_type)
            + " "@ + method_ref_text(method) + "("@ + arguments_text(args@, ", "@) + ")"@,
        Expression::Call { method, this: Some(receiver), args } => "call "@ + return_type_text(
            method.descriptor.return_type,
        ) + " "@ + argument_text(receiver) + "@"@ + method.owner.binary_name@ + "::"@ + method.name@ + "("@
            + arguments_text(args@, ", "@) + ")"@,
        Expression::Closure { name, captures, bootstrap_method_index, closure_descriptor } => "closure "@
            + return_type_text(closure_descriptor.return_type) + " "@ + name@ + "#"@ + decimal(
            bootstrap_method_index as int,
        ) + "("@ + arguments_text(captures@, ", "@) + ")"@,
    }
}

/// Whether this module shows an expression: all but floating-point constants.
pub open spec fn expression_shown(e: Expression) -> bool {
    e matches Expression::Const(c) ==> constant_shown(c)
}

/// The texts of the branches of a switch: each key and its target, separated by `, `.
pub open spec fn branches_text(bs: Seq<(i32, ProgramCounter)>) -> Seq<char>
    decreases bs.len(),
{
    if bs.len() == 0 {
        Seq::empty()
    } else if bs.len() == 1 {
        decimal(bs[0].0 as int) + " => "@ + pc_text(bs[0].1@)
    } else {
        branches_text(bs.drop_last()) + ", "@ + decimal(bs.last().0 as int) + " => "@ + pc_text(bs.last().1@)
    }
}

/// The text of an instruction of Moka IR. The text of a switch names the default target
/// first, then the targets of the keys after `else =>`.
pub open spec fn instruction_text(i: MokaInstruction) -> Seq<char> {
    match i {
        MokaInstruction::Nop => "nop"@,
        MokaInstruction::Definition { value, expr } => local_value_text(value) + " = "@ + expression_text(expr),
        MokaInstruction::Jump { condition: Some(c), target } => "if "@ + condition_text(c) + " goto "@ + pc_text(target@),
        MokaInstruction::Jump { condition: None, target } => "goto "@ + pc_text(target@),
        MokaInstruction::Switch { match_value, branches, default } => "switch "@ + argument_text(match_value) + " { "@
            + pc_text(default@) + ", else => "@ + branches_text(branches@) + " }"@,
        MokaInstruction::Return(Some(a)) => "return "@ + argument_text(a),
        MokaInstruction::Return(None) => "return"@,
        MokaInstruction::SubroutineRet(a) => "subroutine_ret "@ + argument_text(a),
    }
}

/// Whether this module shows an instruction: all whose expression it shows.
pub open spec fn instruction_shown(i: MokaInstruction) -> bool {
    i matches MokaInstruction::Definition { expr, .. } ==> expression_shown(expr)
}

/// Appends the text of a program counter.
fn push_pc(s: &mut String, pc: ProgramCounter)
    ensures
        final(s)@ == old(s)@ + pc_text(pc@),
{
    let t = pc.to_string();
    s.append(t.as_str());
}

/// Appends the text of a conversion.
fn push_conversion(s: &mut String, c: &ConversionOperation)
    ensures
        final(s)@ == old(s)@ + conversion_text(*c),
{
    match c {
        ConversionOperation::Int2Long(a) => push_postfix(s, a, " as long"),
        ConversionOperation::Int2Float(a) => push_postfix(s, a, " as float"),
        ConversionOperation::Int2Double(a) => push_postfix(s, a, " as double"),
        ConversionOperation::Long2Int(a) => push_postfix(s, a, " as int"),
        ConversionOperation::Long2Float(a) => push_postfix(s, a, " as float"),
        ConversionOperation::Long2Double(a) => push_postfix(s, a, " as double"),
        ConversionOperation::Float2Int(a) => push_postfix(s, a, " as int"),
        ConversionOperation::Float2Long(a) => push_postfix(s, a, " as long"),
        ConversionOperation::Float2Double(a) => push_postfix(s, a, " as double"),
        ConversionOperation::Double2Int(a) => push_postfix(s, a, " as int"),
        ConversionOperation::Double2Long(a) => push_postfix(s, a, " as long"),
        ConversionOperation::Double2Float(a) => push_postfix(s, a, " as float"),
        ConversionOperation::Int2Byte(a) => push_postfix(s, a, " as byte"),
        ConversionOperation::Int2Char(a) => push_postfix(s, a, " as char"),
        ConversionOperation::Int2Short(a) => push_postfix(s, a, " as short"),
        ConversionOperation::CheckCast(a, t) => {
            push_postfix(s, a, " as ");
            push_field_type_text(s, t);
        },
        ConversionOperation::InstanceOf(a, t) => {
            push_postfix(s, a, " is ");
            push_field_type_text(s, t);
        },
    }
    assert(s@ =~= old(s)@ + conversion_text(*c));
}

/// Appends the text of an operation on an array.
fn push_array(s: &mut String, a: &ArrayOperation)
    ensures
        final(s)@ == old(s)@ + array_text(*a),
{
    match a {
        ArrayOperation::Read { array_ref, index } => {
            push_argument(s, array_ref);
            s.append("[");
            push_postfix(s, index, "]");
        },
        ArrayOperation::Write { array_ref, index, value } => {
            push_argument(s, array_ref);
            s.append("[");
            push_postfix(s, index, "] = ");
            push_argument(s, value);
        },
        ArrayOperation::Length { array_ref } => {
            s.append("array_len(");
            push_postfix(s, array_ref, ")");
        },
        ArrayOperation::New { element_type, length } => {
            s.append("new ");
            push_field_type_text(s, element_type);
            s.append("[");
            push_postfix(s, length, "]");
        },
        ArrayOperation::NewMultiDim { element_type, dimensions } => {
            s.append("new ");
            push_field_type_text(s, element_type);
            s.append("[");
            push_arguments(s, dimensions, ", ");
            s.append("]");
        },
    }
    assert(s@ =~= old(s)@ + array_text(*a));
}

/// Appends the text of an access to a field.
fn push_field(s: &mut String, f: &FieldAccess)
    ensures
        final(s)@ == old(s)@ + field_text(*f),
{
    match f {
        FieldAccess::ReadInstance { object_ref, field } => {
            s.append("read ");
            push_postfix(s, object_ref, ".");
            s.append(field.name.as_str());
        },
        FieldAccess::WriteInstance { object_ref, field, value } => {
            s.append("write ");
            push_postfix(s, object_ref, ".");
            s.append(field.name.as_str());
            s.append(", ");
            push_argument(s, value);
        },
        FieldAccess::ReadStatic { field } => {
            s.append("read ");
            push_field_ref_text(s, field);
        },
        FieldAccess::WriteStatic { field, value } => {
            s.append("write ");
            push_field_ref_text(s, field);
            s.append(", ");
            push_argument(s, value);
        },
    }
    assert(s@ =~= old(s)@ + field_text(*f));
}

/// Appends the text of an operation on a monitor.
fn push_lock(s: &mut String, l: &LockOperation)
    ensures
        final(s)@ == old(s)@ + lock_text(*l),
{
    match l {
        LockOperation::Acquire(a) => s.append("acquire "),
        LockOperation::Release(a) => s.append("release "),
    }
    match l {
        LockOperation::Acquire(a) => push_argument(s, a),
        LockOperation::Release(a) => push_argument(s, a),
    }
    assert(s@ =~= old(s)@ + lock_text(*l));
}

/// Appends the text of an expression that this module shows.
fn push_expression(s: &mut String, e: &Expression)
    requires
        expression_shown(*e),
    ensures
        final(s)@ == old(s)@ + expression_text(*e),
{
    match e {
        Expression::Const(c) => push_constant(s, c),
        Expression::Subroutine { return_address, target } => {
            s.append("subroutine ");
            push_pc(s, *target);
            s.append(", return to ");
            push_pc(s, *return_address);
        },
        Expression::Field(f) => push_field(s, f),
        Expression::Array(a) => push_array(s, a),
        Expression::Math(m) => push_math(s, m),
        Expression::Throw(a) => {
            s.append("throw ");
            push_argument(s, a);
        },
        Expression::Synchronization(l) => push_lock(s, l),
        Expression::New(k) => {
            s.append("new ");
            s.append(k.binary_name.as_str());
        },
        Expression::Conversion(c) => push_conversion(s, c),
        Expression::Call { method, this: None, args } => {
            s.append("call ");
            push_return_type_text(s, &method.descriptor.return_type);
            s.append(" ");
            push_method_ref_text(s, method);
            s.append("(");
            push_arguments(s, args, ", ");
            s.append(")");
        },
        Expression::Call { method, this: Some(receiver), args } => {
            s.append("call ");
            push_return_type_text(s, &method.descriptor.return_type);
            s.append(" ");
            push_postfix(s, receiver, "@");
            s.append(method.owner.binary_name.as_str());
            s.append("::");
            s.append(method.name.as_str());
            s.append("(");
            push_arguments(s, args, ", ");
            s.append(")");
        },
        Expression::Closure { name, captures, bootstrap_method_index, closure_descriptor } => {
            s.append("closure ");
            push_return_type_text(s, &closure_descriptor.return_type);
            s.append(" ");
            s.append(name.as_str());
            s.append("#");
            push_i64(s, *bootstrap_method_index as i64);
            s.append("(");
            push_arguments(s, captures, ", ");
            s.append(")");
        },
    }
    assert(s@ =~= old(s)@ + expression_text(*e));
}

/// Appends the texts of the branches of a switch.
fn push_branches(s: &mut String, bs: &Vec<(i32, ProgramCounter)>)
    ensures
        final(s)@ == old(s)@ + branches_text(bs@),
{
    let ghost head = s@;
    let mut k: usize = 0;
    assert(branches_text(bs@.take(0)) == Seq::<char>::empty());
    assert(s@ =~= head + branches_text(bs@.take(0)));
    while k < bs.len()
        invariant
            k <= bs@.len(),
            s@ == head + branches_text(bs@.take(k as int)),
        decreases bs@.len() - k,
    {
        let ghost before = bs@.take(k as int);
        if k > 0 {
            s.append(", ");
        }
        let (key, target) = bs[k];
        push_i64(s, key as i64);
        s.append(" => ");
        push_pc(s, target);
        proof {
            let after = bs@.take(k + 1);
            assert(after.drop_last() =~= before);
            assert(after.last() == bs@[k as int]);
            if k == 0 {
                assert(after =~= seq![bs@[0]]);
            }
        }
        assert(s@ =~= head + branches_text(bs@.take(k + 1)));
        k = k + 1;
    }
    assert(bs@.take(bs@.len() as int) =~= bs@);
}

/// Appends the text of an instruction that this module shows.
fn push_instruction(s: &mut String, i: &MokaInstruction)
    requires
        instruction_shown(*i),
    ensures
        final(s)@ == old(s)@ + instruction_text(*i),
{
    match i {
        MokaInstruction::Nop => s.append("nop"),
        MokaInstruction::Definition { value, expr } => {
            s.append("%");
            push_i64(s, value.index() as i64);
            s.append(" = ");
            push_expression(s, expr);
        },
        MokaInstruction::Jump { condition: Some(c), target } => {
            s.append("if ");
            push_condition(s, c);
            s.append(" goto ");
            push_pc(s, *target);
        },
        MokaInstruction::Jump { condition: None, target } => {
            s.append("goto ");
            push_pc(s, *target);
        },
        MokaInstruction::Switch { match_value, branches, default } => {
            s.append("switch ");
            push_argument(s, match_value);
            s.append(" { ");
            push_pc(s, *default);
            s.append(", else => ");
            push_branches(s, branches);
            s.append(" }");
        },
        MokaInstruction::Return(Some(a)) => {
            s.append("return ");
            push_argument(s, a);
        },
        MokaInstruction::Return(None) => s.append("return"),
        MokaInstruction::SubroutineRet(a) => {
            s.append("subroutine_ret ");
            push_argument(s, a);
        },
    }
    assert(s@ =~= old(s)@ + instruction_text(*i));
}

impl ConversionOperation {
    /// The text of the conversion.
    pub fn to_string(&self) -> (r: String)
        ensures
            r@ == conversion_text(*self),
    {
        let mut s = String::new();
        push_conversion(&mut s, self);
        s
    }
}

impl ArrayOperation {
    /// The text of the operation.
    pub fn to_string(&self) -> (r: String)
        ensures
            r@ == array_text(*self),
    {
        let mut s = String::new();
        push_array(&mut s, self);
        s
    }
}

impl FieldAccess {
    /// The text of the access.
    pub fn to_string(&self) -> (r: String)
        ensures
            r@ == field_text(*self),
    {
        let mut s = String::new();
        push_field(&mut s, self);
        s
    }
}

impl LockOperation {
    /// The text of the operation.
    pub fn to_string(&self) -> (r: String)
        ensures
            r@ == lock_text(*self),
    {
        let mut s = String::new();
        push_lock(&mut s, self);
        s
    }
}

impl Expression {
    /// The text of the expression.
    pub fn to_string(&self) -> (r: String)
        requires
            expression_shown(*self),
        ensures
            r@ == expression_text(*self),
    {
        let mut s = String::new();
        push_expression(&mut s, self);
        s
    }
}

impl MokaInstruction {
    /// The text of the instruction.
    pub fn to_string(&self) -> (r: String)
        requires
            instruction_shown(*self),
        ensures
            r@ == instruction_text(*self),
    {
        let mut s = String::new();
        push_instruction(&mut s, self);
        s
    }
}

} // verus!
