use mokapot::ir::control_flow::path_condition::{
    BooleanVariable, MinTerm, NormalizedPredicate, PathCondition, Predicate, Terminal, Value,
};
use mokapot::ir::expression::Condition;
use mokapot::ir::{Argument, Identifier, IdentifierSet, LocalValue};

fn var(id: u32, positive: bool) -> BooleanVariable<u32> {
    if positive {
        BooleanVariable::Positive(id)
    } else {
        BooleanVariable::Negative(id)
    }
}

#[test]
fn one_and_zero() {
    assert!(!PathCondition::<u32>::one().is_contradiction());
    assert!(PathCondition::<u32>::zero().is_contradiction());
    assert!(PathCondition::<u32>::contradiction().is_contradiction());
    assert!(!PathCondition::<u32>::tautology().is_contradiction());
}

#[test]
fn and_with_negation_is_contradiction() {
    let cond = PathCondition::of(var(1, true));
    let both = cond.bitand(PathCondition::of(var(1, false)));
    assert!(both.is_contradiction());
    let cond = PathCondition::of(var(1, true)).bitand_variable(var(1, false));
    assert!(cond.is_contradiction());
}

#[test]
fn and_combines_minterms() {
    let lhs = PathCondition::of(var(1, true)).bitor(PathCondition::of(var(2, true)));
    let rhs = PathCondition::of(var(3, false));
    let both = lhs.bitand(rhs);
    let mut preds: Vec<u32> = both.predicates().into_iter().copied().collect();
    preds.sort();
    assert_eq!(preds, vec![1, 2, 3]);
    assert!(!both.is_contradiction());
}

#[test]
fn or_keeps_predicates_of_both_sides_once() {
    let lhs = PathCondition::of(var(4, true)).bitor(PathCondition::of(var(4, true)));
    let cond = lhs.bitor(PathCondition::of(var(5, false)));
    let mut preds: Vec<u32> = cond.predicates().into_iter().copied().collect();
    preds.sort();
    assert_eq!(preds, vec![4, 5]);
}

#[test]
fn or_with_zero_is_unchanged_and_one_absorbs_and() {
    let cond = PathCondition::<u32>::zero().bitor(PathCondition::zero());
    assert!(cond.is_contradiction());
    let cond = PathCondition::<u32>::one().bitand(PathCondition::one());
    assert!(!cond.is_contradiction());
    assert!(cond.predicates().is_empty());
}

#[test]
fn variables_negate() {
    assert_eq!(var(7, true).not(), var(7, false));
    assert_eq!(*var(7, false).predicate(), 7);
    let _ = MinTerm::of(var(1, true));
    let _ = MinTerm::<u32>::one();
}

#[test]
fn predicates_negate_by_swapping_order_comparisons() {
    assert_eq!(Predicate::LessThan(1u32, 2u32).not(), Predicate::LessThanOrEqual(2, 1));
    assert_eq!(Predicate::Equal(1u32, 2u32).not(), Predicate::NotEqual(1, 2));
    assert_eq!(Predicate::IsNull(3u32).not().not(), Predicate::IsNull(3));
    assert_eq!(Terminal::<Predicate<u32>>::True.not(), Terminal::False);
    assert_eq!(
        Terminal::Predicate(Predicate::IsNotNull(1u32)).not(),
        Terminal::Predicate(Predicate::IsNull(1))
    );
}

#[test]
fn normalization_puts_the_smaller_argument_left() {
    let l = |i: u16| Argument::Id(Identifier::Local(LocalValue::new(i)));
    let shown = |c: Condition| format!("{:?}", BooleanVariable::<NormalizedPredicate<Value>>::from_condition(&c));
    assert_eq!(
        shown(Condition::GreaterThan(l(2), l(1))),
        "Positive(LessThan(Variable(Id(Local(LocalValue(1)))), Variable(Id(Local(LocalValue(2))))))"
    );
    assert_eq!(
        shown(Condition::GreaterThan(l(1), l(2))),
        "Negative(LessThanOrEqual(Variable(Id(Local(LocalValue(1)))), Variable(Id(Local(LocalValue(2))))))"
    );
    assert_eq!(
        shown(Condition::NotEqual(l(3), Argument::Id(Identifier::This))),
        "Negative(Equal(Variable(Id(This)), Variable(Id(Local(LocalValue(3))))))"
    );
    assert_eq!(shown(Condition::IsPositive(l(0))), "Negative(LessThanOrEqual(Variable(Id(Local(LocalValue(0)))), Constant(Integer(0))))");
    assert_eq!(shown(Condition::IsNotNull(l(0))), "Negative(IsNull(Variable(Id(Local(LocalValue(0))))))");
    let phi = |ids: &[Identifier]| Argument::Phi(IdentifierSet::from_ids(ids));
    let a = phi(&[Identifier::This, Identifier::Arg(2)]);
    let b = phi(&[Identifier::This, Identifier::Arg(1), Identifier::Arg(5)]);
    let s = shown(Condition::LessThanOrEqual(a, b));
    assert!(s.starts_with("Negative(LessThan(Variable(Phi(IdentifierSet { ids: [This, Arg(1), Arg(5)] }))"), "{}", s);
    let s = shown(Condition::Equal(phi(&[Identifier::This, Identifier::Arg(1), Identifier::Arg(5)]), l(9)));
    assert!(s.starts_with("Positive(Equal(Variable(Id(Local(LocalValue(9)))), Variable(Phi("), "{}", s);
}
