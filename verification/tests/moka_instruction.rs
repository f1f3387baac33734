use std::collections::BTreeSet;

use mokapot::ir::Argument::Id;
use mokapot::ir::Identifier::{Arg, This};
use mokapot::ir::{Argument, Identifier, IdentifierSet};

fn phi(ids: &[Identifier]) -> Argument {
    Argument::Phi(IdentifierSet::from_ids(ids))
}

#[test]
fn value_ref_merge() {
    assert_eq!(Id(This).merge(Id(This)), Id(This));
    assert_eq!(Id(This).merge(Id(Arg(0))), phi(&[This, Arg(0)]));
    assert_eq!(Id(Arg(0)).merge(Id(This)), phi(&[This, Arg(0)]));
    assert_eq!(Id(Arg(0)).merge(Id(Arg(1))), phi(&[Arg(0), Arg(1)]));
    assert_eq!(Id(Arg(0)).merge(phi(&[Arg(1), Arg(2)])), phi(&[Arg(0), Arg(1), Arg(2)]));
    assert_eq!(phi(&[Arg(1), Arg(2)]).merge(Id(Arg(0))), phi(&[Arg(0), Arg(1), Arg(2)]));
    assert_eq!(
        phi(&[Arg(1), Arg(2)]).merge(phi(&[Arg(0), Arg(1), Arg(3)])),
        phi(&[Arg(0), Arg(1), Arg(2), Arg(3)])
    );
}

#[test]
fn value_ref_iter() {
    assert_eq!(Id(This).iter().into_iter().collect::<BTreeSet<_>>(), BTreeSet::from([This]));
    assert_eq!(Id(Arg(0)).iter().into_iter().collect::<BTreeSet<_>>(), BTreeSet::from([Arg(0)]));
    assert_eq!(
        phi(&[Arg(0), Arg(1)]).iter().into_iter().collect::<BTreeSet<_>>(),
        BTreeSet::from([Arg(0), Arg(1)])
    );
}

#[test]
fn value_ref_iter_over_refs() {
    assert_eq!(Id(This).iter(), vec![This]);
    assert_eq!(Id(Arg(0)).iter(), vec![Arg(0)]);
    assert_eq!(phi(&[Arg(1), Arg(0)]).iter().len(), 2);
}
