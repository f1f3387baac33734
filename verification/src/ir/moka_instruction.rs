//! Values, identifiers and arguments of Moka IR instructions.
use vstd::prelude::*;

use crate::ir::expression::{Condition, Expression};
use crate::jvm::code::ProgramCounter;
use crate::ir::expression::array::ids_of_all;
use crate::ir::operands::{instruction_arguments, lemma_instruction_uses_its_arguments};

verus! {

/// An instruction of Moka IR.
#[derive(Debug, Clone, PartialEq)]
pub enum MokaInstruction {
    /// Does nothing.
    Nop,
    /// Defines a local value as the result of an expression.
    Definition {
        /// The value defined.
        value: LocalValue,
        /// The expression whose result the value takes.
        expr: Expression,
    },
    /// Jumps to `target`, always or when `condition` holds.
    Jump {
        /// The condition of the jump, if it has one.
        condition: Option<Condition>,
        /// Where to jump.
        target: ProgramCounter,
    },
    /// Jumps to the target of the value of `match_value`, or to `default`.
    Switch {
        /// The value that selects the target.
        match_value: Argument,
        /// The targets of the values, in increasing order of values.
        branches: Vec<(i32, ProgramCounter)>,
        /// Where to jump when no value matches.
        default: ProgramCounter,
    },
    /// Returns from the method, with a value or without.
    Return(Option<Argument>),
    /// Returns from a subroutine.
    SubroutineRet(Argument),
}

impl MokaInstruction {
    /// The local value that the instruction defines, if any.
    pub open spec fn defined(self) -> Option<LocalValue> {
        match self {
            MokaInstruction::Definition { value, .. } => Some(value),
            _ => None,
        }
    }

    /// The identifiers that the instruction reads.
    pub open spec fn used_ids(self) -> Set<Identifier> {
        match self {
            MokaInstruction::Definition { expr, .. } => expr.used_ids(),
            MokaInstruction::Jump { condition: Some(c), .. } => c.used_ids(),
            MokaInstruction::Return(Some(arg)) => arg.ids(),
            MokaInstruction::SubroutineRet(arg) => arg.ids(),
            MokaInstruction::Switch { match_value, .. } => match_value.ids(),
            _ => Set::empty(),
        }
    }

    /// Gets the local value that the instruction defines, if any.
    pub fn def(&self) -> (r: Option<LocalValue>)
        ensures
            r == self.defined(),
    {
        match self {
            MokaInstruction::Definition { value, .. } => Some(*value),
            _ => None,
        }
    }

    /// Returns the set of [`Identifier`]s used by the instruction.
    pub fn uses(&self) -> (r: IdentifierSet)
        ensures
            r@ == self.used_ids(),
            r@ == ids_of_all(instruction_arguments(*self)),
    {
        proof {
            lemma_instruction_uses_its_arguments(*self);
        }
        match self {
            MokaInstruction::Definition { expr, .. } => expr.uses(),
            MokaInstruction::Jump { condition: Some(c), .. } => c.uses(),
            MokaInstruction::Return(Some(arg)) => IdentifierSet::of_argument(arg),
            MokaInstruction::SubroutineRet(arg) => IdentifierSet::of_argument(arg),
            MokaInstruction::Switch { match_value, .. } => IdentifierSet::of_argument(match_value),
            _ => {
                let r = IdentifierSet::new();
                assert(r@ =~= Set::<Identifier>::empty());
                r
            },
        }
    }
}

/// Represents a local variable defined in Moka IR.
#[derive(Debug, PartialEq, Eq, Structural, PartialOrd, Ord, Hash, Clone, Copy)]
pub struct LocalValue(u16);

impl View for LocalValue {
    type V = u16;

    closed spec fn view(&self) -> u16 {
        self.0
    }
}

/// A local value is determined by its index.
pub broadcast proof fn lemma_local_value_view_injective(a: LocalValue, b: LocalValue)
    ensures
        #[trigger] a@ == #[trigger] b@ ==> a == b,
{
}

impl LocalValue {
    /// The local value with the given index.
    pub closed spec fn from_index(id: u16) -> Self {
        LocalValue(id)
    }

    /// Creates a new local value with the given index.
    pub fn new(id: u16) -> (r: Self)
        ensures
            r@ == id,
            r == Self::from_index(id),
    {
        LocalValue(id)
    }

    /// The index of the local value.
    pub fn index(&self) -> (r: u16)
        ensures
            r == self@,
    {
        self.0
    }

    /// Creates an argument referring to this local value.
    pub fn as_argument(&self) -> (r: Argument)
        ensures
            r == Argument::Id(Identifier::Local(*self)),
    {
        Argument::Id(Identifier::Local(*self))
    }
}

/// An identifier of a value in Moka IR.
#[derive(Debug, PartialEq, Eq, Structural, PartialOrd, Ord, Hash, Clone, Copy)]
pub enum Identifier {
    /// The `this` reference.
    This,
    /// An argument of the method.
    Arg(u16),
    /// A value defined in the method.
    Local(LocalValue),
    /// An exception caught by a `catch` block.
    CaughtException,
}

impl From<LocalValue> for Identifier {
    fn from(value: LocalValue) -> (r: Self) {
        Identifier::Local(value)
    }
}

impl vstd::std_specs::convert::FromSpecImpl<LocalValue> for Identifier {
    open spec fn obeys_from_spec() -> bool {
        true
    }

    open spec fn from_spec(v: LocalValue) -> Self {
        Identifier::Local(v)
    }
}

/// The position of an identifier in the order of identifiers: `this` first, then the
/// arguments, then the local values, and the caught exception last.
pub open spec fn id_key(id: Identifier) -> int {
    match id {
        Identifier::This => 0,
        Identifier::Arg(n) => 0x1_0000 + n,
        Identifier::Local(v) => 0x2_0000 + v@,
        Identifier::CaughtException => 0x3_0000,
    }
}

/// Identifiers are ordered by their keys, and no two identifiers share a key.
pub proof fn lemma_id_key_injective(a: Identifier, b: Identifier)
    ensures
        id_key(a) == id_key(b) ==> a == b,
{
    broadcast use lemma_local_value_view_injective;

}

impl Identifier {
    /// The key that orders identifiers.
    pub fn key(&self) -> (r: u32)
        ensures
            r == id_key(*self),
    {
        match self {
            Identifier::This => 0,
            Identifier::Arg(n) => 0x1_0000 + *n as u32,
            Identifier::Local(v) => 0x2_0000 + v.0 as u32,
            Identifier::CaughtException => 0x3_0000,
        }
    }
}

/// A sequence of identifiers in strictly increasing order.
pub open spec fn strictly_sorted(s: Seq<Identifier>) -> bool {
    forall|i: int, j: int| 0 <= i < j < s.len() ==> id_key(#[trigger] s[i]) < id_key(#[trigger] s[j])
}

/// A set of identifiers, kept in increasing order.
#[derive(Debug, PartialEq, Eq, PartialOrd, Ord, Hash)]
pub struct IdentifierSet {
    ids: Vec<Identifier>,
}

impl View for IdentifierSet {
    type V = Set<Identifier>;

    closed spec fn view(&self) -> Set<Identifier> {
        self.ids@.to_set()
    }
}

impl IdentifierSet {
    #[verifier::type_invariant]
    spec fn well_formed(self) -> bool {
        strictly_sorted(self.ids@)
    }

    /// The identifiers of the set, in increasing order.
    pub closed spec fn elements(self) -> Seq<Identifier> {
        self.ids@
    }

    /// The elements are exactly the members of the set.
    pub proof fn lemma_elements(self)
        ensures
            self.elements().to_set() == self@,
    {
    }

    /// Creates an empty set.
    pub fn new() -> (r: Self)
        ensures
            r@ == Set::<Identifier>::empty(),
    {
        let r = IdentifierSet { ids: Vec::new() };
        assert(r.ids@.to_set() =~= Set::<Identifier>::empty());
        r
    }

    /// Creates a set holding the identifiers of a slice.
    pub fn from_ids(ids: &[Identifier]) -> (r: Self)
        ensures
            r@ == ids@.to_set(),
    {
        let mut r = IdentifierSet::new();
        let mut i: usize = 0;
        while i < ids.len()
            invariant
                i <= ids@.len(),
                r@ == ids@.subrange(0, i as int).to_set(),
            decreases ids@.len() - i,
        {
            r.insert(ids[i]);
            proof {
                assert(ids@.subrange(0, i + 1) =~= ids@.subrange(0, i as int).push(ids@[i as int]));
                ids@.subrange(0, i as int).lemma_push_to_set_commute(ids@[i as int]);
            }
            i = i + 1;
        }
        assert(ids@.subrange(0, ids@.len() as int) =~= ids@);
        r
    }

    /// Returns the number of identifiers in the set.
    pub fn len(&self) -> (r: usize)
        ensures
            r == self@.len(),
    {
        proof {
            use_type_invariant(self);
            self.lemma_sorted_no_duplicates();
            self.ids@.unique_seq_to_set();
        }
        self.ids.len()
    }

    /// Returns whether the set is empty.
    pub fn is_empty(&self) -> (r: bool)
        ensures
            r == (self@ == Set::<Identifier>::empty()),
    {
        if self.ids.len() == 0 {
            assert(self@ =~= Set::<Identifier>::empty());
            true
        } else {
            assert(self@.contains(self.ids@[0]));
            false
        }
    }

    proof fn lemma_sorted_no_duplicates(&self)
        requires
            strictly_sorted(self.ids@),
        ensures
            self.ids@.no_duplicates(),
    {
    }

    /// Checks whether the set holds the identifier.
    pub fn contains(&self, id: &Identifier) -> (r: bool)
        ensures
            r == self@.contains(*id),
    {
        let mut i: usize = 0;
        while i < self.ids.len()
            invariant
                i <= self.ids@.len(),
                forall|j: int| 0 <= j < i ==> self.ids@[j] != *id,
            decreases self.ids@.len() - i,
        {
            if self.ids[i] == *id {
                return true;
            }
            i = i + 1;
        }
        false
    }

    /// Inserts an identifier; returns whether it was not in the set before.
    pub fn insert(&mut self, id: Identifier) -> (r: bool)
        ensures
            final(self)@ == old(self)@.insert(id),
            r == !old(self)@.contains(id),
    {
        proof {
            use_type_invariant(&*self);
        }
        let k = id.key();
        let mut i: usize = 0;
        while i < self.ids.len()
            invariant
                i <= self.ids@.len(),
                k == id_key(id),
                strictly_sorted(self.ids@),
                forall|j: int| 0 <= j < i ==> id_key(#[trigger] self.ids@[j]) < id_key(id),
            ensures
                i <= self.ids@.len(),
                forall|j: int| 0 <= j < i ==> id_key(#[trigger] self.ids@[j]) < id_key(id),
                i < self.ids@.len() ==> id_key(self.ids@[i as int]) >= id_key(id),
            decreases self.ids@.len() - i,
        {
            let current = self.ids[i].key();
            if current >= k {
                break;
            }
            i = i + 1;
        }
        if i < self.ids.len() && self.ids[i].key() == k {
            proof {
                lemma_id_key_injective(self.ids@[i as int], id);
                assert(self@.contains(id));
                assert(self@.insert(id) =~= self@);
            }
            return false;
        }
        let ghost old_ids = self.ids@;
        proof {
            assert forall|j: int| 0 <= j < old_ids.len() implies old_ids[j] != id by {
                if j < i {
                } else {
                    assert(id_key(old_ids[i as int]) > id_key(id));
                }
            }
        }
        let mut ids = Vec::new();
        std::mem::swap(&mut ids, &mut self.ids);
        ids.insert(i, id);
        let ghost new_ids = ids@;
        proof {
            assert(new_ids =~= old_ids.subrange(0, i as int).push(id) + old_ids.subrange(
                i as int,
                old_ids.len() as int,
            ));
            assert(strictly_sorted(new_ids)) by {
                assert forall|a: int, b: int| 0 <= a < b < new_ids.len() implies id_key(
                    #[trigger] new_ids[a],
                ) < id_key(#[trigger] new_ids[b]) by {
                    if a < i && b < i {
                    } else if a < i && b == i {
                    } else if a < i {
                        assert(new_ids[b] == old_ids[b - 1]);
                    } else if a == i {
                        assert(new_ids[b] == old_ids[b - 1]);
                        assert(id_key(old_ids[i as int]) > id_key(id));
                        if b - 1 > i {
                            assert(id_key(old_ids[i as int]) < id_key(old_ids[b - 1]));
                        }
                    } else {
                        assert(new_ids[a] == old_ids[a - 1]);
                        assert(new_ids[b] == old_ids[b - 1]);
                    }
                }
            }
            assert(new_ids.to_set() =~= old_ids.to_set().insert(id)) by {
                assert forall|x: Identifier| new_ids.contains(x) implies old_ids.to_set().insert(
                    id,
                ).contains(x) by {
                    let j = choose|j: int| 0 <= j < new_ids.len() && new_ids[j] == x;
                    if j < i {
                        assert(old_ids[j] == x);
                    } else if j > i {
                        assert(old_ids[j - 1] == x);
                    }
                }
                assert forall|x: Identifier| old_ids.to_set().insert(id).contains(
                    x,
                ) implies new_ids.contains(x) by {
                    if x == id {
                        assert(new_ids[i as int] == x);
                    } else {
                        let j = choose|j: int| 0 <= j < old_ids.len() && old_ids[j] == x;
                        if j < i {
                            assert(new_ids[j] == x);
                        } else {
                            assert(new_ids[j + 1] == x);
                        }
                    }
                }
            }
        }
        self.ids = ids;
        true
    }

    /// Inserts every identifier of `other` into the set.
    pub fn extend(&mut self, other: &IdentifierSet)
        ensures
            final(self)@ == old(self)@.union(other@),
    {
        let mut i: usize = 0;
        while i < other.ids.len()
            invariant
                i <= other.ids@.len(),
                self@ == old(self)@.union(other.ids@.subrange(0, i as int).to_set()),
            decreases other.ids@.len() - i,
        {
            self.insert(other.ids[i]);
            proof {
                assert(other.ids@.subrange(0, i + 1) =~= other.ids@.subrange(0, i as int).push(
                    other.ids@[i as int],
                ));
                other.ids@.subrange(0, i as int).lemma_push_to_set_commute(other.ids@[i as int]);
                assert(self@ =~= old(self)@.union(other.ids@.subrange(0, i + 1).to_set()));
            }
            i = i + 1;
        }
        assert(other.ids@.subrange(0, other.ids@.len() as int) =~= other.ids@);
    }

    /// Inserts every identifier that `arg` may refer to.
    pub fn insert_argument(&mut self, arg: &Argument)
        ensures
            final(self)@ == old(self)@.union(arg.ids()),
    {
        match arg {
            Argument::Id(id) => {
                self.insert(*id);
                assert(self@ =~= old(self)@.union(set![*id]));
            },
            Argument::Phi(ids) => {
                self.extend(ids);
            },
        }
    }

    /// Creates the set of identifiers that `arg` may refer to.
    pub fn of_argument(arg: &Argument) -> (r: Self)
        ensures
            r@ == arg.ids(),
    {
        let mut r = IdentifierSet::new();
        r.insert_argument(arg);
        assert(r@ =~= arg.ids());
        r
    }

    /// Creates the set of identifiers that `a` or `b` may refer to.
    pub fn of_arguments(a: &Argument, b: &Argument) -> (r: Self)
        ensures
            r@ == a.ids().union(b.ids()),
    {
        let mut r = IdentifierSet::of_argument(a);
        r.insert_argument(b);
        r
    }

    /// Returns the identifiers of the set in increasing order.
    pub fn to_vec(&self) -> (r: Vec<Identifier>)
        ensures
            r@ == self.elements(),
            r@.to_set() == self@,
            r@.no_duplicates(),
            strictly_sorted(r@),
    {
        proof {
            use_type_invariant(self);
        }
        let mut r = Vec::new();
        let mut i: usize = 0;
        while i < self.ids.len()
            invariant
                i <= self.ids@.len(),
                r@ == self.ids@.subrange(0, i as int),
            decreases self.ids@.len() - i,
        {
            r.push(self.ids[i]);
            assert(r@ =~= self.ids@.subrange(0, i + 1));
            i = i + 1;
        }
        assert(r@ =~= self.ids@);
        r
    }

    /// Creates a copy of the set.
    pub fn duplicate(&self) -> (r: Self)
        ensures
            r@ == self@,
            r.elements() == self.elements(),
    {
        proof {
            use_type_invariant(self);
        }
        let ids = self.to_vec();
        IdentifierSet { ids }
    }
}

impl Clone for IdentifierSet {
    fn clone(&self) -> (r: Self)
        ensures
            r@ == self@,
            r.elements() == self.elements(),
    {
        self.duplicate()
    }
}

/// An argument to a Moka IR instruction: a single identifier, or a phi node merging several.
#[derive(Debug, PartialEq, Eq, PartialOrd, Ord, Clone)]
pub enum Argument {
    /// A single identifier.
    Id(Identifier),
    /// A phi node of several identifiers.
    Phi(IdentifierSet),
}

impl Argument {
    /// The identifiers that the argument may refer to.
    pub open spec fn ids(self) -> Set<Identifier> {
        match self {
            Argument::Id(id) => set![id],
            Argument::Phi(ids) => ids@,
        }
    }

    /// Returns the identifiers of the argument in increasing order.
    pub fn iter(&self) -> (r: Vec<Identifier>)
        ensures
            r@.to_set() == self.ids(),
            r@.no_duplicates(),
            strictly_sorted(r@),
            self matches Argument::Phi(s) ==> r@ == s.elements(),
    {
        match self {
            Argument::Id(id) => {
                let r = vec![*id];
                assert(r@.to_set() =~= set![*id]) by {
                    assert(r@.contains(*id));
                }
                r
            },
            Argument::Phi(ids) => ids.to_vec(),
        }
    }

    /// Creates a copy of the argument.
    pub fn duplicate(&self) -> (r: Self)
        ensures
            r.ids() == self.ids(),
            r is Id <==> self is Id,
            self is Id ==> r == *self,
            self matches Argument::Phi(s) ==> r matches Argument::Phi(t) && t.elements()
                == s.elements(),
    {
        match self {
            Argument::Id(id) => Argument::Id(*id),
            Argument::Phi(ids) => Argument::Phi(ids.duplicate()),
        }
    }

    /// Merges two arguments: equal single identifiers stay as they are; otherwise the result
    /// is a phi node of all identifiers of both.
    pub fn merge(self, rhs: Argument) -> (r: Argument)
        ensures
            r.ids() == self.ids().union(rhs.ids()),
            r is Id <==> (self is Id && rhs is Id && self == rhs),
            (self is Id && self == rhs) ==> r == self,
    {
        match (self, rhs) {
            (Argument::Id(lhs), Argument::Id(rhs)) => {
                if lhs == rhs {
                    assert(set![lhs].union(set![rhs]) =~= set![lhs]);
                    Argument::Id(lhs)
                } else {
                    let mut ids = IdentifierSet::new();
                    ids.insert(lhs);
                    ids.insert(rhs);
                    assert(ids@ =~= set![lhs].union(set![rhs]));
                    Argument::Phi(ids)
                }
            },
            (Argument::Id(id), Argument::Phi(ids)) => {
                let ghost before = ids@;
                let mut ids = ids;
                ids.insert(id);
                assert(ids@ =~= set![id].union(before));
                Argument::Phi(ids)
            },
            (Argument::Phi(ids), Argument::Id(id)) => {
                let ghost before = ids@;
                let mut ids = ids;
                ids.insert(id);
                assert(ids@ =~= before.union(set![id]));
                Argument::Phi(ids)
            },
            (Argument::Phi(lhs), Argument::Phi(rhs)) => {
                let mut lhs = lhs;
                lhs.extend(&rhs);
                Argument::Phi(lhs)
            },
        }
    }
}

} // verus!
