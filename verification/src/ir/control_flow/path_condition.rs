//! Path conditions in disjunctive normal form.
//!
//! A path condition represents a boolean formula that must be satisfied for a path to be taken.
//! It is a disjunction of minterms, each of which is a conjunction of boolean variables. An empty
//! set of minterms represents a contradiction, and an empty minterm a tautology.
use vstd::prelude::*;

use crate::ir::expression::Condition;
use crate::ir::generator::jvm_frame::same_argument;
use crate::ir::moka_instruction::{id_key, Argument, Identifier};
use crate::jvm::ConstantValue;

verus! {

/// A predicate that can be compared and copied by the analyses on path conditions.
pub trait Atom: Sized {
    /// Checks whether two predicates are the same.
    fn same(&self, other: &Self) -> (r: bool)
        ensures
            r == (*self == *other),
    ;

    /// Makes a copy of the predicate.
    fn duplicate(&self) -> (r: Self)
        ensures
            r == *self,
    ;
}

impl Atom for u32 {
    fn same(&self, other: &Self) -> (r: bool) {
        *self == *other
    }

    fn duplicate(&self) -> (r: Self) {
        *self
    }
}

/// A variable in a path condition.
///
/// Represents either a positive or negative occurrence of a predicate.
#[derive(Debug, PartialEq, Eq, PartialOrd, Ord, Clone)]
pub enum BooleanVariable<P> {
    /// A positive variable.
    Positive(P),
    /// A negative variable.
    Negative(P),
}

impl<P> BooleanVariable<P> {
    /// The predicate of the variable.
    pub open spec fn pred_of(self) -> P {
        match self {
            BooleanVariable::Positive(p) => p,
            BooleanVariable::Negative(p) => p,
        }
    }

    /// The variable with the same predicate and the opposite sign.
    pub open spec fn negated(self) -> Self {
        match self {
            BooleanVariable::Positive(p) => BooleanVariable::Negative(p),
            BooleanVariable::Negative(p) => BooleanVariable::Positive(p),
        }
    }

    /// Whether the variable holds when each predicate takes the truth value that `val` gives it.
    pub open spec fn holds(self, val: spec_fn(P) -> bool) -> bool {
        match self {
            BooleanVariable::Positive(p) => val(p),
            BooleanVariable::Negative(p) => !val(p),
        }
    }

    /// Returns a reference to the inner predicate of the variable.
    pub fn predicate(&self) -> (r: &P)
        ensures
            *r == self.pred_of(),
    {
        match self {
            BooleanVariable::Positive(id) => id,
            BooleanVariable::Negative(id) => id,
        }
    }

    /// Negates the variable.
    pub fn not(self) -> (r: Self)
        ensures
            r == self.negated(),
    {
        match self {
            BooleanVariable::Positive(id) => BooleanVariable::Negative(id),
            BooleanVariable::Negative(id) => BooleanVariable::Positive(id),
        }
    }
}

impl<P: Atom> Atom for BooleanVariable<P> {
    fn same(&self, other: &Self) -> (r: bool) {
        match (self, other) {
            (BooleanVariable::Positive(a), BooleanVariable::Positive(b)) => a.same(b),
            (BooleanVariable::Negative(a), BooleanVariable::Negative(b)) => a.same(b),
            _ => false,
        }
    }

    fn duplicate(&self) -> (r: Self) {
        match self {
            BooleanVariable::Positive(p) => BooleanVariable::Positive(p.duplicate()),
            BooleanVariable::Negative(p) => BooleanVariable::Negative(p.duplicate()),
        }
    }
}

/// A conjunction of boolean variables (a minterm in disjunctive normal form).
///
/// An empty minterm represents a tautology.
#[derive(Debug)]
pub struct MinTerm<P>(Vec<BooleanVariable<P>>);

impl<P> View for MinTerm<P> {
    type V = Set<BooleanVariable<P>>;

    closed spec fn view(&self) -> Set<BooleanVariable<P>> {
        self.0@.to_set()
    }
}

/// Whether every variable of the minterm holds under `val`.
pub open spec fn minterm_holds<P>(m: Set<BooleanVariable<P>>, val: spec_fn(P) -> bool) -> bool {
    forall|v: BooleanVariable<P>| #[trigger] m.contains(v) ==> v.holds(val)
}

impl<P> MinTerm<P> {
    /// Creates a tautology (i.e., ⊤).
    pub fn one() -> (r: Self)
        ensures
            r@ == Set::<BooleanVariable<P>>::empty(),
    {
        let r = MinTerm(Vec::new());
        assert(r@ =~= Set::<BooleanVariable<P>>::empty());
        r
    }

    /// Creates a minterm containing a single variable.
    pub fn of(pred: BooleanVariable<P>) -> (r: Self)
        ensures
            r@ == Set::<BooleanVariable<P>>::empty().insert(pred),
    {
        let mut v = Vec::new();
        v.push(pred);
        let r = MinTerm(v);
        assert(r@ =~= Set::<BooleanVariable<P>>::empty().insert(pred)) by {
            assert(r.0@[0] == pred);
        }
        r
    }

    /// Returns true if this minterm is empty (represents a tautology).
    fn is_tautology(&self) -> (r: bool)
        ensures
            r == (self@ == Set::<BooleanVariable<P>>::empty()),
    {
        if self.0.len() == 0 {
            assert(self@ =~= Set::<BooleanVariable<P>>::empty());
            true
        } else {
            assert(self@.contains(self.0@[0]));
            false
        }
    }
}

impl<P> MinTerm<P> {
    /// Creates the conjunction of the variables.
    pub fn all_of(vars: Vec<BooleanVariable<P>>) -> (r: Self)
        ensures
            r@ == vars@.to_set(),
    {
        MinTerm(vars)
    }
}

impl<P: Atom> MinTerm<P> {
    /// Checks if this minterm contains a variable.
    fn contains(&self, var: &BooleanVariable<P>) -> (r: bool)
        ensures
            r == self@.contains(*var),
    {
        let mut i: usize = 0;
        while i < self.0.len()
            invariant
                i <= self.0@.len(),
                forall|j: int| 0 <= j < i ==> self.0@[j] != *var,
            decreases self.0@.len() - i,
        {
            if self.0[i].same(var) {
                assert(self.0@.contains(*var)) by {
                    assert(self.0@[i as int] == *var);
                }
                return true;
            }
            i = i + 1;
        }
        false
    }

    /// Inserts a variable into this minterm, and tells whether it was not there before.
    fn insert(&mut self, var: BooleanVariable<P>) -> (r: bool)
        ensures
            r == !old(self)@.contains(var),
            final(self)@ == old(self)@.insert(var),
    {
        if self.contains(&var) {
            assert(self@.insert(var) =~= self@);
            false
        } else {
            let ghost before = self.0@;
            self.0.push(var);
            assert(self.0@.to_set() =~= before.to_set().insert(var)) by {
                assert forall|x: BooleanVariable<P>| self.0@.contains(x) <==> before.contains(x) || x == var by {
                    if self.0@.contains(x) {
                        let k = choose|k: int| 0 <= k < self.0@.len() && self.0@[k] == x;
                        if k < before.len() {
                            assert(before[k] == x);
                        }
                    }
                    if before.contains(x) {
                        let k = choose|k: int| 0 <= k < before.len() && before[k] == x;
                        assert(self.0@[k] == x);
                    }
                    if x == var {
                        assert(self.0@[before.len() as int] == var);
                    }
                }
            }
            true
        }
    }

    /// Checks whether every variable of this minterm is in `other`.
    fn is_subset_of(&self, other: &Self) -> (r: bool)
        ensures
            r == self@.subset_of(other@),
    {
        let mut i: usize = 0;
        while i < self.0.len()
            invariant
                i <= self.0@.len(),
                forall|j: int| 0 <= j < i ==> other@.contains(#[trigger] self.0@[j]),
            decreases self.0@.len() - i,
        {
            if !other.contains(&self.0[i]) {
                assert(self@.contains(self.0@[i as int]));
                return false;
            }
            i = i + 1;
        }
        assert forall|x: BooleanVariable<P>| self@.contains(x) implies other@.contains(x) by {
            let k = choose|k: int| 0 <= k < self.0@.len() && self.0@[k] == x;
        }
        true
    }

    /// Checks whether two minterms hold the same variables.
    fn same_as(&self, other: &Self) -> (r: bool)
        ensures
            r == (self@ == other@),
    {
        let a = self.is_subset_of(other);
        let b = other.is_subset_of(self);
        if a && b {
            assert(self@ =~= other@);
        }
        a && b
    }

    /// Makes a copy of the minterm.
    fn duplicate(&self) -> (r: Self)
        ensures
            r@ == self@,
    {
        let mut v: Vec<BooleanVariable<P>> = Vec::new();
        let mut i: usize = 0;
        while i < self.0.len()
            invariant
                i <= self.0@.len(),
                v@ == self.0@.subrange(0, i as int),
            decreases self.0@.len() - i,
        {
            v.push(self.0[i].duplicate());
            i = i + 1;
        }
        assert(v@ =~= self.0@);
        MinTerm(v)
    }
}

/// Path condition in disjunctive normal form.
///
/// Represents a boolean formula as a disjunction of conjunctions (OR of ANDs).
/// An empty set of minterms represents a contradiction (false).
#[derive(Debug)]
pub struct PathCondition<P> {
    /// The clauses in the disjunctive normal form.
    minterms: Vec<MinTerm<P>>,
}

/// The minterms, as sets of variables, of a list of minterms.
pub open spec fn terms_of<P>(ms: Seq<MinTerm<P>>) -> Set<Set<BooleanVariable<P>>> {
    Set::new(|t: Set<BooleanVariable<P>>| exists|i: int| 0 <= i < ms.len() && (#[trigger] ms[i])@ == t)
}

impl<P> View for PathCondition<P> {
    type V = Set<Set<BooleanVariable<P>>>;

    closed spec fn view(&self) -> Set<Set<BooleanVariable<P>>> {
        terms_of(self.minterms@)
    }
}

/// Whether some minterm of the condition holds under `val`.
pub open spec fn condition_holds<P>(c: Set<Set<BooleanVariable<P>>>, val: spec_fn(P) -> bool) -> bool {
    exists|m: Set<BooleanVariable<P>>| #[trigger] c.contains(m) && minterm_holds(m, val)
}

/// Whether no variable of `r` is the negation of a variable of `l`.
pub open spec fn compatible<P>(l: Set<BooleanVariable<P>>, r: Set<BooleanVariable<P>>) -> bool {
    forall|v: BooleanVariable<P>| #[trigger] r.contains(v) ==> !l.contains(v.negated())
}

/// The minterms of the conjunction of two conditions: the union of each compatible pair.
pub open spec fn and_terms<P>(
    a: Set<Set<BooleanVariable<P>>>,
    b: Set<Set<BooleanVariable<P>>>,
) -> Set<Set<BooleanVariable<P>>> {
    Set::new(
        |m: Set<BooleanVariable<P>>|
            exists|l: Set<BooleanVariable<P>>, r: Set<BooleanVariable<P>>|
                #[trigger] a.contains(l) && #[trigger] b.contains(r) && compatible(l, r) && m == l.union(r),
    )
}

/// The minterms of the conjunction of a condition with one variable.
pub open spec fn and_variable_terms<P>(
    a: Set<Set<BooleanVariable<P>>>,
    v: BooleanVariable<P>,
) -> Set<Set<BooleanVariable<P>>> {
    Set::new(
        |m: Set<BooleanVariable<P>>|
            exists|l: Set<BooleanVariable<P>>|
                #[trigger] a.contains(l) && !l.contains(v.negated()) && m == l.insert(v),
    )
}

impl<P> PathCondition<P> {
    /// Creates a true value (tautology).
    pub fn one() -> (r: Self)
        ensures
            r@ == Set::<Set<BooleanVariable<P>>>::empty().insert(Set::empty()),
    {
        let mut v = Vec::new();
        v.push(MinTerm::one());
        let r = PathCondition { minterms: v };
        assert(r@ =~= Set::<Set<BooleanVariable<P>>>::empty().insert(Set::empty())) by {
            assert(r.minterms@[0]@ == Set::<BooleanVariable<P>>::empty());
        }
        r
    }

    /// Creates a false value (contradiction).
    pub fn zero() -> (r: Self)
        ensures
            r@ == Set::<Set<BooleanVariable<P>>>::empty(),
    {
        let r = PathCondition { minterms: Vec::new() };
        assert(r@ =~= Set::<Set<BooleanVariable<P>>>::empty());
        r
    }

    /// Creates a true value; the same as [`PathCondition::one`].
    pub fn tautology() -> (r: Self)
        ensures
            r@ == Set::<Set<BooleanVariable<P>>>::empty().insert(Set::empty()),
    {
        Self::one()
    }

    /// Creates a false value; the same as [`PathCondition::zero`].
    pub fn contradiction() -> (r: Self)
        ensures
            r@ == Set::<Set<BooleanVariable<P>>>::empty(),
    {
        Self::zero()
    }

    /// Creates a path condition from a single variable.
    pub fn of(pred: BooleanVariable<P>) -> (r: Self)
        ensures
            r@ == Set::<Set<BooleanVariable<P>>>::empty().insert(
                Set::<BooleanVariable<P>>::empty().insert(pred),
            ),
    {
        let mut v = Vec::new();
        v.push(MinTerm::of(pred));
        let r = PathCondition { minterms: v };
        assert(r@ =~= Set::<Set<BooleanVariable<P>>>::empty().insert(
            Set::<BooleanVariable<P>>::empty().insert(pred),
        )) by {
            assert(r.minterms@[0]@ == Set::<BooleanVariable<P>>::empty().insert(pred));
        }
        r
    }

    /// Creates the conjunction of the variables, as a single minterm.
    pub fn conjunction_of(vars: Vec<BooleanVariable<P>>) -> (r: Self)
        ensures
            r@ == Set::<Set<BooleanVariable<P>>>::empty().insert(vars@.to_set()),
    {
        let mut v = Vec::new();
        v.push(MinTerm::all_of(vars));
        let r = PathCondition { minterms: v };
        assert(r@ =~= Set::<Set<BooleanVariable<P>>>::empty().insert(r.minterms@[0]@));
        r
    }

    /// Returns true if this path condition is a contradiction (false).
    pub fn is_contradiction(&self) -> (r: bool)
        ensures
            r == (self@ == Set::<Set<BooleanVariable<P>>>::empty()),
    {
        if self.minterms.len() == 0 {
            assert(self@ =~= Set::<Set<BooleanVariable<P>>>::empty());
            true
        } else {
            assert(self@.contains(self.minterms@[0]@));
            false
        }
    }
}

/// Adds a minterm to a list of minterms, unless one with the same variables is there.
fn push_term<P: Atom>(list: &mut Vec<MinTerm<P>>, m: MinTerm<P>)
    ensures
        terms_of(final(list)@) == terms_of(old(list)@).insert(m@),
{
    let ghost before = list@;
    let mut i: usize = 0;
    while i < list.len()
        invariant
            list@ == before,
            i <= list@.len(),
            forall|j: int| 0 <= j < i ==> (#[trigger] list@[j])@ != m@,
        decreases list@.len() - i,
    {
        if list[i].same_as(&m) {
            assert(terms_of(before).insert(m@) =~= terms_of(before)) by {
                assert(terms_of(before).contains(before[i as int]@));
            }
            return;
        }
        i = i + 1;
    }
    let ghost mv = m@;
    list.push(m);
    assert(terms_of(list@) =~= terms_of(before).insert(mv)) by {
        assert forall|t: Set<BooleanVariable<P>>| #[trigger] terms_of(list@).contains(t) <==> terms_of(before).insert(mv).contains(t) by {
            if terms_of(list@).contains(t) {
                let k = choose|k: int| 0 <= k < list@.len() && (#[trigger] list@[k])@ == t;
                if k < before.len() {
                    assert(before[k] == list@[k]);
                }
            }
            if terms_of(before).contains(t) {
                let k = choose|k: int| 0 <= k < before.len() && (#[trigger] before[k])@ == t;
                assert(list@[k] == before[k]);
            }
            if t == mv {
                assert(list@[before.len() as int]@ == mv);
            }
        }
    }
}

impl<P: Atom> PathCondition<P> {
    /// The disjunction of two path conditions: the minterms of both.
    pub fn bitor(self, rhs: Self) -> (r: Self)
        ensures
            r@ == self@.union(rhs@),
    {
        let ghost lhs_view = self@;
        let ghost rhs_seq = rhs.minterms@;
        let mut products = self.minterms;
        let mut rest = rhs.minterms;
        let ghost mut k: int = 0;
        assert(rest@ =~= rhs_seq.subrange(0, rhs_seq.len() as int));
        assert(terms_of(rhs_seq.subrange(0, 0)) =~= Set::<Set<BooleanVariable<P>>>::empty());
        assert(terms_of(products@) =~= lhs_view.union(terms_of(rhs_seq.subrange(0, 0))));
        while rest.len() > 0
            invariant
                0 <= k <= rhs_seq.len(),
                rest@ == rhs_seq.subrange(k, rhs_seq.len() as int),
                terms_of(products@) == lhs_view.union(terms_of(rhs_seq.subrange(0, k))),
            decreases rest@.len(),
        {
            let m = rest.remove(0);
            assert(m == rhs_seq[k]);
            push_term(&mut products, m);
            proof {
                assert(terms_of(rhs_seq.subrange(0, k + 1)) =~= terms_of(rhs_seq.subrange(0, k)).insert(rhs_seq[k]@)) by {
                    let pre = rhs_seq.subrange(0, k);
                    let post = rhs_seq.subrange(0, k + 1);
                    assert forall|t: Set<BooleanVariable<P>>| #[trigger] terms_of(post).contains(t) <==> terms_of(pre).insert(rhs_seq[k]@).contains(t) by {
                        if terms_of(post).contains(t) {
                            let j = choose|j: int| 0 <= j < post.len() && (#[trigger] post[j])@ == t;
                            if j < k {
                                assert(pre[j] == post[j]);
                            }
                        }
                        if terms_of(pre).contains(t) {
                            let j = choose|j: int| 0 <= j < pre.len() && (#[trigger] pre[j])@ == t;
                            assert(post[j] == pre[j]);
                        }
                        if t == rhs_seq[k]@ {
                            assert(post[k] == rhs_seq[k]);
                        }
                    }
                }
                k = k + 1;
                assert(rest@ =~= rhs_seq.subrange(k, rhs_seq.len() as int));
            }
        }
        assert(rhs_seq.subrange(0, k) =~= rhs_seq);
        PathCondition { minterms: products }
    }

    /// The conjunction of a path condition with a variable: each minterm without the negation
    /// of the variable, with the variable added.
    pub fn bitand_variable(self, rhs: BooleanVariable<P>) -> (r: Self)
        ensures
            r@ == and_variable_terms(self@, rhs),
    {
        let ghost src = self.minterms@;
        let negation = rhs.duplicate().not();
        let mut out: Vec<MinTerm<P>> = Vec::new();
        let mut i: usize = 0;
        while i < self.minterms.len()
            invariant
                i <= src.len(),
                src == self.minterms@,
                negation == rhs.negated(),
                terms_of(out@) == and_variable_terms(terms_of(src.subrange(0, i as int)), rhs),
            decreases src.len() - i,
        {
            let ghost old_out = out@;
            let minterm = &self.minterms[i];
            if !minterm.contains(&negation) {
                let mut updated = minterm.duplicate();
                updated.insert(rhs.duplicate());
                push_term(&mut out, updated);
            }
            assert(terms_of(out@) == if !src[i as int]@.contains(rhs.negated()) {
                terms_of(old_out).insert(src[i as int]@.insert(rhs))
            } else {
                terms_of(old_out)
            });
            proof {
                let pre = src.subrange(0, i as int);
                let post = src.subrange(0, i + 1);
                assert(terms_of(post) =~= terms_of(pre).insert(src[i as int]@)) by {
                    assert forall|t: Set<BooleanVariable<P>>| #[trigger] terms_of(post).contains(t) <==> terms_of(pre).insert(src[i as int]@).contains(t) by {
                        if terms_of(post).contains(t) {
                            let j = choose|j: int| 0 <= j < post.len() && (#[trigger] post[j])@ == t;
                            if j < i {
                                assert(pre[j] == post[j]);
                            }
                        }
                        if terms_of(pre).contains(t) {
                            let j = choose|j: int| 0 <= j < pre.len() && (#[trigger] pre[j])@ == t;
                            assert(post[j] == pre[j]);
                        }
                        if t == src[i as int]@ {
                            assert(post[i as int] == src[i as int]);
                        }
                    }
                }
                let l = src[i as int]@;
                assert(terms_of(out@) =~= and_variable_terms(terms_of(post), rhs)) by {
                    assert forall|m: Set<BooleanVariable<P>>| #[trigger] terms_of(out@).contains(m) <==> and_variable_terms(terms_of(post), rhs).contains(m) by {
                        if and_variable_terms(terms_of(post), rhs).contains(m) {
                            let l2 = choose|l2: Set<BooleanVariable<P>>| #[trigger] terms_of(post).contains(l2) && !l2.contains(rhs.negated()) && m == l2.insert(rhs);
                            if l2 != l {
                                assert(terms_of(pre).contains(l2));
                                assert(and_variable_terms(terms_of(pre), rhs).contains(m));
                            }
                        }
                        if m == l.insert(rhs) && !l.contains(rhs.negated()) {
                            assert(terms_of(post).contains(l));
                        }
                        if terms_of(old_out).contains(m) {
                            let l2 = choose|l2: Set<BooleanVariable<P>>| #[trigger] terms_of(pre).contains(l2) && !l2.contains(rhs.negated()) && m == l2.insert(rhs);
                            assert(terms_of(post).contains(l2));
                        }
                    }
                }
            }
            i = i + 1;
        }
        assert(src.subrange(0, i as int) =~= src);
        PathCondition { minterms: out }
    }
}

impl<P: Atom> MinTerm<P> {
    /// Checks that no variable of `other` is the negation of a variable of this minterm.
    fn compatible_with(&self, other: &Self) -> (r: bool)
        ensures
            r == compatible(self@, other@),
    {
        let mut i: usize = 0;
        while i < other.0.len()
            invariant
                i <= other.0@.len(),
                forall|j: int| 0 <= j < i ==> !self@.contains((#[trigger] other.0@[j]).negated()),
            decreases other.0@.len() - i,
        {
            let negation = other.0[i].duplicate().not();
            if self.contains(&negation) {
                assert(other@.contains(other.0@[i as int]));
                return false;
            }
            i = i + 1;
        }
        assert forall|v: BooleanVariable<P>| #[trigger] other@.contains(v) implies !self@.contains(v.negated()) by {
            let k = choose|k: int| 0 <= k < other.0@.len() && other.0@[k] == v;
        }
        true
    }

    /// The minterm holding the variables of both minterms.
    fn union(&self, other: &Self) -> (r: Self)
        ensures
            r@ == self@.union(other@),
    {
        let mut m = self.duplicate();
        let mut i: usize = 0;
        while i < other.0.len()
            invariant
                i <= other.0@.len(),
                m@ == self@.union(other.0@.subrange(0, i as int).to_set()),
            decreases other.0@.len() - i,
        {
            let ghost before = m@;
            m.insert(other.0[i].duplicate());
            proof {
                let pre = other.0@.subrange(0, i as int);
                let post = other.0@.subrange(0, i + 1);
                assert(post =~= pre.push(other.0@[i as int]));
                assert(post.to_set() =~= pre.to_set().insert(other.0@[i as int])) by {
                    assert forall|x: BooleanVariable<P>| post.contains(x) <==> pre.contains(x) || x == other.0@[i as int] by {
                        if post.contains(x) {
                            let k = choose|k: int| 0 <= k < post.len() && post[k] == x;
                            if k < i {
                                assert(pre[k] == x);
                            }
                        }
                        if pre.contains(x) {
                            let k = choose|k: int| 0 <= k < pre.len() && pre[k] == x;
                            assert(post[k] == x);
                        }
                        if x == other.0@[i as int] {
                            assert(post[i as int] == x);
                        }
                    }
                }
                assert(m@ =~= self@.union(post.to_set()));
            }
            i = i + 1;
        }
        assert(other.0@.subrange(0, i as int) =~= other.0@);
        m
    }
}

/// Adds to `out` the union of `l` with each minterm of `rhs` that is compatible with it.
fn and_minterm_into<P: Atom>(out: &mut Vec<MinTerm<P>>, l: &MinTerm<P>, rhs: &Vec<MinTerm<P>>)
    ensures
        terms_of(final(out)@) == terms_of(old(out)@).union(
            and_terms(Set::<Set<BooleanVariable<P>>>::empty().insert(l@), terms_of(rhs@)),
        ),
{
    let ghost start = terms_of(out@);
    let ghost single = Set::<Set<BooleanVariable<P>>>::empty().insert(l@);
    let mut j: usize = 0;
    assert(terms_of(rhs@.subrange(0, 0)) =~= Set::<Set<BooleanVariable<P>>>::empty());
    assert(and_terms(single, terms_of(rhs@.subrange(0, 0))) =~= Set::<Set<BooleanVariable<P>>>::empty());
    assert(terms_of(out@) =~= start.union(and_terms(single, terms_of(rhs@.subrange(0, 0)))));
    while j < rhs.len()
        invariant
            j <= rhs@.len(),
            single == Set::<Set<BooleanVariable<P>>>::empty().insert(l@),
            terms_of(out@) == start.union(and_terms(single, terms_of(rhs@.subrange(0, j as int)))),
        decreases rhs@.len() - j,
    {
        let ghost old_out = out@;
        let r = &rhs[j];
        if l.compatible_with(r) {
            let m = l.union(r);
            push_term(out, m);
        }
        assert(terms_of(out@) == if compatible(l@, rhs@[j as int]@) {
            terms_of(old_out).insert(l@.union(rhs@[j as int]@))
        } else {
            terms_of(old_out)
        });
        proof {
            let pre = rhs@.subrange(0, j as int);
            let post = rhs@.subrange(0, j + 1);
            let rj = rhs@[j as int]@;
            assert(terms_of(post) =~= terms_of(pre).insert(rj)) by {
                assert forall|t: Set<BooleanVariable<P>>| #[trigger] terms_of(post).contains(t) <==> terms_of(pre).insert(rj).contains(t) by {
                    if terms_of(post).contains(t) {
                        let k = choose|k: int| 0 <= k < post.len() && (#[trigger] post[k])@ == t;
                        if k < j {
                            assert(pre[k] == post[k]);
                        }
                    }
                    if terms_of(pre).contains(t) {
                        let k = choose|k: int| 0 <= k < pre.len() && (#[trigger] pre[k])@ == t;
                        assert(post[k] == pre[k]);
                    }
                    if t == rj {
                        assert(post[j as int] == rhs@[j as int]);
                    }
                }
            }
            assert(terms_of(out@) =~= start.union(and_terms(single, terms_of(post)))) by {
                assert forall|m: Set<BooleanVariable<P>>| #[trigger] terms_of(out@).contains(m) <==> start.union(and_terms(single, terms_of(post))).contains(m) by {
                    if and_terms(single, terms_of(post)).contains(m) {
                        let (a, b) = choose|a: Set<BooleanVariable<P>>, b: Set<BooleanVariable<P>>| #[trigger] single.contains(a) && #[trigger] terms_of(post).contains(b) && compatible(a, b) && m == a.union(b);
                        if b != rj {
                            assert(terms_of(pre).contains(b));
                            assert(and_terms(single, terms_of(pre)).contains(m));
                        }
                    }
                    if and_terms(single, terms_of(pre)).contains(m) {
                        let (a, b) = choose|a: Set<BooleanVariable<P>>, b: Set<BooleanVariable<P>>| #[trigger] single.contains(a) && #[trigger] terms_of(pre).contains(b) && compatible(a, b) && m == a.union(b);
                        assert(terms_of(post).contains(b));
                    }
                    if compatible(l@, rj) && m == l@.union(rj) {
                        assert(single.contains(l@));
                        assert(terms_of(post).contains(rj));
                    }
                }
            }
        }
        j = j + 1;
    }
    assert(rhs@.subrange(0, j as int) =~= rhs@);
}

impl<P: Atom> PathCondition<P> {
    /// The conjunction of two path conditions: the union of each pair of minterms, one from
    /// each side, unless a variable of one is the negation of a variable of the other.
    pub fn bitand(self, rhs: Self) -> (r: Self)
        ensures
            r@ == and_terms(self@, rhs@),
    {
        let ghost src = self.minterms@;
        let mut out: Vec<MinTerm<P>> = Vec::new();
        let mut i: usize = 0;
        assert(terms_of(src.subrange(0, 0)) =~= Set::<Set<BooleanVariable<P>>>::empty());
        assert(and_terms(terms_of(src.subrange(0, 0)), rhs@) =~= Set::<Set<BooleanVariable<P>>>::empty());
        assert(terms_of(out@) =~= Set::<Set<BooleanVariable<P>>>::empty());
        while i < self.minterms.len()
            invariant
                i <= src.len(),
                src == self.minterms@,
                terms_of(out@) == and_terms(terms_of(src.subrange(0, i as int)), rhs@),
            decreases src.len() - i,
        {
            let ghost old_out = out@;
            and_minterm_into(&mut out, &self.minterms[i], &rhs.minterms);
            proof {
                let pre = src.subrange(0, i as int);
                let post = src.subrange(0, i + 1);
                let l = src[i as int]@;
                let single = Set::<Set<BooleanVariable<P>>>::empty().insert(l);
                assert(terms_of(post) =~= terms_of(pre).insert(l)) by {
                    assert forall|t: Set<BooleanVariable<P>>| #[trigger] terms_of(post).contains(t) <==> terms_of(pre).insert(l).contains(t) by {
                        if terms_of(post).contains(t) {
                            let k = choose|k: int| 0 <= k < post.len() && (#[trigger] post[k])@ == t;
                            if k < i {
                                assert(pre[k] == post[k]);
                            }
                        }
                        if terms_of(pre).contains(t) {
                            let k = choose|k: int| 0 <= k < pre.len() && (#[trigger] pre[k])@ == t;
                            assert(post[k] == pre[k]);
                        }
                        if t == l {
                            assert(post[i as int] == src[i as int]);
                        }
                    }
                }
                assert(terms_of(out@) =~= and_terms(terms_of(post), rhs@)) by {
                    assert forall|m: Set<BooleanVariable<P>>| #[trigger] terms_of(out@).contains(m) <==> and_terms(terms_of(post), rhs@).contains(m) by {
                        if and_terms(terms_of(post), rhs@).contains(m) {
                            let (a, b) = choose|a: Set<BooleanVariable<P>>, b: Set<BooleanVariable<P>>| #[trigger] terms_of(post).contains(a) && #[trigger] rhs@.contains(b) && compatible(a, b) && m == a.union(b);
                            if a != l {
                                assert(terms_of(pre).contains(a));
                                assert(and_terms(terms_of(pre), rhs@).contains(m));
                            } else {
                                assert(single.contains(a));
                                assert(and_terms(single, rhs@).contains(m));
                            }
                        }
                        if and_terms(terms_of(pre), rhs@).contains(m) {
                            let (a, b) = choose|a: Set<BooleanVariable<P>>, b: Set<BooleanVariable<P>>| #[trigger] terms_of(pre).contains(a) && #[trigger] rhs@.contains(b) && compatible(a, b) && m == a.union(b);
                            assert(terms_of(post).contains(a));
                        }
                        if and_terms(single, rhs@).contains(m) {
                            let (a, b) = choose|a: Set<BooleanVariable<P>>, b: Set<BooleanVariable<P>>| #[trigger] single.contains(a) && #[trigger] rhs@.contains(b) && compatible(a, b) && m == a.union(b);
                            assert(a == l);
                            assert(terms_of(post).contains(a));
                        }
                    }
                }
            }
            i = i + 1;
        }
        assert(src.subrange(0, i as int) =~= src);
        PathCondition { minterms: out }
    }
}

/// Whether some variable of the condition has the predicate `p`.
pub open spec fn mentions<P>(c: Set<Set<BooleanVariable<P>>>, p: P) -> bool {
    exists|m: Set<BooleanVariable<P>>, v: BooleanVariable<P>|
        #[trigger] c.contains(m) && #[trigger] m.contains(v) && v.pred_of() == p
}

/// Whether one of the references points to `p`.
pub open spec fn refers_to<P>(r: Seq<&P>, p: P) -> bool {
    exists|k: int| 0 <= k < r.len() && *r[k] == p
}

/// Whether one of the first `i` minterms, or the first `j` variables of minterm `i`, has the
/// predicate `p`.
spec fn mentioned_before<P>(ms: Seq<MinTerm<P>>, i: int, j: int, p: P) -> bool {
    exists|a: int, b: int|
        ((0 <= a < i && 0 <= b < ms[a].0@.len()) || (a == i && 0 <= b < j))
            && (#[trigger] ms[a].0@[b]).pred_of() == p
}

impl<P: Atom> PathCondition<P> {
    /// Returns the predicates used in the path condition, each once.
    pub fn predicates(&self) -> (r: Vec<&P>)
        ensures
            forall|p: P| #[trigger] refers_to(r@, p) <==> mentions(self@, p),
            forall|i: int, j: int| 0 <= i < j < r@.len() ==> *r@[i] != *r@[j],
    {
        let ghost ms = self.minterms@;
        let mut r: Vec<&P> = Vec::new();
        let mut i: usize = 0;
        while i < self.minterms.len()
            invariant
                ms == self.minterms@,
                i <= ms.len(),
                forall|p: P| #[trigger] refers_to(r@, p) <==> mentioned_before(ms, i as int, 0, p),
                forall|x: int, y: int| 0 <= x < y < r@.len() ==> *r@[x] != *r@[y],
            decreases ms.len() - i,
        {
            let vars = &self.minterms[i].0;
            let mut j: usize = 0;
            while j < vars.len()
                invariant
                    ms == self.minterms@,
                    i < ms.len(),
                    *vars == ms[i as int].0,
                    j <= vars@.len(),
                    forall|p: P| #[trigger] refers_to(r@, p) <==> mentioned_before(ms, i as int, j as int, p),
                    forall|x: int, y: int| 0 <= x < y < r@.len() ==> *r@[x] != *r@[y],
                decreases vars@.len() - j,
            {
                let p = vars[j].predicate();
                let mut k: usize = 0;
                let mut seen = false;
                while k < r.len()
                    invariant
                        k <= r@.len(),
                        seen <==> exists|x: int| 0 <= x < k && *r@[x] == *p,
                    decreases r@.len() - k,
                {
                    if r[k].same(p) {
                        seen = true;
                    }
                    k = k + 1;
                }
                let ghost old_r = r@;
                if !seen {
                    r.push(p);
                }
                proof {
                    assert forall|q: P| #[trigger] refers_to(r@, q) <==> mentioned_before(ms, i as int, j + 1, q) by {
                        assert(refers_to(old_r, q) <==> mentioned_before(ms, i as int, j as int, q));
                        if refers_to(r@, q) {
                            let x = choose|x: int| 0 <= x < r@.len() && *r@[x] == q;
                            if x < old_r.len() {
                                assert(*old_r[x] == q);
                                assert(refers_to(old_r, q));
                                let (a, b) = choose|a: int, b: int|
                                    ((0 <= a < i && 0 <= b < ms[a].0@.len()) || (a == i && 0 <= b < j))
                                        && (#[trigger] ms[a].0@[b]).pred_of() == q;
                                assert(((0 <= a < i && 0 <= b < ms[a].0@.len()) || (a == i && 0 <= b < j + 1))
                                        && ms[a].0@[b].pred_of() == q);
                            } else {
                                assert(ms[i as int].0@[j as int].pred_of() == q);
                            }
                        }
                        if mentioned_before(ms, i as int, j + 1, q) {
                            let (a, b) = choose|a: int, b: int|
                                ((0 <= a < i && 0 <= b < ms[a].0@.len()) || (a == i && 0 <= b < j + 1))
                                    && (#[trigger] ms[a].0@[b]).pred_of() == q;
                            if a == i && b == j {
                                if seen {
                                    let x = choose|x: int| 0 <= x < k && *r@[x] == *p;
                                    assert(*r@[x] == q);
                                } else {
                                    assert(*r@[old_r.len() as int] == q);
                                }
                            } else {
                                assert(mentioned_before(ms, i as int, j as int, q));
                                let x = choose|x: int| 0 <= x < old_r.len() && *old_r[x] == q;
                                assert(*r@[x] == q);
                            }
                        }
                    }
                }
                j = j + 1;
            }
            proof {
                assert forall|q: P| #[trigger] refers_to(r@, q) <==> mentioned_before(ms, i + 1, 0, q) by {
                    assert(refers_to(r@, q) <==> mentioned_before(ms, i as int, j as int, q));
                    if mentioned_before(ms, i as int, j as int, q) {
                        let (a, b) = choose|a: int, b: int|
                            ((0 <= a < i && 0 <= b < ms[a].0@.len()) || (a == i && 0 <= b < j))
                                && (#[trigger] ms[a].0@[b]).pred_of() == q;
                        assert(((0 <= a < i + 1 && 0 <= b < ms[a].0@.len()) || (a == i + 1 && 0 <= b < 0))
                                && ms[a].0@[b].pred_of() == q);
                    }
                    if mentioned_before(ms, i + 1, 0, q) {
                        let (a, b) = choose|a: int, b: int|
                            ((0 <= a < i + 1 && 0 <= b < ms[a].0@.len()) || (a == i + 1 && 0 <= b < 0))
                                && (#[trigger] ms[a].0@[b]).pred_of() == q;
                        assert(((0 <= a < i && 0 <= b < ms[a].0@.len()) || (a == i && 0 <= b < j))
                                && ms[a].0@[b].pred_of() == q);
                    }
                }
            }
            i = i + 1;
        }
        proof {
            assert forall|p: P| #[trigger] refers_to(r@, p) <==> mentions(self@, p) by {
                assert(refers_to(r@, p) <==> mentioned_before(ms, ms.len() as int, 0, p));
                if mentioned_before(ms, ms.len() as int, 0, p) {
                    let (a, b) = choose|a: int, b: int|
                        ((0 <= a < ms.len() && 0 <= b < ms[a].0@.len()) || (a == ms.len() && 0 <= b < 0))
                            && (#[trigger] ms[a].0@[b]).pred_of() == p;
                    let m = ms[a]@;
                    let v = ms[a].0@[b];
                    assert(self@.contains(m));
                    assert(m.contains(v));
                }
                if mentions(self@, p) {
                    let (m, v) = choose|m: Set<BooleanVariable<P>>, v: BooleanVariable<P>|
                        #[trigger] self@.contains(m) && #[trigger] m.contains(v) && v.pred_of() == p;
                    let a = choose|a: int| 0 <= a < ms.len() && (#[trigger] ms[a])@ == m;
                    let b = choose|b: int| 0 <= b < ms[a].0@.len() && ms[a].0@[b] == v;
                    assert(ms[a].0@[b].pred_of() == p);
                }
            }
        }
        r
    }

    /// Makes a copy of the path condition.
    pub fn duplicate(&self) -> (r: Self)
        ensures
            r@ == self@,
    {
        let mut out: Vec<MinTerm<P>> = Vec::new();
        let mut i: usize = 0;
        while i < self.minterms.len()
            invariant
                i <= self.minterms@.len(),
                out@.len() == i,
                forall|j: int| 0 <= j < i ==> (#[trigger] out@[j])@ == self.minterms@[j]@,
            decreases self.minterms@.len() - i,
        {
            out.push(self.minterms[i].duplicate());
            i = i + 1;
        }
        let r = PathCondition { minterms: out };
        assert(r@ =~= self@) by {
            assert forall|t: Set<BooleanVariable<P>>| #[trigger] r@.contains(t) <==> self@.contains(t) by {
                if r@.contains(t) {
                    let k = choose|k: int| 0 <= k < out@.len() && (#[trigger] out@[k])@ == t;
                    assert(self.minterms@[k]@ == t);
                }
                if self@.contains(t) {
                    let k = choose|k: int| 0 <= k < self.minterms@.len() && (#[trigger] self.minterms@[k])@ == t;
                    assert(r.minterms@[k]@ == t);
                }
            }
        }
        r
    }
}

/// The disjunction holds exactly when one of the two path conditions holds.
pub proof fn lemma_bitor_holds<P>(a: PathCondition<P>, b: PathCondition<P>, val: spec_fn(P) -> bool)
    ensures
        condition_holds(a@.union(b@), val) == (condition_holds(a@, val) || condition_holds(b@, val)),
{
    if condition_holds(a@.union(b@), val) {
        let m = choose|m: Set<BooleanVariable<P>>| #[trigger] a@.union(b@).contains(m) && minterm_holds(m, val);
        if a@.contains(m) {
            assert(condition_holds(a@, val));
        } else {
            assert(condition_holds(b@, val));
        }
    }
    if condition_holds(a@, val) {
        let m = choose|m: Set<BooleanVariable<P>>| #[trigger] a@.contains(m) && minterm_holds(m, val);
        assert(a@.union(b@).contains(m));
    }
    if condition_holds(b@, val) {
        let m = choose|m: Set<BooleanVariable<P>>| #[trigger] b@.contains(m) && minterm_holds(m, val);
        assert(a@.union(b@).contains(m));
    }
}

/// The conjunction holds exactly when both path conditions hold.
pub proof fn lemma_bitand_holds<P>(a: PathCondition<P>, b: PathCondition<P>, val: spec_fn(P) -> bool)
    ensures
        condition_holds(and_terms(a@, b@), val) == (condition_holds(a@, val) && condition_holds(b@, val)),
{
    if condition_holds(and_terms(a@, b@), val) {
        let m = choose|m: Set<BooleanVariable<P>>| #[trigger] and_terms(a@, b@).contains(m) && minterm_holds(m, val);
        let (l, r) = choose|l: Set<BooleanVariable<P>>, r: Set<BooleanVariable<P>>|
            #[trigger] a@.contains(l) && #[trigger] b@.contains(r) && compatible(l, r) && m == l.union(r);
        assert forall|v: BooleanVariable<P>| #[trigger] l.contains(v) implies v.holds(val) by {
            assert(m.contains(v));
        }
        assert forall|v: BooleanVariable<P>| #[trigger] r.contains(v) implies v.holds(val) by {
            assert(m.contains(v));
        }
        assert(a@.contains(l) && minterm_holds(l, val));
        assert(b@.contains(r) && minterm_holds(r, val));
    }
    if condition_holds(a@, val) && condition_holds(b@, val) {
        let l = choose|m: Set<BooleanVariable<P>>| #[trigger] a@.contains(m) && minterm_holds(m, val);
        let r = choose|m: Set<BooleanVariable<P>>| #[trigger] b@.contains(m) && minterm_holds(m, val);
        assert forall|v: BooleanVariable<P>| #[trigger] r.contains(v) implies !l.contains(v.negated()) by {
            if l.contains(v.negated()) {
                assert(v.holds(val));
                assert(v.negated().holds(val));
            }
        }
        assert(and_terms(a@, b@).contains(l.union(r)));
        assert(minterm_holds(l.union(r), val));
    }
}

/// The conjunction with a variable holds exactly when the path condition and the variable hold.
pub proof fn lemma_bitand_variable_holds<P>(a: PathCondition<P>, v: BooleanVariable<P>, val: spec_fn(P) -> bool)
    ensures
        condition_holds(and_variable_terms(a@, v), val) == (condition_holds(a@, val) && v.holds(val)),
{
    if condition_holds(and_variable_terms(a@, v), val) {
        let m = choose|m: Set<BooleanVariable<P>>| #[trigger] and_variable_terms(a@, v).contains(m) && minterm_holds(m, val);
        let l = choose|l: Set<BooleanVariable<P>>| #[trigger] a@.contains(l) && !l.contains(v.negated()) && m == l.insert(v);
        assert forall|x: BooleanVariable<P>| #[trigger] l.contains(x) implies x.holds(val) by {
            assert(m.contains(x));
        }
        assert(a@.contains(l) && minterm_holds(l, val));
        assert(m.contains(v));
    }
    if condition_holds(a@, val) && v.holds(val) {
        let l = choose|m: Set<BooleanVariable<P>>| #[trigger] a@.contains(m) && minterm_holds(m, val);
        if l.contains(v.negated()) {
            assert(v.negated().holds(val));
        }
        assert(and_variable_terms(a@, v).contains(l.insert(v)));
        assert(minterm_holds(l.insert(v), val));
    }
}

/// The tautology holds under every valuation, and the contradiction under none.
pub proof fn lemma_one_and_zero_hold<P>(one: PathCondition<P>, zero: PathCondition<P>, val: spec_fn(P) -> bool)
    requires
        one@ == Set::<Set<BooleanVariable<P>>>::empty().insert(Set::empty()),
        zero@ == Set::<Set<BooleanVariable<P>>>::empty(),
    ensures
        condition_holds(one@, val),
        !condition_holds(zero@, val),
{
    assert(one@.contains(Set::<BooleanVariable<P>>::empty()));
    assert(minterm_holds(Set::<BooleanVariable<P>>::empty(), val));
}

/// A terminal in a path condition: a constant or a predicate.
#[derive(Debug, PartialEq, Eq, Clone, PartialOrd, Ord)]
pub enum Terminal<P> {
    /// The constant true.
    True,
    /// The constant false.
    False,
    /// A predicate.
    Predicate(P),
}

/// A condition on values.
#[derive(Debug, PartialEq, Eq, Clone, PartialOrd, Ord)]
pub enum Predicate<V> {
    /// The left-hand side is equal to the right-hand side.
    Equal(V, V),
    /// The left-hand side is not equal to the right-hand side.
    NotEqual(V, V),
    /// The left-hand side is less than the right-hand side.
    LessThan(V, V),
    /// The left-hand side is less than or equal to the right-hand side.
    LessThanOrEqual(V, V),
    /// The value is null.
    IsNull(V),
    /// The value is not null.
    IsNotNull(V),
}

impl<V> Predicate<V> {
    /// The predicate that holds exactly when this one does not.
    pub open spec fn negation(self) -> Self {
        match self {
            Predicate::Equal(lhs, rhs) => Predicate::NotEqual(lhs, rhs),
            Predicate::NotEqual(lhs, rhs) => Predicate::Equal(lhs, rhs),
            Predicate::LessThan(lhs, rhs) => Predicate::LessThanOrEqual(rhs, lhs),
            Predicate::LessThanOrEqual(lhs, rhs) => Predicate::LessThan(rhs, lhs),
            Predicate::IsNull(value) => Predicate::IsNotNull(value),
            Predicate::IsNotNull(value) => Predicate::IsNull(value),
        }
    }

    /// Negates the predicate; an order comparison is negated by swapping its sides.
    pub fn not(self) -> (r: Self)
        ensures
            r == self.negation(),
    {
        match self {
            Predicate::Equal(lhs, rhs) => Predicate::NotEqual(lhs, rhs),
            Predicate::NotEqual(lhs, rhs) => Predicate::Equal(lhs, rhs),
            Predicate::LessThan(lhs, rhs) => Predicate::LessThanOrEqual(rhs, lhs),
            Predicate::LessThanOrEqual(lhs, rhs) => Predicate::LessThan(rhs, lhs),
            Predicate::IsNull(value) => Predicate::IsNotNull(value),
            Predicate::IsNotNull(value) => Predicate::IsNull(value),
        }
    }
}

impl<V> Terminal<Predicate<V>> {
    /// The terminal that holds exactly when this one does not.
    pub open spec fn negation(self) -> Self {
        match self {
            Terminal::True => Terminal::False,
            Terminal::False => Terminal::True,
            Terminal::Predicate(p) => Terminal::Predicate(p.negation()),
        }
    }

    /// Negates the terminal.
    pub fn not(self) -> (r: Self)
        ensures
            r == self.negation(),
    {
        match self {
            Terminal::True => Terminal::False,
            Terminal::False => Terminal::True,
            Terminal::Predicate(p) => Terminal::Predicate(p.not()),
        }
    }
}

/// Negating a predicate, a terminal or a variable twice gives it back.
pub proof fn lemma_negation_involutive<V>(p: Predicate<V>, t: Terminal<Predicate<V>>, v: BooleanVariable<V>)
    ensures
        p.negation().negation() == p,
        t.negation().negation() == t,
        v.negated().negated() == v,
        v.negated() != v,
{
}

/// A normalized condition.
#[derive(Debug, PartialEq, Eq, Clone, PartialOrd, Ord)]
pub enum NormalizedPredicate<V> {
    /// The left-hand side is equal to the right-hand side.
    Equal(V, V),
    /// The left-hand side is less than the right-hand side.
    LessThan(V, V),
    /// The left-hand side is less than or equal to the right-hand side.
    LessThanOrEqual(V, V),
    /// The value is null.
    IsNull(V),
}

impl<V: Atom> Atom for Predicate<V> {
    fn same(&self, other: &Self) -> (r: bool) {
        match (self, other) {
            (Predicate::Equal(a, b), Predicate::Equal(c, d)) => a.same(c) && b.same(d),
            (Predicate::NotEqual(a, b), Predicate::NotEqual(c, d)) => a.same(c) && b.same(d),
            (Predicate::LessThan(a, b), Predicate::LessThan(c, d)) => a.same(c) && b.same(d),
            (Predicate::LessThanOrEqual(a, b), Predicate::LessThanOrEqual(c, d)) => a.same(c) && b.same(d),
            (Predicate::IsNull(a), Predicate::IsNull(c)) => a.same(c),
            (Predicate::IsNotNull(a), Predicate::IsNotNull(c)) => a.same(c),
            _ => false,
        }
    }

    fn duplicate(&self) -> (r: Self) {
        match self {
            Predicate::Equal(a, b) => Predicate::Equal(a.duplicate(), b.duplicate()),
            Predicate::NotEqual(a, b) => Predicate::NotEqual(a.duplicate(), b.duplicate()),
            Predicate::LessThan(a, b) => Predicate::LessThan(a.duplicate(), b.duplicate()),
            Predicate::LessThanOrEqual(a, b) => Predicate::LessThanOrEqual(a.duplicate(), b.duplicate()),
            Predicate::IsNull(a) => Predicate::IsNull(a.duplicate()),
            Predicate::IsNotNull(a) => Predicate::IsNotNull(a.duplicate()),
        }
    }
}

impl<V: Atom> Atom for NormalizedPredicate<V> {
    fn same(&self, other: &Self) -> (r: bool) {
        match (self, other) {
            (NormalizedPredicate::Equal(a, b), NormalizedPredicate::Equal(c, d)) => a.same(c) && b.same(d),
            (NormalizedPredicate::LessThan(a, b), NormalizedPredicate::LessThan(c, d)) => a.same(c) && b.same(d),
            (NormalizedPredicate::LessThanOrEqual(a, b), NormalizedPredicate::LessThanOrEqual(c, d)) => a.same(c)
                && b.same(d),
            (NormalizedPredicate::IsNull(a), NormalizedPredicate::IsNull(c)) => a.same(c),
            _ => false,
        }
    }

    fn duplicate(&self) -> (r: Self) {
        match self {
            NormalizedPredicate::Equal(a, b) => NormalizedPredicate::Equal(a.duplicate(), b.duplicate()),
            NormalizedPredicate::LessThan(a, b) => NormalizedPredicate::LessThan(a.duplicate(), b.duplicate()),
            NormalizedPredicate::LessThanOrEqual(a, b) => NormalizedPredicate::LessThanOrEqual(
                a.duplicate(),
                b.duplicate(),
            ),
            NormalizedPredicate::IsNull(a) => NormalizedPredicate::IsNull(a.duplicate()),
        }
    }
}

/// A value that a predicate compares.
#[derive(Debug, Clone)]
pub enum Value {
    /// A variable.
    Variable(Argument),
    /// A constant value.
    Constant(ConstantValue),
}

/// The constant `0` of type `int`.
pub open spec fn zero_value() -> Value {
    Value::Constant(ConstantValue::Integer(0))
}

/// The predicate that a condition of a jump states, comparisons with zero made explicit and
/// "greater" turned into "less" with the sides swapped.
pub open spec fn predicate_of(c: Condition) -> Predicate<Value> {
    match c {
        Condition::IsZero(v) => Predicate::Equal(Value::Variable(v), zero_value()),
        Condition::IsNonZero(v) => Predicate::NotEqual(Value::Variable(v), zero_value()),
        Condition::IsPositive(v) => Predicate::LessThan(zero_value(), Value::Variable(v)),
        Condition::IsNegative(v) => Predicate::LessThan(Value::Variable(v), zero_value()),
        Condition::IsNonPositive(v) => Predicate::LessThanOrEqual(Value::Variable(v), zero_value()),
        Condition::IsNonNegative(v) => Predicate::LessThanOrEqual(zero_value(), Value::Variable(v)),
        Condition::Equal(l, r) => Predicate::Equal(Value::Variable(l), Value::Variable(r)),
        Condition::NotEqual(l, r) => Predicate::NotEqual(Value::Variable(l), Value::Variable(r)),
        Condition::LessThan(l, r) => Predicate::LessThan(Value::Variable(l), Value::Variable(r)),
        Condition::LessThanOrEqual(l, r) => Predicate::LessThanOrEqual(Value::Variable(l), Value::Variable(r)),
        Condition::GreaterThan(l, r) => Predicate::LessThan(Value::Variable(r), Value::Variable(l)),
        Condition::GreaterThanOrEqual(l, r) => Predicate::LessThanOrEqual(Value::Variable(r), Value::Variable(l)),
        Condition::IsNull(v) => Predicate::IsNull(Value::Variable(v)),
        Condition::IsNotNull(v) => Predicate::IsNotNull(Value::Variable(v)),
    }
}

/// Whether two values are copies of each other.
pub open spec fn same_value(a: Value, b: Value) -> bool {
    match (a, b) {
        (Value::Variable(x), Value::Variable(y)) => same_argument(x, y),
        (Value::Constant(x), Value::Constant(y)) => x == y,
        _ => false,
    }
}

/// Whether two predicates are copies of each other.
pub open spec fn pred_agrees(p: Predicate<Value>, q: Predicate<Value>) -> bool {
    match (p, q) {
        (Predicate::Equal(a, b), Predicate::Equal(c, d)) => same_value(a, c) && same_value(b, d),
        (Predicate::NotEqual(a, b), Predicate::NotEqual(c, d)) => same_value(a, c) && same_value(b, d),
        (Predicate::LessThan(a, b), Predicate::LessThan(c, d)) => same_value(a, c) && same_value(b, d),
        (Predicate::LessThanOrEqual(a, b), Predicate::LessThanOrEqual(c, d)) => same_value(a, c) && same_value(b, d),
        (Predicate::IsNull(a), Predicate::IsNull(c)) => same_value(a, c),
        (Predicate::IsNotNull(a), Predicate::IsNotNull(c)) => same_value(a, c),
        _ => false,
    }
}

/// Copies of predicates have copies of negations.
pub proof fn lemma_negation_agrees(p: Predicate<Value>, q: Predicate<Value>)
    requires
        pred_agrees(p, q),
    ensures
        pred_agrees(p.negation(), q.negation()),
{
}

/// A copy of a variable.
fn variable(a: &Argument) -> (r: Value)
    ensures
        same_value(r, Value::Variable(*a)),
{
    Value::Variable(a.duplicate())
}

/// The constant `0` of type `int`.
fn zero() -> (r: Value)
    ensures
        r == zero_value(),
{
    Value::Constant(ConstantValue::Integer(0))
}

/// Whether a predicate holds when each argument stands for the number `num` gives and is
/// null when `null` says so.
pub open spec fn predicate_holds(
    p: Predicate<Value>,
    num: spec_fn(Argument) -> int,
    null: spec_fn(Argument) -> bool,
) -> bool {
    match p {
        Predicate::Equal(x, y) => value_number(x, num) == value_number(y, num),
        Predicate::NotEqual(x, y) => value_number(x, num) != value_number(y, num),
        Predicate::LessThan(x, y) => value_number(x, num) < value_number(y, num),
        Predicate::LessThanOrEqual(x, y) => value_number(x, num) <= value_number(y, num),
        Predicate::IsNull(x) => value_null(x, null),
        Predicate::IsNotNull(x) => !value_null(x, null),
    }
}

/// The predicate of a jump condition holds exactly when the condition does, whatever the
/// arguments stand for.
pub proof fn lemma_predicate_keeps_meaning(
    c: Condition,
    num: spec_fn(Argument) -> int,
    null: spec_fn(Argument) -> bool,
)
    ensures
        predicate_holds(predicate_of(c), num, null) == jump_condition_holds(c, num, null),
{
}

/// Two predicates that are copies of each other hold under the same readings.
pub proof fn lemma_agreeing_predicates_hold_alike(
    p: Predicate<Value>,
    q: Predicate<Value>,
    num: spec_fn(Argument) -> int,
    null: spec_fn(Argument) -> bool,
)
    requires
        pred_agrees(p, q),
        reads_copies_alike(num, null),
    ensures
        predicate_holds(p, num, null) == predicate_holds(q, num, null),
{
    match (p, q) {
        (Predicate::Equal(x, y), Predicate::Equal(u, v))
        | (Predicate::NotEqual(x, y), Predicate::NotEqual(u, v))
        | (Predicate::LessThan(x, y), Predicate::LessThan(u, v))
        | (Predicate::LessThanOrEqual(x, y), Predicate::LessThanOrEqual(u, v)) => {
            if let (Value::Variable(x1), Value::Variable(u1)) = (x, u) {
                assert(same_argument(x1, u1));
            }
            if let (Value::Variable(y1), Value::Variable(v1)) = (y, v) {
                assert(same_argument(y1, v1));
            }
        },
        (Predicate::IsNull(x), Predicate::IsNull(u)) | (Predicate::IsNotNull(x), Predicate::IsNotNull(u)) => {
            if let (Value::Variable(x1), Value::Variable(u1)) = (x, u) {
                assert(same_argument(x1, u1));
            }
        },
        _ => {},
    }
}

impl Predicate<Value> {
    /// Gives the predicate that the condition of a jump states. It holds exactly when the
    /// condition does, under every reading of the arguments that gives copies of an argument
    /// the same number and nullness.
    pub fn from_condition(c: &Condition) -> (r: Self)
        ensures
            pred_agrees(r, predicate_of(*c)),
            forall|num: spec_fn(Argument) -> int, null: spec_fn(Argument) -> bool|
                reads_copies_alike(num, null) ==> #[trigger] predicate_holds(r, num, null)
                    == jump_condition_holds(*c, num, null),
    {
        let r = Self::predicate_of_condition(c);
        proof {
            assert forall|num: spec_fn(Argument) -> int, null: spec_fn(Argument) -> bool|
                reads_copies_alike(num, null) implies #[trigger] predicate_holds(r, num, null)
                    == jump_condition_holds(*c, num, null) by {
                lemma_agreeing_predicates_hold_alike(r, predicate_of(*c), num, null);
                lemma_predicate_keeps_meaning(*c, num, null);
            }
        }
        r
    }

    /// Builds the predicate of a jump condition.
    fn predicate_of_condition(c: &Condition) -> (r: Self)
        ensures
            pred_agrees(r, predicate_of(*c)),
    {
        match c {
            Condition::IsZero(v) => Predicate::Equal(variable(v), zero()),
            Condition::IsNonZero(v) => Predicate::NotEqual(variable(v), zero()),
            Condition::IsPositive(v) => Predicate::LessThan(zero(), variable(v)),
            Condition::IsNegative(v) => Predicate::LessThan(variable(v), zero()),
            Condition::IsNonPositive(v) => Predicate::LessThanOrEqual(variable(v), zero()),
            Condition::IsNonNegative(v) => Predicate::LessThanOrEqual(zero(), variable(v)),
            Condition::Equal(l, r) => Predicate::Equal(variable(l), variable(r)),
            Condition::NotEqual(l, r) => Predicate::NotEqual(variable(l), variable(r)),
            Condition::LessThan(l, r) => Predicate::LessThan(variable(l), variable(r)),
            Condition::LessThanOrEqual(l, r) => Predicate::LessThanOrEqual(variable(l), variable(r)),
            Condition::GreaterThan(l, r) => Predicate::LessThan(variable(r), variable(l)),
            Condition::GreaterThanOrEqual(l, r) => Predicate::LessThanOrEqual(variable(r), variable(l)),
            Condition::IsNull(v) => Predicate::IsNull(variable(v)),
            Condition::IsNotNull(v) => Predicate::IsNotNull(variable(v)),
        }
    }
}

/// The keys of identifiers, in the same order.
pub open spec fn keys_of(ids: Seq<Identifier>) -> Seq<int> {
    ids.map_values(|i: Identifier| id_key(i))
}

/// Whether the sequence of keys `s` comes before `t` in lexicographic order: at the first
/// place where they differ, or when `s` is a proper prefix of `t`.
pub open spec fn keys_lt(s: Seq<int>, t: Seq<int>) -> bool
    decreases s.len(),
{
    if s.len() == 0 {
        t.len() > 0
    } else if t.len() == 0 {
        false
    } else if s[0] != t[0] {
        s[0] < t[0]
    } else {
        keys_lt(s.drop_first(), t.drop_first())
    }
}

/// Whether argument `a` comes before `b`: a single identifier before a phi node, single
/// identifiers in the order of identifiers, and phi nodes by their identifiers in
/// increasing order, compared lexicographically.
pub open spec fn argument_lt(a: Argument, b: Argument) -> bool {
    match (a, b) {
        (Argument::Id(x), Argument::Id(y)) => id_key(x) < id_key(y),
        (Argument::Id(_), Argument::Phi(_)) => true,
        (Argument::Phi(_), Argument::Id(_)) => false,
        (Argument::Phi(s), Argument::Phi(t)) => keys_lt(keys_of(s.elements()), keys_of(t.elements())),
    }
}

/// No sequence of keys comes before itself, and of two sequences at most one comes before the
/// other.
pub proof fn lemma_keys_lt_asymmetric(s: Seq<int>, t: Seq<int>)
    ensures
        !(keys_lt(s, t) && keys_lt(t, s)),
    decreases s.len(),
{
    if s.len() > 0 && t.len() > 0 && s[0] == t[0] {
        lemma_keys_lt_asymmetric(s.drop_first(), t.drop_first());
    }
}

/// Whether `a` comes before `b` in the order of arguments.
#[verifier::loop_isolation(false)]
fn argument_less(a: &Argument, b: &Argument) -> (r: bool)
    ensures
        r == argument_lt(*a, *b),
{
    match (a, b) {
        (Argument::Id(x), Argument::Id(y)) => x.key() < y.key(),
        (Argument::Id(_), Argument::Phi(_)) => true,
        (Argument::Phi(_), Argument::Id(_)) => false,
        (Argument::Phi(s), Argument::Phi(t)) => {
            let u = s.to_vec();
            let v = t.to_vec();
            let ghost ks = keys_of(u@);
            let ghost kt = keys_of(v@);
            let mut k: usize = 0;
            assert(ks.skip(0) =~= ks && kt.skip(0) =~= kt);
            while k < u.len() && k < v.len()
                invariant
                    k <= u@.len(),
                    k <= v@.len(),
                    ks == keys_of(u@),
                    kt == keys_of(v@),
                    keys_lt(ks, kt) == keys_lt(ks.skip(k as int), kt.skip(k as int)),
                decreases u@.len() - k,
            {
                let x = u[k].key();
                let y = v[k].key();
                proof {
                    let a = ks.skip(k as int);
                    let b = kt.skip(k as int);
                    assert(a[0] == x && b[0] == y);
                    assert(a.drop_first() =~= ks.skip(k + 1));
                    assert(b.drop_first() =~= kt.skip(k + 1));
                }
                if x != y {
                    return x < y;
                }
                k = k + 1;
            }
            proof {
                let a = ks.skip(k as int);
                let b = kt.skip(k as int);
                assert(a.len() == 0 || b.len() == 0);
            }
            u.len() < v.len()
        },
    }
}

/// The boolean variable of the normalized predicate that a condition states. A comparison
/// with zero keeps the zero on the right. A comparison of two arguments puts the one that
/// comes first on the left, and a "greater" comparison, or one whose sides are swapped, is
/// stated as the negation of the opposite comparison.
pub open spec fn normalized_of(c: Condition) -> BooleanVariable<NormalizedPredicate<Value>> {
    let z = zero_value();
    match c {
        Condition::IsNull(v) => BooleanVariable::Positive(NormalizedPredicate::IsNull(Value::Variable(v))),
        Condition::IsNotNull(v) => BooleanVariable::Negative(NormalizedPredicate::IsNull(Value::Variable(v))),
        Condition::IsZero(v) => BooleanVariable::Positive(NormalizedPredicate::Equal(Value::Variable(v), z)),
        Condition::IsNonZero(v) => BooleanVariable::Negative(NormalizedPredicate::Equal(Value::Variable(v), z)),
        Condition::IsPositive(v) => BooleanVariable::Negative(NormalizedPredicate::LessThanOrEqual(Value::Variable(v), z)),
        Condition::IsNegative(v) => BooleanVariable::Positive(NormalizedPredicate::LessThan(Value::Variable(v), z)),
        Condition::IsNonPositive(v) => BooleanVariable::Positive(NormalizedPredicate::LessThanOrEqual(Value::Variable(v), z)),
        Condition::IsNonNegative(v) => BooleanVariable::Negative(NormalizedPredicate::LessThan(Value::Variable(v), z)),
        Condition::Equal(l, r) => if argument_lt(l, r) {
            BooleanVariable::Positive(NormalizedPredicate::Equal(Value::Variable(l), Value::Variable(r)))
        } else {
            BooleanVariable::Positive(NormalizedPredicate::Equal(Value::Variable(r), Value::Variable(l)))
        },
        Condition::NotEqual(l, r) => if argument_lt(l, r) {
            BooleanVariable::Negative(NormalizedPredicate::Equal(Value::Variable(l), Value::Variable(r)))
        } else {
            BooleanVariable::Negative(NormalizedPredicate::Equal(Value::Variable(r), Value::Variable(l)))
        },
        Condition::LessThan(l, r) => if argument_lt(l, r) {
            BooleanVariable::Positive(NormalizedPredicate::LessThan(Value::Variable(l), Value::Variable(r)))
        } else {
            BooleanVariable::Negative(NormalizedPredicate::LessThanOrEqual(Value::Variable(r), Value::Variable(l)))
        },
        Condition::LessThanOrEqual(l, r) => if argument_lt(l, r) {
            BooleanVariable::Positive(NormalizedPredicate::LessThanOrEqual(Value::Variable(l), Value::Variable(r)))
        } else {
            BooleanVariable::Negative(NormalizedPredicate::LessThan(Value::Variable(r), Value::Variable(l)))
        },
        Condition::GreaterThan(l, r) => if argument_lt(l, r) {
            BooleanVariable::Negative(NormalizedPredicate::LessThanOrEqual(Value::Variable(l), Value::Variable(r)))
        } else {
            BooleanVariable::Positive(NormalizedPredicate::LessThan(Value::Variable(r), Value::Variable(l)))
        },
        Condition::GreaterThanOrEqual(l, r) => if argument_lt(l, r) {
            BooleanVariable::Negative(NormalizedPredicate::LessThan(Value::Variable(l), Value::Variable(r)))
        } else {
            BooleanVariable::Positive(NormalizedPredicate::LessThanOrEqual(Value::Variable(r), Value::Variable(l)))
        },
    }
}

/// Whether two normalized predicates are copies of each other.
pub open spec fn normalized_agrees(p: NormalizedPredicate<Value>, q: NormalizedPredicate<Value>) -> bool {
    match (p, q) {
        (NormalizedPredicate::Equal(a, b), NormalizedPredicate::Equal(c, d)) => same_value(a, c) && same_value(b, d),
        (NormalizedPredicate::LessThan(a, b), NormalizedPredicate::LessThan(c, d)) => same_value(a, c) && same_value(b, d),
        (NormalizedPredicate::LessThanOrEqual(a, b), NormalizedPredicate::LessThanOrEqual(c, d)) => same_value(a, c)
            && same_value(b, d),
        (NormalizedPredicate::IsNull(a), NormalizedPredicate::IsNull(c)) => same_value(a, c),
        _ => false,
    }
}

/// Whether two boolean variables of normalized predicates are copies of each other.
pub open spec fn normalized_var_agrees(
    a: BooleanVariable<NormalizedPredicate<Value>>,
    b: BooleanVariable<NormalizedPredicate<Value>>,
) -> bool {
    match (a, b) {
        (BooleanVariable::Positive(p), BooleanVariable::Positive(q)) => normalized_agrees(p, q),
        (BooleanVariable::Negative(p), BooleanVariable::Negative(q)) => normalized_agrees(p, q),
        _ => false,
    }
}

/// The number that a value stands for: that of the variable, the integer of a constant, and
/// 0 for other constants.
pub open spec fn value_number(v: Value, num: spec_fn(Argument) -> int) -> int {
    match v {
        Value::Variable(a) => num(a),
        Value::Constant(ConstantValue::Integer(k)) => k as int,
        _ => 0,
    }
}

/// Whether a value is null: that of the variable, and for constants `null` alone.
pub open spec fn value_null(v: Value, null: spec_fn(Argument) -> bool) -> bool {
    match v {
        Value::Variable(a) => null(a),
        Value::Constant(ConstantValue::Null) => true,
        _ => false,
    }
}

/// Whether a condition holds when each argument stands for the number `num` gives and is
/// null when `null` says so.
pub open spec fn jump_condition_holds(c: Condition, num: spec_fn(Argument) -> int, null: spec_fn(Argument) -> bool) -> bool {
    match c {
        Condition::Equal(l, r) => num(l) == num(r),
        Condition::NotEqual(l, r) => num(l) != num(r),
        Condition::LessThan(l, r) => num(l) < num(r),
        Condition::LessThanOrEqual(l, r) => num(l) <= num(r),
        Condition::GreaterThan(l, r) => num(l) > num(r),
        Condition::GreaterThanOrEqual(l, r) => num(l) >= num(r),
        Condition::IsNull(v) => null(v),
        Condition::IsNotNull(v) => !null(v),
        Condition::IsZero(v) => num(v) == 0,
        Condition::IsNonZero(v) => num(v) != 0,
        Condition::IsPositive(v) => num(v) > 0,
        Condition::IsNegative(v) => num(v) < 0,
        Condition::IsNonNegative(v) => num(v) >= 0,
        Condition::IsNonPositive(v) => num(v) <= 0,
    }
}

/// Whether a boolean variable of a normalized predicate holds under the same reading.
pub open spec fn normalized_var_holds(
    b: BooleanVariable<NormalizedPredicate<Value>>,
    num: spec_fn(Argument) -> int,
    null: spec_fn(Argument) -> bool,
) -> bool {
    let holds = |p: NormalizedPredicate<Value>|
        match p {
            NormalizedPredicate::Equal(x, y) => value_number(x, num) == value_number(y, num),
            NormalizedPredicate::LessThan(x, y) => value_number(x, num) < value_number(y, num),
            NormalizedPredicate::LessThanOrEqual(x, y) => value_number(x, num) <= value_number(y, num),
            NormalizedPredicate::IsNull(x) => value_null(x, null),
        };
    match b {
        BooleanVariable::Positive(p) => holds(p),
        BooleanVariable::Negative(p) => !holds(p),
    }
}

/// Normalizing a condition keeps its meaning: the normalized variable holds exactly when the
/// condition does, whatever the arguments stand for.
pub proof fn lemma_normalization_keeps_meaning(
    c: Condition,
    num: spec_fn(Argument) -> int,
    null: spec_fn(Argument) -> bool,
)
    ensures
        normalized_var_holds(normalized_of(c), num, null) == jump_condition_holds(c, num, null),
{
}

/// In the normalized form of a comparison of two arguments, the argument on the left does
/// not come after the one on the right.
pub proof fn lemma_normalization_orders_sides(c: Condition)
    ensures
        match normalized_of(c).pred_of() {
            NormalizedPredicate::Equal(Value::Variable(x), Value::Variable(y)) => !argument_lt(y, x),
            NormalizedPredicate::LessThan(Value::Variable(x), Value::Variable(y)) => !argument_lt(y, x),
            NormalizedPredicate::LessThanOrEqual(Value::Variable(x), Value::Variable(y)) => !argument_lt(y, x),
            _ => true,
        },
{
    match c {
        Condition::Equal(l, r) | Condition::NotEqual(l, r) | Condition::LessThan(l, r) | Condition::LessThanOrEqual(l, r)
        | Condition::GreaterThan(l, r) | Condition::GreaterThanOrEqual(l, r) => {
            if let (Argument::Phi(s), Argument::Phi(t)) = (l, r) {
                lemma_keys_lt_asymmetric(keys_of(s.elements()), keys_of(t.elements()));
            }
        },
        _ => {},
    }
}

/// Whether a reading of arguments gives copies of an argument the same number and nullness.
pub open spec fn reads_copies_alike(num: spec_fn(Argument) -> int, null: spec_fn(Argument) -> bool) -> bool {
    forall|x: Argument, y: Argument| #[trigger] same_argument(x, y) ==> num(x) == num(y) && null(x) == null(y)
}

/// Two boolean variables that are copies of each other hold under the same readings.
pub proof fn lemma_agreeing_variables_hold_alike(
    a: BooleanVariable<NormalizedPredicate<Value>>,
    b: BooleanVariable<NormalizedPredicate<Value>>,
    num: spec_fn(Argument) -> int,
    null: spec_fn(Argument) -> bool,
)
    requires
        normalized_var_agrees(a, b),
        reads_copies_alike(num, null),
    ensures
        normalized_var_holds(a, num, null) == normalized_var_holds(b, num, null),
{
    let (p, q) = match (a, b) {
        (BooleanVariable::Positive(p), BooleanVariable::Positive(q)) => (p, q),
        (BooleanVariable::Negative(p), BooleanVariable::Negative(q)) => (p, q),
        _ => (a.pred_of(), b.pred_of()),
    };
    match (p, q) {
        (NormalizedPredicate::Equal(x, y), NormalizedPredicate::Equal(u, v))
        | (NormalizedPredicate::LessThan(x, y), NormalizedPredicate::LessThan(u, v))
        | (NormalizedPredicate::LessThanOrEqual(x, y), NormalizedPredicate::LessThanOrEqual(u, v)) => {
            if let (Value::Variable(x1), Value::Variable(u1)) = (x, u) {
                assert(same_argument(x1, u1));
            }
            if let (Value::Variable(y1), Value::Variable(v1)) = (y, v) {
                assert(same_argument(y1, v1));
            }
        },
        (NormalizedPredicate::IsNull(x), NormalizedPredicate::IsNull(u)) => {
            if let (Value::Variable(x1), Value::Variable(u1)) = (x, u) {
                assert(same_argument(x1, u1));
            }
        },
        _ => {},
    }
}

impl BooleanVariable<NormalizedPredicate<Value>> {
    /// The boolean variable of the normalized predicate that a condition states. It holds
    /// exactly when the condition does, under every reading of the arguments that gives copies
    /// of an argument the same number and nullness.
    pub fn from_condition(c: &Condition) -> (r: Self)
        ensures
            normalized_var_agrees(r, normalized_of(*c)),
            forall|num: spec_fn(Argument) -> int, null: spec_fn(Argument) -> bool|
                reads_copies_alike(num, null) ==> #[trigger] normalized_var_holds(r, num, null)
                    == jump_condition_holds(*c, num, null),
    {
        let r = Self::normalize(c);
        proof {
            assert forall|num: spec_fn(Argument) -> int, null: spec_fn(Argument) -> bool|
                reads_copies_alike(num, null) implies #[trigger] normalized_var_holds(r, num, null)
                    == jump_condition_holds(*c, num, null) by {
                lemma_agreeing_variables_hold_alike(r, normalized_of(*c), num, null);
                lemma_normalization_keeps_meaning(*c, num, null);
            }
        }
        r
    }

    /// Builds the normalized boolean variable of a condition.
    fn normalize(c: &Condition) -> (r: Self)
        ensures
            normalized_var_agrees(r, normalized_of(*c)),
    {
        let z = Value::Constant(ConstantValue::Integer(0));
        match c {
            Condition::IsNull(v) => BooleanVariable::Positive(NormalizedPredicate::IsNull(variable(v))),
            Condition::IsNotNull(v) => BooleanVariable::Negative(NormalizedPredicate::IsNull(variable(v))),
            Condition::IsZero(v) => BooleanVariable::Positive(NormalizedPredicate::Equal(variable(v), z)),
            Condition::IsNonZero(v) => BooleanVariable::Negative(NormalizedPredicate::Equal(variable(v), z)),
            Condition::IsPositive(v) => BooleanVariable::Negative(NormalizedPredicate::LessThanOrEqual(variable(v), z)),
            Condition::IsNegative(v) => BooleanVariable::Positive(NormalizedPredicate::LessThan(variable(v), z)),
            Condition::IsNonPositive(v) => BooleanVariable::Positive(NormalizedPredicate::LessThanOrEqual(variable(v), z)),
            Condition::IsNonNegative(v) => BooleanVariable::Negative(NormalizedPredicate::LessThan(variable(v), z)),
            Condition::Equal(l, r) => if argument_less(l, r) {
                BooleanVariable::Positive(NormalizedPredicate::Equal(variable(l), variable(r)))
            } else {
                BooleanVariable::Positive(NormalizedPredicate::Equal(variable(r), variable(l)))
            },
            Condition::NotEqual(l, r) => if argument_less(l, r) {
                BooleanVariable::Negative(NormalizedPredicate::Equal(variable(l), variable(r)))
            } else {
                BooleanVariable::Negative(NormalizedPredicate::Equal(variable(r), variable(l)))
            },
            Condition::LessThan(l, r) => if argument_less(l, r) {
                BooleanVariable::Positive(NormalizedPredicate::LessThan(variable(l), variable(r)))
            } else {
                BooleanVariable::Negative(NormalizedPredicate::LessThanOrEqual(variable(r), variable(l)))
            },
            Condition::LessThanOrEqual(l, r) => if argument_less(l, r) {
                BooleanVariable::Positive(NormalizedPredicate::LessThanOrEqual(variable(l), variable(r)))
            } else {
                BooleanVariable::Negative(NormalizedPredicate::LessThan(variable(r), variable(l)))
            },
            Condition::GreaterThan(l, r) => if argument_less(l, r) {
                BooleanVariable::Negative(NormalizedPredicate::LessThanOrEqual(variable(l), variable(r)))
            } else {
                BooleanVariable::Positive(NormalizedPredicate::LessThan(variable(r), variable(l)))
            },
            Condition::GreaterThanOrEqual(l, r) => if argument_less(l, r) {
                BooleanVariable::Negative(NormalizedPredicate::LessThan(variable(l), variable(r)))
            } else {
                BooleanVariable::Positive(NormalizedPredicate::LessThanOrEqual(variable(r), variable(l)))
            },
        }
    }
}

} // verus!
