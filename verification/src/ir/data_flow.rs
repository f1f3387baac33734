//! Data flow: where each value is defined and where each identifier is used.
use vstd::prelude::*;

use crate::ir::moka_instruction::{Identifier, IdentifierSet, LocalValue, MokaInstruction};
use crate::jvm::code::method_body::pcs_increasing;
use crate::jvm::code::pc::group_pc_facts;
use crate::jvm::code::{InstructionList, ProgramCounter};

verus! {

broadcast use group_pc_facts;

/// Where each value of a method in Moka IR is defined, and where each identifier is used.
#[derive(Debug)]
pub struct DefUseChain {
    defs: Vec<(ProgramCounter, Option<LocalValue>)>,
    uses: Vec<(ProgramCounter, IdentifierSet)>,
}

/// Whether the instruction at position `i` is the last one that defines `v`.
pub open spec fn last_def_at(entries: Seq<(ProgramCounter, MokaInstruction)>, v: LocalValue, i: int) -> bool {
    &&& 0 <= i < entries.len()
    &&& entries[i].1.defined() == Some(v)
    &&& forall|j: int| i < j < entries.len() ==> (#[trigger] entries[j]).1.defined() != Some(v)
}

/// The locations of the instructions that use `id`.
pub open spec fn use_sites(entries: Seq<(ProgramCounter, MokaInstruction)>, id: Identifier) -> Set<ProgramCounter> {
    Set::new(|pc: ProgramCounter| exists|i: int| 0 <= i < entries.len() && (#[trigger] entries[i]).0 == pc && entries[i].1.used_ids().contains(id))
}

impl DefUseChain {
    /// The locations and definitions of the instructions, in order.
    pub closed spec fn defs_of(self) -> Seq<(ProgramCounter, Option<LocalValue>)> {
        self.defs@
    }

    /// The locations and used identifiers of the instructions, in order.
    pub closed spec fn uses_of(self) -> Seq<(ProgramCounter, Set<Identifier>)> {
        self.uses@.map_values(|e: (ProgramCounter, IdentifierSet)| (e.0, e.1@))
    }

    /// Whether the chain was built from the instructions `entries`.
    pub open spec fn built_from(self, entries: Seq<(ProgramCounter, MokaInstruction)>) -> bool {
        &&& pcs_increasing(entries)
        &&& self.defs_of().len() == entries.len()
        &&& self.uses_of().len() == entries.len()
        &&& forall|i: int| 0 <= i < entries.len() ==> (#[trigger] self.defs_of()[i]) == (entries[i].0, entries[i].1.defined())
        &&& forall|i: int| 0 <= i < entries.len() ==> (#[trigger] self.uses_of()[i]) == (entries[i].0, entries[i].1.used_ids())
    }

    /// Builds the chain of a list of instructions.
    pub fn new(instructions: &InstructionList<MokaInstruction>) -> (r: Self)
        ensures
            r.built_from(instructions.entries()),
    {
        instructions.check_sorted();
        let items = instructions.iter();
        let mut defs: Vec<(ProgramCounter, Option<LocalValue>)> = Vec::new();
        let mut uses: Vec<(ProgramCounter, IdentifierSet)> = Vec::new();
        let mut i: usize = 0;
        while i < items.len()
            invariant
                i <= items@.len(),
                items@.len() == instructions.entries().len(),
                forall|k: int| 0 <= k < items@.len() ==> (#[trigger] items@[k]).0 == instructions.entries()[k].0
                    && *items@[k].1 == instructions.entries()[k].1,
                defs@.len() == i,
                uses@.len() == i,
                forall|k: int| 0 <= k < i ==> (#[trigger] defs@[k]) == (instructions.entries()[k].0, instructions.entries()[k].1.defined()),
                forall|k: int| 0 <= k < i ==> (#[trigger] uses@[k]).0 == instructions.entries()[k].0
                    && uses@[k].1@ == instructions.entries()[k].1.used_ids(),
            decreases items@.len() - i,
        {
            let (pc, insn) = items[i];
            defs.push((pc, insn.def()));
            uses.push((pc, insn.uses()));
            i = i + 1;
        }
        let r = DefUseChain { defs, uses };
        assert forall|k: int| 0 <= k < instructions.entries().len() implies (#[trigger] r.uses_of()[k]) == (
            instructions.entries()[k].0,
            instructions.entries()[k].1.used_ids(),
        ) by {
            assert(r.uses_of()[k] == (r.uses@[k].0, r.uses@[k].1@));
        }
        r
    }

    /// Gets the location of the instruction that defines `value`: the last one, if several do.
    pub fn defined_at(&self, value: &LocalValue) -> (r: Option<ProgramCounter>)
        ensures
            forall|entries: Seq<(ProgramCounter, MokaInstruction)>| #[trigger] self.built_from(entries) ==> (match r {
                Some(pc) => exists|i: int| last_def_at(entries, *value, i) && entries[i].0 == pc,
                None => forall|i: int| 0 <= i < entries.len() ==> (#[trigger] entries[i]).1.defined() != Some(*value),
            }),
    {
        let mut i: usize = self.defs.len();
        while i > 0
            invariant
                i <= self.defs@.len(),
                forall|j: int| i <= j < self.defs@.len() ==> (#[trigger] self.defs@[j]).1 != Some(*value),
            decreases i,
        {
            if let Some(v) = self.defs[i - 1].1 {
                if v == *value {
                    let pc = self.defs[i - 1].0;
                    proof {
                        assert forall|entries: Seq<(ProgramCounter, MokaInstruction)>| #[trigger] self.built_from(entries) implies exists|k: int|
                            last_def_at(entries, *value, k) && entries[k].0 == pc by {
                            assert(self.defs_of()[i - 1] == (entries[i - 1].0, entries[i - 1].1.defined()));
                            assert forall|j: int| i - 1 < j < entries.len() implies (#[trigger] entries[j]).1.defined() != Some(*value) by {
                                assert(self.defs_of()[j] == (entries[j].0, entries[j].1.defined()));
                            }
                            assert(last_def_at(entries, *value, i - 1));
                        }
                    }
                    return Some(pc);
                }
            }
            i = i - 1;
        }
        proof {
            assert forall|entries: Seq<(ProgramCounter, MokaInstruction)>, j: int| #[trigger] self.built_from(entries) && 0 <= j < entries.len()
                implies (#[trigger] entries[j]).1.defined() != Some(*value) by {
                assert(self.defs_of()[j] == (entries[j].0, entries[j].1.defined()));
            }
        }
        None
    }

    /// Gets the locations of the instructions that use `id`, in increasing order.
    pub fn used_at(&self, id: &Identifier) -> (r: Vec<ProgramCounter>)
        ensures
            forall|entries: Seq<(ProgramCounter, MokaInstruction)>| #[trigger] self.built_from(entries) ==> r@.to_set()
                == use_sites(entries, *id) && pcs_increasing(r@.map_values(|pc: ProgramCounter| (pc, ()))),
    {
        let mut r: Vec<ProgramCounter> = Vec::new();
        let mut i: usize = 0;
        let ghost mut taken: Seq<int> = Seq::empty();
        while i < self.uses.len()
            invariant
                i <= self.uses@.len(),
                r@.len() == taken.len(),
                forall|k: int| 0 <= k < taken.len() ==> 0 <= #[trigger] taken[k] < i && r@[k] == self.uses@[taken[k]].0
                    && self.uses@[taken[k]].1@.contains(*id),
                forall|k: int, l: int| 0 <= k < l < taken.len() ==> taken[k] < taken[l],
                forall|j: int| 0 <= j < i && self.uses@[j].1@.contains(*id) ==> exists|k: int| 0 <= k < taken.len() && taken[k] == j,
            decreases self.uses@.len() - i,
        {
            let ghost before = taken;
            let found = self.uses[i].1.contains(id);
            if found {
                r.push(self.uses[i].0);
                proof {
                    taken = taken.push(i as int);
                }
            }
            proof {
                assert forall|j: int| 0 <= j < i + 1 && self.uses@[j].1@.contains(*id) implies exists|k: int|
                    0 <= k < taken.len() && taken[k] == j by {
                    if j < i {
                        let k = choose|k: int| 0 <= k < before.len() && before[k] == j;
                        assert(taken[k] == j);
                    } else {
                        assert(taken[taken.len() - 1] == j);
                    }
                }
            }
            i = i + 1;
        }
        proof {
            assert forall|entries: Seq<(ProgramCounter, MokaInstruction)>| #[trigger] self.built_from(entries) implies r@.to_set()
                == use_sites(entries, *id) && pcs_increasing(r@.map_values(|pc: ProgramCounter| (pc, ()))) by {
                assert forall|pc: ProgramCounter| r@.to_set().contains(pc) <==> use_sites(entries, *id).contains(pc) by {
                    if r@.to_set().contains(pc) {
                        let k = choose|k: int| 0 <= k < r@.len() && r@[k] == pc;
                        let j = taken[k];
                        assert(self.uses_of()[j] == (entries[j].0, entries[j].1.used_ids()));
                        assert(self.uses_of()[j] == (self.uses@[j].0, self.uses@[j].1@));
                    }
                    if use_sites(entries, *id).contains(pc) {
                        let j = choose|j: int| 0 <= j < entries.len() && (#[trigger] entries[j]).0 == pc && entries[j].1.used_ids().contains(*id);
                        assert(self.uses_of()[j] == (entries[j].0, entries[j].1.used_ids()));
                        assert(self.uses_of()[j] == (self.uses@[j].0, self.uses@[j].1@));
                        let k = choose|k: int| 0 <= k < taken.len() && taken[k] == j;
                        assert(r@[k] == pc);
                    }
                }
                assert(r@.to_set() =~= use_sites(entries, *id));
                let m = r@.map_values(|pc: ProgramCounter| (pc, ()));
                assert forall|a: int, b: int| 0 <= a < b < m.len() implies (#[trigger] m[a]).0@ < (#[trigger] m[b]).0@ by {
                    let ta = taken[a];
                    let tb = taken[b];
                    assert(self.uses_of()[ta] == (entries[ta].0, entries[ta].1.used_ids()));
                    assert(self.uses_of()[tb] == (entries[tb].0, entries[tb].1.used_ids()));
                    assert(self.uses_of()[ta] == (self.uses@[ta].0, self.uses@[ta].1@));
                    assert(self.uses_of()[tb] == (self.uses@[tb].0, self.uses@[tb].1@));
                    assert(entries[ta].0@ < entries[tb].0@);
                }
            }
        }
        r
    }
}

} // verus!
