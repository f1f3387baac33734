//! The bodies of methods: their instructions and exception handlers.
use vstd::prelude::*;

use core::ops::Range;

use crate::jvm::bytecode::errors::{ParseError, ParsingErrorKind};
use crate::jvm::code::pc::{group_pc_facts, ProgramCounter};
use crate::jvm::code::instruction::Instruction;
use crate::jvm::references::ClassRef;
use crate::jvm::TypeAnnotation;
use crate::types::FieldType;

verus! {

broadcast use group_pc_facts;

/// Whether the locations of a list of entries strictly increase.
pub open spec fn pcs_increasing<I>(s: Seq<(ProgramCounter, I)>) -> bool {
    forall|i: int, j: int| 0 <= i < j < s.len() ==> (#[trigger] s[i]).0@ < (#[trigger] s[j]).0@
}

/// A list of instructions, each at its location, in increasing order of locations.
#[derive(Debug)]
pub struct InstructionList<I> {
    entries: Vec<(ProgramCounter, I)>,
}

impl<I> InstructionList<I> {
    #[verifier::type_invariant]
    spec fn well_formed(self) -> bool {
        pcs_increasing(self.entries@)
    }

    /// The instructions with their locations, in increasing order of locations.
    pub closed spec fn entries(self) -> Seq<(ProgramCounter, I)> {
        self.entries@
    }

    /// The locations of the instructions increase.
    pub fn check_sorted(&self)
        ensures
            pcs_increasing(self.entries()),
    {
        proof {
            use_type_invariant(self);
        }
    }

    /// Creates a list from instructions given in increasing order of their locations.
    pub fn from_sorted(entries: Vec<(ProgramCounter, I)>) -> (r: Self)
        requires
            pcs_increasing(entries@),
        ensures
            r.entries() == entries@,
    {
        InstructionList { entries }
    }

    /// Creates an empty list.
    pub fn new() -> (r: Self)
        ensures
            r.entries() == Seq::<(ProgramCounter, I)>::empty(),
    {
        InstructionList { entries: Vec::new() }
    }

    /// Adds an instruction at `pc`, replacing the one that was there.
    pub fn insert(&mut self, pc: ProgramCounter, insn: I)
        ensures
            forall|q: ProgramCounter, x: I|
                #[trigger] final(self).entries().contains((q, x)) <==> (q == pc && x == insn) || (q != pc
                    && old(self).entries().contains((q, x))),
    {
        proof {
            use_type_invariant(&*self);
        }
        let mut entries = Vec::new();
        std::mem::swap(&mut entries, &mut self.entries);
        let ghost before = entries@;
        let target: u16 = pc.into();
        let mut i: usize = 0;
        while i < entries.len() && entries[i].0.into() < target
            invariant
                entries@ == before,
                pcs_increasing(before),
                target == pc@,
                i <= entries@.len(),
                forall|j: int| 0 <= j < i ==> (#[trigger] entries@[j]).0@ < pc@,
            decreases entries@.len() - i,
        {
            i = i + 1;
        }
        if i < entries.len() && entries[i].0.into() == target {
            entries.set(i, (pc, insn));
            proof {
                assert forall|q: ProgramCounter, x: I|
                    #[trigger] entries@.contains((q, x)) <==> (q == pc && x == insn) || (q != pc && before.contains((q, x))) by {
                    if entries@.contains((q, x)) {
                        let k = choose|k: int| 0 <= k < entries@.len() && entries@[k] == (q, x);
                        if k != i {
                            assert(before[k] == (q, x));
                            assert(before[k].0@ != before[i as int].0@);
                        }
                    }
                    if q != pc && before.contains((q, x)) {
                        let k = choose|k: int| 0 <= k < before.len() && before[k] == (q, x);
                        assert(k != i);
                        assert(entries@[k] == (q, x));
                    }
                    if q == pc && x == insn {
                        assert(entries@[i as int] == (q, x));
                    }
                }
                assert forall|a: int, b: int| 0 <= a < b < entries@.len() implies (#[trigger] entries@[a]).0@
                    < (#[trigger] entries@[b]).0@ by {
                    assert(before[a].0@ < before[b].0@);
                }
            }
        } else {
            entries.insert(i, (pc, insn));
            proof {
                assert forall|q: ProgramCounter, x: I|
                    #[trigger] entries@.contains((q, x)) <==> (q == pc && x == insn) || (q != pc && before.contains((q, x))) by {
                    if entries@.contains((q, x)) {
                        let k = choose|k: int| 0 <= k < entries@.len() && entries@[k] == (q, x);
                        if k < i {
                            assert(before[k] == (q, x));
                        } else if k > i {
                            assert(before[k - 1] == (q, x));
                        }
                    }
                    if q != pc && before.contains((q, x)) {
                        let k = choose|k: int| 0 <= k < before.len() && before[k] == (q, x);
                        if k < i {
                            assert(entries@[k] == (q, x));
                        } else {
                            assert(entries@[k + 1] == (q, x));
                        }
                    }
                    if q == pc && x == insn {
                        assert(entries@[i as int] == (q, x));
                    }
                }
                assert forall|a: int, b: int| 0 <= a < b < entries@.len() implies (#[trigger] entries@[a]).0@
                    < (#[trigger] entries@[b]).0@ by {
                    if a < i && b > i {
                        assert(entries@[a] == before[a]);
                        assert(entries@[b] == before[b - 1]);
                        if b - 1 >= i {
                            assert(before[b - 1].0@ >= before[i as int].0@ || b - 1 == i);
                        }
                    } else if a < i && b == i {
                        assert(entries@[a] == before[a]);
                    } else if a == i && b > i {
                        assert(entries@[b] == before[b - 1]);
                        if b - 1 > i {
                            assert(before[i as int].0@ < before[b - 1].0@);
                        }
                    } else if a < i && b < i {
                        assert(entries@[a] == before[a]);
                        assert(entries@[b] == before[b]);
                    } else {
                        assert(entries@[a] == before[a - 1]);
                        assert(entries@[b] == before[b - 1]);
                    }
                }
            }
        }
        self.entries = entries;
    }

    /// Returns the instructions with their locations, in increasing order of locations.
    pub fn iter(&self) -> (r: Vec<(ProgramCounter, &I)>)
        ensures
            r@.len() == self.entries().len(),
            forall|i: int|
                0 <= i < r@.len() ==> (#[trigger] r@[i]).0 == self.entries()[i].0 && *r@[i].1
                    == self.entries()[i].1,
    {
        let mut r: Vec<(ProgramCounter, &I)> = Vec::new();
        let mut i: usize = 0;
        while i < self.entries.len()
            invariant
                i <= self.entries@.len(),
                r@.len() == i,
                forall|j: int|
                    0 <= j < i ==> (#[trigger] r@[j]).0 == self.entries@[j].0 && *r@[j].1
                        == self.entries@[j].1,
            decreases self.entries@.len() - i,
        {
            let entry = &self.entries[i];
            r.push((entry.0, &entry.1));
            i = i + 1;
        }
        r
    }

    /// Returns the instruction at the given program counter.
    pub fn get(&self, pc: &ProgramCounter) -> (r: Option<&I>)
        ensures
            r is None <==> !(exists|i: int| 0 <= i < self.entries().len() && (#[trigger] self.entries()[i]).0 == *pc),
            r matches Some(x) ==> exists|i: int|
                0 <= i < self.entries().len() && (#[trigger] self.entries()[i]).0 == *pc && self.entries()[i].1 == *x,
    {
        let mut i: usize = 0;
        while i < self.entries.len()
            invariant
                i <= self.entries@.len(),
                forall|j: int| 0 <= j < i ==> (#[trigger] self.entries@[j]).0 != *pc,
            decreases self.entries@.len() - i,
        {
            if self.entries[i].0 == *pc {
                assert(self.entries()[i as int].0 == *pc);
                return Some(&self.entries[i].1);
            }
            i = i + 1;
        }
        None
    }

    /// Returns the first instruction in the list.
    pub fn entry_point(&self) -> (r: Option<(ProgramCounter, &I)>)
        ensures
            r is None <==> self.entries().len() == 0,
            r matches Some((pc, x)) ==> pc == self.entries()[0].0 && *x == self.entries()[0].1,
    {
        if self.entries.len() == 0 {
            None
        } else {
            Some((self.entries[0].0, &self.entries[0].1))
        }
    }

    /// Returns the program counter of the next instruction after the given one.
    pub fn next_pc_of(&self, pc: &ProgramCounter) -> (r: Option<ProgramCounter>)
        ensures
            r is None <==> forall|i: int| 0 <= i < self.entries().len() ==> (#[trigger] self.entries()[i]).0@ <= pc@,
            r matches Some(next) ==> next@ > pc@ && (exists|i: int|
                0 <= i < self.entries().len() && (#[trigger] self.entries()[i]).0 == next) && forall|i: int|
                0 <= i < self.entries().len() && (#[trigger] self.entries()[i]).0@ > pc@ ==> next@ <= self.entries()[i].0@,
    {
        proof {
            use_type_invariant(self);
        }
        let target: u16 = (*pc).into();
        let mut i: usize = 0;
        while i < self.entries.len()
            invariant
                i <= self.entries@.len(),
                target == pc@,
                pcs_increasing(self.entries@),
                forall|j: int| 0 <= j < i ==> (#[trigger] self.entries@[j]).0@ <= pc@,
            decreases self.entries@.len() - i,
        {
            let here: u16 = self.entries[i].0.into();
            if here > target {
                let next = self.entries[i].0;
                proof {
                    assert(self.entries()[i as int].0 == next);
                    assert forall|k: int|
                        0 <= k < self.entries@.len() && (#[trigger] self.entries@[k]).0@ > pc@ implies next@
                            <= self.entries@[k].0@ by {
                        if k < i {
                        } else if k > i {
                            assert(self.entries@[i as int].0@ < self.entries@[k].0@);
                        }
                    }
                }
                return Some(next);
            }
            i = i + 1;
        }
        None
    }

    /// Returns the number of instructions in the list.
    pub fn len(&self) -> (r: usize)
        ensures
            r == self.entries().len(),
    {
        self.entries.len()
    }

    /// Returns whether the list is empty.
    pub fn is_empty(&self) -> (r: bool)
        ensures
            r == (self.entries().len() == 0),
    {
        self.entries.len() == 0
    }
}

/// An entry in the exception table.
#[derive(Debug)]
pub struct ExceptionTableEntry {
    /// The first location where the exception handler is active.
    pub covered_start: ProgramCounter,
    /// The last location where the exception handler is active.
    pub covered_end: ProgramCounter,
    /// The location of the exception handler.
    pub handler_pc: ProgramCounter,
    /// The type of the exception to be handled.
    pub catch_type: Option<ClassRef>,
}

impl ExceptionTableEntry {
    /// Checks whether the given program counter is covered by this exception handler.
    pub fn covers(&self, pc: ProgramCounter) -> (r: bool)
        ensures
            r == (self.covered_start@ <= pc@ <= self.covered_end@),
    {
        let p: u16 = pc.into();
        let start: u16 = self.covered_start.into();
        let end: u16 = self.covered_end.into();
        start <= p && p <= end
    }
}

/// An entry in the line number table.
#[derive(Debug, Clone, Copy, PartialEq, Eq, Structural)]
pub struct LineNumberTableEntry {
    /// The program counter of the first instruction in the line.
    pub start_pc: ProgramCounter,
    /// The corresponding line number in the source file.
    pub line_number: u16,
}

/// The identity of a local variable: the locations where it holds a value, and its index.
#[derive(Debug, PartialEq, Eq)]
pub struct LocalVariableId {
    /// The locations where the variable holds a value, the end excluded.
    pub effective_range: Range<ProgramCounter>,
    /// The index of the variable among the local variables.
    pub index: u16,
}

impl LocalVariableId {
    /// Checks whether two identities are the same.
    pub fn same(&self, other: &LocalVariableId) -> (r: bool)
        ensures
            r == (*self == *other),
    {
        let a: u16 = self.effective_range.start.into();
        let b: u16 = other.effective_range.start.into();
        let c: u16 = self.effective_range.end.into();
        let d: u16 = other.effective_range.end.into();
        a == b && c == d && self.index == other.index
    }

    /// Copies the identity.
    pub fn copy(&self) -> (r: Self)
        ensures
            r == *self,
    {
        LocalVariableId {
            effective_range: Range { start: self.effective_range.start, end: self.effective_range.end },
            index: self.index,
        }
    }
}

impl Clone for LocalVariableId {
    fn clone(&self) -> (r: Self)
        ensures
            r == *self,
    {
        self.copy()
    }
}

/// What is known of a local variable: its name, its type and its generic signature.
#[derive(Debug, Clone, Default)]
pub struct LocalVariableTableEntry {
    /// The name of the variable.
    pub name: Option<String>,
    /// The type of the variable.
    pub var_type: Option<FieldType>,
    /// The generic signature of the variable.
    pub signature: Option<String>,
}

/// The local variables of a method, each with what is known of it.
#[derive(Debug)]
pub struct LocalVariableTable {
    entries: Vec<(LocalVariableId, LocalVariableTableEntry)>,
}

/// Whether the name that an entry already has clashes with `name`.
pub open spec fn name_clash(e: LocalVariableTableEntry, name: Seq<char>) -> bool {
    e.name matches Some(n) && n@ != name
}

/// The error for two different names of one local variable.
fn name_mismatch() -> (r: ParseError)
    ensures
        r.kind_of() == ParsingErrorKind::Malformed,
{
    ParseError::malform("Name of local variable does not match".to_owned())
}

impl LocalVariableTable {
    /// Each variable has at most one entry.
    #[verifier::type_invariant]
    spec fn keys_distinct(self) -> bool {
        forall|i: int, j: int| 0 <= i < j < self.entries@.len() ==> (#[trigger] self.entries@[i]).0 != (#[trigger] self.entries@[j]).0
    }

    /// The entries of the table, in the order they were added.
    pub closed spec fn entries_of(self) -> Seq<(LocalVariableId, LocalVariableTableEntry)> {
        self.entries@
    }

    /// The entry of a variable, if it has one.
    pub open spec fn lookup(self, key: LocalVariableId) -> Option<LocalVariableTableEntry> {
        if exists|i: int| 0 <= i < self.entries_of().len() && (#[trigger] self.entries_of()[i]).0 == key {
            let i = choose|i: int| 0 <= i < self.entries_of().len() && (#[trigger] self.entries_of()[i]).0 == key;
            Some(self.entries_of()[i].1)
        } else {
            None
        }
    }

    /// Creates an empty table.
    pub fn new() -> (r: Self)
        ensures
            r.entries_of().len() == 0,
    {
        LocalVariableTable { entries: Vec::new() }
    }

    /// Finds the position of the entry of `key`.
    fn position(&self, key: &LocalVariableId) -> (r: Option<usize>)
        ensures
            r matches Some(i) ==> i < self.entries_of().len() && self.entries_of()[i as int].0 == *key,
            r is None ==> forall|i: int| 0 <= i < self.entries_of().len() ==> (#[trigger] self.entries_of()[i]).0 != *key,
    {
        let mut i: usize = 0;
        while i < self.entries.len()
            invariant
                i <= self.entries@.len(),
                forall|j: int| 0 <= j < i ==> (#[trigger] self.entries@[j]).0 != *key,
            decreases self.entries@.len() - i,
        {
            if self.entries[i].0.same(key) {
                return Some(i);
            }
            i = i + 1;
        }
        None
    }

    /// The entry of `key` at position `i` is the one that [`Self::lookup`] gives.
    proof fn lemma_lookup_at(self, key: LocalVariableId, i: int)
        requires
            self.keys_distinct(),
            0 <= i < self.entries_of().len(),
            self.entries_of()[i].0 == key,
        ensures
            self.lookup(key) == Some(self.entries_of()[i].1),
    {
        let j = choose|j: int| 0 <= j < self.entries_of().len() && (#[trigger] self.entries_of()[j]).0 == key;
        if j != i {
            if j < i {
                assert(self.entries@[j].0 != self.entries@[i].0);
            } else {
                assert(self.entries@[i].0 != self.entries@[j].0);
            }
        }
    }

    /// Sets the entry of `key` to `e`, or adds it.
    fn put(&mut self, key: LocalVariableId, e: LocalVariableTableEntry, at: Option<usize>)
        requires
            at matches Some(i) ==> i < old(self).entries_of().len() && old(self).entries_of()[i as int].0 == key,
            at is None ==> forall|i: int| 0 <= i < old(self).entries_of().len() ==> (#[trigger] old(self).entries_of()[i]).0 != key,
        ensures
            final(self).lookup(key) == Some(e),
            forall|k: LocalVariableId| k != key ==> #[trigger] final(self).lookup(k) == old(self).lookup(k),
    {
        proof {
            use_type_invariant(&*self);
        }
        let ghost before = self.entries@;
        let mut entries: Vec<(LocalVariableId, LocalVariableTableEntry)> = Vec::new();
        std::mem::swap(&mut entries, &mut self.entries);
        match at {
            Some(i) => {
                entries.set(i, (key, e));
            },
            None => {
                entries.push((key, e));
            },
        }
        proof {
            assert forall|a: int, b: int| 0 <= a < b < entries@.len() implies (#[trigger] entries@[a]).0 != (#[trigger] entries@[b]).0 by {
                if a < before.len() && b < before.len() && a != at.unwrap_or(usize::MAX) as int && b != at.unwrap_or(usize::MAX) as int {
                    assert(entries@[a] == before[a] && entries@[b] == before[b]);
                }
            }
        }
        self.entries = entries;
        proof {
            let j = match at {
                Some(i) => i as int,
                None => before.len() as int,
            };
            self.lemma_lookup_at(key, j);
            assert forall|k: LocalVariableId| k != key implies #[trigger] self.lookup(k) == old(self).lookup(k) by {
                if exists|i: int| 0 <= i < before.len() && (#[trigger] before[i]).0 == k {
                    let i = choose|i: int| 0 <= i < before.len() && (#[trigger] before[i]).0 == k;
                    old(self).lemma_lookup_at(k, i);
                    assert(self.entries@[i] == before[i]);
                    self.lemma_lookup_at(k, i);
                } else {
                    assert forall|i: int| 0 <= i < self.entries@.len() implies (#[trigger] self.entries@[i]).0 != k by {
                        if i < before.len() && i != j {
                            assert(self.entries@[i] == before[i]);
                        }
                    }
                }
            }
        }
    }

    /// Records the name and the type of a local variable.
    ///
    /// # Errors
    /// When the variable already has another name; the table is then unchanged.
    pub fn merge_type(&mut self, key: LocalVariableId, name: String, field_type: FieldType) -> (r: Result<(), ParseError>)
        ensures
            (old(self).lookup(key) matches Some(e) && name_clash(e, name@)) ==> r is Err && *final(self) == *old(self),
            !(old(self).lookup(key) matches Some(e) && name_clash(e, name@)) ==> r is Ok && (final(self).lookup(key) matches Some(e)
                && e.name == Some(name) && e.var_type == Some(field_type) && e.signature == (match old(self).lookup(key) {
                    Some(o) => o.signature,
                    None => None,
                })),
            r is Err ==> r->Err_0.kind_of() == ParsingErrorKind::Malformed,
            forall|k: LocalVariableId| k != key ==> #[trigger] final(self).lookup(k) == old(self).lookup(k),
    {
        let at = self.position(&key);
        let signature = match at {
            Some(i) => {
                proof {
                    use_type_invariant(&*self);
                    self.lemma_lookup_at(key, i as int);
                }
                if let Some(existing) = &self.entries[i].1.name {
                    if !existing.eq(&name) {
                        return Err(name_mismatch());
                    }
                }
                clone_text(&self.entries[i].1.signature)
            },
            None => None,
        };
        self.put(key, LocalVariableTableEntry { name: Some(name), var_type: Some(field_type), signature }, at);
        Ok(())
    }

    /// Records the name and the generic signature of a local variable.
    ///
    /// # Errors
    /// When the variable already has another name; the table is then unchanged.
    pub fn merge_signature(&mut self, key: LocalVariableId, name: String, signature: String) -> (r: Result<(), ParseError>)
        ensures
            (old(self).lookup(key) matches Some(e) && name_clash(e, name@)) ==> r is Err && *final(self) == *old(self),
            !(old(self).lookup(key) matches Some(e) && name_clash(e, name@)) ==> r is Ok && (final(self).lookup(key) matches Some(e)
                && e.name == Some(name) && e.signature == Some(signature) && e.var_type == (match old(self).lookup(key) {
                    Some(o) => o.var_type,
                    None => None,
                })),
            r is Err ==> r->Err_0.kind_of() == ParsingErrorKind::Malformed,
            forall|k: LocalVariableId| k != key ==> #[trigger] final(self).lookup(k) == old(self).lookup(k),
    {
        let at = self.position(&key);
        let var_type = match at {
            Some(i) => {
                proof {
                    use_type_invariant(&*self);
                    self.lemma_lookup_at(key, i as int);
                }
                if let Some(existing) = &self.entries[i].1.name {
                    if !existing.eq(&name) {
                        return Err(name_mismatch());
                    }
                }
                match &self.entries[i].1.var_type {
                    Some(t) => Some(t.clone()),
                    None => None,
                }
            },
            None => None,
        };
        self.put(key, LocalVariableTableEntry { name: Some(name), var_type, signature: Some(signature) }, at);
        Ok(())
    }
}

/// Copies an optional text.
fn clone_text(t: &Option<String>) -> (r: Option<String>)
    ensures
        r == *t,
{
    match t {
        Some(s) => {
            let c = s.clone();
            proof {
                assert(c@ == s@);
            }
            Some(c)
        },
        None => None,
    }
}

/// The type of a value in a frame of the stack map table.
#[derive(Debug, Clone)]
pub enum VerificationTypeInfo {
    /// The `top` type.
    TopVariable,
    /// The `int` type.
    IntegerVariable,
    /// The `float` type.
    FloatVariable,
    /// The type of `null`.
    NullVariable,
    /// `this` before the constructor of the super class is called.
    UninitializedThisVariable,
    /// An object of the given class.
    ObjectVariable(ClassRef),
    /// An object created by the `new` instruction at `offset` and not initialized yet.
    UninitializedVariable {
        /// The location of the `new` instruction.
        offset: ProgramCounter,
    },
    /// The `long` type.
    LongVariable,
    /// The `double` type.
    DoubleVariable,
}

/// A frame of the stack map table.
#[derive(Debug, Clone)]
pub enum StackMapFrame {
    /// The same locals as the previous frame and an empty stack.
    SameFrame {
        /// The distance to the previous frame.
        offset_delta: u16,
    },
    /// The same locals as the previous frame and one value on the stack.
    SameLocals1StackItemFrame {
        /// The distance to the previous frame.
        offset_delta: u16,
        /// The value on the stack.
        stack: VerificationTypeInfo,
    },
    /// The locals of the previous frame without the last `chop_count`, and an empty stack.
    ChopFrame {
        /// The distance to the previous frame.
        offset_delta: u16,
        /// The number of locals removed.
        chop_count: u8,
    },
    /// The locals of the previous frame with more of them, and an empty stack.
    AppendFrame {
        /// The distance to the previous frame.
        offset_delta: u16,
        /// The locals added.
        locals: Vec<VerificationTypeInfo>,
    },
    /// A frame given in full.
    FullFrame {
        /// The distance to the previous frame.
        offset_delta: u16,
        /// The locals.
        locals: Vec<VerificationTypeInfo>,
        /// The values on the stack.
        stack: Vec<VerificationTypeInfo>,
    },
}

/// The body of a method: its code and what describes it.
#[derive(Debug)]
pub struct MethodBody {
    /// The maximum depth of the operand stack.
    pub max_stack: u16,
    /// The number of local variables.
    pub max_locals: u16,
    /// The instructions.
    pub instructions: InstructionList<Instruction>,
    /// The exception handlers.
    pub exception_table: Vec<ExceptionTableEntry>,
    /// The line numbers of the instructions.
    pub line_number_table: Option<Vec<LineNumberTableEntry>>,
    /// The local variables.
    pub local_variable_table: Option<LocalVariableTable>,
    /// The stack map frames.
    pub stack_map_table: Option<Vec<StackMapFrame>>,
    /// The runtime visible type annotations.
    pub runtime_visible_type_annotations: Vec<TypeAnnotation>,
    /// The runtime invisible type annotations.
    pub runtime_invisible_type_annotations: Vec<TypeAnnotation>,
    /// Unrecognized attributes, by name.
    pub free_attributes: Vec<(String, Vec<u8>)>,
}

impl MethodBody {
    /// Gets the instruction at `pc`.
    pub fn instruction_at(&self, pc: ProgramCounter) -> (r: Option<&Instruction>)
        ensures
            r is None <==> !(exists|i: int|
                0 <= i < self.instructions.entries().len() && (#[trigger] self.instructions.entries()[i]).0 == pc),
            r matches Some(x) ==> exists|i: int|
                0 <= i < self.instructions.entries().len() && (#[trigger] self.instructions.entries()[i]).0 == pc
                    && self.instructions.entries()[i].1 == *x,
    {
        self.instructions.get(&pc)
    }
}

} // verus!
