//! The abstract JVM stack frame used to interpret bytecode symbolically.
use vstd::prelude::*;

use crate::ir::moka_instruction::{Argument, Identifier, IdentifierSet};
use crate::jvm::code::pc::ProgramCounter;
use crate::types::{FieldType, MethodDescriptor};

verus! {

/// The width of values that take a single slot.
pub const SINGLE_SLOT: bool = false;

/// The width of values that take two slots (`long` and `double`).
pub const DUAL_SLOT: bool = true;

/// An error occurring while executing an instruction on a stack frame.
#[derive(Debug, PartialEq, Eq, Structural, Clone, Copy)]
pub enum ExecutionError {
    /// Trying to pop an empty stack.
    StackUnderflow,
    /// The stack size exceeds the max stack size.
    StackOverflow,
    /// The local variable index exceeds the max local variable size.
    LocalLimitExceed,
    /// The local variable is not initialized.
    LocalUninitialized,
    /// The stack size mismatch.
    StackSizeMismatch,
    /// The local limit mismatch.
    LocalLimitMismatch,
    /// Value type in the stack or local variable table mismatch.
    ValueMismatch,
}

/// An entry in the local variable table or on the operand stack.
#[derive(Debug, PartialEq, Eq, PartialOrd, Ord, Clone)]
pub enum Entry {
    /// A value.
    Value(Argument),
    /// The upper half of a dual-slot value.
    Top,
    /// A local variable that has not been assigned yet.
    UninitializedLocal,
}

/// Whether two arguments refer to the same identifiers in the same way.
pub open spec fn same_argument(a: Argument, b: Argument) -> bool {
    a.ids() == b.ids() && (a is Id <==> b is Id)
}

/// Whether two entries are copies of each other.
pub open spec fn agrees(a: Entry, b: Entry) -> bool {
    match (a, b) {
        (Entry::Value(x), Entry::Value(y)) => same_argument(x, y),
        (Entry::Top, Entry::Top) => true,
        (Entry::UninitializedLocal, Entry::UninitializedLocal) => true,
        _ => false,
    }
}

/// Whether two sequences of entries are copies of each other, entry by entry.
pub open spec fn all_agree(a: Seq<Entry>, b: Seq<Entry>) -> bool {
    a.len() == b.len() && forall|i: int| 0 <= i < a.len() ==> agrees(#[trigger] a[i], b[i])
}

/// The entry that merging `lhs` with `rhs` gives, as far as it is determined: two values
/// merge into a value of the identifiers of both, two tops into a top; an uninitialized local
/// gives way to the other entry, and otherwise the left-hand side is kept.
pub open spec fn merged_entry(lhs: Entry, rhs: Entry, r: Entry) -> bool {
    match (lhs, rhs) {
        (Entry::Value(a), Entry::Value(b)) => r matches Entry::Value(c) && c.ids() == a.ids().union(b.ids())
            && (c is Id <==> (a is Id && b is Id && a == b)),
        (Entry::Top, Entry::Top) => r == Entry::Top,
        (Entry::UninitializedLocal, other) => r == other,
        (other, Entry::UninitializedLocal) => r == other,
        (other, _) => r == other,
    }
}

impl Entry {
    /// Merges two entries that reach the same slot from different paths.
    ///
    /// When the entries are of different kinds, the slot is reused and will be overwritten,
    /// so the left-hand side is kept.
    pub fn merge(lhs: Self, rhs: Self) -> (r: Self)
        ensures
            merged_entry(lhs, rhs, r),
    {
        match (lhs, rhs) {
            (Entry::Value(a), Entry::Value(b)) => Entry::Value(a.merge(b)),
            (Entry::Top, Entry::Top) => Entry::Top,
            (Entry::UninitializedLocal, other) => other,
            (other, Entry::UninitializedLocal) => other,
            (other, _) => other,
        }
    }

    /// Makes a copy of the entry.
    pub fn duplicate(&self) -> (r: Self)
        ensures
            agrees(r, *self),
            !(self is Value) ==> r == *self,
    {
        match self {
            Entry::Value(v) => Entry::Value(v.duplicate()),
            Entry::Top => Entry::Top,
            Entry::UninitializedLocal => Entry::UninitializedLocal,
        }
    }
}

/// Agreement is an equivalence.
pub proof fn lemma_agrees_equivalence(a: Entry, b: Entry, c: Entry)
    ensures
        agrees(a, a),
        agrees(a, b) ==> agrees(b, a),
        agrees(a, b) && agrees(b, c) ==> agrees(a, c),
{
}

/// A JVM stack frame: the local variables and the operand stack of a method being executed.
#[derive(Debug)]
pub struct JvmStackFrame {
    max_locals: u16,
    max_stack: u16,
    local_variables: Vec<Entry>,
    operand_stack: Vec<Entry>,
    possible_ret_addresses: Vec<ProgramCounter>,
}

/// The outcome, as a result and the stack after, of popping `k` entries and then pushing
/// `pushes` onto a stack that holds at most `max` entries. Popping from an empty stack fails
/// and leaves it empty; pushing onto a full stack fails and keeps what was pushed before.
pub open spec fn shuffle_outcome(stack: Seq<Entry>, k: int, pushes: Seq<Entry>, max: int) -> (
    Result<(), ExecutionError>,
    Seq<Entry>,
) {
    if stack.len() < k {
        (Err(ExecutionError::StackUnderflow), Seq::empty())
    } else {
        let base = stack.subrange(0, stack.len() - k);
        let room = if max >= base.len() {
            max - base.len()
        } else {
            0
        };
        if pushes.len() <= room {
            (Ok(()), base + pushes)
        } else {
            (Err(ExecutionError::StackOverflow), base + pushes.take(room))
        }
    }
}

/// The outcome of pushing a value that takes one slot, or two when `dual` holds (a top and
/// then the value).
pub open spec fn push_value_outcome(stack: Seq<Entry>, value: Argument, dual: bool, max: int) -> (
    Result<(), ExecutionError>,
    Seq<Entry>,
) {
    if dual {
        shuffle_outcome(stack, 0, seq![Entry::Top, Entry::Value(value)], max)
    } else {
        shuffle_outcome(stack, 0, seq![Entry::Value(value)], max)
    }
}

/// The outcome of popping a value that takes one slot, or two when `dual` holds: the value
/// must be on top, and under it a top when `dual` holds.
pub open spec fn pop_value_outcome(stack: Seq<Entry>, dual: bool) -> (
    Result<Argument, ExecutionError>,
    Seq<Entry>,
) {
    let n = stack.len();
    if n == 0 {
        (Err(ExecutionError::StackUnderflow), stack)
    } else {
        match stack[n - 1] {
            Entry::Value(v) => if !dual {
                (Ok(v), stack.subrange(0, n - 1))
            } else if n == 1 {
                (Err(ExecutionError::StackUnderflow), Seq::empty())
            } else if stack[n - 2] is Top {
                (Ok(v), stack.subrange(0, n - 2))
            } else {
                (Err(ExecutionError::ValueMismatch), stack.subrange(0, n - 2))
            },
            _ => (Err(ExecutionError::ValueMismatch), stack.subrange(0, n - 1)),
        }
    }
}

/// No entry on the stack is an uninitialized local.
pub open spec fn no_uninitialized(stack: Seq<Entry>) -> bool {
    forall|i: int| 0 <= i < stack.len() ==> !(#[trigger] stack[i] is UninitializedLocal)
}

/// Whether `f` merges the frames `a` and `b`, which have the same number of locals and the
/// same depth of stack: each local and each entry of the stack merges theirs, and the return
/// addresses are those of both.
pub open spec fn merged_frames(a: JvmStackFrame, b: JvmStackFrame, f: JvmStackFrame) -> bool {
    &&& f.max_locals_of() == a.max_locals_of()
    &&& f.max_stack_of() == a.max_stack_of()
    &&& f.locals().len() == if a.locals().len() <= b.locals().len() {
        a.locals().len()
    } else {
        b.locals().len()
    }
    &&& forall|i: int| 0 <= i < f.locals().len() ==> merge_agrees(a.locals()[i], b.locals()[i], #[trigger] f.locals()[i])
    &&& f.stack().len() == a.stack().len()
    &&& forall|i: int| 0 <= i < f.stack().len() ==> merge_agrees(a.stack()[i], b.stack()[i], #[trigger] f.stack()[i])
    &&& f.ret_addresses() == a.ret_addresses().union(b.ret_addresses())
}

impl JvmStackFrame {
    #[verifier::type_invariant]
    spec fn well_formed(self) -> bool {
        no_uninitialized(self.operand_stack@)
    }

    /// The number of local variable slots.
    pub closed spec fn max_locals_of(self) -> u16 {
        self.max_locals
    }

    /// The maximum depth of the operand stack.
    pub closed spec fn max_stack_of(self) -> u16 {
        self.max_stack
    }

    /// The local variable slots.
    pub closed spec fn locals(self) -> Seq<Entry> {
        self.local_variables@
    }

    /// The operand stack, from bottom to top.
    pub closed spec fn stack(self) -> Seq<Entry> {
        self.operand_stack@
    }

    /// The return addresses of the subroutines that may be active.
    pub closed spec fn ret_addresses(self) -> Set<ProgramCounter> {
        self.possible_ret_addresses@.to_set()
    }

    /// No frame has an uninitialized local on its stack.
    pub fn check_well_formed(&self)
        ensures
            no_uninitialized(self.stack()),
    {
        proof {
            use_type_invariant(self);
        }
    }

    /// Pushes an entry, failing when the stack is full.
    fn push_raw(&mut self, value: Entry) -> (r: Result<(), ExecutionError>)
        requires
            !(value is UninitializedLocal),
        ensures
            final(self).max_locals == old(self).max_locals,
            final(self).max_stack == old(self).max_stack,
            final(self).local_variables@ == old(self).local_variables@,
            final(self).possible_ret_addresses@ == old(self).possible_ret_addresses@,
            old(self).operand_stack@.len() >= old(self).max_stack ==> r == Err::<(), ExecutionError>(
                ExecutionError::StackOverflow,
            ) && final(self).operand_stack@ == old(self).operand_stack@,
            old(self).operand_stack@.len() < old(self).max_stack ==> r == Ok::<(), ExecutionError>(())
                && final(self).operand_stack@ == old(self).operand_stack@.push(value),
    {
        proof {
            use_type_invariant(&*self);
        }
        if self.operand_stack.len() >= self.max_stack as usize {
            Err(ExecutionError::StackOverflow)
        } else {
            let mut stack = Vec::new();
            std::mem::swap(&mut stack, &mut self.operand_stack);
            stack.push(value);
            self.operand_stack = stack;
            Ok(())
        }
    }

    /// Pops an entry, failing when the stack is empty.
    fn pop_raw(&mut self) -> (r: Result<Entry, ExecutionError>)
        ensures
            final(self).max_locals == old(self).max_locals,
            final(self).max_stack == old(self).max_stack,
            final(self).local_variables@ == old(self).local_variables@,
            final(self).possible_ret_addresses@ == old(self).possible_ret_addresses@,
            old(self).operand_stack@.len() == 0 ==> r == Err::<Entry, ExecutionError>(
                ExecutionError::StackUnderflow,
            ) && final(self).operand_stack@ == old(self).operand_stack@,
            old(self).operand_stack@.len() > 0 ==> r == Ok::<Entry, ExecutionError>(
                old(self).operand_stack@.last(),
            ) && final(self).operand_stack@ == old(self).operand_stack@.drop_last(),
            r matches Ok(e) ==> !(e is UninitializedLocal),
    {
        proof {
            use_type_invariant(&*self);
        }
        let mut stack = Vec::new();
        std::mem::swap(&mut stack, &mut self.operand_stack);
        let popped = stack.pop();
        self.operand_stack = stack;
        match popped {
            Some(e) => Ok(e),
            None => Err(ExecutionError::StackUnderflow),
        }
    }
}

/// Whether two frames differ at most in their operand stacks.
pub open spec fn same_but_stack(a: JvmStackFrame, b: JvmStackFrame) -> bool {
    &&& a.max_locals_of() == b.max_locals_of()
    &&& a.max_stack_of() == b.max_stack_of()
    &&& a.locals() == b.locals()
    &&& a.ret_addresses() == b.ret_addresses()
}

impl JvmStackFrame {
    /// Pops a value that takes one slot, or two when `SLOT` is [`DUAL_SLOT`].
    pub fn pop_value<const SLOT: bool>(&mut self) -> (r: Result<Argument, ExecutionError>)
        ensures
            same_but_stack(*final(self), *old(self)),
            r == pop_value_outcome(old(self).stack(), SLOT).0,
            final(self).stack() == pop_value_outcome(old(self).stack(), SLOT).1,
    {
        let ghost s = self.operand_stack@;
        let value = match self.pop_raw() {
            Ok(Entry::Value(it)) => it,
            Ok(_) => return Err(ExecutionError::ValueMismatch),
            Err(e) => return Err(e),
        };
        if SLOT {
            match self.pop_raw() {
                Ok(Entry::Top) => {},
                Ok(_) => return Err(ExecutionError::ValueMismatch),
                Err(e) => {
                    assert(self.operand_stack@ =~= Seq::<Entry>::empty());
                    return Err(e);
                },
            }
            assert(self.operand_stack@ =~= s.subrange(0, s.len() - 2));
        }
        Ok(value)
    }

    /// Pushes a value that takes one slot, or two when `SLOT` is [`DUAL_SLOT`].
    pub fn push_value<const SLOT: bool>(&mut self, value: Argument) -> (r: Result<(), ExecutionError>)
        ensures
            same_but_stack(*final(self), *old(self)),
            r == push_value_outcome(old(self).stack(), value, SLOT, old(self).max_stack_of() as int).0,
            final(self).stack() == push_value_outcome(old(self).stack(), value, SLOT, old(self).max_stack_of() as int).1,
    {
        let ghost s = self.operand_stack@;
        let ghost v = value;
        if SLOT {
            match self.push_raw(Entry::Top) {
                Ok(()) => {},
                Err(e) => {
                    assert(seq![Entry::Top, Entry::Value(v)].take(0) =~= Seq::<Entry>::empty());
                    assert(self.operand_stack@ =~= s + seq![Entry::Top, Entry::Value(v)].take(0));
                    return Err(e);
                },
            }
        }
        let r = self.push_raw(Entry::Value(value));
        proof {
            if SLOT {
                assert(seq![Entry::Top, Entry::Value(v)].take(1) =~= seq![Entry::Top]);
                assert(s.push(Entry::Top).push(Entry::Value(v)) =~= s + seq![Entry::Top, Entry::Value(v)]);
                assert(s.push(Entry::Top) =~= s + seq![Entry::Top, Entry::Value(v)].take(1));
            } else {
                assert(s.push(Entry::Value(v)) =~= s + seq![Entry::Value(v)]);
                assert(seq![Entry::Value(v)].take(0) =~= Seq::<Entry>::empty());
                assert(s =~= s + seq![Entry::Value(v)].take(0));
            }
            assert(s.subrange(0, s.len() as int) =~= s);
        }
        r
    }

    /// Pushes a value of the given type: `long` and `double` values take two slots.
    pub fn typed_push(&mut self, value_type: &FieldType, value: Argument) -> (r: Result<(), ExecutionError>)
        ensures
            same_but_stack(*final(self), *old(self)),
            r == push_value_outcome(old(self).stack(), value, value_type.is_dual_slot(), old(self).max_stack_of() as int).0,
            final(self).stack() == push_value_outcome(old(self).stack(), value, value_type.is_dual_slot(), old(self).max_stack_of() as int).1,
    {
        if value_type.dual_slot() {
            self.push_value::<DUAL_SLOT>(value)
        } else {
            self.push_value::<SINGLE_SLOT>(value)
        }
    }
}

/// A value pushed onto a stack with room for it is the value popped next, and the stack is
/// then as it was before.
pub proof fn lemma_push_then_pop(stack: Seq<Entry>, value: Argument, dual: bool, max: int)
    requires
        stack.len() + (if dual { 2int } else { 1int }) <= max,
    ensures
        push_value_outcome(stack, value, dual, max).0 is Ok,
        pop_value_outcome(push_value_outcome(stack, value, dual, max).1, dual) == (
            Ok::<Argument, ExecutionError>(value),
            stack,
        ),
{
    let pushed = push_value_outcome(stack, value, dual, max).1;
    assert(stack.subrange(0, stack.len() as int) =~= stack);
    if dual {
        assert(pushed =~= stack.push(Entry::Top).push(Entry::Value(value)));
        assert(pushed.subrange(0, pushed.len() - 2) =~= stack);
    } else {
        assert(pushed =~= stack.push(Entry::Value(value)));
        assert(pushed.subrange(0, pushed.len() - 1) =~= stack);
    }
}

/// Pushing onto a full stack fails with an overflow and leaves the stack as it was.
pub proof fn lemma_push_overflow(stack: Seq<Entry>, value: Argument, dual: bool, max: int)
    requires
        stack.len() >= max,
    ensures
        push_value_outcome(stack, value, dual, max) == (
            Err::<(), ExecutionError>(ExecutionError::StackOverflow),
            stack,
        ),
{
    assert(stack.subrange(0, stack.len() as int) =~= stack);
    assert(seq![Entry::Top, Entry::Value(value)].take(0) =~= Seq::<Entry>::empty());
    assert(seq![Entry::Value(value)].take(0) =~= Seq::<Entry>::empty());
    assert(stack + Seq::<Entry>::empty() =~= stack);
}

/// Popping from an empty stack fails with an underflow.
pub proof fn lemma_pop_underflow(dual: bool)
    ensures
        pop_value_outcome(Seq::<Entry>::empty(), dual).0 == Err::<Argument, ExecutionError>(
            ExecutionError::StackUnderflow,
        ),
{
}

/// The entry `i` places below the top of the stack.
pub open spec fn below_top(s: Seq<Entry>, i: int) -> Entry {
    s[s.len() - 1 - i]
}

impl JvmStackFrame {
    /// Pushes the entry at position `j` of `pushes` onto a stack that holds `base` followed by
    /// copies of the first `j` entries of `pushes`.
    fn push_step(
        &mut self,
        value: Entry,
        Ghost(base): Ghost<Seq<Entry>>,
        Ghost(pushes): Ghost<Seq<Entry>>,
        Ghost(j): Ghost<int>,
    ) -> (r: Result<(), ExecutionError>)
        requires
            0 <= j < pushes.len(),
            agrees(value, pushes[j]),
            !(value is UninitializedLocal),
            all_agree(old(self).operand_stack@, base + pushes.take(j)),
        ensures
            same_but_stack(*final(self), *old(self)),
            r is Ok <==> base.len() + j < old(self).max_stack,
            r is Ok ==> all_agree(final(self).operand_stack@, base + pushes.take(j + 1)),
            r is Ok && old(self).operand_stack@ == base + pushes.take(j) && value == pushes[j]
                ==> final(self).operand_stack@ == base + pushes.take(j + 1),
            r is Err ==> r == Err::<(), ExecutionError>(ExecutionError::StackOverflow)
                && final(self).operand_stack@ == old(self).operand_stack@,
    {
        let ghost before = self.operand_stack@;
        let r = self.push_raw(value);
        proof {
            assert((base + pushes.take(j)).push(pushes[j]) =~= base + pushes.take(j + 1));
            if r is Ok {
                assert forall|i: int| 0 <= i < self.operand_stack@.len() implies agrees(
                    #[trigger] self.operand_stack@[i],
                    (base + pushes.take(j + 1))[i],
                ) by {
                    if i < before.len() {
                        assert(self.operand_stack@[i] == before[i]);
                    }
                }
            }
        }
        r
    }

    /// Pops the top entry (`pop`).
    pub fn pop(&mut self) -> (r: Result<(), ExecutionError>)
        ensures
            same_but_stack(*final(self), *old(self)),
            r == shuffle_outcome(old(self).stack(), 1, Seq::<Entry>::empty(), old(self).max_stack_of() as int).0,
            all_agree(final(self).stack(), shuffle_outcome(old(self).stack(), 1, Seq::<Entry>::empty(), old(self).max_stack_of() as int).1),
            final(self).stack() == shuffle_outcome(old(self).stack(), 1, Seq::<Entry>::empty(), old(self).max_stack_of() as int).1,
    {
        let ghost s = self.operand_stack@;
        let ghost max = self.max_stack as int;
        let top_element = match self.pop_raw() {
            Ok(e) => e,
            Err(e) => {
                assert(self.operand_stack@ =~= Seq::<Entry>::empty());
                return Err(e);
            },
        };
        let ghost base = self.operand_stack@;
        let ghost pushes: Seq<Entry> = Seq::<Entry>::empty();
        assert(base =~= s.subrange(0, s.len() - 1));
        assert(base + pushes.take(0) =~= base);
        assert(pushes.take(0) =~= pushes);
        Ok(())
    }

    /// Pops the top two entries (`pop2`).
    pub fn pop2(&mut self) -> (r: Result<(), ExecutionError>)
        ensures
            same_but_stack(*final(self), *old(self)),
            r == shuffle_outcome(old(self).stack(), 2, Seq::<Entry>::empty(), old(self).max_stack_of() as int).0,
            all_agree(final(self).stack(), shuffle_outcome(old(self).stack(), 2, Seq::<Entry>::empty(), old(self).max_stack_of() as int).1),
            final(self).stack() == shuffle_outcome(old(self).stack(), 2, Seq::<Entry>::empty(), old(self).max_stack_of() as int).1,
    {
        let ghost s = self.operand_stack@;
        let ghost max = self.max_stack as int;
        let top_element = match self.pop_raw() {
            Ok(e) => e,
            Err(e) => {
                assert(self.operand_stack@ =~= Seq::<Entry>::empty());
                return Err(e);
            },
        };
        let second_element = match self.pop_raw() {
            Ok(e) => e,
            Err(e) => {
                assert(self.operand_stack@ =~= Seq::<Entry>::empty());
                return Err(e);
            },
        };
        let ghost base = self.operand_stack@;
        let ghost pushes: Seq<Entry> = Seq::<Entry>::empty();
        assert(base =~= s.subrange(0, s.len() - 2));
        assert(base + pushes.take(0) =~= base);
        assert(pushes.take(0) =~= pushes);
        Ok(())
    }

    /// Duplicates the top entry (`dup`).
    pub fn dup(&mut self) -> (r: Result<(), ExecutionError>)
        ensures
            same_but_stack(*final(self), *old(self)),
            r == shuffle_outcome(old(self).stack(), 1, seq![below_top(old(self).stack(), 0), below_top(old(self).stack(), 0)], old(self).max_stack_of() as int).0,
            all_agree(final(self).stack(), shuffle_outcome(old(self).stack(), 1, seq![below_top(old(self).stack(), 0), below_top(old(self).stack(), 0)], old(self).max_stack_of() as int).1),
    {
        let ghost s = self.operand_stack@;
        let ghost max = self.max_stack as int;
        let top_element = match self.pop_raw() {
            Ok(e) => e,
            Err(e) => {
                assert(self.operand_stack@ =~= Seq::<Entry>::empty());
                return Err(e);
            },
        };
        let ghost base = self.operand_stack@;
        let ghost pushes: Seq<Entry> = seq![s[s.len() - 1 - 0], s[s.len() - 1 - 0]];
        assert(base =~= s.subrange(0, s.len() - 1));
        assert(base + pushes.take(0) =~= base);
        match self.push_step(top_element.duplicate(), Ghost(base), Ghost(pushes), Ghost(0)) {
            Ok(()) => {},
            Err(e) => {
                assert(base.len() + 0 >= max);
                return Err(e);
            },
        }
        match self.push_step(top_element, Ghost(base), Ghost(pushes), Ghost(1)) {
            Ok(()) => {},
            Err(e) => {
                assert(base.len() + 1 >= max);
                return Err(e);
            },
        }
        assert(pushes.take(2) =~= pushes);
        Ok(())
    }

    /// Duplicates the top entry and inserts the copy below the second one (`dup_x1`).
    pub fn dup_x1(&mut self) -> (r: Result<(), ExecutionError>)
        ensures
            same_but_stack(*final(self), *old(self)),
            r == shuffle_outcome(old(self).stack(), 2, seq![below_top(old(self).stack(), 0), below_top(old(self).stack(), 1), below_top(old(self).stack(), 0)], old(self).max_stack_of() as int).0,
            all_agree(final(self).stack(), shuffle_outcome(old(self).stack(), 2, seq![below_top(old(self).stack(), 0), below_top(old(self).stack(), 1), below_top(old(self).stack(), 0)], old(self).max_stack_of() as int).1),
    {
        let ghost s = self.operand_stack@;
        let ghost max = self.max_stack as int;
        let top_element = match self.pop_raw() {
            Ok(e) => e,
            Err(e) => {
                assert(self.operand_stack@ =~= Seq::<Entry>::empty());
                return Err(e);
            },
        };
        let second_element = match self.pop_raw() {
            Ok(e) => e,
            Err(e) => {
                assert(self.operand_stack@ =~= Seq::<Entry>::empty());
                return Err(e);
            },
        };
        let ghost base = self.operand_stack@;
        let ghost pushes: Seq<Entry> = seq![s[s.len() - 1 - 0], s[s.len() - 1 - 1], s[s.len() - 1 - 0]];
        assert(base =~= s.subrange(0, s.len() - 2));
        assert(base + pushes.take(0) =~= base);
        match self.push_step(top_element.duplicate(), Ghost(base), Ghost(pushes), Ghost(0)) {
            Ok(()) => {},
            Err(e) => {
                assert(base.len() + 0 >= max);
                return Err(e);
            },
        }
        match self.push_step(second_element, Ghost(base), Ghost(pushes), Ghost(1)) {
            Ok(()) => {},
            Err(e) => {
                assert(base.len() + 1 >= max);
                return Err(e);
            },
        }
        match self.push_step(top_element, Ghost(base), Ghost(pushes), Ghost(2)) {
            Ok(()) => {},
            Err(e) => {
                assert(base.len() + 2 >= max);
                return Err(e);
            },
        }
        assert(pushes.take(3) =~= pushes);
        Ok(())
    }

    /// Duplicates the top entry and inserts the copy below the third one (`dup_x2`).
    pub fn dup_x2(&mut self) -> (r: Result<(), ExecutionError>)
        ensures
            same_but_stack(*final(self), *old(self)),
            r == shuffle_outcome(old(self).stack(), 3, seq![below_top(old(self).stack(), 0), below_top(old(self).stack(), 2), below_top(old(self).stack(), 1), below_top(old(self).stack(), 0)], old(self).max_stack_of() as int).0,
            all_agree(final(self).stack(), shuffle_outcome(old(self).stack(), 3, seq![below_top(old(self).stack(), 0), below_top(old(self).stack(), 2), below_top(old(self).stack(), 1), below_top(old(self).stack(), 0)], old(self).max_stack_of() as int).1),
    {
        let ghost s = self.operand_stack@;
        let ghost max = self.max_stack as int;
        let top_element = match self.pop_raw() {
            Ok(e) => e,
            Err(e) => {
                assert(self.operand_stack@ =~= Seq::<Entry>::empty());
                return Err(e);
            },
        };
        let second_element = match self.pop_raw() {
            Ok(e) => e,
            Err(e) => {
                assert(self.operand_stack@ =~= Seq::<Entry>::empty());
                return Err(e);
            },
        };
        let third_element = match self.pop_raw() {
            Ok(e) => e,
            Err(e) => {
                assert(self.operand_stack@ =~= Seq::<Entry>::empty());
                return Err(e);
            },
        };
        let ghost base = self.operand_stack@;
        let ghost pushes: Seq<Entry> = seq![s[s.len() - 1 - 0], s[s.len() - 1 - 2], s[s.len() - 1 - 1], s[s.len() - 1 - 0]];
        assert(base =~= s.subrange(0, s.len() - 3));
        assert(base + pushes.take(0) =~= base);
        match self.push_step(top_element.duplicate(), Ghost(base), Ghost(pushes), Ghost(0)) {
            Ok(()) => {},
            Err(e) => {
                assert(base.len() + 0 >= max);
                return Err(e);
            },
        }
        match self.push_step(third_element, Ghost(base), Ghost(pushes), Ghost(1)) {
            Ok(()) => {},
            Err(e) => {
                assert(base.len() + 1 >= max);
                return Err(e);
            },
        }
        match self.push_step(second_element, Ghost(base), Ghost(pushes), Ghost(2)) {
            Ok(()) => {},
            Err(e) => {
                assert(base.len() + 2 >= max);
                return Err(e);
            },
        }
        match self.push_step(top_element, Ghost(base), Ghost(pushes), Ghost(3)) {
            Ok(()) => {},
            Err(e) => {
                assert(base.len() + 3 >= max);
                return Err(e);
            },
        }
        assert(pushes.take(4) =~= pushes);
        Ok(())
    }

    /// Duplicates the top two entries (`dup2`).
    pub fn dup2(&mut self) -> (r: Result<(), ExecutionError>)
        ensures
            same_but_stack(*final(self), *old(self)),
            r == shuffle_outcome(old(self).stack(), 2, seq![below_top(old(self).stack(), 1), below_top(old(self).stack(), 0), below_top(old(self).stack(), 1), below_top(old(self).stack(), 0)], old(self).max_stack_of() as int).0,
            all_agree(final(self).stack(), shuffle_outcome(old(self).stack(), 2, seq![below_top(old(self).stack(), 1), below_top(old(self).stack(), 0), below_top(old(self).stack(), 1), below_top(old(self).stack(), 0)], old(self).max_stack_of() as int).1),
    {
        let ghost s = self.operand_stack@;
        let ghost max = self.max_stack as int;
        let top_element = match self.pop_raw() {
            Ok(e) => e,
            Err(e) => {
                assert(self.operand_stack@ =~= Seq::<Entry>::empty());
                return Err(e);
            },
        };
        let second_element = match self.pop_raw() {
            Ok(e) => e,
            Err(e) => {
                assert(self.operand_stack@ =~= Seq::<Entry>::empty());
                return Err(e);
            },
        };
        let ghost base = self.operand_stack@;
        let ghost pushes: Seq<Entry> = seq![s[s.len() - 1 - 1], s[s.len() - 1 - 0], s[s.len() - 1 - 1], s[s.len() - 1 - 0]];
        assert(base =~= s.subrange(0, s.len() - 2));
        assert(base + pushes.take(0) =~= base);
        match self.push_step(second_element.duplicate(), Ghost(base), Ghost(pushes), Ghost(0)) {
            Ok(()) => {},
            Err(e) => {
                assert(base.len() + 0 >= max);
                return Err(e);
            },
        }
        match self.push_step(top_element.duplicate(), Ghost(base), Ghost(pushes), Ghost(1)) {
            Ok(()) => {},
            Err(e) => {
                assert(base.len() + 1 >= max);
                return Err(e);
            },
        }
        match self.push_step(second_element, Ghost(base), Ghost(pushes), Ghost(2)) {
            Ok(()) => {},
            Err(e) => {
                assert(base.len() + 2 >= max);
                return Err(e);
            },
        }
        match self.push_step(top_element, Ghost(base), Ghost(pushes), Ghost(3)) {
            Ok(()) => {},
            Err(e) => {
                assert(base.len() + 3 >= max);
                return Err(e);
            },
        }
        assert(pushes.take(4) =~= pushes);
        Ok(())
    }

    /// Duplicates the top two entries and inserts the copies below the third one (`dup2_x1`).
    pub fn dup2_x1(&mut self) -> (r: Result<(), ExecutionError>)
        ensures
            same_but_stack(*final(self), *old(self)),
            r == shuffle_outcome(old(self).stack(), 3, seq![below_top(old(self).stack(), 1), below_top(old(self).stack(), 0), below_top(old(self).stack(), 2), below_top(old(self).stack(), 1), below_top(old(self).stack(), 0)], old(self).max_stack_of() as int).0,
            all_agree(final(self).stack(), shuffle_outcome(old(self).stack(), 3, seq![below_top(old(self).stack(), 1), below_top(old(self).stack(), 0), below_top(old(self).stack(), 2), below_top(old(self).stack(), 1), below_top(old(self).stack(), 0)], old(self).max_stack_of() as int).1),
    {
        let ghost s = self.operand_stack@;
        let ghost max = self.max_stack as int;
        let top_element = match self.pop_raw() {
            Ok(e) => e,
            Err(e) => {
                assert(self.operand_stack@ =~= Seq::<Entry>::empty());
                return Err(e);
            },
        };
        let second_element = match self.pop_raw() {
            Ok(e) => e,
            Err(e) => {
                assert(self.operand_stack@ =~= Seq::<Entry>::empty());
                return Err(e);
            },
        };
        let third_element = match self.pop_raw() {
            Ok(e) => e,
            Err(e) => {
                assert(self.operand_stack@ =~= Seq::<Entry>::empty());
                return Err(e);
            },
        };
        let ghost base = self.operand_stack@;
        let ghost pushes: Seq<Entry> = seq![s[s.len() - 1 - 1], s[s.len() - 1 - 0], s[s.len() - 1 - 2], s[s.len() - 1 - 1], s[s.len() - 1 - 0]];
        assert(base =~= s.subrange(0, s.len() - 3));
        assert(base + pushes.take(0) =~= base);
        match self.push_step(second_element.duplicate(), Ghost(base), Ghost(pushes), Ghost(0)) {
            Ok(()) => {},
            Err(e) => {
                assert(base.len() + 0 >= max);
                return Err(e);
            },
        }
        match self.push_step(top_element.duplicate(), Ghost(base), Ghost(pushes), Ghost(1)) {
            Ok(()) => {},
            Err(e) => {
                assert(base.len() + 1 >= max);
                return Err(e);
            },
        }
        match self.push_step(third_element, Ghost(base), Ghost(pushes), Ghost(2)) {
            Ok(()) => {},
            Err(e) => {
                assert(base.len() + 2 >= max);
                return Err(e);
            },
        }
        match self.push_step(second_element, Ghost(base), Ghost(pushes), Ghost(3)) {
            Ok(()) => {},
            Err(e) => {
                assert(base.len() + 3 >= max);
                return Err(e);
            },
        }
        match self.push_step(top_element, Ghost(base), Ghost(pushes), Ghost(4)) {
            Ok(()) => {},
            Err(e) => {
                assert(base.len() + 4 >= max);
                return Err(e);
            },
        }
        assert(pushes.take(5) =~= pushes);
        Ok(())
    }

    /// Duplicates the top two entries and inserts the copies below the fourth one (`dup2_x2`).
    pub fn dup2_x2(&mut self) -> (r: Result<(), ExecutionError>)
        ensures
            same_but_stack(*final(self), *old(self)),
            r == shuffle_outcome(old(self).stack(), 4, seq![below_top(old(self).stack(), 1), below_top(old(self).stack(), 0), below_top(old(self).stack(), 3), below_top(old(self).stack(), 2), below_top(old(self).stack(), 1), below_top(old(self).stack(), 0)], old(self).max_stack_of() as int).0,
            all_agree(final(self).stack(), shuffle_outcome(old(self).stack(), 4, seq![below_top(old(self).stack(), 1), below_top(old(self).stack(), 0), below_top(old(self).stack(), 3), below_top(old(self).stack(), 2), below_top(old(self).stack(), 1), below_top(old(self).stack(), 0)], old(self).max_stack_of() as int).1),
    {
        let ghost s = self.operand_stack@;
        let ghost max = self.max_stack as int;
        let top_element = match self.pop_raw() {
            Ok(e) => e,
            Err(e) => {
                assert(self.operand_stack@ =~= Seq::<Entry>::empty());
                return Err(e);
            },
        };
        let second_element = match self.pop_raw() {
            Ok(e) => e,
            Err(e) => {
                assert(self.operand_stack@ =~= Seq::<Entry>::empty());
                return Err(e);
            },
        };
        let third_element = match self.pop_raw() {
            Ok(e) => e,
            Err(e) => {
                assert(self.operand_stack@ =~= Seq::<Entry>::empty());
                return Err(e);
            },
        };
        let fourth_element = match self.pop_raw() {
            Ok(e) => e,
            Err(e) => {
                assert(self.operand_stack@ =~= Seq::<Entry>::empty());
                return Err(e);
            },
        };
        let ghost base = self.operand_stack@;
        let ghost pushes: Seq<Entry> = seq![s[s.len() - 1 - 1], s[s.len() - 1 - 0], s[s.len() - 1 - 3], s[s.len() - 1 - 2], s[s.len() - 1 - 1], s[s.len() - 1 - 0]];
        assert(base =~= s.subrange(0, s.len() - 4));
        assert(base + pushes.take(0) =~= base);
        match self.push_step(second_element.duplicate(), Ghost(base), Ghost(pushes), Ghost(0)) {
            Ok(()) => {},
            Err(e) => {
                assert(base.len() + 0 >= max);
                return Err(e);
            },
        }
        match self.push_step(top_element.duplicate(), Ghost(base), Ghost(pushes), Ghost(1)) {
            Ok(()) => {},
            Err(e) => {
                assert(base.len() + 1 >= max);
                return Err(e);
            },
        }
        match self.push_step(fourth_element, Ghost(base), Ghost(pushes), Ghost(2)) {
            Ok(()) => {},
            Err(e) => {
                assert(base.len() + 2 >= max);
                return Err(e);
            },
        }
        match self.push_step(third_element, Ghost(base), Ghost(pushes), Ghost(3)) {
            Ok(()) => {},
            Err(e) => {
                assert(base.len() + 3 >= max);
                return Err(e);
            },
        }
        match self.push_step(second_element, Ghost(base), Ghost(pushes), Ghost(4)) {
            Ok(()) => {},
            Err(e) => {
                assert(base.len() + 4 >= max);
                return Err(e);
            },
        }
        match self.push_step(top_element, Ghost(base), Ghost(pushes), Ghost(5)) {
            Ok(()) => {},
            Err(e) => {
                assert(base.len() + 5 >= max);
                return Err(e);
            },
        }
        assert(pushes.take(6) =~= pushes);
        Ok(())
    }

    /// Swaps the top two entries (`swap`).
    pub fn swap(&mut self) -> (r: Result<(), ExecutionError>)
        ensures
            same_but_stack(*final(self), *old(self)),
            r == shuffle_outcome(old(self).stack(), 2, seq![below_top(old(self).stack(), 0), below_top(old(self).stack(), 1)], old(self).max_stack_of() as int).0,
            all_agree(final(self).stack(), shuffle_outcome(old(self).stack(), 2, seq![below_top(old(self).stack(), 0), below_top(old(self).stack(), 1)], old(self).max_stack_of() as int).1),
            final(self).stack() == shuffle_outcome(old(self).stack(), 2, seq![below_top(old(self).stack(), 0), below_top(old(self).stack(), 1)], old(self).max_stack_of() as int).1,
    {
        let ghost s = self.operand_stack@;
        let ghost max = self.max_stack as int;
        let top_element = match self.pop_raw() {
            Ok(e) => e,
            Err(e) => {
                assert(self.operand_stack@ =~= Seq::<Entry>::empty());
                return Err(e);
            },
        };
        let second_element = match self.pop_raw() {
            Ok(e) => e,
            Err(e) => {
                assert(self.operand_stack@ =~= Seq::<Entry>::empty());
                return Err(e);
            },
        };
        let ghost base = self.operand_stack@;
        let ghost pushes: Seq<Entry> = seq![s[s.len() - 1 - 0], s[s.len() - 1 - 1]];
        assert(base =~= s.subrange(0, s.len() - 2));
        assert(base + pushes.take(0) =~= base);
        match self.push_step(top_element, Ghost(base), Ghost(pushes), Ghost(0)) {
            Ok(()) => {},
            Err(e) => {
                assert(base.len() + 0 >= max);
                return Err(e);
            },
        }
        match self.push_step(second_element, Ghost(base), Ghost(pushes), Ghost(1)) {
            Ok(()) => {},
            Err(e) => {
                assert(base.len() + 1 >= max);
                return Err(e);
            },
        }
        assert(pushes.take(2) =~= pushes);
        Ok(())
    }
}

/// The local variable entries of the arguments with the given types: each argument is a value,
/// followed by a top when it takes two slots.
pub open spec fn arg_entries(params: Seq<FieldType>) -> Seq<Entry>
    decreases params.len(),
{
    if params.len() == 0 {
        Seq::empty()
    } else {
        let i = params.len() - 1;
        arg_entries(params.drop_last()) + seq![Entry::Value(Argument::Id(Identifier::Arg(i as u16)))]
            + if params[i].is_dual_slot() {
            seq![Entry::Top]
        } else {
            Seq::<Entry>::empty()
        }
    }
}

/// The initialized local variables at the entry of a method: `this` for an instance method,
/// then the arguments.
pub open spec fn initial_locals(is_static: bool, params: Seq<FieldType>) -> Seq<Entry> {
    (if is_static {
        Seq::<Entry>::empty()
    } else {
        seq![Entry::Value(Argument::Id(Identifier::This))]
    }) + arg_entries(params)
}

/// The arguments take at least one and at most two slots each, and those of a prefix of the
/// parameters take no more slots than all of them.
proof fn lemma_arg_entries_len(params: Seq<FieldType>, j: int)
    requires
        0 <= j <= params.len(),
    ensures
        params.len() <= arg_entries(params).len() <= 2 * params.len(),
        arg_entries(params.take(j)).len() <= arg_entries(params).len(),
    decreases params.len(),
{
    if params.len() > 0 {
        lemma_arg_entries_len(params.drop_last(), if j == params.len() { j - 1 } else { j });
        if j < params.len() {
            assert(params.drop_last().take(j) =~= params.take(j));
        } else {
            assert(params.take(j) =~= params);
        }
    } else {
        assert(params.take(j) =~= params);
    }
}

/// Checks whether the initial local variables of a method fit into `max_locals` slots.
fn fits_locals(is_static: bool, params: &Vec<FieldType>, max_locals: u16) -> (r: bool)
    ensures
        r == (initial_locals(is_static, params@).len() <= max_locals),
{
    let ghost ps = params@;
    let mut needed: usize = if is_static { 0 } else { 1 };
    assert(ps.take(0) =~= Seq::<FieldType>::empty());
    if needed > max_locals as usize {
        proof {
            lemma_arg_entries_len(ps, 0);
        }
        return false;
    }
    let mut i: usize = 0;
    while i < params.len()
        invariant
            ps == params@,
            i <= ps.len(),
            needed == initial_locals(is_static, ps.take(i as int)).len(),
            needed <= max_locals,
        decreases ps.len() - i,
    {
        proof {
            assert(ps.take(i + 1).drop_last() =~= ps.take(i as int));
            assert(ps.take(i + 1)[i as int] == ps[i as int]);
        }
        let width: usize = if params[i].dual_slot() { 2 } else { 1 };
        needed = needed + width;
        if needed > max_locals as usize {
            proof {
                lemma_arg_entries_len(ps, i + 1);
            }
            return false;
        }
        i = i + 1;
    }
    assert(ps.take(ps.len() as int) =~= ps);
    true
}

/// Builds the initial local variables of a method, which fit into `max_locals` slots.
fn build_initial_locals(is_static: bool, params: &Vec<FieldType>, max_locals: u16) -> (r: Vec<Entry>)
    requires
        initial_locals(is_static, params@).len() <= max_locals,
    ensures
        r@ == initial_locals(is_static, params@),
{
    let ghost ps = params@;
    let mut locals: Vec<Entry> = Vec::new();
    if !is_static {
        locals.push(Entry::Value(Argument::Id(Identifier::This)));
    }
    proof {
        assert(ps.take(0) =~= Seq::<FieldType>::empty());
        assert(locals@ =~= initial_locals(is_static, ps.take(0)));
    }
    let mut i: usize = 0;
    while i < params.len()
        invariant
            ps == params@,
            i <= ps.len(),
            locals@ == initial_locals(is_static, ps.take(i as int)),
            initial_locals(is_static, ps).len() <= max_locals,
        decreases ps.len() - i,
    {
        proof {
            assert(ps.take(i + 1).drop_last() =~= ps.take(i as int));
            assert(ps.take(i + 1)[i as int] == ps[i as int]);
            lemma_arg_entries_len(ps, i + 1);
            lemma_arg_entries_len(ps.take(i + 1), 0);
        }
        let index: u16 = i as u16;
        locals.push(Entry::Value(Argument::Id(Identifier::Arg(index))));
        if params[i].dual_slot() {
            locals.push(Entry::Top);
        }
        assert(locals@ =~= initial_locals(is_static, ps.take(i + 1)));
        i = i + 1;
    }
    assert(ps.take(ps.len() as int) =~= ps);
    locals
}

impl JvmStackFrame {
    /// Creates the frame at the entry of a method with the given descriptor: `this` for an
    /// instance method and the arguments fill the first local variables, the others are
    /// uninitialized, and the operand stack is empty.
    ///
    /// # Errors
    /// [`ExecutionError::LocalLimitExceed`] when the arguments do not fit into `max_locals`
    /// slots.
    pub fn new(is_static: bool, desc: &MethodDescriptor, max_locals: u16, max_stack: u16) -> (r: Result<Self, ExecutionError>)
        ensures
            r is Err <==> initial_locals(is_static, desc.parameters_types@).len() > max_locals,
            r matches Err(e) ==> e == ExecutionError::LocalLimitExceed,
            r matches Ok(f) ==> {
                &&& f.max_locals_of() == max_locals
                &&& f.max_stack_of() == max_stack
                &&& f.locals() == initial_locals(is_static, desc.parameters_types@) + Seq::new(
                    (max_locals - initial_locals(is_static, desc.parameters_types@).len()) as nat,
                    |i: int| Entry::UninitializedLocal,
                )
                &&& f.stack() == Seq::<Entry>::empty()
                &&& f.ret_addresses() == Set::<ProgramCounter>::empty()
            },
    {
        if !fits_locals(is_static, &desc.parameters_types, max_locals) {
            return Err(ExecutionError::LocalLimitExceed);
        }
        let mut locals = build_initial_locals(is_static, &desc.parameters_types, max_locals);
        let ghost init = locals@;
        assert(locals@ =~= init + Seq::new(0, |i: int| Entry::UninitializedLocal));
        while locals.len() < max_locals as usize
            invariant
                init.len() <= locals@.len() <= max_locals,
                locals@ == init + Seq::new((locals@.len() - init.len()) as nat, |i: int| Entry::UninitializedLocal),
            decreases max_locals - locals@.len(),
        {
            locals.push(Entry::UninitializedLocal);
            assert(locals@ =~= init + Seq::new((locals@.len() - init.len()) as nat, |i: int| Entry::UninitializedLocal));
        }
        let frame = JvmStackFrame {
            max_locals,
            max_stack,
            local_variables: locals,
            operand_stack: Vec::new(),
            possible_ret_addresses: Vec::new(),
        };
        assert(frame.possible_ret_addresses@.to_set() =~= Set::<ProgramCounter>::empty());
        Ok(frame)
    }
}

/// The outcome of popping the arguments of the given types, the last one first.
pub open spec fn pop_args_outcome(stack: Seq<Entry>, params: Seq<FieldType>) -> (
    Result<Seq<Argument>, ExecutionError>,
    Seq<Entry>,
)
    decreases params.len(),
{
    if params.len() == 0 {
        (Ok(Seq::empty()), stack)
    } else {
        let (first, rest) = pop_value_outcome(stack, params.last().is_dual_slot());
        match first {
            Err(e) => (Err(e), rest),
            Ok(v) => {
                let (others, left) = pop_args_outcome(rest, params.drop_last());
                match others {
                    Err(e) => (Err(e), left),
                    Ok(vs) => (Ok(vs.push(v)), left),
                }
            },
        }
    }
}

/// Appends `tail` to the arguments of a successful outcome.
pub open spec fn with_tail(
    o: (Result<Seq<Argument>, ExecutionError>, Seq<Entry>),
    tail: Seq<Argument>,
) -> (Result<Seq<Argument>, ExecutionError>, Seq<Entry>) {
    match o.0 {
        Ok(vs) => (Ok(vs + tail), o.1),
        Err(e) => (Err(e), o.1),
    }
}

/// Whether reading a local variable of the given width at `idx` succeeds, and the error
/// otherwise.
pub open spec fn get_local_check(locals: Seq<Entry>, idx: int, dual: bool) -> Result<(), ExecutionError> {
    if idx >= locals.len() {
        Err(ExecutionError::LocalLimitExceed)
    } else {
        match locals[idx] {
            Entry::Top => Err(ExecutionError::ValueMismatch),
            Entry::UninitializedLocal => Err(ExecutionError::LocalUninitialized),
            Entry::Value(_) => if !dual {
                Ok(())
            } else if idx + 1 >= locals.len() {
                Err(ExecutionError::LocalLimitExceed)
            } else if locals[idx + 1] is Top {
                Ok(())
            } else {
                Err(ExecutionError::ValueMismatch)
            },
        }
    }
}

/// The outcome of writing a value of the given width to the local variable at `idx`: the
/// value goes to `idx`, and a top to the slot above when `dual` holds.
pub open spec fn set_local_outcome(locals: Seq<Entry>, idx: int, value: Argument, dual: bool) -> (
    Result<(), ExecutionError>,
    Seq<Entry>,
) {
    if idx >= locals.len() {
        (Err(ExecutionError::LocalLimitExceed), locals)
    } else {
        let written = locals.update(idx, Entry::Value(value));
        if !dual {
            (Ok(()), written)
        } else if idx + 1 >= locals.len() {
            (Err(ExecutionError::LocalLimitExceed), written)
        } else {
            (Ok(()), written.update(idx + 1, Entry::Top))
        }
    }
}

impl JvmStackFrame {
    /// Pops the arguments of a method with the given descriptor, the last one first, and
    /// returns them in their order.
    pub fn pop_args(&mut self, descriptor: &MethodDescriptor) -> (r: Result<Vec<Argument>, ExecutionError>)
        ensures
            same_but_stack(*final(self), *old(self)),
            r matches Ok(v) ==> pop_args_outcome(old(self).stack(), descriptor.parameters_types@).0
                == Ok::<Seq<Argument>, ExecutionError>(v@),
            r matches Err(e) ==> pop_args_outcome(old(self).stack(), descriptor.parameters_types@).0
                == Err::<Seq<Argument>, ExecutionError>(e),
            final(self).stack() == pop_args_outcome(old(self).stack(), descriptor.parameters_types@).1,
    {
        let params = &descriptor.parameters_types;
        let ghost ps = params@;
        let ghost s0 = self.operand_stack@;
        let mut args: Vec<Argument> = Vec::new();
        let mut i: usize = params.len();
        assert(ps.take(ps.len() as int) =~= ps);
        assert(with_tail(pop_args_outcome(s0, ps), Seq::empty()) =~= pop_args_outcome(s0, ps)) by {
            match pop_args_outcome(s0, ps).0 {
                Ok(vs) => assert(vs + Seq::<Argument>::empty() =~= vs),
                Err(e) => {},
            }
        }
        while i > 0
            invariant
                ps == params@,
                i <= ps.len(),
                same_but_stack(*self, *old(self)),
                s0 == old(self).stack(),
                ps == descriptor.parameters_types@,
                pop_args_outcome(s0, ps) == with_tail(pop_args_outcome(self.stack(), ps.take(i as int)), args@),
            decreases i,
        {
            let ghost cur = self.stack();
            let ghost before = args@;
            let ghost pre = ps.take(i as int);
            proof {
                assert(pre.drop_last() =~= ps.take(i - 1));
                assert(pre.last() == ps[i - 1]);
            }
            let popped = if params[i - 1].dual_slot() {
                self.pop_value::<DUAL_SLOT>()
            } else {
                self.pop_value::<SINGLE_SLOT>()
            };
            match popped {
                Ok(arg) => {
                    args.insert(0, arg);
                    proof {
                        match pop_args_outcome(self.stack(), ps.take(i - 1)).0 {
                            Ok(vs) => {
                                assert(vs.push(arg) + before =~= vs + args@);
                            },
                            Err(e) => {},
                        }
                    }
                },
                Err(e) => {
                    assert(pop_args_outcome(cur, pre) == (Err::<Seq<Argument>, ExecutionError>(e), self.stack()));
                    return Err(e);
                },
            }
            i = i - 1;
        }
        proof {
            assert(ps.take(0) =~= Seq::<FieldType>::empty());
            assert(Seq::<Argument>::empty() + args@ =~= args@);
        }
        Ok(args)
    }

    /// Reads the local variable at `idx`: a value that takes one slot, or two when `SLOT` is
    /// [`DUAL_SLOT`].
    pub fn get_local<const SLOT: bool>(&self, idx: u16) -> (r: Result<Argument, ExecutionError>)
        ensures
            r is Ok <==> get_local_check(self.locals(), idx as int, SLOT) is Ok,
            r matches Err(e) ==> get_local_check(self.locals(), idx as int, SLOT) == Err::<(), ExecutionError>(e),
            r matches Ok(v) ==> self.locals()[idx as int] matches Entry::Value(a) && same_argument(v, a),
    {
        let i = idx as usize;
        if i >= self.local_variables.len() {
            return Err(ExecutionError::LocalLimitExceed);
        }
        let value = match &self.local_variables[i] {
            Entry::Value(it) => it.duplicate(),
            Entry::Top => return Err(ExecutionError::ValueMismatch),
            Entry::UninitializedLocal => return Err(ExecutionError::LocalUninitialized),
        };
        if SLOT {
            if i + 1 >= self.local_variables.len() {
                return Err(ExecutionError::LocalLimitExceed);
            }
            match &self.local_variables[i + 1] {
                Entry::Top => {},
                _ => return Err(ExecutionError::ValueMismatch),
            }
        }
        Ok(value)
    }

    /// Writes `value` to the local variable at `idx`, and a top to the slot above when `SLOT`
    /// is [`DUAL_SLOT`].
    pub fn set_local<const SLOT: bool>(&mut self, idx: u16, value: Argument) -> (r: Result<(), ExecutionError>)
        ensures
            final(self).max_locals_of() == old(self).max_locals_of(),
            final(self).max_stack_of() == old(self).max_stack_of(),
            final(self).stack() == old(self).stack(),
            final(self).ret_addresses() == old(self).ret_addresses(),
            r == set_local_outcome(old(self).locals(), idx as int, value, SLOT).0,
            final(self).locals() == set_local_outcome(old(self).locals(), idx as int, value, SLOT).1,
    {
        proof {
            use_type_invariant(&*self);
        }
        let i = idx as usize;
        if i >= self.local_variables.len() {
            return Err(ExecutionError::LocalLimitExceed);
        }
        let mut locals = Vec::new();
        std::mem::swap(&mut locals, &mut self.local_variables);
        locals.set(i, Entry::Value(value));
        if SLOT {
            if i + 1 >= locals.len() {
                self.local_variables = locals;
                return Err(ExecutionError::LocalLimitExceed);
            }
            locals.set(i + 1, Entry::Top);
        }
        self.local_variables = locals;
        Ok(())
    }
}

/// A value written to a local variable, with room for it, is what reading it gives back.
pub proof fn lemma_set_then_get(locals: Seq<Entry>, idx: int, value: Argument, dual: bool)
    requires
        0 <= idx,
        idx + (if dual { 1int } else { 0int }) < locals.len(),
    ensures
        set_local_outcome(locals, idx, value, dual).0 is Ok,
        get_local_check(set_local_outcome(locals, idx, value, dual).1, idx, dual) is Ok,
        set_local_outcome(locals, idx, value, dual).1[idx] == Entry::Value(value),
        set_local_outcome(locals, idx, value, dual).1.len() == locals.len(),
{
}

/// The entry that merging `lhs` with `rhs` gives, with the left-hand side copied: as
/// [`merged_entry`], where a kept left-hand side may be a copy of it.
pub open spec fn merge_agrees(lhs: Entry, rhs: Entry, r: Entry) -> bool {
    match (lhs, rhs) {
        (Entry::Value(a), Entry::Value(b)) => r matches Entry::Value(c) && c.ids() == a.ids().union(b.ids())
            && (c is Id <==> (a is Id && b is Id && a == b)),
        (Entry::Top, Entry::Top) => r == Entry::Top,
        (Entry::UninitializedLocal, other) => r == other,
        (other, _) => agrees(r, other),
    }
}

/// Copies a list of entries.
fn duplicate_entries(v: &Vec<Entry>) -> (r: Vec<Entry>)
    ensures
        all_agree(r@, v@),
{
    let mut r: Vec<Entry> = Vec::new();
    let mut i: usize = 0;
    while i < v.len()
        invariant
            i <= v@.len(),
            r@.len() == i,
            forall|j: int| 0 <= j < i ==> agrees(#[trigger] r@[j], v@[j]),
        decreases v@.len() - i,
    {
        r.push(v[i].duplicate());
        i = i + 1;
    }
    r
}

/// Merges two lists of entries slot by slot, as far as both reach.
fn merge_entries(lhs: &Vec<Entry>, rhs: Vec<Entry>) -> (r: Vec<Entry>)
    ensures
        r@.len() == if lhs@.len() <= rhs@.len() { lhs@.len() } else { rhs@.len() },
        forall|i: int| 0 <= i < r@.len() ==> merge_agrees(lhs@[i], rhs@[i], #[trigger] r@[i]),
{
    let ghost rs = rhs@;
    let mut rest = rhs;
    let mut r: Vec<Entry> = Vec::new();
    let mut i: usize = 0;
    while i < lhs.len() && rest.len() > 0
        invariant
            i <= lhs@.len(),
            i <= rs.len(),
            rest@ == rs.subrange(i as int, rs.len() as int),
            r@.len() == i,
            forall|j: int| 0 <= j < i ==> merge_agrees(lhs@[j], rs[j], #[trigger] r@[j]),
        decreases lhs@.len() - i,
    {
        let other = rest.remove(0);
        assert(other == rs[i as int]);
        let mine = lhs[i].duplicate();
        let ghost mine_view = mine;
        let merged = Entry::merge(mine, other);
        proof {
            if let (Entry::Value(a), Entry::Value(b)) = (lhs@[i as int], rs[i as int]) {
                if let Entry::Value(d) = mine_view {
                    if a is Id {
                        assert(d.ids().contains(a->Id_0));
                        assert(d == a);
                    }
                }
            }
        }
        r.push(merged);
        i = i + 1;
    }
    r
}

impl JvmStackFrame {
    /// Merges the frames that reach the same location from different paths.
    ///
    /// # Errors
    /// [`ExecutionError::LocalLimitMismatch`] when the frames have different numbers of local
    /// variables, and [`ExecutionError::StackSizeMismatch`] when their stacks differ in depth.
    pub fn merge(&self, other: Self) -> (r: Result<Self, ExecutionError>)
        ensures
            self.max_locals_of() != other.max_locals_of() ==> r == Err::<Self, ExecutionError>(
                ExecutionError::LocalLimitMismatch,
            ),
            self.max_locals_of() == other.max_locals_of() && self.stack().len() != other.stack().len()
                ==> r == Err::<Self, ExecutionError>(ExecutionError::StackSizeMismatch),
            self.max_locals_of() == other.max_locals_of() && self.stack().len() == other.stack().len()
                ==> (r matches Ok(f) && merged_frames(*self, other, f)),
    {
        proof {
            use_type_invariant(self);
            use_type_invariant(&other);
        }
        if self.max_locals != other.max_locals {
            return Err(ExecutionError::LocalLimitMismatch);
        }
        if self.operand_stack.len() != other.operand_stack.len() {
            return Err(ExecutionError::StackSizeMismatch);
        }
        let ghost other_stack_view = other.operand_stack@;
        let ghost other_ret_view = other.possible_ret_addresses@;
        let JvmStackFrame { local_variables: other_locals, operand_stack: other_stack, possible_ret_addresses: other_ret, .. } = other;
        let local_variables = merge_entries(&self.local_variables, other_locals);
        let operand_stack = merge_entries(&self.operand_stack, other_stack);
        let mut ret: Vec<ProgramCounter> = Vec::new();
        let mut i: usize = 0;
        while i < self.possible_ret_addresses.len()
            invariant
                i <= self.possible_ret_addresses@.len(),
                ret@ == self.possible_ret_addresses@.subrange(0, i as int),
            decreases self.possible_ret_addresses@.len() - i,
        {
            ret.push(self.possible_ret_addresses[i]);
            i = i + 1;
        }
        assert(ret@ =~= self.possible_ret_addresses@);
        let mut j: usize = 0;
        while j < other_ret.len()
            invariant
                j <= other_ret@.len(),
                ret@.to_set() == self.possible_ret_addresses@.to_set().union(other_ret@.subrange(0, j as int).to_set()),
            decreases other_ret@.len() - j,
        {
            let pc = other_ret[j];
            let mut k: usize = 0;
            let mut seen = false;
            while k < ret.len()
                invariant
                    k <= ret@.len(),
                    seen <==> exists|x: int| 0 <= x < k && ret@[x] == pc,
                decreases ret@.len() - k,
            {
                if ret[k] == pc {
                    seen = true;
                }
                k = k + 1;
            }
            let ghost before = ret@;
            if !seen {
                ret.push(pc);
            }
            proof {
                let pre = other_ret@.subrange(0, j as int);
                let post = other_ret@.subrange(0, j + 1);
                assert(post =~= pre.push(pc));
                if seen {
                    let q = choose|q: int| 0 <= q < k && before[q] == pc;
                    assert(before.contains(pc));
                    assert(ret@ == before);
                } else {
                    assert(ret@ == before.push(pc));
                }
                assert(ret@.to_set() =~= before.to_set().insert(pc)) by {
                    assert forall|x: ProgramCounter| #[trigger] ret@.to_set().contains(x) <==> before.to_set().insert(pc).contains(x) by {
                        if ret@.contains(x) {
                            let q = choose|q: int| 0 <= q < ret@.len() && ret@[q] == x;
                            if q < before.len() {
                                assert(before[q] == x);
                            }
                        }
                        if before.contains(x) {
                            let q = choose|q: int| 0 <= q < before.len() && before[q] == x;
                            assert(ret@[q] == x);
                        }
                        if x == pc && !seen {
                            assert(ret@[before.len() as int] == pc);
                        }
                        if x == pc && seen {
                            let q = choose|q: int| 0 <= q < k && before[q] == pc;
                            assert(before.contains(pc));
                        }
                    }
                }
                assert(post.to_set() =~= pre.to_set().insert(pc)) by {
                    assert forall|x: ProgramCounter| post.contains(x) <==> pre.contains(x) || x == pc by {
                        if post.contains(x) {
                            let q = choose|q: int| 0 <= q < post.len() && post[q] == x;
                            if q < pre.len() {
                                assert(pre[q] == x);
                            }
                        }
                        if pre.contains(x) {
                            let q = choose|q: int| 0 <= q < pre.len() && pre[q] == x;
                            assert(post[q] == x);
                        }
                        if x == pc {
                            assert(post[j as int] == pc);
                        }
                    }
                }
                assert(ret@.to_set() =~= self.possible_ret_addresses@.to_set().union(post.to_set()));
            }
            j = j + 1;
        }
        assert(other_ret@.subrange(0, j as int) =~= other_ret@);
        proof {
            assert forall|i: int| 0 <= i < operand_stack@.len() implies !(#[trigger] operand_stack@[i] is UninitializedLocal) by {
                assert(merge_agrees(self.operand_stack@[i], other_stack_view[i], operand_stack@[i]));
                assert(!(self.operand_stack@[i] is UninitializedLocal));
                assert(!(other_stack_view[i] is UninitializedLocal));
            }
        }
        Ok(JvmStackFrame {
            max_locals: self.max_locals,
            max_stack: self.max_stack,
            local_variables,
            operand_stack,
            possible_ret_addresses: ret,
        })
    }

    /// Copies the frame.
    pub fn same_frame(&self) -> (r: Self)
        ensures
            r.max_locals_of() == self.max_locals_of(),
            r.max_stack_of() == self.max_stack_of(),
            all_agree(r.locals(), self.locals()),
            all_agree(r.stack(), self.stack()),
            r.ret_addresses() == self.ret_addresses(),
    {
        proof {
            use_type_invariant(self);
        }
        let operand_stack = duplicate_entries(&self.operand_stack);
        assert forall|i: int| 0 <= i < operand_stack@.len() implies !(#[trigger] operand_stack@[i] is UninitializedLocal) by {
            assert(agrees(operand_stack@[i], self.operand_stack@[i]));
        }
        JvmStackFrame {
            max_locals: self.max_locals,
            max_stack: self.max_stack,
            local_variables: duplicate_entries(&self.local_variables),
            operand_stack,
            possible_ret_addresses: self.ret_address_list(),
        }
    }

    /// Copies the frame with its operand stack replaced by the single entry `stack_value`.
    pub fn same_locals_1_stack_item_frame(&self, stack_value: Entry) -> (r: Self)
        requires
            !(stack_value is UninitializedLocal),
        ensures
            r.max_locals_of() == self.max_locals_of(),
            r.max_stack_of() == self.max_stack_of(),
            all_agree(r.locals(), self.locals()),
            r.stack() == seq![stack_value],
            r.ret_addresses() == self.ret_addresses(),
    {
        let mut operand_stack = Vec::new();
        operand_stack.push(stack_value);
        assert(operand_stack@ =~= seq![stack_value]);
        JvmStackFrame {
            max_locals: self.max_locals,
            max_stack: self.max_stack,
            local_variables: duplicate_entries(&self.local_variables),
            operand_stack,
            possible_ret_addresses: self.ret_address_list(),
        }
    }

    /// Returns the return addresses of the subroutines that may be active.
    pub fn ret_address_list(&self) -> (r: Vec<ProgramCounter>)
        ensures
            r@.to_set() == self.ret_addresses(),
    {
        let mut r: Vec<ProgramCounter> = Vec::new();
        let mut i: usize = 0;
        while i < self.possible_ret_addresses.len()
            invariant
                i <= self.possible_ret_addresses@.len(),
                r@ == self.possible_ret_addresses@.subrange(0, i as int),
            decreases self.possible_ret_addresses@.len() - i,
        {
            r.push(self.possible_ret_addresses[i]);
            i = i + 1;
        }
        assert(r@ =~= self.possible_ret_addresses@);
        r
    }

    /// Records that the subroutine returning to `pc` may be active.
    pub fn add_ret_address(&mut self, pc: ProgramCounter)
        ensures
            same_but_stack_and_ret(*final(self), *old(self)),
            final(self).stack() == old(self).stack(),
            final(self).ret_addresses() == old(self).ret_addresses().insert(pc),
    {
        proof {
            use_type_invariant(&*self);
        }
        let ghost before = self.possible_ret_addresses@;
        let mut ret = Vec::new();
        std::mem::swap(&mut ret, &mut self.possible_ret_addresses);
        ret.push(pc);
        self.possible_ret_addresses = ret;
        assert(self.possible_ret_addresses@.to_set() =~= before.to_set().insert(pc)) by {
            let now = self.possible_ret_addresses@;
            assert forall|x: ProgramCounter| now.contains(x) <==> before.contains(x) || x == pc by {
                if now.contains(x) {
                    let q = choose|q: int| 0 <= q < now.len() && now[q] == x;
                    if q < before.len() {
                        assert(before[q] == x);
                    }
                }
                if before.contains(x) {
                    let q = choose|q: int| 0 <= q < before.len() && before[q] == x;
                    assert(now[q] == x);
                }
                if x == pc {
                    assert(now[before.len() as int] == pc);
                }
            }
        }
    }

    /// Takes the return addresses of the subroutines that may be active, leaving none.
    pub fn take_ret_addresses(&mut self) -> (r: Vec<ProgramCounter>)
        ensures
            same_but_stack_and_ret(*final(self), *old(self)),
            final(self).stack() == old(self).stack(),
            r@.to_set() == old(self).ret_addresses(),
            final(self).ret_addresses() == Set::<ProgramCounter>::empty(),
    {
        proof {
            use_type_invariant(&*self);
        }
        let mut ret = Vec::new();
        std::mem::swap(&mut ret, &mut self.possible_ret_addresses);
        assert(self.possible_ret_addresses@.to_set() =~= Set::<ProgramCounter>::empty());
        ret
    }
}

/// Whether two frames differ at most in their operand stacks and return addresses.
pub open spec fn same_but_stack_and_ret(a: JvmStackFrame, b: JvmStackFrame) -> bool {
    &&& a.max_locals_of() == b.max_locals_of()
    &&& a.max_stack_of() == b.max_stack_of()
    &&& a.locals() == b.locals()
}

} // verus!
