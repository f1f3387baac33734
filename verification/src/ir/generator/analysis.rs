//! The control flow out of an instruction: where it goes next, under which condition, and
//! with which frame.
use vstd::prelude::*;

use crate::ir::control_flow::path_condition::{
    lemma_negation_agrees, pred_agrees, predicate_of, BooleanVariable, PathCondition, Predicate, Value,
};
use crate::ir::control_flow::ControlTransfer;
use crate::ir::expression::Expression;
use crate::ir::generator::execution::{executes, run_instruction};
use crate::ir::generator::jvm_frame::{
    agrees, all_agree, initial_locals, lemma_agrees_equivalence, merged_frames, same_but_stack_and_ret, Entry,
    ExecutionError, JvmStackFrame,
};
use crate::ir::generator::MokaIRBrewingError;
use crate::ir::moka_instruction::{Argument, Identifier, MokaInstruction};
use crate::jvm::code::{ExceptionTableEntry, Instruction, MethodBody, ProgramCounter};
use crate::types::MethodDescriptor;
use crate::jvm::references::ClassRef;
use crate::jvm::ConstantValue;

verus! {

/// An edge of control flow out of an instruction: its source, its destination, the kind of
/// transfer, and the frame at the destination.
pub type Edge = (ProgramCounter, ProgramCounter, ControlTransfer, JvmStackFrame);

/// The name of the class of exceptions that an entry of the exception table catches.
pub open spec fn catch_name(e: ExceptionTableEntry) -> Seq<char> {
    match e.catch_type {
        Some(c) => c.binary_name@,
        None => "java/lang/Throwable"@,
    }
}

/// Whether an entry of the exception table covers `pc`.
pub open spec fn covers_at(e: ExceptionTableEntry, pc: ProgramCounter) -> bool {
    e.covered_start@ <= pc@ <= e.covered_end@
}

/// The names of the classes of exceptions that the first `n` entries of the table catch at
/// `pc` with the handler at `handler`.
pub open spec fn caught_upto(table: Seq<ExceptionTableEntry>, n: int, pc: ProgramCounter, handler: ProgramCounter) -> Set<
    Seq<char>,
> {
    Set::new(
        |name: Seq<char>|
            exists|i: int|
                0 <= i < n && covers_at(#[trigger] table[i], pc) && table[i].handler_pc == handler && catch_name(table[i])
                    == name,
    )
}

/// The names of a list of classes.
pub open spec fn names(cs: Seq<ClassRef>) -> Set<Seq<char>> {
    cs.map_values(|c: ClassRef| c.binary_name@).to_set()
}

/// Whether `g` is the frame at an exception handler reached from `f`: the same locals, and
/// the caught exception alone on the stack.
pub open spec fn handler_frame(f: JvmStackFrame, g: JvmStackFrame) -> bool {
    &&& g.max_locals_of() == f.max_locals_of()
    &&& g.max_stack_of() == f.max_stack_of()
    &&& all_agree(g.locals(), f.locals())
    &&& g.stack() == seq![Entry::Value(Argument::Id(Identifier::CaughtException))]
    &&& g.ret_addresses() == f.ret_addresses()
}

/// Whether `g` is a copy of `f`.
pub open spec fn frame_copy(f: JvmStackFrame, g: JvmStackFrame) -> bool {
    &&& g.max_locals_of() == f.max_locals_of()
    &&& g.max_stack_of() == f.max_stack_of()
    &&& all_agree(g.locals(), f.locals())
    &&& all_agree(g.stack(), f.stack())
    &&& g.ret_addresses() == f.ret_addresses()
}

/// Whether `edges` are the edges to the exception handlers that cover `pc`: one for each
/// handler, with the classes of exceptions that it catches there.
pub open spec fn exception_edges_of(table: Seq<ExceptionTableEntry>, pc: ProgramCounter, f: JvmStackFrame, edges: Seq<Edge>) -> bool {
    &&& forall|k: int|
        0 <= k < edges.len() ==> (#[trigger] edges[k]).0 == pc && (edges[k].2 matches ControlTransfer::Exception(cs)
            && names(cs@) == caught_upto(table, table.len() as int, pc, edges[k].1)) && handler_frame(f, edges[k].3)
    &&& forall|k: int, l: int| 0 <= k < l < edges.len() ==> (#[trigger] edges[k]).1 != (#[trigger] edges[l]).1
    &&& forall|i: int|
        0 <= i < table.len() && covers_at(#[trigger] table[i], pc) ==> exists|k: int|
            0 <= k < edges.len() && (#[trigger] edges[k]).1 == table[i].handler_pc
}

/// Whether a control transfer is taken when a copy of `p` holds.
pub open spec fn conditional_on(t: ControlTransfer, p: Predicate<Value>) -> bool {
    t matches ControlTransfer::Conditional(c) && exists|q: Predicate<Value>|
        pred_agrees(q, p) && c@ == Set::<Set<BooleanVariable<Predicate<Value>>>>::empty().insert(
            Set::<BooleanVariable<Predicate<Value>>>::empty().insert(BooleanVariable::Positive(q)),
        )
}

/// The name of a caught class, or `java/lang/Throwable` for all exceptions.
fn catch_class(e: &ExceptionTableEntry) -> (r: ClassRef)
    ensures
        r.binary_name@ == catch_name(*e),
{
    match &e.catch_type {
        Some(c) => c.copy(),
        None => ClassRef::new("java/lang/Throwable".to_owned()),
    }
}

/// Adds a name to a list of classes.
proof fn lemma_names_push(cs: Seq<ClassRef>, c: ClassRef)
    ensures
        names(cs.push(c)) == names(cs).insert(c.binary_name@),
{
    assert(cs.push(c).map_values(|c: ClassRef| c.binary_name@) =~= cs.map_values(|c: ClassRef| c.binary_name@).push(
        c.binary_name@,
    ));
    cs.map_values(|c: ClassRef| c.binary_name@).lemma_push_to_set_commute(c.binary_name@);
}

/// Gives the edges to the exception handlers that cover `pc`, with the frame that each handler
/// starts with.
pub fn exception_edges(table: &Vec<ExceptionTableEntry>, pc: ProgramCounter, frame: &JvmStackFrame) -> (r: Vec<Edge>)
    ensures
        exception_edges_of(table@, pc, *frame, r@),
{
    let mut handlers: Vec<ProgramCounter> = Vec::new();
    let mut groups: Vec<Vec<ClassRef>> = Vec::new();
    let mut i: usize = 0;
    while i < table.len()
        invariant
            i <= table@.len(),
            handlers@.len() == groups@.len(),
            forall|a: int, b: int| 0 <= a < b < handlers@.len() ==> handlers@[a] != handlers@[b],
            forall|j: int| 0 <= j < handlers@.len() ==> names((#[trigger] groups@[j])@) == caught_upto(table@, i as int, pc, handlers@[j]),
            forall|k: int| 0 <= k < i && covers_at(#[trigger] table@[k], pc) ==> handlers@.contains(table@[k].handler_pc),
            forall|h: ProgramCounter| !handlers@.contains(h) ==> caught_upto(table@, i as int, pc, h) == Set::<Seq<char>>::empty(),
        decreases table@.len() - i,
    {
        let entry = &table[i];
        if entry.covers(pc) {
            let name = catch_class(entry);
            let h = entry.handler_pc;
            let mut j: usize = 0;
            while j < handlers.len()
                invariant
                    j <= handlers@.len(),
                    forall|a: int| 0 <= a < j ==> handlers@[a] != h,
                ensures
                    j <= handlers@.len(),
                    forall|a: int| 0 <= a < j ==> handlers@[a] != h,
                    j < handlers@.len() ==> handlers@[j as int] == h,
                decreases handlers@.len() - j,
            {
                if handlers[j] == h {
                    break;
                }
                j = j + 1;
            }
            let ghost gs = groups@;
            let ghost hs = handlers@;
            if j < handlers.len() {
                let mut g = groups.remove(j);
                let ghost g0 = g@;
                g.push(name);
                groups.insert(j, g);
                proof {
                    lemma_names_push(g0, name);
                    assert forall|k: int| 0 <= k < handlers@.len() implies names((#[trigger] groups@[k])@) == caught_upto(
                        table@,
                        i + 1,
                        pc,
                        handlers@[k],
                    ) by {
                        if k == j {
                            assert(groups@[k]@ == g0.push(name));
                            assert(g0 == gs[k]@);
                            assert(caught_upto(table@, i + 1, pc, h) =~= caught_upto(table@, i as int, pc, h).insert(catch_name(table@[i as int])));
                        } else {
                            assert(groups@[k] == gs[k]);
                            assert(handlers@[k] != h);
                            assert(caught_upto(table@, i + 1, pc, handlers@[k]) =~= caught_upto(table@, i as int, pc, handlers@[k]));
                        }
                    }
                }
            } else {
                handlers.push(h);
                let mut g: Vec<ClassRef> = Vec::new();
                g.push(name);
                groups.push(g);
                proof {
                    lemma_names_push(Seq::empty(), name);
                    assert(Seq::<ClassRef>::empty().push(name) =~= groups@[groups@.len() - 1]@);
                    assert(names(Seq::<ClassRef>::empty()) =~= Set::<Seq<char>>::empty());
                    assert forall|k: int| 0 <= k < handlers@.len() implies names((#[trigger] groups@[k])@) == caught_upto(
                        table@,
                        i + 1,
                        pc,
                        handlers@[k],
                    ) by {
                        if k == hs.len() {
                            assert(!hs.contains(h));
                            assert(caught_upto(table@, i + 1, pc, h) =~= caught_upto(table@, i as int, pc, h).insert(catch_name(table@[i as int])));
                        } else {
                            assert(groups@[k] == gs[k]);
                            assert(handlers@[k] == hs[k]);
                            assert(hs[k] != h);
                            assert(caught_upto(table@, i + 1, pc, handlers@[k]) =~= caught_upto(table@, i as int, pc, handlers@[k]));
                        }
                    }
                }
            }
            proof {
                assert(handlers@.contains(h)) by {
                    if j < hs.len() {
                        assert(handlers@[j as int] == h);
                    } else {
                        assert(handlers@[hs.len() as int] == h);
                    }
                }
                assert forall|k: int| 0 <= k < i + 1 && covers_at(#[trigger] table@[k], pc) implies handlers@.contains(
                    table@[k].handler_pc,
                ) by {
                    if k < i {
                        let q = choose|q: int| 0 <= q < hs.len() && hs[q] == table@[k].handler_pc;
                        assert(handlers@[q] == hs[q]);
                    }
                }
                assert forall|x: ProgramCounter| !handlers@.contains(x) implies caught_upto(table@, i + 1, pc, x) == Set::<
                    Seq<char>,
                >::empty() by {
                    assert(!hs.contains(x)) by {
                        if hs.contains(x) {
                            let q = choose|q: int| 0 <= q < hs.len() && hs[q] == x;
                            assert(handlers@[q] == hs[q]);
                        }
                    }
                    assert(caught_upto(table@, i + 1, pc, x) =~= caught_upto(table@, i as int, pc, x));
                }
            }
        } else {
            proof {
                assert forall|k: int| 0 <= k < handlers@.len() implies names((#[trigger] groups@[k])@) == caught_upto(
                    table@,
                    i + 1,
                    pc,
                    handlers@[k],
                ) by {
                    assert(caught_upto(table@, i + 1, pc, handlers@[k]) =~= caught_upto(table@, i as int, pc, handlers@[k]));
                }
                assert forall|x: ProgramCounter| !handlers@.contains(x) implies caught_upto(table@, i + 1, pc, x) == Set::<
                    Seq<char>,
                >::empty() by {
                    assert(caught_upto(table@, i + 1, pc, x) =~= caught_upto(table@, i as int, pc, x));
                }
            }
        }
        i = i + 1;
    }
    let ghost hs = handlers@;
    let ghost gs = groups@;
    let mut edges: Vec<Edge> = Vec::new();
    while handlers.len() > 0
        invariant
            handlers@.len() == groups@.len(),
            handlers@ == hs.take(handlers@.len() as int),
            groups@ == gs.take(groups@.len() as int),
            hs.len() == gs.len(),
            edges@.len() + handlers@.len() == hs.len(),
            forall|k: int| 0 <= k < edges@.len() ==> (#[trigger] edges@[k]).1 == hs[hs.len() - 1 - k] && edges@[k].0 == pc
                && (edges@[k].2 matches ControlTransfer::Exception(cs) && cs@ == gs[hs.len() - 1 - k]@) && handler_frame(*frame, edges@[k].3),
        decreases handlers@.len(),
    {
        let h = handlers.pop().unwrap();
        let g = groups.pop().unwrap();
        let f = frame.same_locals_1_stack_item_frame(Entry::Value(Argument::Id(Identifier::CaughtException)));
        edges.push((pc, h, ControlTransfer::Exception(g), f));
        proof {
            assert(handlers@ =~= hs.take(handlers@.len() as int));
            assert(groups@ =~= gs.take(groups@.len() as int));
        }
    }
    proof {
        let n = hs.len() as int;
        assert forall|k: int, l: int| 0 <= k < l < edges@.len() implies (#[trigger] edges@[k]).1 != (#[trigger] edges@[l]).1 by {
            assert(hs[n - 1 - k] != hs[n - 1 - l]);
        }
        assert forall|q: int| 0 <= q < table@.len() && covers_at(#[trigger] table@[q], pc) implies exists|k: int|
            0 <= k < edges@.len() && (#[trigger] edges@[k]).1 == table@[q].handler_pc by {
            let a = choose|a: int| 0 <= a < hs.len() && hs[a] == table@[q].handler_pc;
            assert(edges@[n - 1 - a].1 == hs[a]);
        }
    }
    edges
}

/// Whether a control transfer is taken when copies of `x != key` hold for each key of the
/// branches of a switch on `x`.
pub open spec fn default_on(t: ControlTransfer, x: Argument, branches: Seq<(i32, ProgramCounter)>) -> bool {
    t matches ControlTransfer::Conditional(c) && exists|vars: Seq<BooleanVariable<Predicate<Value>>>|
        #![trigger c@.contains(vars.to_set())]
        c@ == Set::<Set<BooleanVariable<Predicate<Value>>>>::empty().insert(vars.to_set()) && vars.len() == branches.len()
            && forall|k: int|
            0 <= k < vars.len() ==> ((#[trigger] vars[k]) matches BooleanVariable::Positive(q) && pred_agrees(
                q,
                Predicate::NotEqual(Value::Variable(x), Value::Constant(ConstantValue::Integer(branches[k].0))),
            ))
}

/// Whether `g` is a copy of `f` with no return address of subroutines left.
pub open spec fn ret_frame(f: JvmStackFrame, g: JvmStackFrame) -> bool {
    &&& g.max_locals_of() == f.max_locals_of()
    &&& g.max_stack_of() == f.max_stack_of()
    &&& all_agree(g.locals(), f.locals())
    &&& all_agree(g.stack(), f.stack())
    &&& g.ret_addresses() == Set::<ProgramCounter>::empty()
}

/// Whether `r` holds the edges of control flow out of the instruction at `location` whose
/// Moka IR is `ir` and that leaves the frame `f`, or the error when the next instruction is
/// needed and there is none.
pub open spec fn successor_edges(
    ir: MokaInstruction,
    location: ProgramCounter,
    next_pc: Option<ProgramCounter>,
    table: Seq<ExceptionTableEntry>,
    f: JvmStackFrame,
    r: Result<Seq<Edge>, MokaIRBrewingError>,
) -> bool {
    match ir {
        MokaInstruction::Nop => match next_pc {
            None => r == Err::<Seq<Edge>, MokaIRBrewingError>(MokaIRBrewingError::MalformedControlFlow),
            Some(n) => r matches Ok(e) && e.len() == 1 && e[0].0 == location && e[0].1 == n && e[0].2 is Unconditional
                && frame_copy(f, e[0].3),
        },
        MokaInstruction::Return(_) => r matches Ok(e) && e.len() == 0,
        MokaInstruction::Definition { expr: Expression::Throw(_), .. } => r matches Ok(e) && exception_edges_of(
            table,
            location,
            f,
            e,
        ),
        MokaInstruction::Definition { expr: Expression::Subroutine { return_address, target }, .. } => r matches Ok(e)
            && e.len() == 1 && e[0].0 == location && e[0].1 == target && e[0].2 is Unconditional && same_but_stack_and_ret(
            e[0].3,
            f,
        ) && e[0].3.stack() == f.stack() && e[0].3.ret_addresses() == f.ret_addresses().insert(return_address),
        MokaInstruction::Definition { .. } => match next_pc {
            None => r == Err::<Seq<Edge>, MokaIRBrewingError>(MokaIRBrewingError::MalformedControlFlow),
            Some(n) => r matches Ok(e) && e.len() >= 1 && exception_edges_of(table, location, f, e.drop_last())
                && e.last().0 == location && e.last().1 == n && e.last().2 is Unconditional && frame_copy(f, e.last().3),
        },
        MokaInstruction::Jump { condition: Some(c), target } => match next_pc {
            None => r == Err::<Seq<Edge>, MokaIRBrewingError>(MokaIRBrewingError::MalformedControlFlow),
            Some(n) => r matches Ok(e) && e.len() == 2 && e[0].0 == location && e[0].1 == target && conditional_on(
                e[0].2,
                predicate_of(c),
            ) && frame_copy(f, e[0].3) && e[1].0 == location && e[1].1 == n && conditional_on(
                e[1].2,
                predicate_of(c).negation(),
            ) && frame_copy(f, e[1].3),
        },
        MokaInstruction::Jump { condition: None, target } => r matches Ok(e) && e.len() == 1 && e[0].0 == location
            && e[0].1 == target && e[0].2 is Unconditional && frame_copy(f, e[0].3),
        MokaInstruction::Switch { match_value, branches, default } => r matches Ok(e) && e.len() == branches@.len() + 1
            && (forall|k: int|
            0 <= k < branches@.len() ==> (#[trigger] e[k]).0 == location && e[k].1 == branches@[k].1 && conditional_on(
                e[k].2,
                Predicate::Equal(Value::Variable(match_value), Value::Constant(ConstantValue::Integer(branches@[k].0))),
            ) && frame_copy(f, e[k].3)) && e.last().0 == location && e.last().1 == default && default_on(
            e.last().2,
            match_value,
            branches@,
        ) && frame_copy(f, e.last().3),
        MokaInstruction::SubroutineRet(_) => r matches Ok(e) && (forall|k: int|
            0 <= k < e.len() ==> (#[trigger] e[k]).0 == location && e[k].2 is SubroutineReturn && f.ret_addresses().contains(
                e[k].1,
            ) && ret_frame(f, e[k].3)) && (forall|a: ProgramCounter|
            #[trigger] f.ret_addresses().contains(a) ==> exists|k: int| 0 <= k < e.len() && (#[trigger] e[k]).1 == a),
    }
}

/// A frame is a copy of itself.
proof fn lemma_frame_copy_refl(f: JvmStackFrame)
    ensures
        frame_copy(f, f),
{
    assert forall|i: int| 0 <= i < f.locals().len() implies agrees(#[trigger] f.locals()[i], f.locals()[i]) by {
        lemma_agrees_equivalence(f.locals()[i], f.locals()[i], f.locals()[i]);
    }
    assert forall|i: int| 0 <= i < f.stack().len() implies agrees(#[trigger] f.stack()[i], f.stack()[i]) by {
        lemma_agrees_equivalence(f.stack()[i], f.stack()[i], f.stack()[i]);
    }
}

/// The path condition of a single predicate.
fn condition_of(p: Predicate<Value>) -> (r: PathCondition<Predicate<Value>>)
    ensures
        r@ == Set::<Set<BooleanVariable<Predicate<Value>>>>::empty().insert(
            Set::<BooleanVariable<Predicate<Value>>>::empty().insert(BooleanVariable::Positive(p)),
        ),
{
    PathCondition::of(BooleanVariable::Positive(p))
}

/// Gives the edges of control flow out of the instruction at `location` whose Moka IR is `ir`
/// and that leaves `frame`.
///
/// # Errors
/// [`MokaIRBrewingError::MalformedControlFlow`] when the flow goes on to the next instruction
/// and there is none.
pub fn successors(
    ir: &MokaInstruction,
    location: ProgramCounter,
    next_pc: Option<ProgramCounter>,
    table: &Vec<ExceptionTableEntry>,
    frame: JvmStackFrame,
) -> (r: Result<Vec<Edge>, MokaIRBrewingError>)
    ensures
        successor_edges(*ir, location, next_pc, table@, frame, match r {
            Ok(e) => Ok(e@),
            Err(e) => Err(e),
        }),
{
    match ir {
        MokaInstruction::Nop => {
            let n = match next_pc {
                Some(n) => n,
                None => return Err(MokaIRBrewingError::MalformedControlFlow),
            };
            proof {
                lemma_frame_copy_refl(frame);
            }
            let mut e: Vec<Edge> = Vec::new();
            e.push((location, n, ControlTransfer::Unconditional, frame));
            assert(successor_edges(*ir, location, next_pc, table@, frame, Ok(e@)));
            Ok(e)
        },
        MokaInstruction::Return(_) => {
            let e: Vec<Edge> = Vec::new();
            assert(successor_edges(*ir, location, next_pc, table@, frame, Ok(e@)));
            Ok(e)
        },
        MokaInstruction::Definition { expr: Expression::Throw(_), .. } => {
            let e = exception_edges(table, location, &frame);
            assert(successor_edges(*ir, location, next_pc, table@, frame, Ok(e@)));
            Ok(e)
        },
        MokaInstruction::Definition { expr: Expression::Subroutine { return_address, target }, .. } => {
            let mut f = frame;
            f.add_ret_address(*return_address);
            let mut e: Vec<Edge> = Vec::new();
            e.push((location, *target, ControlTransfer::Unconditional, f));
            assert(successor_edges(*ir, location, next_pc, table@, frame, Ok(e@)));
            Ok(e)
        },
        MokaInstruction::Definition { .. } => {
            let n = match next_pc {
                Some(n) => n,
                None => return Err(MokaIRBrewingError::MalformedControlFlow),
            };
            let mut e = exception_edges(table, location, &frame);
            let ghost before = e@;
            proof {
                lemma_frame_copy_refl(frame);
            }
            e.push((location, n, ControlTransfer::Unconditional, frame));
            assert(e@.drop_last() =~= before);
            assert(successor_edges(*ir, location, next_pc, table@, frame, Ok(e@)));
            Ok(e)
        },
        MokaInstruction::Jump { condition: Some(c), target } => {
            let n = match next_pc {
                Some(n) => n,
                None => return Err(MokaIRBrewingError::MalformedControlFlow),
            };
            let p = Predicate::from_condition(c);
            let q = Predicate::from_condition(c);
            proof {
                lemma_negation_agrees(q, predicate_of(*c));
            }
            let q = q.not();
            assert(pred_agrees(p, predicate_of(*c)));
            assert(pred_agrees(q, predicate_of(*c).negation()));
            let f0 = frame.same_frame();
            let f1 = frame.same_frame();
            let mut e: Vec<Edge> = Vec::new();
            e.push((location, *target, ControlTransfer::Conditional(condition_of(p)), f0));
            e.push((location, n, ControlTransfer::Conditional(condition_of(q)), f1));
            assert(successor_edges(*ir, location, next_pc, table@, frame, Ok(e@)));
            Ok(e)
        },
        MokaInstruction::Jump { condition: None, target } => {
            proof {
                lemma_frame_copy_refl(frame);
            }
            let mut e: Vec<Edge> = Vec::new();
            e.push((location, *target, ControlTransfer::Unconditional, frame));
            assert(successor_edges(*ir, location, next_pc, table@, frame, Ok(e@)));
            Ok(e)
        },
        MokaInstruction::Switch { match_value, branches, default } => {
            let mut e: Vec<Edge> = Vec::new();
            let mut vars: Vec<BooleanVariable<Predicate<Value>>> = Vec::new();
            let mut k: usize = 0;
            while k < branches.len()
                invariant
                    k <= branches@.len(),
                    e@.len() == k,
                    vars@.len() == k,
                    forall|j: int|
                        0 <= j < k ==> (#[trigger] e@[j]).0 == location && e@[j].1 == branches@[j].1 && conditional_on(
                            e@[j].2,
                            Predicate::Equal(
                                Value::Variable(*match_value),
                                Value::Constant(ConstantValue::Integer(branches@[j].0)),
                            ),
                        ) && frame_copy(frame, e@[j].3),
                    forall|j: int|
                        0 <= j < k ==> ((#[trigger] vars@[j]) matches BooleanVariable::Positive(q) && pred_agrees(
                            q,
                            Predicate::NotEqual(
                                Value::Variable(*match_value),
                                Value::Constant(ConstantValue::Integer(branches@[j].0)),
                            ),
                        )),
                decreases branches@.len() - k,
            {
                let (key, target) = branches[k];
                let p = Predicate::Equal(
                    Value::Variable(match_value.duplicate()),
                    Value::Constant(ConstantValue::Integer(key)),
                );
                let q = Predicate::NotEqual(
                    Value::Variable(match_value.duplicate()),
                    Value::Constant(ConstantValue::Integer(key)),
                );
                let f = frame.same_frame();
                assert(pred_agrees(
                    p,
                    Predicate::Equal(Value::Variable(*match_value), Value::Constant(ConstantValue::Integer(key))),
                ));
                assert(pred_agrees(
                    q,
                    Predicate::NotEqual(Value::Variable(*match_value), Value::Constant(ConstantValue::Integer(key))),
                ));
                let ghost e0 = e@;
                let ghost v0 = vars@;
                e.push((location, target, ControlTransfer::Conditional(condition_of(p)), f));
                vars.push(BooleanVariable::Positive(q));
                proof {
                    assert forall|j: int| 0 <= j < k + 1 implies (#[trigger] e@[j]).0 == location && e@[j].1 == branches@[j].1
                        && conditional_on(
                        e@[j].2,
                        Predicate::Equal(Value::Variable(*match_value), Value::Constant(ConstantValue::Integer(branches@[j].0))),
                    ) && frame_copy(frame, e@[j].3) by {
                        if j < k {
                            assert(e@[j] == e0[j]);
                        }
                    }
                    assert forall|j: int| 0 <= j < k + 1 implies ((#[trigger] vars@[j]) matches BooleanVariable::Positive(q)
                        && pred_agrees(
                        q,
                        Predicate::NotEqual(Value::Variable(*match_value), Value::Constant(ConstantValue::Integer(branches@[j].0))),
                    )) by {
                        if j < k {
                            assert(vars@[j] == v0[j]);
                        }
                    }
                }
                k = k + 1;
            }
            let ghost vs = vars@;
            let cond = PathCondition::conjunction_of(vars);
            proof {
                assert(cond@.contains(vs.to_set()));
            }
            let f = frame.same_frame();
            let ghost eb = e@;
            e.push((location, *default, ControlTransfer::Conditional(cond), f));
            proof {
                assert forall|j: int| 0 <= j < branches@.len() implies (#[trigger] e@[j]).0 == location && e@[j].1
                    == branches@[j].1 && conditional_on(
                    e@[j].2,
                    Predicate::Equal(Value::Variable(*match_value), Value::Constant(ConstantValue::Integer(branches@[j].0))),
                ) && frame_copy(frame, e@[j].3) by {
                    assert(e@[j] == eb[j]);
                }
                assert(vs.len() == branches@.len());
                assert(e@.last().2 == ControlTransfer::Conditional(cond));
                assert(cond@ == Set::<Set<BooleanVariable<Predicate<Value>>>>::empty().insert(vs.to_set()));
                assert(forall|j: int|
                    0 <= j < vs.len() ==> ((#[trigger] vs[j]) matches BooleanVariable::Positive(q) && pred_agrees(
                        q,
                        Predicate::NotEqual(Value::Variable(*match_value), Value::Constant(ConstantValue::Integer(branches@[j].0))),
                    )));
                assert(e@.last().2->Conditional_0@.contains(vs.to_set()));
                assert(default_on(e@.last().2, *match_value, branches@));
            }
            assert(successor_edges(*ir, location, next_pc, table@, frame, Ok(e@)));
            Ok(e)
        },
        MokaInstruction::SubroutineRet(_) => {
            let mut f = frame;
            let addresses = f.take_ret_addresses();
            let mut e: Vec<Edge> = Vec::new();
            let mut k: usize = 0;
            while k < addresses.len()
                invariant
                    k <= addresses@.len(),
                    e@.len() == k,
                    addresses@.to_set() == frame.ret_addresses(),
                    same_but_stack_and_ret(f, frame),
                    f.stack() == frame.stack(),
                    f.ret_addresses() == Set::<ProgramCounter>::empty(),
                    forall|j: int| 0 <= j < k ==> (#[trigger] e@[j]).0 == location && e@[j].2 is SubroutineReturn && e@[j].1 == addresses@[j]
                        && ret_frame(frame, e@[j].3),
                decreases addresses@.len() - k,
            {
                let g = f.same_frame();
                e.push((location, addresses[k], ControlTransfer::SubroutineReturn, g));
                k = k + 1;
            }
            proof {
                assert forall|j: int| 0 <= j < e@.len() implies frame.ret_addresses().contains((#[trigger] e@[j]).1) by {
                    assert(addresses@.contains(addresses@[j]));
                }
                assert forall|a: ProgramCounter| #[trigger] frame.ret_addresses().contains(a) implies exists|j: int|
                    0 <= j < e@.len() && (#[trigger] e@[j]).1 == a by {
                    assert(addresses@.to_set().contains(a));
                    let j = choose|j: int| 0 <= j < addresses@.len() && addresses@[j] == a;
                    assert(e@[j].1 == a);
                }
            }
            assert(successor_edges(*ir, location, next_pc, table@, frame, Ok(e@)));
            Ok(e)
        },
    }
}

/// Executes the instruction at `location` on a copy of `fact`, and gives its Moka IR with the
/// edges of control flow out of it, each with the frame at its destination.
///
/// # Errors
/// The error of executing the instruction, or [`MokaIRBrewingError::MalformedControlFlow`]
/// when the flow goes on to the next instruction and there is none.
pub fn analyze_location(
    insn: Instruction,
    location: ProgramCounter,
    next_pc: Option<ProgramCounter>,
    table: &Vec<ExceptionTableEntry>,
    fact: &JvmStackFrame,
) -> (r: Result<(MokaInstruction, Vec<Edge>), MokaIRBrewingError>)
    ensures
        exists|before: JvmStackFrame, after: JvmStackFrame, res: Result<MokaInstruction, MokaIRBrewingError>|
            #![trigger executes(insn, location, next_pc, before, after, res)]
            frame_copy(*fact, before) && executes(insn, location, next_pc, before, after, res) && match res {
                Err(e) => r == Err::<(MokaInstruction, Vec<Edge>), MokaIRBrewingError>(e),
                Ok(ir) => match r {
                    Ok((i, edges)) => i == ir && successor_edges(ir, location, next_pc, table@, after, Ok(edges@)),
                    Err(e) => successor_edges(ir, location, next_pc, table@, after, Err(e)),
                },
            },
{
    let mut frame = fact.same_frame();
    let ghost before = frame;
    let res = run_instruction(insn, location, next_pc, &mut frame);
    let ghost after = frame;
    assert(executes(insn, location, next_pc, before, after, res));
    let ir = match res {
        Ok(ir) => ir,
        Err(e) => {
            return Err(e);
        },
    };
    let edges = successors(&ir, location, next_pc, table, frame);
    match edges {
        Ok(edges) => Ok((ir, edges)),
        Err(e) => Err(e),
    }
}

/// The fact at the entry of a method: the location of its first instruction, with the frame
/// that the method starts with.
///
/// # Errors
/// [`MokaIRBrewingError::MalformedControlFlow`] when the body has no instruction, and
/// [`MokaIRBrewingError::ExecutionError`] when the parameters take more locals than the body
/// has.
pub fn entry_fact(is_static: bool, descriptor: &MethodDescriptor, body: &MethodBody) -> (r: Result<
    (ProgramCounter, JvmStackFrame),
    MokaIRBrewingError,
>)
    ensures
        body.instructions.entries().len() == 0 ==> r == Err::<(ProgramCounter, JvmStackFrame), MokaIRBrewingError>(
            MokaIRBrewingError::MalformedControlFlow,
        ),
        body.instructions.entries().len() > 0 && initial_locals(is_static, descriptor.parameters_types@).len()
            > body.max_locals ==> r == Err::<(ProgramCounter, JvmStackFrame), MokaIRBrewingError>(
            MokaIRBrewingError::ExecutionError(ExecutionError::LocalLimitExceed),
        ),
        r matches Ok((pc, f)) ==> {
            let params = initial_locals(is_static, descriptor.parameters_types@);
            &&& body.instructions.entries().len() > 0
            &&& pc == body.instructions.entries()[0].0
            &&& f.max_locals_of() == body.max_locals
            &&& f.max_stack_of() == body.max_stack
            &&& f.locals() == params + Seq::new(
                (body.max_locals - params.len()) as nat,
                |i: int| Entry::UninitializedLocal,
            )
            &&& f.stack() == Seq::<Entry>::empty()
            &&& f.ret_addresses() == Set::<ProgramCounter>::empty()
        },
        body.instructions.entries().len() > 0 && initial_locals(is_static, descriptor.parameters_types@).len()
            <= body.max_locals ==> r is Ok,
{
    let first_pc = match body.instructions.entry_point() {
        Some((pc, _)) => pc,
        None => return Err(MokaIRBrewingError::MalformedControlFlow),
    };
    match JvmStackFrame::new(is_static, descriptor, body.max_locals, body.max_stack) {
        Ok(frame) => Ok((first_pc, frame)),
        Err(e) => Err(MokaIRBrewingError::ExecutionError(e)),
    }
}

/// Merges the frame that reaches a location along one more edge into the frame known there.
///
/// # Errors
/// [`MokaIRBrewingError::MergeError`] with the reason when the frames differ in their number
/// of locals or the depth of their stack.
pub fn merge_facts(current_fact: &JvmStackFrame, incoming_fact: JvmStackFrame) -> (r: Result<JvmStackFrame, MokaIRBrewingError>)
    ensures
        current_fact.max_locals_of() != incoming_fact.max_locals_of() ==> r == Err::<JvmStackFrame, MokaIRBrewingError>(
            MokaIRBrewingError::MergeError(ExecutionError::LocalLimitMismatch),
        ),
        current_fact.max_locals_of() == incoming_fact.max_locals_of() && current_fact.stack().len()
            != incoming_fact.stack().len() ==> r == Err::<JvmStackFrame, MokaIRBrewingError>(
            MokaIRBrewingError::MergeError(ExecutionError::StackSizeMismatch),
        ),
        current_fact.max_locals_of() == incoming_fact.max_locals_of() && current_fact.stack().len()
            == incoming_fact.stack().len() ==> (r matches Ok(f) && merged_frames(*current_fact, incoming_fact, f)),
{
    match current_fact.merge(incoming_fact) {
        Ok(f) => Ok(f),
        Err(e) => Err(MokaIRBrewingError::MergeError(e)),
    }
}

} // verus!
