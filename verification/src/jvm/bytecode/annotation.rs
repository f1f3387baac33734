//! Conversion of annotation targets between their stored form and their meaning.
use vstd::prelude::*;

use core::ops::Range;

use crate::jvm::annotation::{
    OffsetOf, TargetInfo, TypeArgumentLocation, TypeParameterLocation, TypePathElement, VariableKind,
};
use crate::jvm::bytecode::errors::{GenerationError, ParseError, ParsingErrorKind};
use crate::jvm::bytecode::raw_attributes;
use crate::jvm::code::pc::{group_pc_facts, pc_of};
use crate::jvm::code::{LocalVariableId, ProgramCounter};

verus! {

broadcast use group_pc_facts;

/// Whether a stored entry of local variables (start, length, index) denotes `id`: the
/// variable holds a value from the start on for `length` bytes of code.
pub open spec fn entry_lifts(e: (ProgramCounter, u16, u16), id: LocalVariableId) -> bool {
    &&& e.0@ + e.1 <= u16::MAX
    &&& id.effective_range.start == e.0
    &&& id.effective_range.end@ == e.0@ + e.1
    &&& id.index == e.2
}

/// Whether stored entries denote the identities of local variables, one for one.
pub open spec fn table_lifts(t: Seq<(ProgramCounter, u16, u16)>, ids: Seq<LocalVariableId>) -> bool {
    t.len() == ids.len() && forall|i: int| 0 <= i < t.len() ==> entry_lifts(#[trigger] t[i], ids[i])
}

/// Whether each stored entry ends at a location that a program counter can hold.
pub open spec fn table_liftable(t: Seq<(ProgramCounter, u16, u16)>) -> bool {
    forall|i: int| 0 <= i < t.len() ==> (#[trigger] t[i]).0@ + t[i].1 <= u16::MAX
}

/// Whether each identity of a local variable ends no earlier than it starts.
pub open spec fn ids_lowerable(ids: Seq<LocalVariableId>) -> bool {
    forall|i: int| 0 <= i < ids.len() ==> (#[trigger] ids[i]).effective_range.start@ <= ids[i].effective_range.end@
}

/// Whether the stored target `raw` denotes the target `t`.
pub open spec fn lifts_to(raw: raw_attributes::TargetInfo, t: TargetInfo) -> bool {
    match raw {
        raw_attributes::TargetInfo::TypeParameterOfClass { index } => t == TargetInfo::TypeParameter {
            location: TypeParameterLocation::Class,
            index,
        },
        raw_attributes::TargetInfo::TypeParameterOfMethod { index } => t == TargetInfo::TypeParameter {
            location: TypeParameterLocation::Method,
            index,
        },
        raw_attributes::TargetInfo::SuperType { index } => t == TargetInfo::SuperType { index },
        raw_attributes::TargetInfo::TypeParameterBoundOfClass { type_parameter_index, bound_index } => t
            == TargetInfo::TypeParameterBound {
            location: TypeParameterLocation::Class,
            type_parameter_index,
            bound_index,
        },
        raw_attributes::TargetInfo::TypeParameterBoundOfMethod { type_parameter_index, bound_index } => t
            == TargetInfo::TypeParameterBound {
            location: TypeParameterLocation::Method,
            type_parameter_index,
            bound_index,
        },
        raw_attributes::TargetInfo::Field => t == TargetInfo::Field,
        raw_attributes::TargetInfo::TypeOfField => t == TargetInfo::FieldType,
        raw_attributes::TargetInfo::Receiver => t == TargetInfo::Receiver,
        raw_attributes::TargetInfo::FormalParameter { index } => t == TargetInfo::FormalParameter { index },
        raw_attributes::TargetInfo::Throws { index } => t == TargetInfo::Throws { index },
        raw_attributes::TargetInfo::LocalVariable(table) => t matches TargetInfo::LocalVar(k, ids) && k
            == VariableKind::Local && table_lifts(table@, ids@),
        raw_attributes::TargetInfo::ResourceVariable(table) => t matches TargetInfo::LocalVar(k, ids) && k
            == VariableKind::Resource && table_lifts(table@, ids@),
        raw_attributes::TargetInfo::Catch { index } => t == TargetInfo::Catch { index },
        raw_attributes::TargetInfo::InstanceOf { offset } => t == TargetInfo::Offset(OffsetOf::InstanceOf, offset),
        raw_attributes::TargetInfo::New { offset } => t == TargetInfo::Offset(OffsetOf::New, offset),
        raw_attributes::TargetInfo::NewMethodReference { offset } => t == TargetInfo::Offset(
            OffsetOf::ConstructorReference,
            offset,
        ),
        raw_attributes::TargetInfo::VarMethodReference { offset } => t == TargetInfo::Offset(
            OffsetOf::MethodReference,
            offset,
        ),
        raw_attributes::TargetInfo::TypeInCast { offset, index } => t == TargetInfo::TypeArgument {
            location: TypeArgumentLocation::Cast,
            offset,
            index,
        },
        raw_attributes::TargetInfo::TypeArgumentInConstructor { offset, index } => t == TargetInfo::TypeArgument {
            location: TypeArgumentLocation::Constructor,
            offset,
            index,
        },
        raw_attributes::TargetInfo::TypeArgumentInCall { offset, index } => t == TargetInfo::TypeArgument {
            location: TypeArgumentLocation::MethodCall,
            offset,
            index,
        },
        raw_attributes::TargetInfo::TypeArgumentInConstructorReference { offset, index } => t
            == TargetInfo::TypeArgument { location: TypeArgumentLocation::ConstructorReference, offset, index },
        raw_attributes::TargetInfo::TypeArgumentInMethodReference { offset, index } => t
            == TargetInfo::TypeArgument { location: TypeArgumentLocation::MethodReference, offset, index },
    }
}

/// Whether a stored target denotes a target: each of its entries of local variables ends at
/// a location that a program counter can hold.
pub open spec fn raw_liftable(raw: raw_attributes::TargetInfo) -> bool {
    match raw {
        raw_attributes::TargetInfo::LocalVariable(table) | raw_attributes::TargetInfo::ResourceVariable(table) => table_liftable(
            table@,
        ),
        _ => true,
    }
}

/// Whether a target can be stored: each of its local variables ends no earlier than it starts.
pub open spec fn lowerable(t: TargetInfo) -> bool {
    match t {
        TargetInfo::LocalVar(_, ids) => ids_lowerable(ids@),
        _ => true,
    }
}

/// The error for an entry of local variables that ends beyond what a program counter holds.
fn invalid_offset() -> (r: ParseError)
    ensures
        r.kind_of() == ParsingErrorKind::Malformed,
{
    ParseError::malform("Invalid PC Offset".to_owned())
}

/// Turns stored entries of local variables into their identities.
fn lift_table(table: &Vec<(ProgramCounter, u16, u16)>) -> (r: Result<Vec<LocalVariableId>, ParseError>)
    ensures
        r is Ok <==> table_liftable(table@),
        r matches Ok(ids) ==> table_lifts(table@, ids@),
        r matches Err(e) ==> e.kind_of() == ParsingErrorKind::Malformed,
{
    let mut ids: Vec<LocalVariableId> = Vec::new();
    let mut i: usize = 0;
    while i < table.len()
        invariant
            i <= table@.len(),
            ids@.len() == i,
            forall|j: int| 0 <= j < i ==> entry_lifts(#[trigger] table@[j], ids@[j]),
            forall|j: int| 0 <= j < i ==> (#[trigger] table@[j]).0@ + table@[j].1 <= u16::MAX,
        decreases table@.len() - i,
    {
        let (start, length, index) = table[i];
        let end = match start + length {
            Ok(e) => e,
            Err(_) => return Err(invalid_offset()),
        };
        ids.push(LocalVariableId { effective_range: Range { start, end }, index });
        i = i + 1;
    }
    Ok(ids)
}

/// Turns identities of local variables into stored entries.
fn lower_table(ids: &Vec<LocalVariableId>) -> (r: Vec<(ProgramCounter, u16, u16)>)
    requires
        ids_lowerable(ids@),
    ensures
        table_lifts(r@, ids@),
{
    let mut table: Vec<(ProgramCounter, u16, u16)> = Vec::new();
    let mut i: usize = 0;
    while i < ids.len()
        invariant
            i <= ids@.len(),
            ids_lowerable(ids@),
            table@.len() == i,
            forall|j: int| 0 <= j < i ==> entry_lifts(#[trigger] table@[j], ids@[j]),
        decreases ids@.len() - i,
    {
        let id = &ids[i];
        let start = id.effective_range.start;
        let end: u16 = id.effective_range.end.into();
        let s: u16 = start.into();
        table.push((start, end - s, id.index));
        i = i + 1;
    }
    table
}

impl TargetInfo {
    /// Gives the target that a stored target denotes.
    ///
    /// # Errors
    /// A malformed-input error when an entry of local variables ends beyond what a program
    /// counter holds.
    pub fn from_raw(raw: raw_attributes::TargetInfo) -> (r: Result<Self, ParseError>)
        ensures
            r is Ok <==> raw_liftable(raw),
            r matches Ok(t) ==> lifts_to(raw, t),
            r matches Err(e) ==> e.kind_of() == ParsingErrorKind::Malformed,
    {
        let lifted = match raw {
            raw_attributes::TargetInfo::TypeParameterOfClass { index } => TargetInfo::TypeParameter {
                location: TypeParameterLocation::Class,
                index,
            },
            raw_attributes::TargetInfo::TypeParameterOfMethod { index } => TargetInfo::TypeParameter {
                location: TypeParameterLocation::Method,
                index,
            },
            raw_attributes::TargetInfo::SuperType { index } => TargetInfo::SuperType { index },
            raw_attributes::TargetInfo::TypeParameterBoundOfClass { type_parameter_index, bound_index } => {
                TargetInfo::TypeParameterBound {
                    location: TypeParameterLocation::Class,
                    type_parameter_index,
                    bound_index,
                }
            },
            raw_attributes::TargetInfo::TypeParameterBoundOfMethod { type_parameter_index, bound_index } => {
                TargetInfo::TypeParameterBound {
                    location: TypeParameterLocation::Method,
                    type_parameter_index,
                    bound_index,
                }
            },
            raw_attributes::TargetInfo::Field => TargetInfo::Field,
            raw_attributes::TargetInfo::TypeOfField => TargetInfo::FieldType,
            raw_attributes::TargetInfo::Receiver => TargetInfo::Receiver,
            raw_attributes::TargetInfo::FormalParameter { index } => TargetInfo::FormalParameter { index },
            raw_attributes::TargetInfo::Throws { index } => TargetInfo::Throws { index },
            raw_attributes::TargetInfo::LocalVariable(ref table) => {
                let ids = lift_table(table)?;
                TargetInfo::LocalVar(VariableKind::Local, ids)
            },
            raw_attributes::TargetInfo::ResourceVariable(ref table) => {
                let ids = lift_table(table)?;
                TargetInfo::LocalVar(VariableKind::Resource, ids)
            },
            raw_attributes::TargetInfo::Catch { index } => TargetInfo::Catch { index },
            raw_attributes::TargetInfo::InstanceOf { offset } => TargetInfo::Offset(OffsetOf::InstanceOf, offset),
            raw_attributes::TargetInfo::New { offset } => TargetInfo::Offset(OffsetOf::New, offset),
            raw_attributes::TargetInfo::NewMethodReference { offset } => TargetInfo::Offset(
                OffsetOf::ConstructorReference,
                offset,
            ),
            raw_attributes::TargetInfo::VarMethodReference { offset } => TargetInfo::Offset(
                OffsetOf::MethodReference,
                offset,
            ),
            raw_attributes::TargetInfo::TypeInCast { offset, index } => TargetInfo::TypeArgument {
                location: TypeArgumentLocation::Cast,
                offset,
                index,
            },
            raw_attributes::TargetInfo::TypeArgumentInConstructor { offset, index } => TargetInfo::TypeArgument {
                location: TypeArgumentLocation::Constructor,
                offset,
                index,
            },
            raw_attributes::TargetInfo::TypeArgumentInCall { offset, index } => TargetInfo::TypeArgument {
                location: TypeArgumentLocation::MethodCall,
                offset,
                index,
            },
            raw_attributes::TargetInfo::TypeArgumentInConstructorReference { offset, index } => {
                TargetInfo::TypeArgument { location: TypeArgumentLocation::ConstructorReference, offset, index }
            },
            raw_attributes::TargetInfo::TypeArgumentInMethodReference { offset, index } => {
                TargetInfo::TypeArgument { location: TypeArgumentLocation::MethodReference, offset, index }
            },
        };
        Ok(lifted)
    }

    /// Gives the stored form of the target.
    pub fn into_raw(self) -> (r: Result<raw_attributes::TargetInfo, GenerationError>)
        requires
            lowerable(self),
        ensures
            r matches Ok(raw) && lifts_to(raw, self),
    {
        let raw = match self {
            TargetInfo::TypeParameter { location, index } => match location {
                TypeParameterLocation::Class => raw_attributes::TargetInfo::TypeParameterOfClass { index },
                TypeParameterLocation::Method => raw_attributes::TargetInfo::TypeParameterOfMethod { index },
            },
            TargetInfo::SuperType { index } => raw_attributes::TargetInfo::SuperType { index },
            TargetInfo::TypeParameterBound { location, type_parameter_index, bound_index } => match location {
                TypeParameterLocation::Class => raw_attributes::TargetInfo::TypeParameterBoundOfClass {
                    type_parameter_index,
                    bound_index,
                },
                TypeParameterLocation::Method => raw_attributes::TargetInfo::TypeParameterBoundOfMethod {
                    type_parameter_index,
                    bound_index,
                },
            },
            TargetInfo::Field => raw_attributes::TargetInfo::Field,
            TargetInfo::FieldType => raw_attributes::TargetInfo::TypeOfField,
            TargetInfo::Receiver => raw_attributes::TargetInfo::Receiver,
            TargetInfo::FormalParameter { index } => raw_attributes::TargetInfo::FormalParameter { index },
            TargetInfo::Throws { index } => raw_attributes::TargetInfo::Throws { index },
            TargetInfo::LocalVar(kind, ref ids) => {
                let table = lower_table(ids);
                match kind {
                    VariableKind::Local => raw_attributes::TargetInfo::LocalVariable(table),
                    VariableKind::Resource => raw_attributes::TargetInfo::ResourceVariable(table),
                }
            },
            TargetInfo::Catch { index } => raw_attributes::TargetInfo::Catch { index },
            TargetInfo::Offset(offset_of, offset) => match offset_of {
                OffsetOf::InstanceOf => raw_attributes::TargetInfo::InstanceOf { offset },
                OffsetOf::New => raw_attributes::TargetInfo::New { offset },
                OffsetOf::MethodReference => raw_attributes::TargetInfo::VarMethodReference { offset },
                OffsetOf::ConstructorReference => raw_attributes::TargetInfo::NewMethodReference { offset },
            },
            TargetInfo::TypeArgument { location, offset, index } => match location {
                TypeArgumentLocation::Cast => raw_attributes::TargetInfo::TypeInCast { offset, index },
                TypeArgumentLocation::Constructor => raw_attributes::TargetInfo::TypeArgumentInConstructor {
                    offset,
                    index,
                },
                TypeArgumentLocation::MethodCall => raw_attributes::TargetInfo::TypeArgumentInCall { offset, index },
                TypeArgumentLocation::ConstructorReference => {
                    raw_attributes::TargetInfo::TypeArgumentInConstructorReference { offset, index }
                },
                TypeArgumentLocation::MethodReference => {
                    raw_attributes::TargetInfo::TypeArgumentInMethodReference { offset, index }
                },
            },
        };
        Ok(raw)
    }
}

/// Whether two stored targets are the same, their entries of local variables compared one by
/// one.
pub open spec fn same_raw(a: raw_attributes::TargetInfo, b: raw_attributes::TargetInfo) -> bool {
    match (a, b) {
        (raw_attributes::TargetInfo::LocalVariable(x), raw_attributes::TargetInfo::LocalVariable(y)) => x@ == y@,
        (raw_attributes::TargetInfo::ResourceVariable(x), raw_attributes::TargetInfo::ResourceVariable(y)) => x@ == y@,
        _ => a == b,
    }
}

/// Whether two targets are the same, their local variables compared one by one.
pub open spec fn same_target(a: TargetInfo, b: TargetInfo) -> bool {
    match (a, b) {
        (TargetInfo::LocalVar(k, x), TargetInfo::LocalVar(l, y)) => k == l && x@ == y@,
        _ => a == b,
    }
}

/// A target denotes at most one stored target: storing the target that a stored target
/// denotes gives that stored target back.
pub proof fn lemma_lifting_injective(a: raw_attributes::TargetInfo, b: raw_attributes::TargetInfo, t: TargetInfo)
    requires
        lifts_to(a, t),
        lifts_to(b, t),
    ensures
        same_raw(a, b),
{
    match (a, b) {
        (raw_attributes::TargetInfo::LocalVariable(x), raw_attributes::TargetInfo::LocalVariable(y))
        | (raw_attributes::TargetInfo::ResourceVariable(x), raw_attributes::TargetInfo::ResourceVariable(y)) => {
            let ids = t->LocalVar_1@;
            assert forall|i: int| 0 <= i < x@.len() implies x@[i] == y@[i] by {
                assert(entry_lifts(x@[i], ids[i]));
                assert(entry_lifts(y@[i], ids[i]));
            }
            assert(x@ =~= y@);
        },
        _ => {},
    }
}

/// A stored target denotes at most one target: reading back a target that was stored gives
/// that target.
pub proof fn lemma_lifting_functional(raw: raw_attributes::TargetInfo, s: TargetInfo, t: TargetInfo)
    requires
        lifts_to(raw, s),
        lifts_to(raw, t),
    ensures
        same_target(s, t),
{
    match (s, t) {
        (TargetInfo::LocalVar(k, x), TargetInfo::LocalVar(l, y)) => {
            let table = match raw {
                raw_attributes::TargetInfo::LocalVariable(tb) | raw_attributes::TargetInfo::ResourceVariable(tb) => tb@,
                _ => Seq::empty(),
            };
            assert forall|i: int| 0 <= i < x@.len() implies x@[i] == y@[i] by {
                assert(entry_lifts(table[i], x@[i]));
                assert(entry_lifts(table[i], y@[i]));
            }
            assert(x@ =~= y@);
        },
        _ => {},
    }
}

/// What a stored element of a type path denotes, if anything.
pub open spec fn path_element_of(raw: (u8, u8)) -> Option<TypePathElement> {
    match raw {
        (0, 0) => Some(TypePathElement::Array),
        (1, 0) => Some(TypePathElement::Nested),
        (2, 0) => Some(TypePathElement::Bound),
        (3, i) => Some(TypePathElement::TypeArgument(i)),
        _ => None,
    }
}

/// The stored form of an element of a type path.
pub open spec fn raw_path_element(e: TypePathElement) -> (u8, u8) {
    match e {
        TypePathElement::Array => (0, 0),
        TypePathElement::Nested => (1, 0),
        TypePathElement::Bound => (2, 0),
        TypePathElement::TypeArgument(i) => (3, i),
    }
}

impl TypePathElement {
    /// Gives the element of a type path that a stored pair of kind and type argument index
    /// denotes.
    ///
    /// # Errors
    /// A malformed-input error when the pair denotes no element.
    pub fn from_raw(raw: (u8, u8)) -> (r: Result<Self, ParseError>)
        ensures
            r is Ok <==> path_element_of(raw) is Some,
            r matches Ok(e) ==> path_element_of(raw) == Some(e),
            r matches Err(e) ==> e.kind_of() == ParsingErrorKind::Malformed,
    {
        let (kind, argument_index) = raw;
        match (kind, argument_index) {
            (0, 0) => Ok(TypePathElement::Array),
            (1, 0) => Ok(TypePathElement::Nested),
            (2, 0) => Ok(TypePathElement::Bound),
            (3, idx) => Ok(TypePathElement::TypeArgument(idx)),
            _ => Err(ParseError::malform("Invalid type path kind".to_owned())),
        }
    }

    /// Gives the stored pair of kind and type argument index of the element.
    pub fn into_raw(self) -> (r: Result<(u8, u8), GenerationError>)
        ensures
            r == Ok::<(u8, u8), GenerationError>(raw_path_element(self)),
    {
        match self {
            TypePathElement::Array => Ok((0, 0)),
            TypePathElement::Nested => Ok((1, 0)),
            TypePathElement::Bound => Ok((2, 0)),
            TypePathElement::TypeArgument(idx) => Ok((3, idx)),
        }
    }
}

/// Storing an element of a type path and reading it back gives the element, and a stored pair
/// that denotes an element is the stored form of that element.
pub proof fn lemma_path_element_round_trip(e: TypePathElement, raw: (u8, u8))
    ensures
        path_element_of(raw_path_element(e)) == Some(e),
        path_element_of(raw) matches Some(x) ==> raw_path_element(x) == raw,
{
}

} // verus!
