//! Annotations as they are stored in class files: indices into the constant pool, tags and
//! counts, with element values nested in one another.
use vstd::prelude::*;

use super::{bad_tag, TargetInfo};
use crate::jvm::bytecode::code::be16;
use crate::jvm::bytecode::element::{end_of_input, holds_at, lemma_be16_unique, lemma_holds_concat, put_u16, take_u16, take_u8, too_long, Element};
use crate::jvm::bytecode::errors::{GenerationError, ParseError, ParsingErrorKind};
use crate::jvm::code::instruction::decimal;

verus! {

broadcast use vstd::std_specs::vec::axiom_vec_index_decreases;

/// An annotation: the constant pool index of its type, and the values of its elements, each
/// with the constant pool index of its name.
#[derive(Debug, PartialEq, Eq)]
pub struct Annotation {
    /// The constant pool index of the type of the annotation.
    pub type_index: u16,
    /// The elements: the constant pool index of the name, and the value.
    pub element_value_pairs: Vec<(u16, ElementValueInfo)>,
}

/// The value of an element of an annotation.
#[derive(Debug, PartialEq, Eq)]
pub enum ElementValueInfo {
    /// A constant: its tag, which names its type, and its constant pool index.
    Const(u8, u16),
    /// A constant of an enum type.
    Enum {
        /// The constant pool index of the descriptor of the enum type.
        type_name_index: u16,
        /// The constant pool index of the simple name of the constant.
        const_name_index: u16,
    },
    /// A class literal, by the constant pool index of its return descriptor.
    ClassInfo(u16),
    /// A nested annotation.
    Annotation(Annotation),
    /// An array of values.
    Array(Vec<ElementValueInfo>),
}

/// A type annotation: where the annotated type is, the path to it, and the annotation.
#[derive(Debug, PartialEq, Eq)]
pub struct TypeAnnotation {
    /// The kind of target and where it is.
    pub target_info: TargetInfo,
    /// The path to the annotated part of the type: each step's kind and type argument index.
    pub target_path: Vec<(u8, u8)>,
    /// The constant pool index of the type of the annotation.
    pub type_index: u16,
    /// The elements: the constant pool index of the name, and the value.
    pub element_value_pairs: Vec<(u16, ElementValueInfo)>,
}

/// Whether `tag` is the tag of a constant: `B`, `C`, `D`, `F`, `I`, `J`, `S`, `Z` or `s`.
pub open spec fn is_const_tag(tag: u8) -> bool {
    tag == 66 || tag == 67 || tag == 68 || tag == 70 || tag == 73 || tag == 74 || tag == 83 || tag == 90 || tag == 115
}

/// The tag of an element value: `e` for an enum constant, `c` for a class, `@` for an
/// annotation and `[` for an array.
pub open spec fn tag_of(v: ElementValueInfo) -> u8 {
    match v {
        ElementValueInfo::Const(t, _) => t,
        ElementValueInfo::Enum { .. } => 101,
        ElementValueInfo::ClassInfo(_) => 99,
        ElementValueInfo::Annotation(_) => 64,
        ElementValueInfo::Array(_) => 91,
    }
}

/// The bytes of an element value.
pub open spec fn element_value_bytes(v: ElementValueInfo) -> Seq<u8>
    decreases v,
{
    match v {
        ElementValueInfo::Const(t, i) => seq![t] + be16(i),
        ElementValueInfo::Enum { type_name_index, const_name_index } => seq![101u8] + be16(type_name_index) + be16(
            const_name_index,
        ),
        ElementValueInfo::ClassInfo(i) => seq![99u8] + be16(i),
        ElementValueInfo::Annotation(a) => seq![64u8] + annotation_bytes(a),
        ElementValueInfo::Array(vs) => seq![91u8] + be16(vs@.len() as u16) + element_values_bytes(vs@),
    }
}

/// The bytes of element values, one after the other.
pub open spec fn element_values_bytes(vs: Seq<ElementValueInfo>) -> Seq<u8>
    decreases vs,
{
    if vs.len() == 0 {
        Seq::empty()
    } else {
        element_value_bytes(vs[0]) + element_values_bytes(vs.drop_first())
    }
}

/// The bytes of elements of an annotation, one after the other.
pub open spec fn pairs_bytes(ps: Seq<(u16, ElementValueInfo)>) -> Seq<u8>
    decreases ps,
{
    if ps.len() == 0 {
        Seq::empty()
    } else {
        be16(ps[0].0) + element_value_bytes(ps[0].1) + pairs_bytes(ps.drop_first())
    }
}

/// The bytes of an annotation.
pub open spec fn annotation_bytes(a: Annotation) -> Seq<u8>
    decreases a,
{
    be16(a.type_index) + be16(a.element_value_pairs@.len() as u16) + pairs_bytes(a.element_value_pairs@)
}

/// Whether each count of an element value fits the field it is written in, and, when
/// `check_tags` holds, each constant has the tag of a constant.
pub open spec fn element_value_valid(v: ElementValueInfo, check_tags: bool) -> bool
    decreases v,
{
    match v {
        ElementValueInfo::Const(t, _) => check_tags ==> is_const_tag(t),
        ElementValueInfo::Annotation(a) => annotation_valid(a, check_tags),
        ElementValueInfo::Array(vs) => vs@.len() <= 0xFFFF && element_values_valid(vs@, check_tags),
        _ => true,
    }
}

/// Whether each of the element values is valid.
pub open spec fn element_values_valid(vs: Seq<ElementValueInfo>, check_tags: bool) -> bool
    decreases vs,
{
    vs.len() == 0 || (element_value_valid(vs[0], check_tags) && element_values_valid(vs.drop_first(), check_tags))
}

/// Whether the value of each of the elements is valid.
pub open spec fn pairs_valid(ps: Seq<(u16, ElementValueInfo)>, check_tags: bool) -> bool
    decreases ps,
{
    ps.len() == 0 || (element_value_valid(ps[0].1, check_tags) && pairs_valid(ps.drop_first(), check_tags))
}

/// Whether the count of the elements of an annotation fits 16 bits and each of their values
/// is valid.
pub open spec fn annotation_valid(a: Annotation, check_tags: bool) -> bool
    decreases a,
{
    a.element_value_pairs@.len() <= 0xFFFF && pairs_valid(a.element_value_pairs@, check_tags)
}

/// The first byte of an element value is its tag.
proof fn lemma_tag_first(v: ElementValueInfo)
    ensures
        element_value_bytes(v).len() >= 1,
        element_value_bytes(v)[0] == tag_of(v),
{
}

/// Two byte sequences of the same length held at the same position are the same.
proof fn lemma_same_bytes(bytes: Seq<u8>, pos: int, a: Seq<u8>, b: Seq<u8>)
    requires
        holds_at(bytes, pos, a),
        holds_at(bytes, pos, b),
        a.len() == b.len(),
    ensures
        a == b,
{
}

/// The bytes of element values with one more at the end.
proof fn lemma_values_push(s: Seq<ElementValueInfo>, x: ElementValueInfo, t: bool)
    ensures
        element_values_bytes(s.push(x)) == element_values_bytes(s) + element_value_bytes(x),
        element_values_valid(s.push(x), t) == (element_values_valid(s, t) && element_value_valid(x, t)),
    decreases s.len(),
{
    let e = Seq::<ElementValueInfo>::empty();
    assert(element_values_bytes(e) == Seq::<u8>::empty());
    assert(element_values_valid(e, t));
    if s.len() == 0 {
        assert(s.push(x).drop_first() =~= e);
        assert(s.push(x)[0] == x);
        assert(element_values_bytes(s.push(x)) =~= element_value_bytes(x));
    } else {
        lemma_values_push(s.drop_first(), x, t);
        assert(s.push(x).drop_first() =~= s.drop_first().push(x));
        assert(element_values_bytes(s.push(x)) =~= element_values_bytes(s) + element_value_bytes(x));
    }
}

/// Element values are valid when each of them is.
proof fn lemma_values_valid(s: Seq<ElementValueInfo>, t: bool)
    ensures
        element_values_valid(s, t) <==> forall|i: int| 0 <= i < s.len() ==> #[trigger] element_value_valid(s[i], t),
    decreases s.len(),
{
    if s.len() > 0 {
        let d = s.drop_first();
        lemma_values_valid(d, t);
        if forall|i: int| 0 <= i < s.len() ==> #[trigger] element_value_valid(s[i], t) {
            assert forall|i: int| 0 <= i < d.len() implies #[trigger] element_value_valid(d[i], t) by {
                assert(d[i] == s[i + 1]);
            }
            assert(element_value_valid(s[0], t));
        }
        if element_values_valid(s, t) {
            assert forall|i: int| 0 <= i < s.len() implies #[trigger] element_value_valid(s[i], t) by {
                if i > 0 {
                    assert(s[i] == d[i - 1]);
                }
            }
        }
    }
}

/// The bytes of element values split where the `k`-th one starts.
proof fn lemma_values_split(s: Seq<ElementValueInfo>, k: int)
    requires
        0 <= k < s.len(),
    ensures
        element_values_bytes(s) == element_values_bytes(s.take(k)) + element_value_bytes(s[k]) + element_values_bytes(
            s.skip(k + 1),
        ),
    decreases k,
{
    if k == 0 {
        assert(s.take(0) =~= Seq::<ElementValueInfo>::empty());
        assert(s.skip(1) =~= s.drop_first());
        assert(element_values_bytes(s.take(0)) =~= Seq::<u8>::empty());
    } else {
        lemma_values_split(s.drop_first(), k - 1);
        assert(s.drop_first().take(k - 1) =~= s.take(k).drop_first());
        assert(s.drop_first().skip(k) =~= s.skip(k + 1));
        assert(s.take(k)[0] == s[0]);
        assert(element_values_bytes(s.take(k)) == element_value_bytes(s[0]) + element_values_bytes(s.take(k).drop_first()));
    }
}

/// The bytes of elements with one more at the end.
proof fn lemma_pairs_push(s: Seq<(u16, ElementValueInfo)>, x: (u16, ElementValueInfo), t: bool)
    ensures
        pairs_bytes(s.push(x)) == pairs_bytes(s) + be16(x.0) + element_value_bytes(x.1),
        pairs_valid(s.push(x), t) == (pairs_valid(s, t) && element_value_valid(x.1, t)),
    decreases s.len(),
{
    let e = Seq::<(u16, ElementValueInfo)>::empty();
    assert(pairs_bytes(e) == Seq::<u8>::empty());
    assert(pairs_valid(e, t));
    if s.len() == 0 {
        assert(s.push(x).drop_first() =~= e);
        assert(s.push(x)[0] == x);
        assert(pairs_bytes(s.push(x)) =~= be16(x.0) + element_value_bytes(x.1));
    } else {
        lemma_pairs_push(s.drop_first(), x, t);
        assert(s.push(x).drop_first() =~= s.drop_first().push(x));
        assert(pairs_bytes(s.push(x)) =~= pairs_bytes(s) + be16(x.0) + element_value_bytes(x.1));
    }
}

/// The values of elements are valid when each of them is.
proof fn lemma_pairs_valid(s: Seq<(u16, ElementValueInfo)>, t: bool)
    ensures
        pairs_valid(s, t) <==> forall|i: int| 0 <= i < s.len() ==> #[trigger] element_value_valid(s[i].1, t),
    decreases s.len(),
{
    if s.len() > 0 {
        let d = s.drop_first();
        lemma_pairs_valid(d, t);
        if forall|i: int| 0 <= i < s.len() ==> #[trigger] element_value_valid(s[i].1, t) {
            assert forall|i: int| 0 <= i < d.len() implies #[trigger] element_value_valid(d[i].1, t) by {
                assert(d[i] == s[i + 1]);
            }
            assert(element_value_valid(s[0].1, t));
        }
        if pairs_valid(s, t) {
            assert forall|i: int| 0 <= i < s.len() implies #[trigger] element_value_valid(s[i].1, t) by {
                if i > 0 {
                    assert(s[i] == d[i - 1]);
                }
            }
        }
    }
}

/// The bytes of elements split where the `k`-th one starts.
proof fn lemma_pairs_split(s: Seq<(u16, ElementValueInfo)>, k: int)
    requires
        0 <= k < s.len(),
    ensures
        pairs_bytes(s) == pairs_bytes(s.take(k)) + be16(s[k].0) + element_value_bytes(s[k].1) + pairs_bytes(s.skip(k + 1)),
    decreases k,
{
    if k == 0 {
        assert(s.take(0) =~= Seq::<(u16, ElementValueInfo)>::empty());
        assert(s.skip(1) =~= s.drop_first());
        assert(pairs_bytes(s.take(0)) =~= Seq::<u8>::empty());
    } else {
        lemma_pairs_split(s.drop_first(), k - 1);
        assert(s.drop_first().take(k - 1) =~= s.take(k).drop_first());
        assert(s.drop_first().skip(k) =~= s.skip(k + 1));
        assert(s.take(k)[0] == s[0]);
        assert(pairs_bytes(s.take(k)) == be16(s[0].0) + element_value_bytes(s[0].1) + pairs_bytes(s.take(k).drop_first()));
    }
}

impl ElementValueInfo {
    /// Writes the element value at the end of `out`.
    ///
    /// # Errors
    /// [`GenerationErrorKind::OutOfRange`](crate::jvm::bytecode::GenerationErrorKind::OutOfRange)
    /// when an array or an annotation in it has more than 65535 values; what was written
    /// before stays.
    #[verifier::loop_isolation(false)]
    pub fn to_writer(&self, out: &mut Vec<u8>) -> (r: Result<(), GenerationError>)
        ensures
            r is Ok <==> element_value_valid(*self, false),
            r is Ok ==> final(out)@ == old(out)@ + element_value_bytes(*self),
            final(out)@.len() >= old(out)@.len(),
            final(out)@.subrange(0, old(out)@.len() as int) == old(out)@,
        decreases *self,
    {
        let ghost start = out@;
        match self {
            ElementValueInfo::Const(tag, i) => {
                out.push(*tag);
                put_u16(out, *i);
                assert(out@ =~= start + element_value_bytes(*self));
            },
            ElementValueInfo::Enum { type_name_index, const_name_index } => {
                out.push(101u8);
                put_u16(out, *type_name_index);
                put_u16(out, *const_name_index);
                assert(out@ =~= start + element_value_bytes(*self));
            },
            ElementValueInfo::ClassInfo(i) => {
                out.push(99u8);
                put_u16(out, *i);
                assert(out@ =~= start + element_value_bytes(*self));
            },
            ElementValueInfo::Annotation(a) => {
                out.push(64u8);
                let ghost mid = out@;
                let r = a.to_writer(out);
                assert(out@.subrange(0, start.len() as int) =~= mid.subrange(0, start.len() as int));
                if r.is_err() {
                    return r;
                }
                assert(out@ =~= start + element_value_bytes(*self));
            },
            ElementValueInfo::Array(vs) => {
                out.push(91u8);
                if vs.len() > 0xFFFF {
                    assert(out@.subrange(0, start.len() as int) =~= start);
                    return Err(too_long());
                }
                put_u16(out, vs.len() as u16);
                let ghost head = out@;
                assert(head == start + seq![91u8] + be16(vs@.len() as u16));
                let mut k: usize = 0;
                assert(vs@.take(0) =~= Seq::<ElementValueInfo>::empty());
                assert(element_values_bytes(vs@.take(0)) == Seq::<u8>::empty());
                assert(out@ =~= head + element_values_bytes(vs@.take(0)));
                while k < vs.len()
                    invariant
                        k <= vs@.len() <= 0xFFFF,
                        head == start + seq![91u8] + be16(vs@.len() as u16),
                        out@ == head + element_values_bytes(vs@.take(k as int)),
                        element_values_valid(vs@.take(k as int), false),
                    decreases vs@.len() - k,
                {
                    let ghost before = out@;
                    proof {
                        lemma_values_push(vs@.take(k as int), vs@[k as int], false);
                        assert(vs@.take(k + 1) =~= vs@.take(k as int).push(vs@[k as int]));
                    }
                    proof {
                        assert(decreases_to!(*self => *vs));
                        assert(decreases_to!(*vs => vs[k as int]));
                        assert(decreases_to!(*self => vs[k as int]));
                    }
                    match vs[k].to_writer(out) {
                        Ok(()) => {},
                        Err(e) => {
                            proof {
                                lemma_values_valid(vs@, false);
                                assert(!element_value_valid(vs@[k as int], false));
                                assert(out@.subrange(0, start.len() as int) =~= before.subrange(0, start.len() as int));
                            }
                            return Err(e);
                        },
                    }
                    assert(out@ =~= head + element_values_bytes(vs@.take(k + 1)));
                    k = k + 1;
                }
                assert(vs@.take(vs@.len() as int) =~= vs@);
                assert(out@ =~= start + element_value_bytes(*self));
            },
        }
        assert(out@.subrange(0, start.len() as int) =~= start);
        Ok(())
    }
}

/// Writes the elements of an annotation at the end of `out`: for each, the index of its name
/// and its value.
#[verifier::loop_isolation(false)]
fn write_pairs(ps: &Vec<(u16, ElementValueInfo)>, out: &mut Vec<u8>) -> (r: Result<(), GenerationError>)
    ensures
        r is Ok <==> pairs_valid(ps@, false),
        r is Ok ==> final(out)@ == old(out)@ + pairs_bytes(ps@),
        final(out)@.len() >= old(out)@.len(),
        final(out)@.subrange(0, old(out)@.len() as int) == old(out)@,
    decreases ps,
{
    let ghost start = out@;
    let mut k: usize = 0;
    assert(ps@.take(0) =~= Seq::<(u16, ElementValueInfo)>::empty());
    assert(pairs_bytes(ps@.take(0)) == Seq::<u8>::empty());
    assert(out@ =~= start + pairs_bytes(ps@.take(0)));
    while k < ps.len()
        invariant
            k <= ps@.len(),
            out@ == start + pairs_bytes(ps@.take(k as int)),
            pairs_valid(ps@.take(k as int), false),
        decreases ps@.len() - k,
    {
        let ghost before = out@;
        proof {
            lemma_pairs_push(ps@.take(k as int), ps@[k as int], false);
            assert(ps@.take(k + 1) =~= ps@.take(k as int).push(ps@[k as int]));
        }
        put_u16(out, ps[k].0);
        let ghost mid = out@;
        match ps[k].1.to_writer(out) {
            Ok(()) => {},
            Err(e) => {
                proof {
                    lemma_pairs_valid(ps@, false);
                    assert(!element_value_valid(ps@[k as int].1, false));
                    assert(mid.subrange(0, start.len() as int) =~= start);
                    assert(out@.subrange(0, start.len() as int) =~= mid.subrange(0, start.len() as int));
                }
                return Err(e);
            },
        }
        assert(out@ =~= start + pairs_bytes(ps@.take(k + 1)));
        k = k + 1;
    }
    assert(ps@.take(ps@.len() as int) =~= ps@);
    assert(out@.subrange(0, start.len() as int) =~= start);
    Ok(())
}

impl Annotation {
    /// Writes the annotation at the end of `out`.
    ///
    /// # Errors
    /// [`GenerationErrorKind::OutOfRange`](crate::jvm::bytecode::GenerationErrorKind::OutOfRange)
    /// when it, or an array or annotation in it, has more than 65535 values; what was written
    /// before stays.
    pub fn to_writer(&self, out: &mut Vec<u8>) -> (r: Result<(), GenerationError>)
        ensures
            r is Ok <==> annotation_valid(*self, false),
            r is Ok ==> final(out)@ == old(out)@ + annotation_bytes(*self),
            final(out)@.len() >= old(out)@.len(),
            final(out)@.subrange(0, old(out)@.len() as int) == old(out)@,
        decreases *self,
    {
        let ghost start = out@;
        put_u16(out, self.type_index);
        if self.element_value_pairs.len() > 0xFFFF {
            assert(out@.subrange(0, start.len() as int) =~= start);
            return Err(too_long());
        }
        put_u16(out, self.element_value_pairs.len() as u16);
        let ghost mid = out@;
        let r = write_pairs(&self.element_value_pairs, out);
        assert(out@.subrange(0, start.len() as int) =~= mid.subrange(0, start.len() as int));
        if r.is_ok() {
            assert(out@ =~= start + annotation_bytes(*self));
        }
        r
    }
}

/// What the bytes of an element value held at `pos` say: its tag first, then its parts.
proof fn lemma_parts(w: ElementValueInfo, bytes: Seq<u8>, pos: int)
    requires
        holds_at(bytes, pos, element_value_bytes(w)),
    ensures
        0 <= pos < bytes.len(),
        bytes[pos] == tag_of(w),
        match w {
            ElementValueInfo::Const(_, i) => holds_at(bytes, pos + 1, be16(i)),
            ElementValueInfo::Enum { type_name_index, const_name_index } => holds_at(bytes, pos + 1, be16(type_name_index))
                && holds_at(bytes, pos + 3, be16(const_name_index)),
            ElementValueInfo::ClassInfo(i) => holds_at(bytes, pos + 1, be16(i)),
            ElementValueInfo::Annotation(a) => holds_at(bytes, pos + 1, annotation_bytes(a)),
            ElementValueInfo::Array(vs) => holds_at(bytes, pos + 1, be16(vs@.len() as u16)) && holds_at(
                bytes,
                pos + 3,
                element_values_bytes(vs@),
            ),
        },
{
    lemma_tag_first(w);
    assert(bytes.subrange(pos, pos + element_value_bytes(w).len())[0] == bytes[pos]);
    match w {
        ElementValueInfo::Const(t, i) => {
            lemma_holds_concat(bytes, pos, seq![t], be16(i));
        },
        ElementValueInfo::Enum { type_name_index, const_name_index } => {
            lemma_holds_concat(bytes, pos, seq![101u8] + be16(type_name_index), be16(const_name_index));
            lemma_holds_concat(bytes, pos, seq![101u8], be16(type_name_index));
        },
        ElementValueInfo::ClassInfo(i) => {
            lemma_holds_concat(bytes, pos, seq![99u8], be16(i));
        },
        ElementValueInfo::Annotation(a) => {
            lemma_holds_concat(bytes, pos, seq![64u8], annotation_bytes(a));
        },
        ElementValueInfo::Array(vs) => {
            lemma_holds_concat(bytes, pos, seq![91u8] + be16(vs@.len() as u16), element_values_bytes(vs@));
            lemma_holds_concat(bytes, pos, seq![91u8], be16(vs@.len() as u16));
        },
    }
}

/// What the bytes of an annotation held at `pos` say: the index of its type, the count of
/// its elements, then the elements.
proof fn lemma_annotation_parts(a: Annotation, bytes: Seq<u8>, pos: int)
    requires
        holds_at(bytes, pos, annotation_bytes(a)),
    ensures
        holds_at(bytes, pos, be16(a.type_index)),
        holds_at(bytes, pos + 2, be16(a.element_value_pairs@.len() as u16)),
        holds_at(bytes, pos + 4, pairs_bytes(a.element_value_pairs@)),
{
    let n = a.element_value_pairs@.len() as u16;
    lemma_holds_concat(bytes, pos, be16(a.type_index) + be16(n), pairs_bytes(a.element_value_pairs@));
    lemma_holds_concat(bytes, pos, be16(a.type_index), be16(n));
}

/// A count held where another of the same size is held, and small enough, is the same.
proof fn lemma_same_count(bytes: Seq<u8>, pos: int, n: u16, len: nat)
    requires
        holds_at(bytes, pos, be16(n)),
        holds_at(bytes, pos, be16(len as u16)),
        len <= 0xFFFF,
    ensures
        n == len,
{
    lemma_same_bytes(bytes, pos, be16(n), be16(len as u16));
    lemma_be16_unique(n, len as u16);
}

impl ElementValueInfo {
    /// Reads an element value at `pos`, and returns it with the position after it.
    ///
    /// # Errors
    /// When the input ends before the value does, or when a tag denotes no element value:
    /// the message then names the tag.
    #[verifier::loop_isolation(false)]
    pub fn from_reader(bytes: &[u8], pos: usize) -> (r: Result<(Self, usize), ParseError>)
        requires
            pos <= bytes@.len(),
        ensures
            r matches Ok((v, next)) ==> element_value_valid(v, true) && next == pos + element_value_bytes(v).len()
                && holds_at(bytes@, pos as int, element_value_bytes(v)),
            forall|w: ElementValueInfo|
                element_value_valid(w, true) && #[trigger] holds_at(bytes@, pos as int, element_value_bytes(w)) ==> (r matches Ok(
                    (v, _),
                ) && element_value_bytes(v) == element_value_bytes(w)),
            pos < bytes@.len() && !is_const_tag(bytes@[pos as int]) && bytes@[pos as int] != 101
                && bytes@[pos as int] != 99 && bytes@[pos as int] != 64 && bytes@[pos as int] != 91 ==> (r matches Err(
                e,
            ) && e.kind_of() == ParsingErrorKind::Malformed && e.message_of() == "Unknown element value tag: "@
                + decimal(bytes@[pos as int] as int)),
        decreases bytes@.len() - pos, 0int,
    {
        let (tag, p1) = match take_u8(bytes, pos) {
            Ok(x) => x,
            Err(e) => {
                proof {
                    assert forall|w: ElementValueInfo|
                        element_value_valid(w, true) && #[trigger] holds_at(bytes@, pos as int, element_value_bytes(w)) implies false by {
                        lemma_parts(w, bytes@, pos as int);
                    }
                }
                return Err(e);
            },
        };
        assert(bytes@[pos as int] == tag) by {
            assert(bytes@.subrange(pos as int, pos + 1)[0] == bytes@[pos as int]);
        }
        if tag == 66 || tag == 67 || tag == 68 || tag == 70 || tag == 73 || tag == 74 || tag == 83 || tag == 90 || tag == 115 {
            let (i, p2) = match take_u16(bytes, p1) {
                Ok(x) => x,
                Err(e) => {
                    proof {
                        assert forall|w: ElementValueInfo|
                            element_value_valid(w, true) && #[trigger] holds_at(bytes@, pos as int, element_value_bytes(w)) implies false by {
                            lemma_parts(w, bytes@, pos as int);
                        }
                    }
                    return Err(e);
                },
            };
            let v = ElementValueInfo::Const(tag, i);
            proof {
                lemma_holds_concat(bytes@, pos as int, seq![tag], be16(i));
                assert forall|w: ElementValueInfo|
                    element_value_valid(w, true) && #[trigger] holds_at(bytes@, pos as int, element_value_bytes(w)) implies element_value_bytes(v)
                    == element_value_bytes(w) by {
                    lemma_parts(w, bytes@, pos as int);
                    lemma_same_bytes(bytes@, pos as int, element_value_bytes(v), element_value_bytes(w));
                }
            }
            return Ok((v, p2));
        }
        if tag == 101 {
            let (t, p2) = match take_u16(bytes, p1) {
                Ok(x) => x,
                Err(e) => {
                    proof {
                        assert forall|w: ElementValueInfo|
                            element_value_valid(w, true) && #[trigger] holds_at(bytes@, pos as int, element_value_bytes(w)) implies false by {
                            lemma_parts(w, bytes@, pos as int);
                        }
                    }
                    return Err(e);
                },
            };
            let (c, p3) = match take_u16(bytes, p2) {
                Ok(x) => x,
                Err(e) => {
                    proof {
                        assert forall|w: ElementValueInfo|
                            element_value_valid(w, true) && #[trigger] holds_at(bytes@, pos as int, element_value_bytes(w)) implies false by {
                            lemma_parts(w, bytes@, pos as int);
                        }
                    }
                    return Err(e);
                },
            };
            let v = ElementValueInfo::Enum { type_name_index: t, const_name_index: c };
            proof {
                lemma_holds_concat(bytes@, pos as int, seq![101u8], be16(t));
                lemma_holds_concat(bytes@, pos as int, seq![101u8] + be16(t), be16(c));
                assert forall|w: ElementValueInfo|
                    element_value_valid(w, true) && #[trigger] holds_at(bytes@, pos as int, element_value_bytes(w)) implies element_value_bytes(v)
                    == element_value_bytes(w) by {
                    lemma_parts(w, bytes@, pos as int);
                    lemma_same_bytes(bytes@, pos as int, element_value_bytes(v), element_value_bytes(w));
                }
            }
            return Ok((v, p3));
        }
        if tag == 99 {
            let (i, p2) = match take_u16(bytes, p1) {
                Ok(x) => x,
                Err(e) => {
                    proof {
                        assert forall|w: ElementValueInfo|
                            element_value_valid(w, true) && #[trigger] holds_at(bytes@, pos as int, element_value_bytes(w)) implies false by {
                            lemma_parts(w, bytes@, pos as int);
                        }
                    }
                    return Err(e);
                },
            };
            let v = ElementValueInfo::ClassInfo(i);
            proof {
                lemma_holds_concat(bytes@, pos as int, seq![99u8], be16(i));
                assert forall|w: ElementValueInfo|
                    element_value_valid(w, true) && #[trigger] holds_at(bytes@, pos as int, element_value_bytes(w)) implies element_value_bytes(v)
                    == element_value_bytes(w) by {
                    lemma_parts(w, bytes@, pos as int);
                    lemma_same_bytes(bytes@, pos as int, element_value_bytes(v), element_value_bytes(w));
                }
            }
            return Ok((v, p2));
        }
        if tag == 64 {
            let (a, p2) = match Annotation::from_reader(bytes, p1) {
                Ok(x) => x,
                Err(e) => {
                    proof {
                        assert forall|w: ElementValueInfo|
                            element_value_valid(w, true) && #[trigger] holds_at(bytes@, pos as int, element_value_bytes(w)) implies false by {
                            lemma_parts(w, bytes@, pos as int);
                        }
                    }
                    return Err(e);
                },
            };
            let v = ElementValueInfo::Annotation(a);
            proof {
                lemma_holds_concat(bytes@, pos as int, seq![64u8], annotation_bytes(a));
                assert forall|w: ElementValueInfo|
                    element_value_valid(w, true) && #[trigger] holds_at(bytes@, pos as int, element_value_bytes(w)) implies element_value_bytes(v)
                    == element_value_bytes(w) by {
                    lemma_parts(w, bytes@, pos as int);
                }
            }
            return Ok((v, p2));
        }
        if tag == 91 {
            let (n, p2) = match take_u16(bytes, p1) {
                Ok(x) => x,
                Err(e) => {
                    proof {
                        assert forall|w: ElementValueInfo|
                            element_value_valid(w, true) && #[trigger] holds_at(bytes@, pos as int, element_value_bytes(w)) implies false by {
                            lemma_parts(w, bytes@, pos as int);
                        }
                    }
                    return Err(e);
                },
            };
            let (vs, p3) = match read_values(bytes, p2, n) {
                Ok(x) => x,
                Err(e) => {
                    proof {
                        assert forall|w: ElementValueInfo|
                            element_value_valid(w, true) && #[trigger] holds_at(bytes@, pos as int, element_value_bytes(w)) implies false by {
                            lemma_parts(w, bytes@, pos as int);
                            if let ElementValueInfo::Array(ws) = w {
                                lemma_same_count(bytes@, p1 as int, n, ws@.len());
                            }
                        }
                    }
                    return Err(e);
                },
            };
            let v = ElementValueInfo::Array(vs);
            proof {
                assert(vs@.len() as u16 == n);
                lemma_holds_concat(bytes@, pos as int, seq![91u8], be16(n));
                lemma_holds_concat(bytes@, pos as int, seq![91u8] + be16(n), element_values_bytes(vs@));
                assert forall|w: ElementValueInfo|
                    element_value_valid(w, true) && #[trigger] holds_at(bytes@, pos as int, element_value_bytes(w)) implies element_value_bytes(v)
                    == element_value_bytes(w) by {
                    lemma_parts(w, bytes@, pos as int);
                    if let ElementValueInfo::Array(ws) = w {
                        lemma_same_count(bytes@, p1 as int, n, ws@.len());
                    }
                }
            }
            return Ok((v, p3));
        }
        proof {
            assert forall|w: ElementValueInfo|
                element_value_valid(w, true) && #[trigger] holds_at(bytes@, pos as int, element_value_bytes(w)) implies false by {
                lemma_parts(w, bytes@, pos as int);
            }
        }
        Err(bad_tag("Unknown element value tag: ", tag, false))
    }
}

/// Reads `n` element values one after the other at `pos`, and returns them with the
/// position after them.
#[verifier::loop_isolation(false)]
fn read_values(bytes: &[u8], pos: usize, n: u16) -> (r: Result<(Vec<ElementValueInfo>, usize), ParseError>)
    requires
        pos <= bytes@.len(),
    ensures
        r matches Ok((vs, next)) ==> vs@.len() == n && element_values_valid(vs@, true) && next == pos
            + element_values_bytes(vs@).len() && holds_at(bytes@, pos as int, element_values_bytes(vs@)),
        forall|ws: Seq<ElementValueInfo>|
            ws.len() == n && element_values_valid(ws, true) && #[trigger] holds_at(bytes@, pos as int, element_values_bytes(ws))
                ==> (r matches Ok((vs, _)) && element_values_bytes(vs@) == element_values_bytes(ws)),
    decreases bytes@.len() - pos, 1int,
{
    let mut out: Vec<ElementValueInfo> = Vec::new();
    let mut cur = pos;
    let mut k: u16 = 0;
    proof {
        assert(element_values_bytes(out@) == Seq::<u8>::empty());
        assert(bytes@.subrange(pos as int, pos as int) =~= Seq::<u8>::empty());
        assert forall|ws: Seq<ElementValueInfo>|
            ws.len() == n && element_values_valid(ws, true) && #[trigger] holds_at(bytes@, pos as int, element_values_bytes(ws))
                implies element_values_bytes(out@) == element_values_bytes(ws.take(0)) by {
            assert(ws.take(0) =~= Seq::<ElementValueInfo>::empty());
        }
    }
    while k < n
        invariant
            pos <= cur <= bytes@.len(),
            k <= n,
            out@.len() == k,
            element_values_valid(out@, true),
            cur == pos + element_values_bytes(out@).len(),
            holds_at(bytes@, pos as int, element_values_bytes(out@)),
            forall|ws: Seq<ElementValueInfo>|
                ws.len() == n && element_values_valid(ws, true) && #[trigger] holds_at(bytes@, pos as int, element_values_bytes(ws))
                    ==> element_values_bytes(out@) == element_values_bytes(ws.take(k as int)),
        decreases n - k,
    {
        let ghost before = out@;
        let ghost start = cur;
        match ElementValueInfo::from_reader(bytes, cur) {
            Ok((x, next)) => {
                proof {
                    lemma_values_push(before, x, true);
                    lemma_holds_concat(bytes@, pos as int, element_values_bytes(before), element_value_bytes(x));
                    assert forall|ws: Seq<ElementValueInfo>|
                        ws.len() == n && element_values_valid(ws, true) && #[trigger] holds_at(bytes@, pos as int, element_values_bytes(ws))
                            implies element_values_bytes(before.push(x)) == element_values_bytes(ws.take(k + 1)) by {
                        lemma_values_split(ws, k as int);
                        lemma_values_valid(ws, true);
                        assert(element_value_valid(ws[k as int], true));
                        lemma_holds_concat(
                            bytes@,
                            pos as int,
                            element_values_bytes(ws.take(k as int)) + element_value_bytes(ws[k as int]),
                            element_values_bytes(ws.skip(k + 1)),
                        );
                        lemma_holds_concat(bytes@, pos as int, element_values_bytes(ws.take(k as int)), element_value_bytes(ws[k as int]));
                        assert(holds_at(bytes@, start as int, element_value_bytes(ws[k as int])));
                        lemma_values_push(ws.take(k as int), ws[k as int], true);
                        assert(ws.take(k + 1) =~= ws.take(k as int).push(ws[k as int]));
                    }
                }
                out.push(x);
                cur = next;
            },
            Err(e) => {
                proof {
                    assert forall|ws: Seq<ElementValueInfo>|
                        ws.len() == n && element_values_valid(ws, true) && #[trigger] holds_at(bytes@, pos as int, element_values_bytes(ws))
                            implies false by {
                        lemma_values_split(ws, k as int);
                        lemma_values_valid(ws, true);
                        assert(element_value_valid(ws[k as int], true));
                        lemma_holds_concat(
                            bytes@,
                            pos as int,
                            element_values_bytes(ws.take(k as int)) + element_value_bytes(ws[k as int]),
                            element_values_bytes(ws.skip(k + 1)),
                        );
                        lemma_holds_concat(bytes@, pos as int, element_values_bytes(ws.take(k as int)), element_value_bytes(ws[k as int]));
                        assert(holds_at(bytes@, start as int, element_value_bytes(ws[k as int])));
                    }
                }
                return Err(e);
            },
        }
        k = k + 1;
    }
    proof {
        assert forall|ws: Seq<ElementValueInfo>|
            ws.len() == n && element_values_valid(ws, true) && #[trigger] holds_at(bytes@, pos as int, element_values_bytes(ws))
                implies element_values_bytes(out@) == element_values_bytes(ws) by {
            assert(ws.take(n as int) =~= ws);
        }
    }
    Ok((out, cur))
}

/// Reads `n` elements of an annotation one after the other at `pos`, and returns them with
/// the position after them.
#[verifier::loop_isolation(false)]
fn read_pairs(bytes: &[u8], pos: usize, n: u16) -> (r: Result<(Vec<(u16, ElementValueInfo)>, usize), ParseError>)
    requires
        pos <= bytes@.len(),
    ensures
        r matches Ok((ps, next)) ==> ps@.len() == n && pairs_valid(ps@, true) && next == pos + pairs_bytes(ps@).len()
            && holds_at(bytes@, pos as int, pairs_bytes(ps@)),
        forall|qs: Seq<(u16, ElementValueInfo)>|
            qs.len() == n && pairs_valid(qs, true) && #[trigger] holds_at(bytes@, pos as int, pairs_bytes(qs)) ==> (r matches Ok(
                (ps, _),
            ) && pairs_bytes(ps@) == pairs_bytes(qs)),
    decreases bytes@.len() - pos, 1int,
{
    let mut out: Vec<(u16, ElementValueInfo)> = Vec::new();
    let mut cur = pos;
    let mut k: u16 = 0;
    proof {
        assert(pairs_bytes(out@) == Seq::<u8>::empty());
        assert(bytes@.subrange(pos as int, pos as int) =~= Seq::<u8>::empty());
        assert forall|qs: Seq<(u16, ElementValueInfo)>|
            qs.len() == n && pairs_valid(qs, true) && #[trigger] holds_at(bytes@, pos as int, pairs_bytes(qs)) implies pairs_bytes(out@)
            == pairs_bytes(qs.take(0)) by {
            assert(qs.take(0) =~= Seq::<(u16, ElementValueInfo)>::empty());
        }
    }
    while k < n
        invariant
            pos <= cur <= bytes@.len(),
            k <= n,
            out@.len() == k,
            pairs_valid(out@, true),
            cur == pos + pairs_bytes(out@).len(),
            holds_at(bytes@, pos as int, pairs_bytes(out@)),
            forall|qs: Seq<(u16, ElementValueInfo)>|
                qs.len() == n && pairs_valid(qs, true) && #[trigger] holds_at(bytes@, pos as int, pairs_bytes(qs)) ==> pairs_bytes(out@)
                    == pairs_bytes(qs.take(k as int)),
        decreases n - k,
    {
        let ghost before = out@;
        let ghost start = cur;
        let (name, p1) = match take_u16(bytes, cur) {
            Ok(x) => x,
            Err(e) => {
                proof {
                    assert forall|qs: Seq<(u16, ElementValueInfo)>|
                        qs.len() == n && pairs_valid(qs, true) && #[trigger] holds_at(bytes@, pos as int, pairs_bytes(qs)) implies false by {
                        lemma_pairs_split(qs, k as int);
                        lemma_holds_concat(
                            bytes@,
                            pos as int,
                            pairs_bytes(qs.take(k as int)) + be16(qs[k as int].0) + element_value_bytes(qs[k as int].1),
                            pairs_bytes(qs.skip(k + 1)),
                        );
                        lemma_holds_concat(
                            bytes@,
                            pos as int,
                            pairs_bytes(qs.take(k as int)) + be16(qs[k as int].0),
                            element_value_bytes(qs[k as int].1),
                        );
                        lemma_holds_concat(bytes@, pos as int, pairs_bytes(qs.take(k as int)), be16(qs[k as int].0));
                    }
                }
                return Err(e);
            },
        };
        match ElementValueInfo::from_reader(bytes, p1) {
            Ok((x, next)) => {
                proof {
                    lemma_pairs_push(before, (name, x), true);
                    lemma_holds_concat(bytes@, pos as int, pairs_bytes(before), be16(name));
                    lemma_holds_concat(bytes@, pos as int, pairs_bytes(before) + be16(name), element_value_bytes(x));
                    assert forall|qs: Seq<(u16, ElementValueInfo)>|
                        qs.len() == n && pairs_valid(qs, true) && #[trigger] holds_at(bytes@, pos as int, pairs_bytes(qs)) implies pairs_bytes(
                        before.push((name, x)),
                    ) == pairs_bytes(qs.take(k + 1)) by {
                        lemma_pairs_split(qs, k as int);
                        lemma_pairs_valid(qs, true);
                        assert(element_value_valid(qs[k as int].1, true));
                        lemma_holds_concat(
                            bytes@,
                            pos as int,
                            pairs_bytes(qs.take(k as int)) + be16(qs[k as int].0) + element_value_bytes(qs[k as int].1),
                            pairs_bytes(qs.skip(k + 1)),
                        );
                        lemma_holds_concat(
                            bytes@,
                            pos as int,
                            pairs_bytes(qs.take(k as int)) + be16(qs[k as int].0),
                            element_value_bytes(qs[k as int].1),
                        );
                        lemma_holds_concat(bytes@, pos as int, pairs_bytes(qs.take(k as int)), be16(qs[k as int].0));
                        lemma_same_bytes(bytes@, start as int, be16(name), be16(qs[k as int].0));
                        assert(holds_at(bytes@, p1 as int, element_value_bytes(qs[k as int].1)));
                        lemma_pairs_push(qs.take(k as int), qs[k as int], true);
                        assert(qs.take(k + 1) =~= qs.take(k as int).push(qs[k as int]));
                    }
                }
                out.push((name, x));
                cur = next;
            },
            Err(e) => {
                proof {
                    assert forall|qs: Seq<(u16, ElementValueInfo)>|
                        qs.len() == n && pairs_valid(qs, true) && #[trigger] holds_at(bytes@, pos as int, pairs_bytes(qs)) implies false by {
                        lemma_pairs_split(qs, k as int);
                        lemma_pairs_valid(qs, true);
                        assert(element_value_valid(qs[k as int].1, true));
                        lemma_holds_concat(
                            bytes@,
                            pos as int,
                            pairs_bytes(qs.take(k as int)) + be16(qs[k as int].0) + element_value_bytes(qs[k as int].1),
                            pairs_bytes(qs.skip(k + 1)),
                        );
                        lemma_holds_concat(
                            bytes@,
                            pos as int,
                            pairs_bytes(qs.take(k as int)) + be16(qs[k as int].0),
                            element_value_bytes(qs[k as int].1),
                        );
                        lemma_holds_concat(bytes@, pos as int, pairs_bytes(qs.take(k as int)), be16(qs[k as int].0));
                        assert(holds_at(bytes@, p1 as int, element_value_bytes(qs[k as int].1)));
                    }
                }
                return Err(e);
            },
        }
        k = k + 1;
    }
    proof {
        assert forall|qs: Seq<(u16, ElementValueInfo)>|
            qs.len() == n && pairs_valid(qs, true) && #[trigger] holds_at(bytes@, pos as int, pairs_bytes(qs)) implies pairs_bytes(out@)
            == pairs_bytes(qs) by {
            assert(qs.take(n as int) =~= qs);
        }
    }
    Ok((out, cur))
}

impl Annotation {
    /// Reads an annotation at `pos`, and returns it with the position after it.
    ///
    /// # Errors
    /// When the input ends before the annotation does, or when a tag in it denotes no element
    /// value.
    pub fn from_reader(bytes: &[u8], pos: usize) -> (r: Result<(Self, usize), ParseError>)
        requires
            pos <= bytes@.len(),
        ensures
            r matches Ok((a, next)) ==> annotation_valid(a, true) && next == pos + annotation_bytes(a).len() && holds_at(
                bytes@,
                pos as int,
                annotation_bytes(a),
            ),
            forall|b: Annotation|
                annotation_valid(b, true) && #[trigger] holds_at(bytes@, pos as int, annotation_bytes(b)) ==> (r matches Ok(
                    (a, _),
                ) && annotation_bytes(a) == annotation_bytes(b)),
        decreases bytes@.len() - pos, 0int,
    {
        let (type_index, p1) = match take_u16(bytes, pos) {
            Ok(x) => x,
            Err(e) => {
                proof {
                    assert forall|b: Annotation|
                        annotation_valid(b, true) && #[trigger] holds_at(bytes@, pos as int, annotation_bytes(b)) implies false by {
                        lemma_annotation_parts(b, bytes@, pos as int);
                    }
                }
                return Err(e);
            },
        };
        let (n, p2) = match take_u16(bytes, p1) {
            Ok(x) => x,
            Err(e) => {
                proof {
                    assert forall|b: Annotation|
                        annotation_valid(b, true) && #[trigger] holds_at(bytes@, pos as int, annotation_bytes(b)) implies false by {
                        lemma_annotation_parts(b, bytes@, pos as int);
                    }
                }
                return Err(e);
            },
        };
        let (ps, p3) = match read_pairs(bytes, p2, n) {
            Ok(x) => x,
            Err(e) => {
                proof {
                    assert forall|b: Annotation|
                        annotation_valid(b, true) && #[trigger] holds_at(bytes@, pos as int, annotation_bytes(b)) implies false by {
                        lemma_annotation_parts(b, bytes@, pos as int);
                        lemma_same_count(bytes@, p1 as int, n, b.element_value_pairs@.len());
                    }
                }
                return Err(e);
            },
        };
        let a = Annotation { type_index, element_value_pairs: ps };
        proof {
            assert(a.element_value_pairs@.len() as u16 == n);
            lemma_holds_concat(bytes@, pos as int, be16(type_index), be16(n));
            lemma_holds_concat(bytes@, pos as int, be16(type_index) + be16(n), pairs_bytes(a.element_value_pairs@));
            assert forall|b: Annotation|
                annotation_valid(b, true) && #[trigger] holds_at(bytes@, pos as int, annotation_bytes(b)) implies annotation_bytes(a)
                == annotation_bytes(b) by {
                lemma_annotation_parts(b, bytes@, pos as int);
                lemma_same_count(bytes@, p1 as int, n, b.element_value_pairs@.len());
                lemma_same_bytes(bytes@, pos as int, be16(type_index), be16(b.type_index));
            }
        }
        Ok((a, p3))
    }
}

/// The bytes of the path to an annotated type: each step's kind and type argument index.
pub open spec fn path_bytes(p: Seq<(u8, u8)>) -> Seq<u8>
    decreases p.len(),
{
    if p.len() == 0 {
        Seq::empty()
    } else {
        seq![p[0].0, p[0].1] + path_bytes(p.drop_first())
    }
}

/// The bytes of a type annotation.
pub open spec fn type_annotation_bytes(t: TypeAnnotation) -> Seq<u8> {
    t.target_info.encoding() + seq![t.target_path@.len() as u8] + path_bytes(t.target_path@) + be16(t.type_index) + be16(
        t.element_value_pairs@.len() as u16,
    ) + pairs_bytes(t.element_value_pairs@)
}

/// Whether the target of a type annotation can be written, its path has at most 255 steps,
/// and it has at most 65535 elements, each valid.
pub open spec fn type_annotation_valid(t: TypeAnnotation, check_tags: bool) -> bool {
    &&& t.target_info.writable()
    &&& t.target_path@.len() <= 0xFF
    &&& t.element_value_pairs@.len() <= 0xFFFF
    &&& pairs_valid(t.element_value_pairs@, check_tags)
}

/// The bytes of a path with one more step at the end.
proof fn lemma_path_push(p: Seq<(u8, u8)>, x: (u8, u8))
    ensures
        path_bytes(p.push(x)) == path_bytes(p) + seq![x.0, x.1],
        path_bytes(p).len() == 2 * p.len(),
    decreases p.len(),
{
    assert(path_bytes(Seq::<(u8, u8)>::empty()) == Seq::<u8>::empty());
    if p.len() == 0 {
        assert(p.push(x).drop_first() =~= Seq::<(u8, u8)>::empty());
        assert(path_bytes(p.push(x)) =~= seq![x.0, x.1]);
    } else {
        lemma_path_push(p.drop_first(), x);
        assert(p.push(x).drop_first() =~= p.drop_first().push(x));
        assert(path_bytes(p.push(x)) =~= path_bytes(p) + seq![x.0, x.1]);
    }
}

/// The bytes of a path take two bytes a step.
proof fn lemma_path_len(p: Seq<(u8, u8)>)
    ensures
        path_bytes(p).len() == 2 * p.len(),
{
    if p.len() > 0 {
        lemma_path_push(p.drop_last(), p.last());
        assert(p.drop_last().push(p.last()) =~= p);
    }
}

/// What the bytes of a type annotation held at `pos` say, part by part.
proof fn lemma_type_annotation_parts(t: TypeAnnotation, bytes: Seq<u8>, pos: int)
    requires
        holds_at(bytes, pos, type_annotation_bytes(t)),
    ensures
        ({
            let p1 = pos + t.target_info.encoding().len();
            let p2 = p1 + 1 + path_bytes(t.target_path@).len();
            &&& holds_at(bytes, pos, t.target_info.encoding())
            &&& holds_at(bytes, p1, seq![t.target_path@.len() as u8])
            &&& holds_at(bytes, p1 + 1, path_bytes(t.target_path@))
            &&& holds_at(bytes, p2, be16(t.type_index))
            &&& holds_at(bytes, p2 + 2, be16(t.element_value_pairs@.len() as u16))
            &&& holds_at(bytes, p2 + 4, pairs_bytes(t.element_value_pairs@))
        }),
{
    let a = t.target_info.encoding();
    let b = seq![t.target_path@.len() as u8];
    let c = path_bytes(t.target_path@);
    let d = be16(t.type_index);
    let e = be16(t.element_value_pairs@.len() as u16);
    let f = pairs_bytes(t.element_value_pairs@);
    lemma_holds_concat(bytes, pos, a + b + c + d + e, f);
    lemma_holds_concat(bytes, pos, a + b + c + d, e);
    lemma_holds_concat(bytes, pos, a + b + c, d);
    lemma_holds_concat(bytes, pos, a + b, c);
    lemma_holds_concat(bytes, pos, a, b);
}

impl TypeAnnotation {
    /// Writes the type annotation at the end of `out`.
    ///
    /// # Errors
    /// When its target cannot be written, its path has more than 255 steps, or it, or an
    /// array or annotation in it, has more than 65535 values; what was written before stays.
    pub fn to_writer(&self, out: &mut Vec<u8>) -> (r: Result<(), GenerationError>)
        ensures
            r is Ok <==> type_annotation_valid(*self, false),
            r is Ok ==> final(out)@ == old(out)@ + type_annotation_bytes(*self),
            final(out)@.len() >= old(out)@.len(),
            final(out)@.subrange(0, old(out)@.len() as int) == old(out)@,
    {
        let ghost start = out@;
        let r = self.target_info.to_writer(out);
        if r.is_err() {
            return r;
        }
        let ghost after_target = out@;
        if self.target_path.len() > 0xFF {
            assert(out@.subrange(0, start.len() as int) =~= start);
            return Err(too_long());
        }
        out.push(self.target_path.len() as u8);
        let mut k: usize = 0;
        let ghost head = out@;
        assert(self.target_path@.take(0) =~= Seq::<(u8, u8)>::empty());
        assert(path_bytes(self.target_path@.take(0)) == Seq::<u8>::empty());
        while k < self.target_path.len()
            invariant
                k <= self.target_path@.len(),
                out@ == head + path_bytes(self.target_path@.take(k as int)),
            decreases self.target_path@.len() - k,
        {
            let (kind, index) = self.target_path[k];
            out.push(kind);
            out.push(index);
            proof {
                lemma_path_push(self.target_path@.take(k as int), (kind, index));
                assert(self.target_path@.take(k + 1) =~= self.target_path@.take(k as int).push((kind, index)));
            }
            assert(out@ =~= head + path_bytes(self.target_path@.take(k + 1)));
            k = k + 1;
        }
        assert(self.target_path@.take(self.target_path@.len() as int) =~= self.target_path@);
        put_u16(out, self.type_index);
        if self.element_value_pairs.len() > 0xFFFF {
            assert(out@.subrange(0, start.len() as int) =~= start);
            return Err(too_long());
        }
        put_u16(out, self.element_value_pairs.len() as u16);
        let ghost mid = out@;
        let r = write_pairs(&self.element_value_pairs, out);
        assert(mid.subrange(0, start.len() as int) =~= start);
        assert(out@.subrange(0, start.len() as int) =~= mid.subrange(0, start.len() as int));
        if r.is_ok() {
            assert(out@ =~= start + type_annotation_bytes(*self));
        }
        r
    }

    /// Reads a type annotation at `pos`, and returns it with the position after it.
    ///
    /// # Errors
    /// When the input ends before the type annotation does, or when a tag in it denotes no
    /// target or no element value.
    #[verifier::loop_isolation(false)]
    pub fn from_reader(bytes: &[u8], pos: usize) -> (r: Result<(Self, usize), ParseError>)
        requires
            pos <= bytes@.len(),
        ensures
            r matches Ok((t, next)) ==> type_annotation_valid(t, true) && next == pos + type_annotation_bytes(t).len()
                && holds_at(bytes@, pos as int, type_annotation_bytes(t)),
            forall|u: TypeAnnotation|
                type_annotation_valid(u, true) && #[trigger] holds_at(bytes@, pos as int, type_annotation_bytes(u)) ==> (r matches Ok(
                    (t, _),
                ) && type_annotation_bytes(t) == type_annotation_bytes(u)),
    {
        let (target_info, p1) = match TargetInfo::from_reader(bytes, pos) {
            Ok(x) => x,
            Err(e) => {
                proof {
                    assert forall|u: TypeAnnotation|
                        type_annotation_valid(u, true) && #[trigger] holds_at(bytes@, pos as int, type_annotation_bytes(u)) implies false by {
                        lemma_type_annotation_parts(u, bytes@, pos as int);
                        assert(u.target_info.writable() && holds_at(bytes@, pos as int, u.target_info.encoding()));
                    }
                }
                return Err(e);
            },
        };
        proof {
            assert forall|u: TypeAnnotation|
                type_annotation_valid(u, true) && #[trigger] holds_at(bytes@, pos as int, type_annotation_bytes(u)) implies u.target_info.encoding()
                == target_info.encoding() by {
                lemma_type_annotation_parts(u, bytes@, pos as int);
                TargetInfo::lemma_prefix_free(target_info, u.target_info, bytes@, pos as int);
            }
        }
        let (m, p2) = match take_u8(bytes, p1) {
            Ok(x) => x,
            Err(e) => {
                proof {
                    assert forall|u: TypeAnnotation|
                        type_annotation_valid(u, true) && #[trigger] holds_at(bytes@, pos as int, type_annotation_bytes(u)) implies false by {
                        lemma_type_annotation_parts(u, bytes@, pos as int);
                    }
                }
                return Err(e);
            },
        };
        assert(holds_at(bytes@, p1 as int, seq![m])) by {
            assert(bytes@.subrange(p1 as int, p1 + 1) =~= seq![m]);
        }
        let mut path: Vec<(u8, u8)> = Vec::new();
        let mut cur = p2;
        let mut k: u8 = 0;
        assert(path_bytes(path@) == Seq::<u8>::empty());
        assert(bytes@.subrange(p2 as int, p2 as int) =~= Seq::<u8>::empty());
        while k < m
            invariant
                p2 <= cur <= bytes@.len(),
                k <= m,
                path@.len() == k,
                cur == p2 + path_bytes(path@).len(),
                holds_at(bytes@, p2 as int, path_bytes(path@)),
            decreases m - k,
        {
            proof {
                lemma_path_len(path@);
            }
            if bytes.len() - cur < 2 {
                proof {
                    assert forall|u: TypeAnnotation|
                        type_annotation_valid(u, true) && #[trigger] holds_at(bytes@, pos as int, type_annotation_bytes(u)) implies false by {
                        lemma_type_annotation_parts(u, bytes@, pos as int);
                        lemma_same_bytes(bytes@, p1 as int, seq![m], seq![u.target_path@.len() as u8]);
                        assert(seq![m][0] == seq![u.target_path@.len() as u8][0]);
                        assert(u.target_path@.len() == m);
                        lemma_path_len(u.target_path@);
                    }
                }
                return Err(end_of_input());
            }
            let kind = bytes[cur];
            let index = bytes[cur + 1];
            proof {
                lemma_path_push(path@, (kind, index));
                assert(bytes@.subrange(cur as int, cur + 2) =~= seq![kind, index]);
                lemma_holds_concat(bytes@, p2 as int, path_bytes(path@), seq![kind, index]);
            }
            path.push((kind, index));
            cur = cur + 2;
            k = k + 1;
        }
        let (type_index, p3) = match take_u16(bytes, cur) {
            Ok(x) => x,
            Err(e) => {
                proof {
                    assert forall|u: TypeAnnotation|
                        type_annotation_valid(u, true) && #[trigger] holds_at(bytes@, pos as int, type_annotation_bytes(u)) implies false by {
                        lemma_type_annotation_parts(u, bytes@, pos as int);
                        assert(u.target_info.encoding() == target_info.encoding());
                        lemma_same_bytes(bytes@, p1 as int, seq![m], seq![u.target_path@.len() as u8]);
                        assert(seq![m][0] == seq![u.target_path@.len() as u8][0]);
                        assert(u.target_path@.len() == m);
                        lemma_path_len(u.target_path@);
                        lemma_path_len(path@);
                        assert(k == m);
                        assert(cur == p2 + 2 * m);
                        assert(holds_at(bytes@, cur as int, be16(u.type_index)));
                    }
                }
                return Err(e);
            },
        };
        let (n, p4) = match take_u16(bytes, p3) {
            Ok(x) => x,
            Err(e) => {
                proof {
                    assert forall|u: TypeAnnotation|
                        type_annotation_valid(u, true) && #[trigger] holds_at(bytes@, pos as int, type_annotation_bytes(u)) implies false by {
                        lemma_type_annotation_parts(u, bytes@, pos as int);
                        lemma_same_bytes(bytes@, p1 as int, seq![m], seq![u.target_path@.len() as u8]);
                        assert(seq![m][0] == seq![u.target_path@.len() as u8][0]);
                        lemma_path_len(u.target_path@);
                        lemma_path_len(path@);
                    }
                }
                return Err(e);
            },
        };
        let (ps, p5) = match read_pairs(bytes, p4, n) {
            Ok(x) => x,
            Err(e) => {
                proof {
                    assert forall|u: TypeAnnotation|
                        type_annotation_valid(u, true) && #[trigger] holds_at(bytes@, pos as int, type_annotation_bytes(u)) implies false by {
                        lemma_type_annotation_parts(u, bytes@, pos as int);
                        lemma_same_bytes(bytes@, p1 as int, seq![m], seq![u.target_path@.len() as u8]);
                        assert(seq![m][0] == seq![u.target_path@.len() as u8][0]);
                        lemma_path_len(u.target_path@);
                        lemma_path_len(path@);
                        lemma_same_count(bytes@, p3 as int, n, u.element_value_pairs@.len());
                    }
                }
                return Err(e);
            },
        };
        let t = TypeAnnotation { target_info, target_path: path, type_index, element_value_pairs: ps };
        proof {
            lemma_path_len(t.target_path@);
            assert(t.target_path@.len() as u8 == m);
            assert(t.element_value_pairs@.len() as u16 == n);
            let a = t.target_info.encoding();
            let b = seq![m];
            let c = path_bytes(t.target_path@);
            let d = be16(type_index);
            let e = be16(n);
            let f = pairs_bytes(t.element_value_pairs@);
            lemma_holds_concat(bytes@, pos as int, a, b);
            lemma_holds_concat(bytes@, pos as int, a + b, c);
            lemma_holds_concat(bytes@, pos as int, a + b + c, d);
            lemma_holds_concat(bytes@, pos as int, a + b + c + d, e);
            lemma_holds_concat(bytes@, pos as int, a + b + c + d + e, f);
            assert(type_annotation_bytes(t) == a + b + c + d + e + f);
            assert forall|u: TypeAnnotation|
                type_annotation_valid(u, true) && #[trigger] holds_at(bytes@, pos as int, type_annotation_bytes(u)) implies type_annotation_bytes(t)
                == type_annotation_bytes(u) by {
                lemma_type_annotation_parts(u, bytes@, pos as int);
                lemma_same_bytes(bytes@, p1 as int, seq![m], seq![u.target_path@.len() as u8]);
                        assert(seq![m][0] == seq![u.target_path@.len() as u8][0]);
                lemma_path_len(u.target_path@);
                lemma_same_bytes(bytes@, p2 as int, c, path_bytes(u.target_path@));
                lemma_same_bytes(bytes@, cur as int, d, be16(u.type_index));
                lemma_same_count(bytes@, p3 as int, n, u.element_value_pairs@.len());
            }
        }
        Ok((t, p5))
    }
}

} // verus!
