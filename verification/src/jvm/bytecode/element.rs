//! Elements of a class file that are read from and written to bytes.
use vstd::prelude::*;

use crate::jvm::bytecode::code::{be16, be32};
use crate::jvm::bytecode::errors::{GenerationError, GenerationErrorKind, ParseError, ParsingErrorKind};

verus! {

/// Whether `bytes` hold `e` from `pos` on.
pub open spec fn holds_at(bytes: Seq<u8>, pos: int, e: Seq<u8>) -> bool {
    &&& 0 <= pos
    &&& pos + e.len() <= bytes.len()
    &&& bytes.subrange(pos, pos + e.len()) == e
}

/// An element of a class file, with its bytes.
pub trait Element: Sized {
    /// The bytes of the element in a class file.
    spec fn encoding(&self) -> Seq<u8>;

    /// Whether the element can be written: each of its lists fits the count written before it.
    spec fn writable(&self) -> bool;

    /// Writes the element at the end of `out`.
    ///
    /// # Errors
    /// When the element cannot be written; what was written before the failing part stays.
    fn to_writer(&self, out: &mut Vec<u8>) -> (r: Result<(), GenerationError>)
        ensures
            r is Ok <==> self.writable(),
            r is Ok ==> final(out)@ == old(out)@ + self.encoding(),
            final(out)@.len() >= old(out)@.len(),
            final(out)@.subrange(0, old(out)@.len() as int) == old(out)@,
    ;

    /// Reads an element at `pos`, and returns it with the position after it.
    ///
    /// # Errors
    /// When the bytes at `pos` hold no element.
    fn from_reader(bytes: &[u8], pos: usize) -> (r: Result<(Self, usize), ParseError>)
        requires
            pos <= bytes@.len(),
        ensures
            r matches Ok((x, next)) ==> next == pos + x.encoding().len() && holds_at(bytes@, pos as int, x.encoding())
                && x.writable(),
            (exists|y: Self| #[trigger] y.writable() && holds_at(bytes@, pos as int, y.encoding())) ==> r is Ok,
    ;

    /// The bytes of two elements that both start at `pos` are the same.
    proof fn lemma_prefix_free(a: Self, b: Self, bytes: Seq<u8>, pos: int)
        requires
            a.writable(),
            b.writable(),
            holds_at(bytes, pos, a.encoding()),
            holds_at(bytes, pos, b.encoding()),
        ensures
            a.encoding() == b.encoding(),
    ;
}

/// The bytes of a list of elements, one after the other.
pub open spec fn encode_all<T: Element>(s: Seq<T>) -> Seq<u8>
    decreases s.len(),
{
    if s.len() == 0 {
        Seq::empty()
    } else {
        s[0].encoding() + encode_all(s.drop_first())
    }
}

/// Whether every element of the list can be written.
pub open spec fn all_writable<T: Element>(s: Seq<T>) -> bool {
    forall|i: int| 0 <= i < s.len() ==> (#[trigger] s[i]).writable()
}

/// The error for input that ends in the middle of an element.
pub fn end_of_input() -> (r: ParseError)
    ensures
        r.kind_of() == ParsingErrorKind::IO,
        r.message_of() == "failed to fill whole buffer"@,
{
    ParseError::io("failed to fill whole buffer".to_owned())
}

/// The error for a list longer than its count can say.
pub fn too_long() -> (r: GenerationError)
    ensures
        r.kind_of() == GenerationErrorKind::OutOfRange,
{
    GenerationError::new("out of range integral type conversion attempted".to_owned(), GenerationErrorKind::OutOfRange)
}

/// Reads an unsigned byte at `pos`.
pub fn take_u8(bytes: &[u8], pos: usize) -> (r: Result<(u8, usize), ParseError>)
    requires
        pos <= bytes@.len(),
    ensures
        r is Ok <==> pos + 1 <= bytes@.len(),
        r matches Ok((v, next)) ==> next == pos + 1 && holds_at(bytes@, pos as int, seq![v]),
{
    if bytes.len() - pos < 1 {
        return Err(end_of_input());
    }
    let v = bytes[pos];
    assert(bytes@.subrange(pos as int, pos + 1) =~= seq![v]);
    Ok((v, pos + 1))
}

/// Reads a big-endian 16-bit value at `pos`.
pub fn take_u16(bytes: &[u8], pos: usize) -> (r: Result<(u16, usize), ParseError>)
    requires
        pos <= bytes@.len(),
    ensures
        r is Ok <==> pos + 2 <= bytes@.len(),
        r matches Ok((v, next)) ==> next == pos + 2 && holds_at(bytes@, pos as int, be16(v)),
{
    if bytes.len() - pos < 2 {
        return Err(end_of_input());
    }
    let hi = bytes[pos];
    let lo = bytes[pos + 1];
    let v: u16 = ((hi as u16) << 8u16) | (lo as u16);
    assert((v / 256) as u8 == hi && (v % 256) as u8 == lo) by (bit_vector)
        requires
            v == ((hi as u16) << 8u16) | (lo as u16),
    ;
    assert(bytes@.subrange(pos as int, pos + 2) =~= be16(v));
    Ok((v, pos + 2))
}

/// Reads a big-endian 32-bit value at `pos`.
pub fn take_u32(bytes: &[u8], pos: usize) -> (r: Result<(u32, usize), ParseError>)
    requires
        pos <= bytes@.len(),
    ensures
        r is Ok <==> pos + 4 <= bytes@.len(),
        r matches Ok((v, next)) ==> next == pos + 4 && holds_at(bytes@, pos as int, be32(v)),
{
    if bytes.len() - pos < 4 {
        return Err(end_of_input());
    }
    let b0 = bytes[pos];
    let b1 = bytes[pos + 1];
    let b2 = bytes[pos + 2];
    let b3 = bytes[pos + 3];
    let v: u32 = ((b0 as u32) << 24u32) | ((b1 as u32) << 16u32) | ((b2 as u32) << 8u32) | (b3 as u32);
    assert((v / 0x100_0000) as u8 == b0 && ((v / 0x1_0000) % 256) as u8 == b1 && ((v / 256) % 256) as u8 == b2
        && (v % 256) as u8 == b3) by (bit_vector)
        requires
            v == ((b0 as u32) << 24u32) | ((b1 as u32) << 16u32) | ((b2 as u32) << 8u32) | (b3 as u32),
    ;
    assert(bytes@.subrange(pos as int, pos + 4) =~= be32(v));
    Ok((v, pos + 4))
}

/// Appends the big-endian bytes of a 16-bit value.
pub fn put_u16(out: &mut Vec<u8>, v: u16)
    ensures
        final(out)@ == old(out)@ + be16(v),
{
    let hi: u8 = (v >> 8u16) as u8;
    let lo: u8 = (v & 0xffu16) as u8;
    assert(hi == (v / 256) as u8 && lo == (v % 256) as u8) by (bit_vector)
        requires
            hi == (v >> 8u16) as u8,
            lo == (v & 0xffu16) as u8,
    ;
    out.push(hi);
    out.push(lo);
    assert(out@ =~= old(out)@ + be16(v));
}

/// Appends the big-endian bytes of a 32-bit value.
pub fn put_u32(out: &mut Vec<u8>, v: u32)
    ensures
        final(out)@ == old(out)@ + be32(v),
{
    let b0: u8 = (v >> 24u32) as u8;
    let b1: u8 = ((v >> 16u32) & 0xffu32) as u8;
    let b2: u8 = ((v >> 8u32) & 0xffu32) as u8;
    let b3: u8 = (v & 0xffu32) as u8;
    assert(b0 == (v / 0x100_0000) as u8 && b1 == ((v / 0x1_0000) % 256) as u8 && b2 == ((v / 256) % 256) as u8
        && b3 == (v % 256) as u8) by (bit_vector)
        requires
            b0 == (v >> 24u32) as u8,
            b1 == ((v >> 16u32) & 0xffu32) as u8,
            b2 == ((v >> 8u32) & 0xffu32) as u8,
            b3 == (v & 0xffu32) as u8,
    ;
    out.push(b0);
    out.push(b1);
    out.push(b2);
    out.push(b3);
    assert(out@ =~= old(out)@ + be32(v));
}

/// Bytes held at a position are held at the same position of any longer bytes; parts of
/// them are held where they start.
pub proof fn lemma_holds_concat(bytes: Seq<u8>, pos: int, a: Seq<u8>, b: Seq<u8>)
    ensures
        holds_at(bytes, pos, a + b) <==> holds_at(bytes, pos, a) && holds_at(bytes, pos + a.len(), b),
{
    if holds_at(bytes, pos, a + b) {
        let ab = a + b;
        assert(bytes.subrange(pos, pos + ab.len()) == ab);
        assert(bytes.subrange(pos, pos + a.len()) =~= a) by {
            assert forall|i: int| 0 <= i < a.len() implies bytes.subrange(pos, pos + a.len())[i] == a[i] by {
                assert(bytes.subrange(pos, pos + ab.len())[i] == ab[i]);
            }
        }
        assert(bytes.subrange(pos + a.len(), pos + a.len() + b.len()) =~= b) by {
            assert forall|i: int| 0 <= i < b.len() implies bytes.subrange(pos + a.len(), pos + a.len() + b.len())[i] == b[i] by {
                assert(bytes.subrange(pos, pos + ab.len())[a.len() + i] == ab[a.len() + i]);
            }
        }
    }
    if holds_at(bytes, pos, a) && holds_at(bytes, pos + a.len(), b) {
        assert(bytes.subrange(pos, pos + (a + b).len()) =~= bytes.subrange(pos, pos + a.len()) + bytes.subrange(
            pos + a.len(),
            pos + a.len() + b.len(),
        ));
        assert(bytes.subrange(pos, pos + (a + b).len()) =~= a + b);
    }
}

/// The big-endian bytes of 16-bit values determine them.
pub proof fn lemma_be16_unique(a: u16, b: u16)
    requires
        be16(a) == be16(b),
    ensures
        a == b,
{
    assert(be16(a)[0] == be16(b)[0]);
    assert(be16(a)[1] == be16(b)[1]);
}

/// The big-endian bytes of 32-bit values determine them.
pub proof fn lemma_be32_unique(a: u32, b: u32)
    requires
        be32(a) == be32(b),
    ensures
        a == b,
{
    assert(be32(a)[0] == be32(b)[0]);
    assert(be32(a)[1] == be32(b)[1]);
    assert(be32(a)[2] == be32(b)[2]);
    assert(be32(a)[3] == be32(b)[3]);
    assert(a == (a / 0x100_0000) * 0x100_0000 + ((a / 0x1_0000) % 256) * 0x1_0000 + ((a / 256) % 256) * 256 + a % 256) by (nonlinear_arith);
    assert(b == (b / 0x100_0000) * 0x100_0000 + ((b / 0x1_0000) % 256) * 0x1_0000 + ((b / 256) % 256) * 256 + b % 256) by (nonlinear_arith);
}

impl Element for u16 {
    open spec fn encoding(&self) -> Seq<u8> {
        be16(*self)
    }

    open spec fn writable(&self) -> bool {
        true
    }

    fn to_writer(&self, out: &mut Vec<u8>) -> (r: Result<(), GenerationError>) {
        put_u16(out, *self);
        assert(out@.subrange(0, old(out)@.len() as int) =~= old(out)@);
        Ok(())
    }

    fn from_reader(bytes: &[u8], pos: usize) -> (r: Result<(Self, usize), ParseError>) {
        take_u16(bytes, pos)
    }

    proof fn lemma_prefix_free(a: Self, b: Self, bytes: Seq<u8>, pos: int) {
    }
}

/// Reads `n` elements one after the other from `pos`, and returns them with the position
/// after them.
///
/// # Errors
/// When the bytes do not hold `n` elements there.
pub fn read_list<T: Element>(bytes: &[u8], pos: usize, n: usize) -> (r: Result<(Vec<T>, usize), ParseError>)
    requires
        pos <= bytes@.len(),
    ensures
        r matches Ok((v, next)) ==> v@.len() == n && all_writable(v@) && next == pos + encode_all(v@).len()
            && holds_at(bytes@, pos as int, encode_all(v@)),
        (exists|s: Seq<T>| s.len() == n && all_writable(s) && #[trigger] holds_at(bytes@, pos as int, encode_all(s)))
            ==> r is Ok,
{
    let mut out: Vec<T> = Vec::new();
    let mut cur = pos;
    let mut k: usize = 0;
    assert(encode_all(out@) =~= Seq::<u8>::empty());
    assert(bytes@.subrange(pos as int, pos as int) =~= Seq::<u8>::empty());
    assert(holds_at(bytes@, pos as int, Seq::<u8>::empty()));
    while k < n
        invariant
            pos <= cur <= bytes@.len(),
            k <= n,
            out@.len() == k,
            all_writable(out@),
            cur == pos + encode_all(out@).len(),
            holds_at(bytes@, pos as int, encode_all(out@)),
            (exists|s: Seq<T>| s.len() == n && all_writable(s) && #[trigger] holds_at(bytes@, pos as int, encode_all(s)))
                ==> (exists|t: Seq<T>| t.len() == n - k && all_writable(t) && #[trigger] holds_at(bytes@, cur as int, encode_all(t))),
        decreases n - k,
    {
        let ghost before = out@;
        let ghost start = cur;
        match T::from_reader(bytes, cur) {
            Ok((x, next)) => {
                proof {
                    lemma_encode_all_push(before, x);
                    lemma_holds_concat(bytes@, pos as int, encode_all(before), x.encoding());
                    if exists|s: Seq<T>| s.len() == n && all_writable(s) && #[trigger] holds_at(bytes@, pos as int, encode_all(s)) {
                        let t = choose|t: Seq<T>| t.len() == n - k && all_writable(t) && #[trigger] holds_at(bytes@, start as int, encode_all(t));
                        assert(encode_all(t) == t[0].encoding() + encode_all(t.drop_first()));
                        lemma_holds_concat(bytes@, start as int, t[0].encoding(), encode_all(t.drop_first()));
                        assert(t[0].writable());
                        T::lemma_prefix_free(x, t[0], bytes@, start as int);
                        let rest = t.drop_first();
                        assert(all_writable(rest)) by {
                            assert forall|i: int| 0 <= i < rest.len() implies (#[trigger] rest[i]).writable() by {
                                assert(rest[i] == t[i + 1]);
                            }
                        }
                        assert(holds_at(bytes@, next as int, encode_all(rest)));
                    }
                }
                out.push(x);
                proof {
                    assert(out@ == before.push(x));
                    assert(all_writable(out@)) by {
                        assert forall|i: int| 0 <= i < out@.len() implies (#[trigger] out@[i]).writable() by {
                            if i < before.len() {
                                assert(out@[i] == before[i]);
                            }
                        }
                    }
                }
                cur = next;
            },
            Err(e) => {
                proof {
                    if exists|s: Seq<T>| s.len() == n && all_writable(s) && #[trigger] holds_at(bytes@, pos as int, encode_all(s)) {
                        let t = choose|t: Seq<T>| t.len() == n - k && all_writable(t) && #[trigger] holds_at(bytes@, start as int, encode_all(t));
                        assert(encode_all(t) == t[0].encoding() + encode_all(t.drop_first()));
                        lemma_holds_concat(bytes@, start as int, t[0].encoding(), encode_all(t.drop_first()));
                        assert(t[0].writable() && holds_at(bytes@, start as int, t[0].encoding()));
                    }
                }
                return Err(e);
            },
        }
        k = k + 1;
    }
    Ok((out, cur))
}

/// The bytes of a list with one more element.
pub proof fn lemma_encode_all_push<T: Element>(s: Seq<T>, x: T)
    ensures
        encode_all(s.push(x)) == encode_all(s) + x.encoding(),
    decreases s.len(),
{
    if s.len() == 0 {
        assert(s.push(x).drop_first() =~= Seq::<T>::empty());
        assert(encode_all(s.push(x).drop_first()) == Seq::<u8>::empty());
        assert(s.push(x)[0] == x);
        assert(encode_all(s.push(x)) =~= x.encoding());
        assert(encode_all(s) == Seq::<u8>::empty());
    } else {
        lemma_encode_all_push(s.drop_first(), x);
        assert(s.push(x).drop_first() =~= s.drop_first().push(x));
        assert(encode_all(s.push(x)) =~= encode_all(s) + x.encoding());
    }
}

/// Writes the elements one after the other at the end of `out`.
///
/// # Errors
/// When an element cannot be written; what was written before it stays.
pub fn write_list<T: Element>(items: &Vec<T>, out: &mut Vec<u8>) -> (r: Result<(), GenerationError>)
    ensures
        r is Ok <==> all_writable(items@),
        r is Ok ==> final(out)@ == old(out)@ + encode_all(items@),
        final(out)@.len() >= old(out)@.len(),
        final(out)@.subrange(0, old(out)@.len() as int) == old(out)@,
{
    let ghost start = out@;
    let mut k: usize = 0;
    assert(items@.take(0) =~= Seq::<T>::empty());
    assert(out@ =~= start + encode_all(items@.take(0)));
    while k < items.len()
        invariant
            k <= items@.len(),
            out@ == start + encode_all(items@.take(k as int)),
            all_writable(items@.take(k as int)),
            start == old(out)@,
        decreases items@.len() - k,
    {
        let ghost before = out@;
        match items[k].to_writer(out) {
            Ok(()) => {},
            Err(e) => {
                proof {
                    assert(out@.subrange(0, start.len() as int) =~= before.subrange(0, start.len() as int)) by {
                        assert(out@.subrange(0, before.len() as int) == before);
                    }
                    assert(before.subrange(0, start.len() as int) =~= start);
                    assert(!items@[k as int].writable());
                }
                return Err(e);
            },
        }
        proof {
            lemma_encode_all_push(items@.take(k as int), items@[k as int]);
            assert(items@.take(k + 1) =~= items@.take(k as int).push(items@[k as int]));
            assert(all_writable(items@.take(k + 1))) by {
                assert forall|i: int| 0 <= i < k + 1 implies (#[trigger] items@.take(k + 1)[i]).writable() by {
                    if i < k {
                        assert(items@.take(k + 1)[i] == items@.take(k as int)[i]);
                    }
                }
            }
        }
        k = k + 1;
    }
    assert(items@.take(k as int) =~= items@);
    assert(out@.subrange(0, start.len() as int) =~= start);
    Ok(())
}

/// The bytes of two lists of elements of the same length that start at the same position
/// are the same.
pub proof fn lemma_encode_all_prefix_free<T: Element>(a: Seq<T>, b: Seq<T>, bytes: Seq<u8>, pos: int)
    requires
        a.len() == b.len(),
        all_writable(a),
        all_writable(b),
        holds_at(bytes, pos, encode_all(a)),
        holds_at(bytes, pos, encode_all(b)),
    ensures
        encode_all(a) == encode_all(b),
    decreases a.len(),
{
    if a.len() > 0 {
        lemma_holds_concat(bytes, pos, a[0].encoding(), encode_all(a.drop_first()));
        lemma_holds_concat(bytes, pos, b[0].encoding(), encode_all(b.drop_first()));
        assert(a[0].writable() && b[0].writable());
        T::lemma_prefix_free(a[0], b[0], bytes, pos);
        let ra = a.drop_first();
        let rb = b.drop_first();
        assert(all_writable(ra)) by {
            assert forall|i: int| 0 <= i < ra.len() implies (#[trigger] ra[i]).writable() by {
                assert(ra[i] == a[i + 1]);
            }
        }
        assert(all_writable(rb)) by {
            assert forall|i: int| 0 <= i < rb.len() implies (#[trigger] rb[i]).writable() by {
                assert(rb[i] == b[i + 1]);
            }
        }
        lemma_encode_all_prefix_free(ra, rb, bytes, pos + a[0].encoding().len());
    }
}

/// The bytes of a list preceded by its length in 16 bits.
pub open spec fn counted<T: Element>(s: Seq<T>) -> Seq<u8> {
    be16(s.len() as u16) + encode_all(s)
}

/// Whether a list can be written after its length in 16 bits.
pub open spec fn counted_writable<T: Element>(s: Seq<T>) -> bool {
    s.len() <= 0xFFFF && all_writable(s)
}

/// Writes a list after its length in 16 bits.
///
/// # Errors
/// When the list is longer than 16 bits can count, or an element cannot be written.
pub fn write_counted<T: Element>(items: &Vec<T>, out: &mut Vec<u8>) -> (r: Result<(), GenerationError>)
    ensures
        r is Ok <==> counted_writable(items@),
        r is Ok ==> final(out)@ == old(out)@ + counted(items@),
        items@.len() > 0xFFFF ==> (r matches Err(e) && e.kind_of() == GenerationErrorKind::OutOfRange),
        final(out)@.len() >= old(out)@.len(),
        final(out)@.subrange(0, old(out)@.len() as int) == old(out)@,
{
    if items.len() > 0xFFFF {
        assert(out@.subrange(0, out@.len() as int) =~= out@);
        return Err(too_long());
    }
    let ghost start = out@;
    put_u16(out, items.len() as u16);
    let ghost mid = out@;
    let r = write_list(items, out);
    proof {
        assert(out@.subrange(0, start.len() as int) =~= mid.subrange(0, start.len() as int)) by {
            assert(out@.subrange(0, mid.len() as int) == mid);
        }
        assert(mid.subrange(0, start.len() as int) =~= start);
        if r is Ok {
            assert(out@ =~= start + counted(items@));
        }
    }
    r
}

/// Reads a list after its length in 16 bits, and returns it with the position after it.
///
/// # Errors
/// When the bytes at `pos` hold no such list.
pub fn read_counted<T: Element>(bytes: &[u8], pos: usize) -> (r: Result<(Vec<T>, usize), ParseError>)
    requires
        pos <= bytes@.len(),
    ensures
        r matches Ok((v, next)) ==> counted_writable(v@) && next == pos + counted(v@).len() && holds_at(
            bytes@,
            pos as int,
            counted(v@),
        ),
        (exists|s: Seq<T>| counted_writable(s) && #[trigger] holds_at(bytes@, pos as int, counted(s))) ==> r is Ok,
{
    let (n, p) = match take_u16(bytes, pos) {
        Ok(v) => v,
        Err(e) => {
            proof {
                if exists|s: Seq<T>| counted_writable(s) && #[trigger] holds_at(bytes@, pos as int, counted(s)) {
                    let s = choose|s: Seq<T>| counted_writable(s) && #[trigger] holds_at(bytes@, pos as int, counted(s));
                    assert(counted(s).len() >= 2);
                }
            }
            return Err(e);
        },
    };
    proof {
        if exists|s: Seq<T>| counted_writable(s) && #[trigger] holds_at(bytes@, pos as int, counted(s)) {
            let s = choose|s: Seq<T>| counted_writable(s) && #[trigger] holds_at(bytes@, pos as int, counted(s));
            lemma_holds_concat(bytes@, pos as int, be16(s.len() as u16), encode_all(s));
            assert(be16(s.len() as u16) == be16(n)) by {
                assert(bytes@.subrange(pos as int, pos + 2) == be16(n));
            }
            lemma_be16_unique(s.len() as u16, n);
            assert(s.len() == n as nat);
            assert(holds_at(bytes@, p as int, encode_all(s)));
        }
    }
    match read_list::<T>(bytes, p, n as usize) {
        Ok((v, next)) => {
            proof {
                lemma_holds_concat(bytes@, pos as int, be16(n), encode_all(v@));
                assert(v@.len() as u16 == n);
            }
            Ok((v, next))
        },
        Err(e) => Err(e),
    }
}

/// Two lists after their lengths that start at the same position have the same bytes.
pub proof fn lemma_counted_prefix_free<T: Element>(a: Seq<T>, b: Seq<T>, bytes: Seq<u8>, pos: int)
    requires
        counted_writable(a),
        counted_writable(b),
        holds_at(bytes, pos, counted(a)),
        holds_at(bytes, pos, counted(b)),
    ensures
        counted(a) == counted(b),
{
    lemma_holds_concat(bytes, pos, be16(a.len() as u16), encode_all(a));
    lemma_holds_concat(bytes, pos, be16(b.len() as u16), encode_all(b));
    assert(be16(a.len() as u16) == bytes.subrange(pos, pos + 2));
    assert(be16(b.len() as u16) == bytes.subrange(pos, pos + 2));
    lemma_be16_unique(a.len() as u16, b.len() as u16);
    lemma_encode_all_prefix_free(a, b, bytes, pos + 2);
}

/// The bytes of a chunk of bytes preceded by its length in 32 bits.
pub open spec fn chunk(s: Seq<u8>) -> Seq<u8> {
    be32(s.len() as u32) + s
}

/// Whether a chunk of bytes can be written after its length in 32 bits.
pub open spec fn chunk_writable(s: Seq<u8>) -> bool {
    s.len() <= 0xFFFF_FFFF
}

/// Writes a chunk of bytes after its length in 32 bits.
///
/// # Errors
/// When the chunk is longer than 32 bits can count.
pub fn write_chunk(v: &Vec<u8>, out: &mut Vec<u8>) -> (r: Result<(), GenerationError>)
    ensures
        r is Ok <==> chunk_writable(v@),
        r is Ok ==> final(out)@ == old(out)@ + chunk(v@),
        r is Err ==> final(out)@ == old(out)@,
        final(out)@.len() >= old(out)@.len(),
        final(out)@.subrange(0, old(out)@.len() as int) == old(out)@,
{
    if v.len() as u64 > 0xFFFF_FFFFu64 {
        assert(out@.subrange(0, out@.len() as int) =~= out@);
        return Err(too_long());
    }
    let ghost start = out@;
    put_u32(out, v.len() as u32);
    let mut i: usize = 0;
    while i < v.len()
        invariant
            i <= v@.len(),
            out@ == start + be32(v@.len() as u32) + v@.take(i as int),
        decreases v@.len() - i,
    {
        out.push(v[i]);
        assert(out@ =~= start + be32(v@.len() as u32) + v@.take(i + 1));
        i = i + 1;
    }
    assert(v@.take(i as int) =~= v@);
    assert(out@ =~= start + chunk(v@));
    assert(out@.subrange(0, start.len() as int) =~= start);
    Ok(())
}

/// Reads a chunk of bytes after its length in 32 bits, and returns it with the position after
/// it.
///
/// # Errors
/// When the bytes at `pos` hold no such chunk.
pub fn read_chunk(bytes: &[u8], pos: usize) -> (r: Result<(Vec<u8>, usize), ParseError>)
    requires
        pos <= bytes@.len(),
    ensures
        r matches Ok((v, next)) ==> chunk_writable(v@) && next == pos + chunk(v@).len() && holds_at(
            bytes@,
            pos as int,
            chunk(v@),
        ),
        (exists|s: Seq<u8>| chunk_writable(s) && #[trigger] holds_at(bytes@, pos as int, chunk(s))) ==> r is Ok,
{
    let (n, p) = match take_u32(bytes, pos) {
        Ok(v) => v,
        Err(e) => {
            proof {
                if exists|s: Seq<u8>| chunk_writable(s) && #[trigger] holds_at(bytes@, pos as int, chunk(s)) {
                    let s = choose|s: Seq<u8>| chunk_writable(s) && #[trigger] holds_at(bytes@, pos as int, chunk(s));
                    assert(chunk(s).len() >= 4);
                }
            }
            return Err(e);
        },
    };
    proof {
        if exists|s: Seq<u8>| chunk_writable(s) && #[trigger] holds_at(bytes@, pos as int, chunk(s)) {
            let s = choose|s: Seq<u8>| chunk_writable(s) && #[trigger] holds_at(bytes@, pos as int, chunk(s));
            lemma_holds_concat(bytes@, pos as int, be32(s.len() as u32), s);
            assert(be32(s.len() as u32) == be32(n)) by {
                assert(bytes@.subrange(pos as int, pos + 4) == be32(n));
            }
            lemma_be32_unique(s.len() as u32, n);
        }
    }
    if ((bytes.len() - p) as u64) < n as u64 {
        return Err(end_of_input());
    }
    let count: usize = n as usize;
    assert(bytes@.len() <= usize::MAX);
    let mut v: Vec<u8> = Vec::new();
    let mut i: usize = 0;
    while i < count
        invariant
            p + count <= bytes@.len(),
            bytes@.len() <= usize::MAX,
            i <= count,
            v@ == bytes@.subrange(p as int, p + i),
        decreases count - i,
    {
        v.push(bytes[p + i]);
        assert(v@ =~= bytes@.subrange(p as int, p + i + 1));
        i = i + 1;
    }
    proof {
        assert(v@.len() as u32 == n);
        lemma_holds_concat(bytes@, pos as int, be32(n), v@);
    }
    Ok((v, p + count))
}

/// Two chunks of bytes after their lengths that start at the same position are the same.
pub proof fn lemma_chunk_prefix_free(a: Seq<u8>, b: Seq<u8>, bytes: Seq<u8>, pos: int)
    requires
        chunk_writable(a),
        chunk_writable(b),
        holds_at(bytes, pos, chunk(a)),
        holds_at(bytes, pos, chunk(b)),
    ensures
        chunk(a) == chunk(b),
{
    lemma_holds_concat(bytes, pos, be32(a.len() as u32), a);
    lemma_holds_concat(bytes, pos, be32(b.len() as u32), b);
    assert(be32(a.len() as u32) == bytes.subrange(pos, pos + 4));
    assert(be32(b.len() as u32) == bytes.subrange(pos, pos + 4));
    lemma_be32_unique(a.len() as u32, b.len() as u32);
}

} // verus!
