//! Attributes of class files as they are stored: indices into the constant pool, counts and
//! bytes.
use vstd::prelude::*;

use crate::jvm::bytecode::code::{be16, be32};
use crate::jvm::bytecode::element::{
    counted, counted_writable, holds_at, lemma_counted_prefix_free, lemma_holds_concat, put_u16, put_u32,
    read_counted, take_u16, take_u32, take_u8, write_counted, Element,
};
use crate::jvm::bytecode::element::lemma_be16_unique;
use crate::jvm::bytecode::element::{
    all_writable, chunk, chunk_writable, encode_all, end_of_input, lemma_chunk_prefix_free,
    lemma_encode_all_prefix_free, read_chunk, read_list, too_long, write_chunk, write_list,
};
use crate::jvm::bytecode::errors::{GenerationError, GenerationErrorKind, ParseError, ParsingErrorKind};
use crate::jvm::code::instruction::{decimal, push_decimal};
use crate::jvm::code::ProgramCounter;

pub mod annotations;

pub use annotations::{Annotation, ElementValueInfo, TypeAnnotation};

verus! {

/// An entry in the exception table of a `Code` attribute, by indices.
#[derive(Debug, PartialEq, Eq, Structural, Clone, Copy)]
pub struct ExceptionTableEntry {
    /// The start of the range the handler covers.
    pub start_pc: u16,
    /// The end of the range the handler covers, excluded.
    pub end_pc: u16,
    /// The start of the handler.
    pub handler_pc: u16,
    /// The constant pool index of the class of exceptions caught, or 0 for all.
    pub catch_type_idx: u16,
}

impl Element for ExceptionTableEntry {
    open spec fn encoding(&self) -> Seq<u8> {
        be16(self.start_pc) + be16(self.end_pc) + be16(self.handler_pc) + be16(self.catch_type_idx)
    }

    open spec fn writable(&self) -> bool {
        true
    }

    fn to_writer(&self, out: &mut Vec<u8>) -> (r: Result<(), GenerationError>) {
        put_u16(out, self.start_pc);
        put_u16(out, self.end_pc);
        put_u16(out, self.handler_pc);
        put_u16(out, self.catch_type_idx);
        assert(out@ =~= old(out)@ + self.encoding());
        assert(out@.subrange(0, old(out)@.len() as int) =~= old(out)@);
        Ok(())
    }

    fn from_reader(bytes: &[u8], pos: usize) -> (r: Result<(Self, usize), ParseError>) {
        let ghost mut acc: Seq<u8> = Seq::empty();
        assert(bytes@.subrange(pos as int, pos as int) =~= acc);
        let p0 = pos;
        let (start_pc, p1) = match take_u16(bytes, p0) {
            Ok(v) => v,
            Err(e) => {
                proof {
                    if exists|y: Self| #[trigger] y.writable() && holds_at(bytes@, pos as int, y.encoding()) {
                        let y = choose|y: Self| #[trigger] y.writable() && holds_at(bytes@, pos as int, y.encoding());
                        assert(y.encoding().len() == 8);
                    }
                }
                return Err(e);
            },
        };
        proof {
            lemma_holds_concat(bytes@, pos as int, acc, be16(start_pc));
            acc = acc + be16(start_pc);
        }
        let (end_pc, p2) = match take_u16(bytes, p1) {
            Ok(v) => v,
            Err(e) => {
                proof {
                    if exists|y: Self| #[trigger] y.writable() && holds_at(bytes@, pos as int, y.encoding()) {
                        let y = choose|y: Self| #[trigger] y.writable() && holds_at(bytes@, pos as int, y.encoding());
                        assert(y.encoding().len() == 8);
                    }
                }
                return Err(e);
            },
        };
        proof {
            lemma_holds_concat(bytes@, pos as int, acc, be16(end_pc));
            acc = acc + be16(end_pc);
        }
        let (handler_pc, p3) = match take_u16(bytes, p2) {
            Ok(v) => v,
            Err(e) => {
                proof {
                    if exists|y: Self| #[trigger] y.writable() && holds_at(bytes@, pos as int, y.encoding()) {
                        let y = choose|y: Self| #[trigger] y.writable() && holds_at(bytes@, pos as int, y.encoding());
                        assert(y.encoding().len() == 8);
                    }
                }
                return Err(e);
            },
        };
        proof {
            lemma_holds_concat(bytes@, pos as int, acc, be16(handler_pc));
            acc = acc + be16(handler_pc);
        }
        let (catch_type_idx, p4) = match take_u16(bytes, p3) {
            Ok(v) => v,
            Err(e) => {
                proof {
                    if exists|y: Self| #[trigger] y.writable() && holds_at(bytes@, pos as int, y.encoding()) {
                        let y = choose|y: Self| #[trigger] y.writable() && holds_at(bytes@, pos as int, y.encoding());
                        assert(y.encoding().len() == 8);
                    }
                }
                return Err(e);
            },
        };
        proof {
            lemma_holds_concat(bytes@, pos as int, acc, be16(catch_type_idx));
            acc = acc + be16(catch_type_idx);
        }
        let x = ExceptionTableEntry { start_pc, end_pc, handler_pc, catch_type_idx };
        assert(acc =~= x.encoding());
        Ok((x, p4))
    }

    proof fn lemma_prefix_free(a: Self, b: Self, bytes: Seq<u8>, pos: int) {
    }
}

/// An entry of the `InnerClasses` attribute.
#[derive(Debug, PartialEq, Eq, Structural, Clone, Copy)]
pub struct InnerClass {
    /// The constant pool index of the inner class.
    pub info_index: u16,
    /// The constant pool index of the outer class, or 0.
    pub outer_class_info_index: u16,
    /// The constant pool index of the simple name, or 0.
    pub inner_name_index: u16,
    /// The access flags of the inner class.
    pub access_flags: u16,
}

impl Element for InnerClass {
    open spec fn encoding(&self) -> Seq<u8> {
        be16(self.info_index) + be16(self.outer_class_info_index) + be16(self.inner_name_index) + be16(self.access_flags)
    }

    open spec fn writable(&self) -> bool {
        true
    }

    fn to_writer(&self, out: &mut Vec<u8>) -> (r: Result<(), GenerationError>) {
        put_u16(out, self.info_index);
        put_u16(out, self.outer_class_info_index);
        put_u16(out, self.inner_name_index);
        put_u16(out, self.access_flags);
        assert(out@ =~= old(out)@ + self.encoding());
        assert(out@.subrange(0, old(out)@.len() as int) =~= old(out)@);
        Ok(())
    }

    fn from_reader(bytes: &[u8], pos: usize) -> (r: Result<(Self, usize), ParseError>) {
        let ghost mut acc: Seq<u8> = Seq::empty();
        assert(bytes@.subrange(pos as int, pos as int) =~= acc);
        let p0 = pos;
        let (info_index, p1) = match take_u16(bytes, p0) {
            Ok(v) => v,
            Err(e) => {
                proof {
                    if exists|y: Self| #[trigger] y.writable() && holds_at(bytes@, pos as int, y.encoding()) {
                        let y = choose|y: Self| #[trigger] y.writable() && holds_at(bytes@, pos as int, y.encoding());
                        assert(y.encoding().len() == 8);
                    }
                }
                return Err(e);
            },
        };
        proof {
            lemma_holds_concat(bytes@, pos as int, acc, be16(info_index));
            acc = acc + be16(info_index);
        }
        let (outer_class_info_index, p2) = match take_u16(bytes, p1) {
            Ok(v) => v,
            Err(e) => {
                proof {
                    if exists|y: Self| #[trigger] y.writable() && holds_at(bytes@, pos as int, y.encoding()) {
                        let y = choose|y: Self| #[trigger] y.writable() && holds_at(bytes@, pos as int, y.encoding());
                        assert(y.encoding().len() == 8);
                    }
                }
                return Err(e);
            },
        };
        proof {
            lemma_holds_concat(bytes@, pos as int, acc, be16(outer_class_info_index));
            acc = acc + be16(outer_class_info_index);
        }
        let (inner_name_index, p3) = match take_u16(bytes, p2) {
            Ok(v) => v,
            Err(e) => {
                proof {
                    if exists|y: Self| #[trigger] y.writable() && holds_at(bytes@, pos as int, y.encoding()) {
                        let y = choose|y: Self| #[trigger] y.writable() && holds_at(bytes@, pos as int, y.encoding());
                        assert(y.encoding().len() == 8);
                    }
                }
                return Err(e);
            },
        };
        proof {
            lemma_holds_concat(bytes@, pos as int, acc, be16(inner_name_index));
            acc = acc + be16(inner_name_index);
        }
        let (access_flags, p4) = match take_u16(bytes, p3) {
            Ok(v) => v,
            Err(e) => {
                proof {
                    if exists|y: Self| #[trigger] y.writable() && holds_at(bytes@, pos as int, y.encoding()) {
                        let y = choose|y: Self| #[trigger] y.writable() && holds_at(bytes@, pos as int, y.encoding());
                        assert(y.encoding().len() == 8);
                    }
                }
                return Err(e);
            },
        };
        proof {
            lemma_holds_concat(bytes@, pos as int, acc, be16(access_flags));
            acc = acc + be16(access_flags);
        }
        let x = InnerClass { info_index, outer_class_info_index, inner_name_index, access_flags };
        assert(acc =~= x.encoding());
        Ok((x, p4))
    }

    proof fn lemma_prefix_free(a: Self, b: Self, bytes: Seq<u8>, pos: int) {
    }
}

/// The `EnclosingMethod` attribute.
#[derive(Debug, PartialEq, Eq, Structural, Clone, Copy)]
pub struct EnclosingMethod {
    /// The constant pool index of the enclosing class.
    pub class_index: u16,
    /// The constant pool index of the name and type of the enclosing method, or 0.
    pub method_index: u16,
}

impl Element for EnclosingMethod {
    open spec fn encoding(&self) -> Seq<u8> {
        be16(self.class_index) + be16(self.method_index)
    }

    open spec fn writable(&self) -> bool {
        true
    }

    fn to_writer(&self, out: &mut Vec<u8>) -> (r: Result<(), GenerationError>) {
        put_u16(out, self.class_index);
        put_u16(out, self.method_index);
        assert(out@ =~= old(out)@ + self.encoding());
        assert(out@.subrange(0, old(out)@.len() as int) =~= old(out)@);
        Ok(())
    }

    fn from_reader(bytes: &[u8], pos: usize) -> (r: Result<(Self, usize), ParseError>) {
        let ghost mut acc: Seq<u8> = Seq::empty();
        assert(bytes@.subrange(pos as int, pos as int) =~= acc);
        let p0 = pos;
        let (class_index, p1) = match take_u16(bytes, p0) {
            Ok(v) => v,
            Err(e) => {
                proof {
                    if exists|y: Self| #[trigger] y.writable() && holds_at(bytes@, pos as int, y.encoding()) {
                        let y = choose|y: Self| #[trigger] y.writable() && holds_at(bytes@, pos as int, y.encoding());
                        assert(y.encoding().len() == 4);
                    }
                }
                return Err(e);
            },
        };
        proof {
            lemma_holds_concat(bytes@, pos as int, acc, be16(class_index));
            acc = acc + be16(class_index);
        }
        let (method_index, p2) = match take_u16(bytes, p1) {
            Ok(v) => v,
            Err(e) => {
                proof {
                    if exists|y: Self| #[trigger] y.writable() && holds_at(bytes@, pos as int, y.encoding()) {
                        let y = choose|y: Self| #[trigger] y.writable() && holds_at(bytes@, pos as int, y.encoding());
                        assert(y.encoding().len() == 4);
                    }
                }
                return Err(e);
            },
        };
        proof {
            lemma_holds_concat(bytes@, pos as int, acc, be16(method_index));
            acc = acc + be16(method_index);
        }
        let x = EnclosingMethod { class_index, method_index };
        assert(acc =~= x.encoding());
        Ok((x, p2))
    }

    proof fn lemma_prefix_free(a: Self, b: Self, bytes: Seq<u8>, pos: int) {
    }
}

/// An entry of the `LocalVariableTable` or `LocalVariableTypeTable` attribute.
#[derive(Debug, PartialEq, Eq, Structural, Clone, Copy)]
pub struct LocalVariableInfo {
    /// Where the variable starts to hold a value.
    pub start_pc: ProgramCounter,
    /// The number of bytes of code where it holds one.
    pub length: u16,
    /// The constant pool index of its name.
    pub name_index: u16,
    /// The constant pool index of its descriptor or signature.
    pub desc_or_signature_idx: u16,
    /// Its index among the local variables.
    pub index: u16,
}

impl Element for LocalVariableInfo {
    open spec fn encoding(&self) -> Seq<u8> {
        be16(self.start_pc@) + be16(self.length) + be16(self.name_index) + be16(self.desc_or_signature_idx) + be16(self.index)
    }

    open spec fn writable(&self) -> bool {
        true
    }

    fn to_writer(&self, out: &mut Vec<u8>) -> (r: Result<(), GenerationError>) {
        put_u16(out, self.start_pc.into());
        put_u16(out, self.length);
        put_u16(out, self.name_index);
        put_u16(out, self.desc_or_signature_idx);
        put_u16(out, self.index);
        assert(out@ =~= old(out)@ + self.encoding());
        assert(out@.subrange(0, old(out)@.len() as int) =~= old(out)@);
        Ok(())
    }

    fn from_reader(bytes: &[u8], pos: usize) -> (r: Result<(Self, usize), ParseError>) {
        let ghost mut acc: Seq<u8> = Seq::empty();
        assert(bytes@.subrange(pos as int, pos as int) =~= acc);
        let p0 = pos;
        let (start_pc, p1) = match take_u16(bytes, p0) {
            Ok(v) => v,
            Err(e) => {
                proof {
                    if exists|y: Self| #[trigger] y.writable() && holds_at(bytes@, pos as int, y.encoding()) {
                        let y = choose|y: Self| #[trigger] y.writable() && holds_at(bytes@, pos as int, y.encoding());
                        assert(y.encoding().len() == 10);
                    }
                }
                return Err(e);
            },
        };
        proof {
            lemma_holds_concat(bytes@, pos as int, acc, be16(start_pc));
            acc = acc + be16(start_pc);
        }
        let (length, p2) = match take_u16(bytes, p1) {
            Ok(v) => v,
            Err(e) => {
                proof {
                    if exists|y: Self| #[trigger] y.writable() && holds_at(bytes@, pos as int, y.encoding()) {
                        let y = choose|y: Self| #[trigger] y.writable() && holds_at(bytes@, pos as int, y.encoding());
                        assert(y.encoding().len() == 10);
                    }
                }
                return Err(e);
            },
        };
        proof {
            lemma_holds_concat(bytes@, pos as int, acc, be16(length));
            acc = acc + be16(length);
        }
        let (name_index, p3) = match take_u16(bytes, p2) {
            Ok(v) => v,
            Err(e) => {
                proof {
                    if exists|y: Self| #[trigger] y.writable() && holds_at(bytes@, pos as int, y.encoding()) {
                        let y = choose|y: Self| #[trigger] y.writable() && holds_at(bytes@, pos as int, y.encoding());
                        assert(y.encoding().len() == 10);
                    }
                }
                return Err(e);
            },
        };
        proof {
            lemma_holds_concat(bytes@, pos as int, acc, be16(name_index));
            acc = acc + be16(name_index);
        }
        let (desc_or_signature_idx, p4) = match take_u16(bytes, p3) {
            Ok(v) => v,
            Err(e) => {
                proof {
                    if exists|y: Self| #[trigger] y.writable() && holds_at(bytes@, pos as int, y.encoding()) {
                        let y = choose|y: Self| #[trigger] y.writable() && holds_at(bytes@, pos as int, y.encoding());
                        assert(y.encoding().len() == 10);
                    }
                }
                return Err(e);
            },
        };
        proof {
            lemma_holds_concat(bytes@, pos as int, acc, be16(desc_or_signature_idx));
            acc = acc + be16(desc_or_signature_idx);
        }
        let (index, p5) = match take_u16(bytes, p4) {
            Ok(v) => v,
            Err(e) => {
                proof {
                    if exists|y: Self| #[trigger] y.writable() && holds_at(bytes@, pos as int, y.encoding()) {
                        let y = choose|y: Self| #[trigger] y.writable() && holds_at(bytes@, pos as int, y.encoding());
                        assert(y.encoding().len() == 10);
                    }
                }
                return Err(e);
            },
        };
        proof {
            lemma_holds_concat(bytes@, pos as int, acc, be16(index));
            acc = acc + be16(index);
        }
        let x = LocalVariableInfo { start_pc: ProgramCounter::new(start_pc), length, name_index, desc_or_signature_idx, index };
        assert(acc =~= x.encoding());
        Ok((x, p5))
    }

    proof fn lemma_prefix_free(a: Self, b: Self, bytes: Seq<u8>, pos: int) {
    }
}

/// An entry of the `MethodParameters` attribute.
#[derive(Debug, PartialEq, Eq, Structural, Clone, Copy)]
pub struct ParameterInfo {
    /// The constant pool index of the name, or 0.
    pub name_index: u16,
    /// The access flags of the parameter.
    pub access_flags: u16,
}

impl Element for ParameterInfo {
    open spec fn encoding(&self) -> Seq<u8> {
        be16(self.name_index) + be16(self.access_flags)
    }

    open spec fn writable(&self) -> bool {
        true
    }

    fn to_writer(&self, out: &mut Vec<u8>) -> (r: Result<(), GenerationError>) {
        put_u16(out, self.name_index);
        put_u16(out, self.access_flags);
        assert(out@ =~= old(out)@ + self.encoding());
        assert(out@.subrange(0, old(out)@.len() as int) =~= old(out)@);
        Ok(())
    }

    fn from_reader(bytes: &[u8], pos: usize) -> (r: Result<(Self, usize), ParseError>) {
        let ghost mut acc: Seq<u8> = Seq::empty();
        assert(bytes@.subrange(pos as int, pos as int) =~= acc);
        let p0 = pos;
        let (name_index, p1) = match take_u16(bytes, p0) {
            Ok(v) => v,
            Err(e) => {
                proof {
                    if exists|y: Self| #[trigger] y.writable() && holds_at(bytes@, pos as int, y.encoding()) {
                        let y = choose|y: Self| #[trigger] y.writable() && holds_at(bytes@, pos as int, y.encoding());
                        assert(y.encoding().len() == 4);
                    }
                }
                return Err(e);
            },
        };
        proof {
            lemma_holds_concat(bytes@, pos as int, acc, be16(name_index));
            acc = acc + be16(name_index);
        }
        let (access_flags, p2) = match take_u16(bytes, p1) {
            Ok(v) => v,
            Err(e) => {
                proof {
                    if exists|y: Self| #[trigger] y.writable() && holds_at(bytes@, pos as int, y.encoding()) {
                        let y = choose|y: Self| #[trigger] y.writable() && holds_at(bytes@, pos as int, y.encoding());
                        assert(y.encoding().len() == 4);
                    }
                }
                return Err(e);
            },
        };
        proof {
            lemma_holds_concat(bytes@, pos as int, acc, be16(access_flags));
            acc = acc + be16(access_flags);
        }
        let x = ParameterInfo { name_index, access_flags };
        assert(acc =~= x.encoding());
        Ok((x, p2))
    }

    proof fn lemma_prefix_free(a: Self, b: Self, bytes: Seq<u8>, pos: int) {
    }
}

/// A dependency of a module in the `Module` attribute.
#[derive(Debug, PartialEq, Eq, Structural, Clone, Copy)]
pub struct RequiresInfo {
    /// The constant pool index of the module.
    pub requires_index: u16,
    /// The flags of the dependency.
    pub flags: u16,
    /// The constant pool index of the version, or 0.
    pub version_index: u16,
}

impl Element for RequiresInfo {
    open spec fn encoding(&self) -> Seq<u8> {
        be16(self.requires_index) + be16(self.flags) + be16(self.version_index)
    }

    open spec fn writable(&self) -> bool {
        true
    }

    fn to_writer(&self, out: &mut Vec<u8>) -> (r: Result<(), GenerationError>) {
        put_u16(out, self.requires_index);
        put_u16(out, self.flags);
        put_u16(out, self.version_index);
        assert(out@ =~= old(out)@ + self.encoding());
        assert(out@.subrange(0, old(out)@.len() as int) =~= old(out)@);
        Ok(())
    }

    fn from_reader(bytes: &[u8], pos: usize) -> (r: Result<(Self, usize), ParseError>) {
        let ghost mut acc: Seq<u8> = Seq::empty();
        assert(bytes@.subrange(pos as int, pos as int) =~= acc);
        let p0 = pos;
        let (requires_index, p1) = match take_u16(bytes, p0) {
            Ok(v) => v,
            Err(e) => {
                proof {
                    if exists|y: Self| #[trigger] y.writable() && holds_at(bytes@, pos as int, y.encoding()) {
                        let y = choose|y: Self| #[trigger] y.writable() && holds_at(bytes@, pos as int, y.encoding());
                        assert(y.encoding().len() == 6);
                    }
                }
                return Err(e);
            },
        };
        proof {
            lemma_holds_concat(bytes@, pos as int, acc, be16(requires_index));
            acc = acc + be16(requires_index);
        }
        let (flags, p2) = match take_u16(bytes, p1) {
            Ok(v) => v,
            Err(e) => {
                proof {
                    if exists|y: Self| #[trigger] y.writable() && holds_at(bytes@, pos as int, y.encoding()) {
                        let y = choose|y: Self| #[trigger] y.writable() && holds_at(bytes@, pos as int, y.encoding());
                        assert(y.encoding().len() == 6);
                    }
                }
                return Err(e);
            },
        };
        proof {
            lemma_holds_concat(bytes@, pos as int, acc, be16(flags));
            acc = acc + be16(flags);
        }
        let (version_index, p3) = match take_u16(bytes, p2) {
            Ok(v) => v,
            Err(e) => {
                proof {
                    if exists|y: Self| #[trigger] y.writable() && holds_at(bytes@, pos as int, y.encoding()) {
                        let y = choose|y: Self| #[trigger] y.writable() && holds_at(bytes@, pos as int, y.encoding());
                        assert(y.encoding().len() == 6);
                    }
                }
                return Err(e);
            },
        };
        proof {
            lemma_holds_concat(bytes@, pos as int, acc, be16(version_index));
            acc = acc + be16(version_index);
        }
        let x = RequiresInfo { requires_index, flags, version_index };
        assert(acc =~= x.encoding());
        Ok((x, p3))
    }

    proof fn lemma_prefix_free(a: Self, b: Self, bytes: Seq<u8>, pos: int) {
    }
}

/// A package exported by a module, in the `Module` attribute.
#[derive(Debug, PartialEq, Eq, Clone)]
pub struct ExportsInfo {
    /// The constant pool index of the package.
    pub exports_index: u16,
    /// The flags of the export.
    pub flags: u16,
    /// The constant pool indices of the modules exported to.
    pub to: Vec<u16>,
}

/// Each part of the bytes of an `ExportsInfo` is held where it starts.
proof fn lemma_exports_info_parts(y: ExportsInfo, bytes: Seq<u8>, pos: int)
    requires
        holds_at(bytes, pos, y.encoding()),
    ensures
        holds_at(bytes, pos, be16(y.exports_index)),
        holds_at(bytes, pos + (be16(y.exports_index)).len(), be16(y.flags)),
        holds_at(bytes, pos + (be16(y.exports_index) + be16(y.flags)).len(), counted(y.to@)),
{
    lemma_holds_concat(bytes, pos, be16(y.exports_index) + be16(y.flags), counted(y.to@));
    lemma_holds_concat(bytes, pos, be16(y.exports_index), be16(y.flags));
}

/// Whether an `ExportsInfo` that can be written is held at `pos`.
spec fn exports_info_readable(bytes: Seq<u8>, pos: int) -> bool {
    exists|y: ExportsInfo| #[trigger] y.writable() && holds_at(bytes, pos, y.encoding())
}

/// An `ExportsInfo` that can be written and is held at `pos`, if there is one.
spec fn exports_info_witness(bytes: Seq<u8>, pos: int) -> ExportsInfo {
    choose|y: ExportsInfo| #[trigger] y.writable() && holds_at(bytes, pos, y.encoding())
}

impl Element for ExportsInfo {
    open spec fn encoding(&self) -> Seq<u8> {
        be16(self.exports_index) + be16(self.flags) + counted(self.to@)
    }

    open spec fn writable(&self) -> bool {
        counted_writable(self.to@)
    }

    fn to_writer(&self, out: &mut Vec<u8>) -> (r: Result<(), GenerationError>) {
        let ghost start = out@;
        put_u16(out, self.exports_index);
        assert(out@ =~= start + be16(self.exports_index));
        put_u16(out, self.flags);
        assert(out@ =~= start + be16(self.exports_index) + be16(self.flags));
        let ghost before = out@;
        let written = write_counted(&self.to, out);
        proof {
            assert(out@.subrange(0, start.len() as int) =~= before.subrange(0, start.len() as int)) by {
                assert(out@.subrange(0, before.len() as int) == before);
            }
        }
        if written.is_err() {
            assert(out@.subrange(0, start.len() as int) =~= start);
            return written;
        }
        assert(out@ =~= start + be16(self.exports_index) + be16(self.flags) + counted(self.to@));
        assert(out@.subrange(0, start.len() as int) =~= start);
        Ok(())
    }

    #[verifier::spinoff_prover]
    fn from_reader(bytes: &[u8], pos: usize) -> (r: Result<(Self, usize), ParseError>) {
        let ghost mut acc: Seq<u8> = Seq::empty();
        assert(bytes@.subrange(pos as int, pos as int) =~= acc);
        let p0 = pos;
        let (exports_index, p1) = match take_u16(bytes, p0) {
            Ok(v) => v,
            Err(e) => {
                proof {
                    if exports_info_readable(bytes@, pos as int) {
                        let y = exports_info_witness(bytes@, pos as int);
                        lemma_exports_info_parts(y, bytes@, pos as int);
                        assert(holds_at(bytes@, p0 as int, be16(y.exports_index)));
                    }
                }
                return Err(e);
            },
        };
        proof {
            lemma_holds_concat(bytes@, pos as int, acc, be16(exports_index));
        }
        assert(exports_info_readable(bytes@, pos as int) ==> acc + be16(exports_index) == be16(exports_info_witness(bytes@, pos as int).exports_index)) by {
            if exports_info_readable(bytes@, pos as int) {
                let y = exports_info_witness(bytes@, pos as int);
                lemma_exports_info_parts(y, bytes@, pos as int);
                assert(be16(exports_index) == bytes@.subrange(p0 as int, p0 + 2));
                assert(be16(y.exports_index) == bytes@.subrange(p0 as int, p0 + 2));
            }
        }
        proof {
            acc = acc + be16(exports_index);
        }
        let (flags, p2) = match take_u16(bytes, p1) {
            Ok(v) => v,
            Err(e) => {
                proof {
                    if exports_info_readable(bytes@, pos as int) {
                        let y = exports_info_witness(bytes@, pos as int);
                        lemma_exports_info_parts(y, bytes@, pos as int);
                        assert(holds_at(bytes@, p1 as int, be16(y.flags)));
                    }
                }
                return Err(e);
            },
        };
        proof {
            lemma_holds_concat(bytes@, pos as int, acc, be16(flags));
        }
        assert(exports_info_readable(bytes@, pos as int) ==> acc + be16(flags) == be16(exports_info_witness(bytes@, pos as int).exports_index) + be16(exports_info_witness(bytes@, pos as int).flags)) by {
            if exports_info_readable(bytes@, pos as int) {
                let y = exports_info_witness(bytes@, pos as int);
                lemma_exports_info_parts(y, bytes@, pos as int);
                assert(be16(flags) == bytes@.subrange(p1 as int, p1 + 2));
                assert(be16(y.flags) == bytes@.subrange(p1 as int, p1 + 2));
            }
        }
        proof {
            acc = acc + be16(flags);
        }
        let (to, p3) = match read_counted::<u16>(bytes, p2) {
            Ok(v) => v,
            Err(e) => {
                proof {
                    if exports_info_readable(bytes@, pos as int) {
                        let y = exports_info_witness(bytes@, pos as int);
                        lemma_exports_info_parts(y, bytes@, pos as int);
                        assert(holds_at(bytes@, p2 as int, counted(y.to@)));
                        assert(counted_writable(y.to@));
                    }
                }
                return Err(e);
            },
        };
        proof {
            lemma_holds_concat(bytes@, pos as int, acc, counted(to@));
        }
        assert(exports_info_readable(bytes@, pos as int) ==> acc + counted(to@) == be16(exports_info_witness(bytes@, pos as int).exports_index) + be16(exports_info_witness(bytes@, pos as int).flags) + counted(exports_info_witness(bytes@, pos as int).to@)) by {
            if exports_info_readable(bytes@, pos as int) {
                let y = exports_info_witness(bytes@, pos as int);
                lemma_exports_info_parts(y, bytes@, pos as int);
                assert(counted_writable(y.to@));
                lemma_counted_prefix_free(to@, y.to@, bytes@, p2 as int);
            }
        }
        proof {
            acc = acc + counted(to@);
        }
        let x = ExportsInfo { exports_index, flags, to };
        assert(acc =~= x.encoding());
        Ok((x, p3))
    }

    proof fn lemma_prefix_free(a: Self, b: Self, bytes: Seq<u8>, pos: int) {
        lemma_exports_info_parts(a, bytes, pos);
        lemma_exports_info_parts(b, bytes, pos);
        assert(be16(a.exports_index) == bytes.subrange(pos, pos + 2));
        assert(be16(b.exports_index) == bytes.subrange(pos, pos + 2));
        assert(be16(a.flags) == bytes.subrange(pos + (be16(a.exports_index)).len(), pos + (be16(a.exports_index)).len() + 2));
        assert(be16(b.flags) == bytes.subrange(pos + (be16(a.exports_index)).len(), pos + (be16(a.exports_index)).len() + 2));
        lemma_counted_prefix_free(a.to@, b.to@, bytes, pos + (be16(a.exports_index) + be16(a.flags)).len());
    }
}

/// A package opened by a module, in the `Module` attribute.
#[derive(Debug, PartialEq, Eq, Clone)]
pub struct OpensInfo {
    /// The constant pool index of the package.
    pub opens_index: u16,
    /// The flags of the opening.
    pub flags: u16,
    /// The constant pool indices of the modules opened to.
    pub to: Vec<u16>,
}

/// Each part of the bytes of an `OpensInfo` is held where it starts.
proof fn lemma_opens_info_parts(y: OpensInfo, bytes: Seq<u8>, pos: int)
    requires
        holds_at(bytes, pos, y.encoding()),
    ensures
        holds_at(bytes, pos, be16(y.opens_index)),
        holds_at(bytes, pos + (be16(y.opens_index)).len(), be16(y.flags)),
        holds_at(bytes, pos + (be16(y.opens_index) + be16(y.flags)).len(), counted(y.to@)),
{
    lemma_holds_concat(bytes, pos, be16(y.opens_index) + be16(y.flags), counted(y.to@));
    lemma_holds_concat(bytes, pos, be16(y.opens_index), be16(y.flags));
}

/// Whether an `OpensInfo` that can be written is held at `pos`.
spec fn opens_info_readable(bytes: Seq<u8>, pos: int) -> bool {
    exists|y: OpensInfo| #[trigger] y.writable() && holds_at(bytes, pos, y.encoding())
}

/// An `OpensInfo` that can be written and is held at `pos`, if there is one.
spec fn opens_info_witness(bytes: Seq<u8>, pos: int) -> OpensInfo {
    choose|y: OpensInfo| #[trigger] y.writable() && holds_at(bytes, pos, y.encoding())
}

impl Element for OpensInfo {
    open spec fn encoding(&self) -> Seq<u8> {
        be16(self.opens_index) + be16(self.flags) + counted(self.to@)
    }

    open spec fn writable(&self) -> bool {
        counted_writable(self.to@)
    }

    fn to_writer(&self, out: &mut Vec<u8>) -> (r: Result<(), GenerationError>) {
        let ghost start = out@;
        put_u16(out, self.opens_index);
        assert(out@ =~= start + be16(self.opens_index));
        put_u16(out, self.flags);
        assert(out@ =~= start + be16(self.opens_index) + be16(self.flags));
        let ghost before = out@;
        let written = write_counted(&self.to, out);
        proof {
            assert(out@.subrange(0, start.len() as int) =~= before.subrange(0, start.len() as int)) by {
                assert(out@.subrange(0, before.len() as int) == before);
            }
        }
        if written.is_err() {
            assert(out@.subrange(0, start.len() as int) =~= start);
            return written;
        }
        assert(out@ =~= start + be16(self.opens_index) + be16(self.flags) + counted(self.to@));
        assert(out@.subrange(0, start.len() as int) =~= start);
        Ok(())
    }

    #[verifier::spinoff_prover]
    fn from_reader(bytes: &[u8], pos: usize) -> (r: Result<(Self, usize), ParseError>) {
        let ghost mut acc: Seq<u8> = Seq::empty();
        assert(bytes@.subrange(pos as int, pos as int) =~= acc);
        let p0 = pos;
        let (opens_index, p1) = match take_u16(bytes, p0) {
            Ok(v) => v,
            Err(e) => {
                proof {
                    if opens_info_readable(bytes@, pos as int) {
                        let y = opens_info_witness(bytes@, pos as int);
                        lemma_opens_info_parts(y, bytes@, pos as int);
                        assert(holds_at(bytes@, p0 as int, be16(y.opens_index)));
                    }
                }
                return Err(e);
            },
        };
        proof {
            lemma_holds_concat(bytes@, pos as int, acc, be16(opens_index));
        }
        assert(opens_info_readable(bytes@, pos as int) ==> acc + be16(opens_index) == be16(opens_info_witness(bytes@, pos as int).opens_index)) by {
            if opens_info_readable(bytes@, pos as int) {
                let y = opens_info_witness(bytes@, pos as int);
                lemma_opens_info_parts(y, bytes@, pos as int);
                assert(be16(opens_index) == bytes@.subrange(p0 as int, p0 + 2));
                assert(be16(y.opens_index) == bytes@.subrange(p0 as int, p0 + 2));
            }
        }
        proof {
            acc = acc + be16(opens_index);
        }
        let (flags, p2) = match take_u16(bytes, p1) {
            Ok(v) => v,
            Err(e) => {
                proof {
                    if opens_info_readable(bytes@, pos as int) {
                        let y = opens_info_witness(bytes@, pos as int);
                        lemma_opens_info_parts(y, bytes@, pos as int);
                        assert(holds_at(bytes@, p1 as int, be16(y.flags)));
                    }
                }
                return Err(e);
            },
        };
        proof {
            lemma_holds_concat(bytes@, pos as int, acc, be16(flags));
        }
        assert(opens_info_readable(bytes@, pos as int) ==> acc + be16(flags) == be16(opens_info_witness(bytes@, pos as int).opens_index) + be16(opens_info_witness(bytes@, pos as int).flags)) by {
            if opens_info_readable(bytes@, pos as int) {
                let y = opens_info_witness(bytes@, pos as int);
                lemma_opens_info_parts(y, bytes@, pos as int);
                assert(be16(flags) == bytes@.subrange(p1 as int, p1 + 2));
                assert(be16(y.flags) == bytes@.subrange(p1 as int, p1 + 2));
            }
        }
        proof {
            acc = acc + be16(flags);
        }
        let (to, p3) = match read_counted::<u16>(bytes, p2) {
            Ok(v) => v,
            Err(e) => {
                proof {
                    if opens_info_readable(bytes@, pos as int) {
                        let y = opens_info_witness(bytes@, pos as int);
                        lemma_opens_info_parts(y, bytes@, pos as int);
                        assert(holds_at(bytes@, p2 as int, counted(y.to@)));
                        assert(counted_writable(y.to@));
                    }
                }
                return Err(e);
            },
        };
        proof {
            lemma_holds_concat(bytes@, pos as int, acc, counted(to@));
        }
        assert(opens_info_readable(bytes@, pos as int) ==> acc + counted(to@) == be16(opens_info_witness(bytes@, pos as int).opens_index) + be16(opens_info_witness(bytes@, pos as int).flags) + counted(opens_info_witness(bytes@, pos as int).to@)) by {
            if opens_info_readable(bytes@, pos as int) {
                let y = opens_info_witness(bytes@, pos as int);
                lemma_opens_info_parts(y, bytes@, pos as int);
                assert(counted_writable(y.to@));
                lemma_counted_prefix_free(to@, y.to@, bytes@, p2 as int);
            }
        }
        proof {
            acc = acc + counted(to@);
        }
        let x = OpensInfo { opens_index, flags, to };
        assert(acc =~= x.encoding());
        Ok((x, p3))
    }

    proof fn lemma_prefix_free(a: Self, b: Self, bytes: Seq<u8>, pos: int) {
        lemma_opens_info_parts(a, bytes, pos);
        lemma_opens_info_parts(b, bytes, pos);
        assert(be16(a.opens_index) == bytes.subrange(pos, pos + 2));
        assert(be16(b.opens_index) == bytes.subrange(pos, pos + 2));
        assert(be16(a.flags) == bytes.subrange(pos + (be16(a.opens_index)).len(), pos + (be16(a.opens_index)).len() + 2));
        assert(be16(b.flags) == bytes.subrange(pos + (be16(a.opens_index)).len(), pos + (be16(a.opens_index)).len() + 2));
        lemma_counted_prefix_free(a.to@, b.to@, bytes, pos + (be16(a.opens_index) + be16(a.flags)).len());
    }
}

/// A service provided by a module, in the `Module` attribute.
#[derive(Debug, PartialEq, Eq, Clone)]
pub struct ProvidesInfo {
    /// The constant pool index of the service.
    pub provides_index: u16,
    /// The constant pool indices of the implementations.
    pub with: Vec<u16>,
}

/// Each part of the bytes of a `ProvidesInfo` is held where it starts.
proof fn lemma_provides_info_parts(y: ProvidesInfo, bytes: Seq<u8>, pos: int)
    requires
        holds_at(bytes, pos, y.encoding()),
    ensures
        holds_at(bytes, pos, be16(y.provides_index)),
        holds_at(bytes, pos + (be16(y.provides_index)).len(), counted(y.with@)),
{
    lemma_holds_concat(bytes, pos, be16(y.provides_index), counted(y.with@));
}

/// Whether a `ProvidesInfo` that can be written is held at `pos`.
spec fn provides_info_readable(bytes: Seq<u8>, pos: int) -> bool {
    exists|y: ProvidesInfo| #[trigger] y.writable() && holds_at(bytes, pos, y.encoding())
}

/// A `ProvidesInfo` that can be written and is held at `pos`, if there is one.
spec fn provides_info_witness(bytes: Seq<u8>, pos: int) -> ProvidesInfo {
    choose|y: ProvidesInfo| #[trigger] y.writable() && holds_at(bytes, pos, y.encoding())
}

impl Element for ProvidesInfo {
    open spec fn encoding(&self) -> Seq<u8> {
        be16(self.provides_index) + counted(self.with@)
    }

    open spec fn writable(&self) -> bool {
        counted_writable(self.with@)
    }

    fn to_writer(&self, out: &mut Vec<u8>) -> (r: Result<(), GenerationError>) {
        let ghost start = out@;
        put_u16(out, self.provides_index);
        assert(out@ =~= start + be16(self.provides_index));
        let ghost before = out@;
        let written = write_counted(&self.with, out);
        proof {
            assert(out@.subrange(0, start.len() as int) =~= before.subrange(0, start.len() as int)) by {
                assert(out@.subrange(0, before.len() as int) == before);
            }
        }
        if written.is_err() {
            assert(out@.subrange(0, start.len() as int) =~= start);
            return written;
        }
        assert(out@ =~= start + be16(self.provides_index) + counted(self.with@));
        assert(out@.subrange(0, start.len() as int) =~= start);
        Ok(())
    }

    #[verifier::spinoff_prover]
    fn from_reader(bytes: &[u8], pos: usize) -> (r: Result<(Self, usize), ParseError>) {
        let ghost mut acc: Seq<u8> = Seq::empty();
        assert(bytes@.subrange(pos as int, pos as int) =~= acc);
        let p0 = pos;
        let (provides_index, p1) = match take_u16(bytes, p0) {
            Ok(v) => v,
            Err(e) => {
                proof {
                    if provides_info_readable(bytes@, pos as int) {
                        let y = provides_info_witness(bytes@, pos as int);
                        lemma_provides_info_parts(y, bytes@, pos as int);
                        assert(holds_at(bytes@, p0 as int, be16(y.provides_index)));
                    }
                }
                return Err(e);
            },
        };
        proof {
            lemma_holds_concat(bytes@, pos as int, acc, be16(provides_index));
        }
        assert(provides_info_readable(bytes@, pos as int) ==> acc + be16(provides_index) == be16(provides_info_witness(bytes@, pos as int).provides_index)) by {
            if provides_info_readable(bytes@, pos as int) {
                let y = provides_info_witness(bytes@, pos as int);
                lemma_provides_info_parts(y, bytes@, pos as int);
                assert(be16(provides_index) == bytes@.subrange(p0 as int, p0 + 2));
                assert(be16(y.provides_index) == bytes@.subrange(p0 as int, p0 + 2));
            }
        }
        proof {
            acc = acc + be16(provides_index);
        }
        let (with, p2) = match read_counted::<u16>(bytes, p1) {
            Ok(v) => v,
            Err(e) => {
                proof {
                    if provides_info_readable(bytes@, pos as int) {
                        let y = provides_info_witness(bytes@, pos as int);
                        lemma_provides_info_parts(y, bytes@, pos as int);
                        assert(holds_at(bytes@, p1 as int, counted(y.with@)));
                        assert(counted_writable(y.with@));
                    }
                }
                return Err(e);
            },
        };
        proof {
            lemma_holds_concat(bytes@, pos as int, acc, counted(with@));
        }
        assert(provides_info_readable(bytes@, pos as int) ==> acc + counted(with@) == be16(provides_info_witness(bytes@, pos as int).provides_index) + counted(provides_info_witness(bytes@, pos as int).with@)) by {
            if provides_info_readable(bytes@, pos as int) {
                let y = provides_info_witness(bytes@, pos as int);
                lemma_provides_info_parts(y, bytes@, pos as int);
                assert(counted_writable(y.with@));
                lemma_counted_prefix_free(with@, y.with@, bytes@, p1 as int);
            }
        }
        proof {
            acc = acc + counted(with@);
        }
        let x = ProvidesInfo { provides_index, with };
        assert(acc =~= x.encoding());
        Ok((x, p2))
    }

    proof fn lemma_prefix_free(a: Self, b: Self, bytes: Seq<u8>, pos: int) {
        lemma_provides_info_parts(a, bytes, pos);
        lemma_provides_info_parts(b, bytes, pos);
        assert(be16(a.provides_index) == bytes.subrange(pos, pos + 2));
        assert(be16(b.provides_index) == bytes.subrange(pos, pos + 2));
        lemma_counted_prefix_free(a.with@, b.with@, bytes, pos + (be16(a.provides_index)).len());
    }
}

/// An entry of the `BootstrapMethods` attribute.
#[derive(Debug, PartialEq, Eq, Clone)]
pub struct BootstrapMethod {
    /// The constant pool index of the method handle.
    pub method_ref_idx: u16,
    /// The constant pool indices of the static arguments.
    pub arguments: Vec<u16>,
}

/// Each part of the bytes of a `BootstrapMethod` is held where it starts.
proof fn lemma_bootstrap_method_parts(y: BootstrapMethod, bytes: Seq<u8>, pos: int)
    requires
        holds_at(bytes, pos, y.encoding()),
    ensures
        holds_at(bytes, pos, be16(y.method_ref_idx)),
        holds_at(bytes, pos + (be16(y.method_ref_idx)).len(), counted(y.arguments@)),
{
    lemma_holds_concat(bytes, pos, be16(y.method_ref_idx), counted(y.arguments@));
}

/// Whether a `BootstrapMethod` that can be written is held at `pos`.
spec fn bootstrap_method_readable(bytes: Seq<u8>, pos: int) -> bool {
    exists|y: BootstrapMethod| #[trigger] y.writable() && holds_at(bytes, pos, y.encoding())
}

/// A `BootstrapMethod` that can be written and is held at `pos`, if there is one.
spec fn bootstrap_method_witness(bytes: Seq<u8>, pos: int) -> BootstrapMethod {
    choose|y: BootstrapMethod| #[trigger] y.writable() && holds_at(bytes, pos, y.encoding())
}

impl Element for BootstrapMethod {
    open spec fn encoding(&self) -> Seq<u8> {
        be16(self.method_ref_idx) + counted(self.arguments@)
    }

    open spec fn writable(&self) -> bool {
        counted_writable(self.arguments@)
    }

    fn to_writer(&self, out: &mut Vec<u8>) -> (r: Result<(), GenerationError>) {
        let ghost start = out@;
        put_u16(out, self.method_ref_idx);
        assert(out@ =~= start + be16(self.method_ref_idx));
        let ghost before = out@;
        let written = write_counted(&self.arguments, out);
        proof {
            assert(out@.subrange(0, start.len() as int) =~= before.subrange(0, start.len() as int)) by {
                assert(out@.subrange(0, before.len() as int) == before);
            }
        }
        if written.is_err() {
            assert(out@.subrange(0, start.len() as int) =~= start);
            return written;
        }
        assert(out@ =~= start + be16(self.method_ref_idx) + counted(self.arguments@));
        assert(out@.subrange(0, start.len() as int) =~= start);
        Ok(())
    }

    #[verifier::spinoff_prover]
    fn from_reader(bytes: &[u8], pos: usize) -> (r: Result<(Self, usize), ParseError>) {
        let ghost mut acc: Seq<u8> = Seq::empty();
        assert(bytes@.subrange(pos as int, pos as int) =~= acc);
        let p0 = pos;
        let (method_ref_idx, p1) = match take_u16(bytes, p0) {
            Ok(v) => v,
            Err(e) => {
                proof {
                    if bootstrap_method_readable(bytes@, pos as int) {
                        let y = bootstrap_method_witness(bytes@, pos as int);
                        lemma_bootstrap_method_parts(y, bytes@, pos as int);
                        assert(holds_at(bytes@, p0 as int, be16(y.method_ref_idx)));
                    }
                }
                return Err(e);
            },
        };
        proof {
            lemma_holds_concat(bytes@, pos as int, acc, be16(method_ref_idx));
        }
        assert(bootstrap_method_readable(bytes@, pos as int) ==> acc + be16(method_ref_idx) == be16(bootstrap_method_witness(bytes@, pos as int).method_ref_idx)) by {
            if bootstrap_method_readable(bytes@, pos as int) {
                let y = bootstrap_method_witness(bytes@, pos as int);
                lemma_bootstrap_method_parts(y, bytes@, pos as int);
                assert(be16(method_ref_idx) == bytes@.subrange(p0 as int, p0 + 2));
                assert(be16(y.method_ref_idx) == bytes@.subrange(p0 as int, p0 + 2));
            }
        }
        proof {
            acc = acc + be16(method_ref_idx);
        }
        let (arguments, p2) = match read_counted::<u16>(bytes, p1) {
            Ok(v) => v,
            Err(e) => {
                proof {
                    if bootstrap_method_readable(bytes@, pos as int) {
                        let y = bootstrap_method_witness(bytes@, pos as int);
                        lemma_bootstrap_method_parts(y, bytes@, pos as int);
                        assert(holds_at(bytes@, p1 as int, counted(y.arguments@)));
                        assert(counted_writable(y.arguments@));
                    }
                }
                return Err(e);
            },
        };
        proof {
            lemma_holds_concat(bytes@, pos as int, acc, counted(arguments@));
        }
        assert(bootstrap_method_readable(bytes@, pos as int) ==> acc + counted(arguments@) == be16(bootstrap_method_witness(bytes@, pos as int).method_ref_idx) + counted(bootstrap_method_witness(bytes@, pos as int).arguments@)) by {
            if bootstrap_method_readable(bytes@, pos as int) {
                let y = bootstrap_method_witness(bytes@, pos as int);
                lemma_bootstrap_method_parts(y, bytes@, pos as int);
                assert(counted_writable(y.arguments@));
                lemma_counted_prefix_free(arguments@, y.arguments@, bytes@, p1 as int);
            }
        }
        proof {
            acc = acc + counted(arguments@);
        }
        let x = BootstrapMethod { method_ref_idx, arguments };
        assert(acc =~= x.encoding());
        Ok((x, p2))
    }

    proof fn lemma_prefix_free(a: Self, b: Self, bytes: Seq<u8>, pos: int) {
        lemma_bootstrap_method_parts(a, bytes, pos);
        lemma_bootstrap_method_parts(b, bytes, pos);
        assert(be16(a.method_ref_idx) == bytes.subrange(pos, pos + 2));
        assert(be16(b.method_ref_idx) == bytes.subrange(pos, pos + 2));
        lemma_counted_prefix_free(a.arguments@, b.arguments@, bytes, pos + (be16(a.method_ref_idx)).len());
    }
}

/// The `Module` attribute.
#[derive(Debug, PartialEq, Eq, Clone)]
pub struct ModuleInfo {
    /// The constant pool index of the module.
    pub info_index: u16,
    /// The flags of the module.
    pub flags: u16,
    /// The constant pool index of the version, or 0.
    pub version_index: u16,
    /// The dependencies.
    pub requires_info: Vec<RequiresInfo>,
    /// The exported packages.
    pub exports: Vec<ExportsInfo>,
    /// The opened packages.
    pub opens: Vec<OpensInfo>,
    /// The constant pool indices of the services used.
    pub uses: Vec<u16>,
    /// The services provided.
    pub provides: Vec<ProvidesInfo>,
}

/// Each part of the bytes of a `ModuleInfo` is held where it starts.
proof fn lemma_module_info_parts(y: ModuleInfo, bytes: Seq<u8>, pos: int)
    requires
        holds_at(bytes, pos, y.encoding()),
    ensures
        holds_at(bytes, pos, be16(y.info_index)),
        holds_at(bytes, pos + (be16(y.info_index)).len(), be16(y.flags)),
        holds_at(bytes, pos + (be16(y.info_index) + be16(y.flags)).len(), be16(y.version_index)),
        holds_at(bytes, pos + (be16(y.info_index) + be16(y.flags) + be16(y.version_index)).len(), counted(y.requires_info@)),
        holds_at(bytes, pos + (be16(y.info_index) + be16(y.flags) + be16(y.version_index) + counted(y.requires_info@)).len(), counted(y.exports@)),
        holds_at(bytes, pos + (be16(y.info_index) + be16(y.flags) + be16(y.version_index) + counted(y.requires_info@) + counted(y.exports@)).len(), counted(y.opens@)),
        holds_at(bytes, pos + (be16(y.info_index) + be16(y.flags) + be16(y.version_index) + counted(y.requires_info@) + counted(y.exports@) + counted(y.opens@)).len(), counted(y.uses@)),
        holds_at(bytes, pos + (be16(y.info_index) + be16(y.flags) + be16(y.version_index) + counted(y.requires_info@) + counted(y.exports@) + counted(y.opens@) + counted(y.uses@)).len(), counted(y.provides@)),
{
    lemma_holds_concat(bytes, pos, be16(y.info_index) + be16(y.flags) + be16(y.version_index) + counted(y.requires_info@) + counted(y.exports@) + counted(y.opens@) + counted(y.uses@), counted(y.provides@));
    lemma_holds_concat(bytes, pos, be16(y.info_index) + be16(y.flags) + be16(y.version_index) + counted(y.requires_info@) + counted(y.exports@) + counted(y.opens@), counted(y.uses@));
    lemma_holds_concat(bytes, pos, be16(y.info_index) + be16(y.flags) + be16(y.version_index) + counted(y.requires_info@) + counted(y.exports@), counted(y.opens@));
    lemma_holds_concat(bytes, pos, be16(y.info_index) + be16(y.flags) + be16(y.version_index) + counted(y.requires_info@), counted(y.exports@));
    lemma_holds_concat(bytes, pos, be16(y.info_index) + be16(y.flags) + be16(y.version_index), counted(y.requires_info@));
    lemma_holds_concat(bytes, pos, be16(y.info_index) + be16(y.flags), be16(y.version_index));
    lemma_holds_concat(bytes, pos, be16(y.info_index), be16(y.flags));
}

/// Whether a `ModuleInfo` that can be written is held at `pos`.
spec fn module_info_readable(bytes: Seq<u8>, pos: int) -> bool {
    exists|y: ModuleInfo| #[trigger] y.writable() && holds_at(bytes, pos, y.encoding())
}

/// A `ModuleInfo` that can be written and is held at `pos`, if there is one.
spec fn module_info_witness(bytes: Seq<u8>, pos: int) -> ModuleInfo {
    choose|y: ModuleInfo| #[trigger] y.writable() && holds_at(bytes, pos, y.encoding())
}

impl Element for ModuleInfo {
    open spec fn encoding(&self) -> Seq<u8> {
        be16(self.info_index) + be16(self.flags) + be16(self.version_index) + counted(self.requires_info@) + counted(self.exports@) + counted(self.opens@) + counted(self.uses@) + counted(self.provides@)
    }

    open spec fn writable(&self) -> bool {
        counted_writable(self.requires_info@) && counted_writable(self.exports@) && counted_writable(self.opens@) && counted_writable(self.uses@) && counted_writable(self.provides@)
    }

    fn to_writer(&self, out: &mut Vec<u8>) -> (r: Result<(), GenerationError>) {
        let ghost start = out@;
        put_u16(out, self.info_index);
        assert(out@ =~= start + be16(self.info_index));
        put_u16(out, self.flags);
        assert(out@ =~= start + be16(self.info_index) + be16(self.flags));
        put_u16(out, self.version_index);
        assert(out@ =~= start + be16(self.info_index) + be16(self.flags) + be16(self.version_index));
        let ghost before = out@;
        let written = write_counted(&self.requires_info, out);
        proof {
            assert(out@.subrange(0, start.len() as int) =~= before.subrange(0, start.len() as int)) by {
                assert(out@.subrange(0, before.len() as int) == before);
            }
        }
        if written.is_err() {
            assert(out@.subrange(0, start.len() as int) =~= start);
            return written;
        }
        assert(out@ =~= start + be16(self.info_index) + be16(self.flags) + be16(self.version_index) + counted(self.requires_info@));
        let ghost before = out@;
        let written = write_counted(&self.exports, out);
        proof {
            assert(out@.subrange(0, start.len() as int) =~= before.subrange(0, start.len() as int)) by {
                assert(out@.subrange(0, before.len() as int) == before);
            }
        }
        if written.is_err() {
            assert(out@.subrange(0, start.len() as int) =~= start);
            return written;
        }
        assert(out@ =~= start + be16(self.info_index) + be16(self.flags) + be16(self.version_index) + counted(self.requires_info@) + counted(self.exports@));
        let ghost before = out@;
        let written = write_counted(&self.opens, out);
        proof {
            assert(out@.subrange(0, start.len() as int) =~= before.subrange(0, start.len() as int)) by {
                assert(out@.subrange(0, before.len() as int) == before);
            }
        }
        if written.is_err() {
            assert(out@.subrange(0, start.len() as int) =~= start);
            return written;
        }
        assert(out@ =~= start + be16(self.info_index) + be16(self.flags) + be16(self.version_index) + counted(self.requires_info@) + counted(self.exports@) + counted(self.opens@));
        let ghost before = out@;
        let written = write_counted(&self.uses, out);
        proof {
            assert(out@.subrange(0, start.len() as int) =~= before.subrange(0, start.len() as int)) by {
                assert(out@.subrange(0, before.len() as int) == before);
            }
        }
        if written.is_err() {
            assert(out@.subrange(0, start.len() as int) =~= start);
            return written;
        }
        assert(out@ =~= start + be16(self.info_index) + be16(self.flags) + be16(self.version_index) + counted(self.requires_info@) + counted(self.exports@) + counted(self.opens@) + counted(self.uses@));
        let ghost before = out@;
        let written = write_counted(&self.provides, out);
        proof {
            assert(out@.subrange(0, start.len() as int) =~= before.subrange(0, start.len() as int)) by {
                assert(out@.subrange(0, before.len() as int) == before);
            }
        }
        if written.is_err() {
            assert(out@.subrange(0, start.len() as int) =~= start);
            return written;
        }
        assert(out@ =~= start + be16(self.info_index) + be16(self.flags) + be16(self.version_index) + counted(self.requires_info@) + counted(self.exports@) + counted(self.opens@) + counted(self.uses@) + counted(self.provides@));
        assert(out@.subrange(0, start.len() as int) =~= start);
        Ok(())
    }

    #[verifier::rlimit(100)]
    #[verifier::spinoff_prover]
    fn from_reader(bytes: &[u8], pos: usize) -> (r: Result<(Self, usize), ParseError>) {
        let ghost mut acc: Seq<u8> = Seq::empty();
        assert(bytes@.subrange(pos as int, pos as int) =~= acc);
        let p0 = pos;
        let (info_index, p1) = match take_u16(bytes, p0) {
            Ok(v) => v,
            Err(e) => {
                proof {
                    if module_info_readable(bytes@, pos as int) {
                        let y = module_info_witness(bytes@, pos as int);
                        lemma_module_info_parts(y, bytes@, pos as int);
                        assert(holds_at(bytes@, p0 as int, be16(y.info_index)));
                    }
                }
                return Err(e);
            },
        };
        proof {
            lemma_holds_concat(bytes@, pos as int, acc, be16(info_index));
        }
        assert(module_info_readable(bytes@, pos as int) ==> acc + be16(info_index) == be16(module_info_witness(bytes@, pos as int).info_index)) by {
            if module_info_readable(bytes@, pos as int) {
                let y = module_info_witness(bytes@, pos as int);
                lemma_module_info_parts(y, bytes@, pos as int);
                assert(be16(info_index) == bytes@.subrange(p0 as int, p0 + 2));
                assert(be16(y.info_index) == bytes@.subrange(p0 as int, p0 + 2));
            }
        }
        proof {
            acc = acc + be16(info_index);
        }
        let (flags, p2) = match take_u16(bytes, p1) {
            Ok(v) => v,
            Err(e) => {
                proof {
                    if module_info_readable(bytes@, pos as int) {
                        let y = module_info_witness(bytes@, pos as int);
                        lemma_module_info_parts(y, bytes@, pos as int);
                        assert(holds_at(bytes@, p1 as int, be16(y.flags)));
                    }
                }
                return Err(e);
            },
        };
        proof {
            lemma_holds_concat(bytes@, pos as int, acc, be16(flags));
        }
        assert(module_info_readable(bytes@, pos as int) ==> acc + be16(flags) == be16(module_info_witness(bytes@, pos as int).info_index) + be16(module_info_witness(bytes@, pos as int).flags)) by {
            if module_info_readable(bytes@, pos as int) {
                let y = module_info_witness(bytes@, pos as int);
                lemma_module_info_parts(y, bytes@, pos as int);
                assert(be16(flags) == bytes@.subrange(p1 as int, p1 + 2));
                assert(be16(y.flags) == bytes@.subrange(p1 as int, p1 + 2));
            }
        }
        proof {
            acc = acc + be16(flags);
        }
        let (version_index, p3) = match take_u16(bytes, p2) {
            Ok(v) => v,
            Err(e) => {
                proof {
                    if module_info_readable(bytes@, pos as int) {
                        let y = module_info_witness(bytes@, pos as int);
                        lemma_module_info_parts(y, bytes@, pos as int);
                        assert(holds_at(bytes@, p2 as int, be16(y.version_index)));
                    }
                }
                return Err(e);
            },
        };
        proof {
            lemma_holds_concat(bytes@, pos as int, acc, be16(version_index));
        }
        assert(module_info_readable(bytes@, pos as int) ==> acc + be16(version_index) == be16(module_info_witness(bytes@, pos as int).info_index) + be16(module_info_witness(bytes@, pos as int).flags) + be16(module_info_witness(bytes@, pos as int).version_index)) by {
            if module_info_readable(bytes@, pos as int) {
                let y = module_info_witness(bytes@, pos as int);
                lemma_module_info_parts(y, bytes@, pos as int);
                assert(be16(version_index) == bytes@.subrange(p2 as int, p2 + 2));
                assert(be16(y.version_index) == bytes@.subrange(p2 as int, p2 + 2));
            }
        }
        proof {
            acc = acc + be16(version_index);
        }
        let (requires_info, p4) = match read_counted::<RequiresInfo>(bytes, p3) {
            Ok(v) => v,
            Err(e) => {
                proof {
                    if module_info_readable(bytes@, pos as int) {
                        let y = module_info_witness(bytes@, pos as int);
                        lemma_module_info_parts(y, bytes@, pos as int);
                        assert(holds_at(bytes@, p3 as int, counted(y.requires_info@)));
                        assert(counted_writable(y.requires_info@));
                    }
                }
                return Err(e);
            },
        };
        proof {
            lemma_holds_concat(bytes@, pos as int, acc, counted(requires_info@));
        }
        assert(module_info_readable(bytes@, pos as int) ==> acc + counted(requires_info@) == be16(module_info_witness(bytes@, pos as int).info_index) + be16(module_info_witness(bytes@, pos as int).flags) + be16(module_info_witness(bytes@, pos as int).version_index) + counted(module_info_witness(bytes@, pos as int).requires_info@)) by {
            if module_info_readable(bytes@, pos as int) {
                let y = module_info_witness(bytes@, pos as int);
                lemma_module_info_parts(y, bytes@, pos as int);
                assert(counted_writable(y.requires_info@));
                lemma_counted_prefix_free(requires_info@, y.requires_info@, bytes@, p3 as int);
            }
        }
        proof {
            acc = acc + counted(requires_info@);
        }
        let (exports, p5) = match read_counted::<ExportsInfo>(bytes, p4) {
            Ok(v) => v,
            Err(e) => {
                proof {
                    if module_info_readable(bytes@, pos as int) {
                        let y = module_info_witness(bytes@, pos as int);
                        lemma_module_info_parts(y, bytes@, pos as int);
                        assert(holds_at(bytes@, p4 as int, counted(y.exports@)));
                        assert(counted_writable(y.exports@));
                    }
                }
                return Err(e);
            },
        };
        proof {
            lemma_holds_concat(bytes@, pos as int, acc, counted(exports@));
        }
        assert(module_info_readable(bytes@, pos as int) ==> acc + counted(exports@) == be16(module_info_witness(bytes@, pos as int).info_index) + be16(module_info_witness(bytes@, pos as int).flags) + be16(module_info_witness(bytes@, pos as int).version_index) + counted(module_info_witness(bytes@, pos as int).requires_info@) + counted(module_info_witness(bytes@, pos as int).exports@)) by {
            if module_info_readable(bytes@, pos as int) {
                let y = module_info_witness(bytes@, pos as int);
                lemma_module_info_parts(y, bytes@, pos as int);
                assert(counted_writable(y.exports@));
                lemma_counted_prefix_free(exports@, y.exports@, bytes@, p4 as int);
            }
        }
        proof {
            acc = acc + counted(exports@);
        }
        let (opens, p6) = match read_counted::<OpensInfo>(bytes, p5) {
            Ok(v) => v,
            Err(e) => {
                proof {
                    if module_info_readable(bytes@, pos as int) {
                        let y = module_info_witness(bytes@, pos as int);
                        lemma_module_info_parts(y, bytes@, pos as int);
                        assert(holds_at(bytes@, p5 as int, counted(y.opens@)));
                        assert(counted_writable(y.opens@));
                    }
                }
                return Err(e);
            },
        };
        proof {
            lemma_holds_concat(bytes@, pos as int, acc, counted(opens@));
        }
        assert(module_info_readable(bytes@, pos as int) ==> acc + counted(opens@) == be16(module_info_witness(bytes@, pos as int).info_index) + be16(module_info_witness(bytes@, pos as int).flags) + be16(module_info_witness(bytes@, pos as int).version_index) + counted(module_info_witness(bytes@, pos as int).requires_info@) + counted(module_info_witness(bytes@, pos as int).exports@) + counted(module_info_witness(bytes@, pos as int).opens@)) by {
            if module_info_readable(bytes@, pos as int) {
                let y = module_info_witness(bytes@, pos as int);
                lemma_module_info_parts(y, bytes@, pos as int);
                assert(counted_writable(y.opens@));
                lemma_counted_prefix_free(opens@, y.opens@, bytes@, p5 as int);
            }
        }
        proof {
            acc = acc + counted(opens@);
        }
        let (uses, p7) = match read_counted::<u16>(bytes, p6) {
            Ok(v) => v,
            Err(e) => {
                proof {
                    if module_info_readable(bytes@, pos as int) {
                        let y = module_info_witness(bytes@, pos as int);
                        lemma_module_info_parts(y, bytes@, pos as int);
                        assert(holds_at(bytes@, p6 as int, counted(y.uses@)));
                        assert(counted_writable(y.uses@));
                    }
                }
                return Err(e);
            },
        };
        proof {
            lemma_holds_concat(bytes@, pos as int, acc, counted(uses@));
        }
        assert(module_info_readable(bytes@, pos as int) ==> acc + counted(uses@) == be16(module_info_witness(bytes@, pos as int).info_index) + be16(module_info_witness(bytes@, pos as int).flags) + be16(module_info_witness(bytes@, pos as int).version_index) + counted(module_info_witness(bytes@, pos as int).requires_info@) + counted(module_info_witness(bytes@, pos as int).exports@) + counted(module_info_witness(bytes@, pos as int).opens@) + counted(module_info_witness(bytes@, pos as int).uses@)) by {
            if module_info_readable(bytes@, pos as int) {
                let y = module_info_witness(bytes@, pos as int);
                lemma_module_info_parts(y, bytes@, pos as int);
                assert(counted_writable(y.uses@));
                lemma_counted_prefix_free(uses@, y.uses@, bytes@, p6 as int);
            }
        }
        proof {
            acc = acc + counted(uses@);
        }
        let (provides, p8) = match read_counted::<ProvidesInfo>(bytes, p7) {
            Ok(v) => v,
            Err(e) => {
                proof {
                    if module_info_readable(bytes@, pos as int) {
                        let y = module_info_witness(bytes@, pos as int);
                        lemma_module_info_parts(y, bytes@, pos as int);
                        assert(holds_at(bytes@, p7 as int, counted(y.provides@)));
                        assert(counted_writable(y.provides@));
                    }
                }
                return Err(e);
            },
        };
        proof {
            lemma_holds_concat(bytes@, pos as int, acc, counted(provides@));
        }
        assert(module_info_readable(bytes@, pos as int) ==> acc + counted(provides@) == be16(module_info_witness(bytes@, pos as int).info_index) + be16(module_info_witness(bytes@, pos as int).flags) + be16(module_info_witness(bytes@, pos as int).version_index) + counted(module_info_witness(bytes@, pos as int).requires_info@) + counted(module_info_witness(bytes@, pos as int).exports@) + counted(module_info_witness(bytes@, pos as int).opens@) + counted(module_info_witness(bytes@, pos as int).uses@) + counted(module_info_witness(bytes@, pos as int).provides@)) by {
            if module_info_readable(bytes@, pos as int) {
                let y = module_info_witness(bytes@, pos as int);
                lemma_module_info_parts(y, bytes@, pos as int);
                assert(counted_writable(y.provides@));
                lemma_counted_prefix_free(provides@, y.provides@, bytes@, p7 as int);
            }
        }
        proof {
            acc = acc + counted(provides@);
        }
        let x = ModuleInfo { info_index, flags, version_index, requires_info, exports, opens, uses, provides };
        assert(acc =~= x.encoding());
        Ok((x, p8))
    }

    proof fn lemma_prefix_free(a: Self, b: Self, bytes: Seq<u8>, pos: int) {
        lemma_module_info_parts(a, bytes, pos);
        lemma_module_info_parts(b, bytes, pos);
        assert(be16(a.info_index) == bytes.subrange(pos, pos + 2));
        assert(be16(b.info_index) == bytes.subrange(pos, pos + 2));
        assert(be16(a.flags) == bytes.subrange(pos + (be16(a.info_index)).len(), pos + (be16(a.info_index)).len() + 2));
        assert(be16(b.flags) == bytes.subrange(pos + (be16(a.info_index)).len(), pos + (be16(a.info_index)).len() + 2));
        assert(be16(a.version_index) == bytes.subrange(pos + (be16(a.info_index) + be16(a.flags)).len(), pos + (be16(a.info_index) + be16(a.flags)).len() + 2));
        assert(be16(b.version_index) == bytes.subrange(pos + (be16(a.info_index) + be16(a.flags)).len(), pos + (be16(a.info_index) + be16(a.flags)).len() + 2));
        lemma_counted_prefix_free(a.requires_info@, b.requires_info@, bytes, pos + (be16(a.info_index) + be16(a.flags) + be16(a.version_index)).len());
        lemma_counted_prefix_free(a.exports@, b.exports@, bytes, pos + (be16(a.info_index) + be16(a.flags) + be16(a.version_index) + counted(a.requires_info@)).len());
        lemma_counted_prefix_free(a.opens@, b.opens@, bytes, pos + (be16(a.info_index) + be16(a.flags) + be16(a.version_index) + counted(a.requires_info@) + counted(a.exports@)).len());
        lemma_counted_prefix_free(a.uses@, b.uses@, bytes, pos + (be16(a.info_index) + be16(a.flags) + be16(a.version_index) + counted(a.requires_info@) + counted(a.exports@) + counted(a.opens@)).len());
        lemma_counted_prefix_free(a.provides@, b.provides@, bytes, pos + (be16(a.info_index) + be16(a.flags) + be16(a.version_index) + counted(a.requires_info@) + counted(a.exports@) + counted(a.opens@) + counted(a.uses@)).len());
    }
}

/// An attribute, as it is stored: the index of its name and its bytes.
#[derive(Debug, PartialEq, Eq, Clone)]
pub struct AttributeInfo {
    /// The constant pool index of the name of the attribute.
    pub name_idx: u16,
    /// The bytes of the attribute.
    pub info: Vec<u8>,
}

/// Each part of the bytes of an `AttributeInfo` is held where it starts.
proof fn lemma_attribute_info_parts(y: AttributeInfo, bytes: Seq<u8>, pos: int)
    requires
        holds_at(bytes, pos, y.encoding()),
    ensures
        holds_at(bytes, pos, be16(y.name_idx)),
        holds_at(bytes, pos + (be16(y.name_idx)).len(), chunk(y.info@)),
{
    lemma_holds_concat(bytes, pos, be16(y.name_idx), chunk(y.info@));
}

/// Whether an `AttributeInfo` that can be written is held at `pos`.
spec fn attribute_info_readable(bytes: Seq<u8>, pos: int) -> bool {
    exists|y: AttributeInfo| #[trigger] y.writable() && holds_at(bytes, pos, y.encoding())
}

/// An `AttributeInfo` that can be written and is held at `pos`, if there is one.
spec fn attribute_info_witness(bytes: Seq<u8>, pos: int) -> AttributeInfo {
    choose|y: AttributeInfo| #[trigger] y.writable() && holds_at(bytes, pos, y.encoding())
}

impl Element for AttributeInfo {
    open spec fn encoding(&self) -> Seq<u8> {
        be16(self.name_idx) + chunk(self.info@)
    }

    open spec fn writable(&self) -> bool {
        chunk_writable(self.info@)
    }

    fn to_writer(&self, out: &mut Vec<u8>) -> (r: Result<(), GenerationError>) {
        let ghost start = out@;
        put_u16(out, self.name_idx);
        assert(out@ =~= start + be16(self.name_idx));
        let ghost before = out@;
        let written = write_chunk(&self.info, out);
        proof {
            assert(out@.subrange(0, start.len() as int) =~= before.subrange(0, start.len() as int)) by {
                assert(out@.subrange(0, before.len() as int) == before);
            }
        }
        if written.is_err() {
            assert(out@.subrange(0, start.len() as int) =~= start);
            return written;
        }
        assert(out@ =~= start + be16(self.name_idx) + chunk(self.info@));
        assert(out@.subrange(0, start.len() as int) =~= start);
        Ok(())
    }

    #[verifier::spinoff_prover]
    fn from_reader(bytes: &[u8], pos: usize) -> (r: Result<(Self, usize), ParseError>) {
        let ghost mut acc: Seq<u8> = Seq::empty();
        assert(bytes@.subrange(pos as int, pos as int) =~= acc);
        let p0 = pos;
        let (name_idx, p1) = match take_u16(bytes, p0) {
            Ok(v) => v,
            Err(e) => {
                proof {
                    if attribute_info_readable(bytes@, pos as int) {
                        let y = attribute_info_witness(bytes@, pos as int);
                        lemma_attribute_info_parts(y, bytes@, pos as int);
                        assert(holds_at(bytes@, p0 as int, be16(y.name_idx)));
                    }
                }
                return Err(e);
            },
        };
        proof {
            lemma_holds_concat(bytes@, pos as int, acc, be16(name_idx));
        }
        assert(attribute_info_readable(bytes@, pos as int) ==> acc + be16(name_idx) == be16(attribute_info_witness(bytes@, pos as int).name_idx)) by {
            if attribute_info_readable(bytes@, pos as int) {
                let y = attribute_info_witness(bytes@, pos as int);
                lemma_attribute_info_parts(y, bytes@, pos as int);
                assert(be16(name_idx) == bytes@.subrange(p0 as int, p0 + 2));
                assert(be16(y.name_idx) == bytes@.subrange(p0 as int, p0 + 2));
            }
        }
        proof {
            acc = acc + be16(name_idx);
        }
        let (info, p2) = match read_chunk(bytes, p1) {
            Ok(v) => v,
            Err(e) => {
                proof {
                    if attribute_info_readable(bytes@, pos as int) {
                        let y = attribute_info_witness(bytes@, pos as int);
                        lemma_attribute_info_parts(y, bytes@, pos as int);
                        assert(holds_at(bytes@, p1 as int, chunk(y.info@)));
                        assert(chunk_writable(y.info@));
                    }
                }
                return Err(e);
            },
        };
        proof {
            lemma_holds_concat(bytes@, pos as int, acc, chunk(info@));
        }
        assert(attribute_info_readable(bytes@, pos as int) ==> acc + chunk(info@) == be16(attribute_info_witness(bytes@, pos as int).name_idx) + chunk(attribute_info_witness(bytes@, pos as int).info@)) by {
            if attribute_info_readable(bytes@, pos as int) {
                let y = attribute_info_witness(bytes@, pos as int);
                lemma_attribute_info_parts(y, bytes@, pos as int);
                assert(chunk_writable(y.info@));
                lemma_chunk_prefix_free(info@, y.info@, bytes@, p1 as int);
            }
        }
        proof {
            acc = acc + chunk(info@);
        }
        let x = AttributeInfo { name_idx, info };
        assert(acc =~= x.encoding());
        Ok((x, p2))
    }

    proof fn lemma_prefix_free(a: Self, b: Self, bytes: Seq<u8>, pos: int) {
        lemma_attribute_info_parts(a, bytes, pos);
        lemma_attribute_info_parts(b, bytes, pos);
        assert(be16(a.name_idx) == bytes.subrange(pos, pos + 2));
        assert(be16(b.name_idx) == bytes.subrange(pos, pos + 2));
        lemma_chunk_prefix_free(a.info@, b.info@, bytes, pos + (be16(a.name_idx)).len());
    }
}

/// The `Code` attribute.
#[derive(Debug, PartialEq, Eq, Clone)]
pub struct Code {
    /// The maximum depth of the operand stack.
    pub max_stack: u16,
    /// The number of local variables.
    pub max_locals: u16,
    /// The bytes of the instructions.
    pub instruction_bytes: Vec<u8>,
    /// The exception handlers.
    pub exception_table: Vec<ExceptionTableEntry>,
    /// The attributes of the code.
    pub attributes: Vec<AttributeInfo>,
}

/// Each part of the bytes of a `Code` is held where it starts.
proof fn lemma_code_parts(y: Code, bytes: Seq<u8>, pos: int)
    requires
        holds_at(bytes, pos, y.encoding()),
    ensures
        holds_at(bytes, pos, be16(y.max_stack)),
        holds_at(bytes, pos + (be16(y.max_stack)).len(), be16(y.max_locals)),
        holds_at(bytes, pos + (be16(y.max_stack) + be16(y.max_locals)).len(), chunk(y.instruction_bytes@)),
        holds_at(bytes, pos + (be16(y.max_stack) + be16(y.max_locals) + chunk(y.instruction_bytes@)).len(), counted(y.exception_table@)),
        holds_at(bytes, pos + (be16(y.max_stack) + be16(y.max_locals) + chunk(y.instruction_bytes@) + counted(y.exception_table@)).len(), counted(y.attributes@)),
{
    lemma_holds_concat(bytes, pos, be16(y.max_stack) + be16(y.max_locals) + chunk(y.instruction_bytes@) + counted(y.exception_table@), counted(y.attributes@));
    lemma_holds_concat(bytes, pos, be16(y.max_stack) + be16(y.max_locals) + chunk(y.instruction_bytes@), counted(y.exception_table@));
    lemma_holds_concat(bytes, pos, be16(y.max_stack) + be16(y.max_locals), chunk(y.instruction_bytes@));
    lemma_holds_concat(bytes, pos, be16(y.max_stack), be16(y.max_locals));
}

/// Whether a `Code` that can be written is held at `pos`.
spec fn code_readable(bytes: Seq<u8>, pos: int) -> bool {
    exists|y: Code| #[trigger] y.writable() && holds_at(bytes, pos, y.encoding())
}

/// A `Code` that can be written and is held at `pos`, if there is one.
spec fn code_witness(bytes: Seq<u8>, pos: int) -> Code {
    choose|y: Code| #[trigger] y.writable() && holds_at(bytes, pos, y.encoding())
}

impl Element for Code {
    open spec fn encoding(&self) -> Seq<u8> {
        be16(self.max_stack) + be16(self.max_locals) + chunk(self.instruction_bytes@) + counted(self.exception_table@) + counted(self.attributes@)
    }

    open spec fn writable(&self) -> bool {
        counted_writable(self.exception_table@) && counted_writable(self.attributes@) && chunk_writable(self.instruction_bytes@)
    }

    fn to_writer(&self, out: &mut Vec<u8>) -> (r: Result<(), GenerationError>) {
        let ghost start = out@;
        put_u16(out, self.max_stack);
        assert(out@ =~= start + be16(self.max_stack));
        put_u16(out, self.max_locals);
        assert(out@ =~= start + be16(self.max_stack) + be16(self.max_locals));
        let ghost before = out@;
        let written = write_chunk(&self.instruction_bytes, out);
        proof {
            assert(out@.subrange(0, start.len() as int) =~= before.subrange(0, start.len() as int)) by {
                assert(out@.subrange(0, before.len() as int) == before);
            }
        }
        if written.is_err() {
            assert(out@.subrange(0, start.len() as int) =~= start);
            return written;
        }
        assert(out@ =~= start + be16(self.max_stack) + be16(self.max_locals) + chunk(self.instruction_bytes@));
        let ghost before = out@;
        let written = write_counted(&self.exception_table, out);
        proof {
            assert(out@.subrange(0, start.len() as int) =~= before.subrange(0, start.len() as int)) by {
                assert(out@.subrange(0, before.len() as int) == before);
            }
        }
        if written.is_err() {
            assert(out@.subrange(0, start.len() as int) =~= start);
            return written;
        }
        assert(out@ =~= start + be16(self.max_stack) + be16(self.max_locals) + chunk(self.instruction_bytes@) + counted(self.exception_table@));
        let ghost before = out@;
        let written = write_counted(&self.attributes, out);
        proof {
            assert(out@.subrange(0, start.len() as int) =~= before.subrange(0, start.len() as int)) by {
                assert(out@.subrange(0, before.len() as int) == before);
            }
        }
        if written.is_err() {
            assert(out@.subrange(0, start.len() as int) =~= start);
            return written;
        }
        assert(out@ =~= start + be16(self.max_stack) + be16(self.max_locals) + chunk(self.instruction_bytes@) + counted(self.exception_table@) + counted(self.attributes@));
        assert(out@.subrange(0, start.len() as int) =~= start);
        Ok(())
    }

    #[verifier::rlimit(100)]
    #[verifier::spinoff_prover]
    fn from_reader(bytes: &[u8], pos: usize) -> (r: Result<(Self, usize), ParseError>) {
        let ghost mut acc: Seq<u8> = Seq::empty();
        assert(bytes@.subrange(pos as int, pos as int) =~= acc);
        let p0 = pos;
        let (max_stack, p1) = match take_u16(bytes, p0) {
            Ok(v) => v,
            Err(e) => {
                proof {
                    if code_readable(bytes@, pos as int) {
                        let y = code_witness(bytes@, pos as int);
                        lemma_code_parts(y, bytes@, pos as int);
                        assert(holds_at(bytes@, p0 as int, be16(y.max_stack)));
                    }
                }
                return Err(e);
            },
        };
        proof {
            lemma_holds_concat(bytes@, pos as int, acc, be16(max_stack));
        }
        assert(code_readable(bytes@, pos as int) ==> acc + be16(max_stack) == be16(code_witness(bytes@, pos as int).max_stack)) by {
            if code_readable(bytes@, pos as int) {
                let y = code_witness(bytes@, pos as int);
                lemma_code_parts(y, bytes@, pos as int);
                assert(be16(max_stack) == bytes@.subrange(p0 as int, p0 + 2));
                assert(be16(y.max_stack) == bytes@.subrange(p0 as int, p0 + 2));
            }
        }
        proof {
            acc = acc + be16(max_stack);
        }
        let (max_locals, p2) = match take_u16(bytes, p1) {
            Ok(v) => v,
            Err(e) => {
                proof {
                    if code_readable(bytes@, pos as int) {
                        let y = code_witness(bytes@, pos as int);
                        lemma_code_parts(y, bytes@, pos as int);
                        assert(holds_at(bytes@, p1 as int, be16(y.max_locals)));
                    }
                }
                return Err(e);
            },
        };
        proof {
            lemma_holds_concat(bytes@, pos as int, acc, be16(max_locals));
        }
        assert(code_readable(bytes@, pos as int) ==> acc + be16(max_locals) == be16(code_witness(bytes@, pos as int).max_stack) + be16(code_witness(bytes@, pos as int).max_locals)) by {
            if code_readable(bytes@, pos as int) {
                let y = code_witness(bytes@, pos as int);
                lemma_code_parts(y, bytes@, pos as int);
                assert(be16(max_locals) == bytes@.subrange(p1 as int, p1 + 2));
                assert(be16(y.max_locals) == bytes@.subrange(p1 as int, p1 + 2));
            }
        }
        proof {
            acc = acc + be16(max_locals);
        }
        let (instruction_bytes, p3) = match read_chunk(bytes, p2) {
            Ok(v) => v,
            Err(e) => {
                proof {
                    if code_readable(bytes@, pos as int) {
                        let y = code_witness(bytes@, pos as int);
                        lemma_code_parts(y, bytes@, pos as int);
                        assert(holds_at(bytes@, p2 as int, chunk(y.instruction_bytes@)));
                        assert(chunk_writable(y.instruction_bytes@));
                    }
                }
                return Err(e);
            },
        };
        proof {
            lemma_holds_concat(bytes@, pos as int, acc, chunk(instruction_bytes@));
        }
        assert(code_readable(bytes@, pos as int) ==> acc + chunk(instruction_bytes@) == be16(code_witness(bytes@, pos as int).max_stack) + be16(code_witness(bytes@, pos as int).max_locals) + chunk(code_witness(bytes@, pos as int).instruction_bytes@)) by {
            if code_readable(bytes@, pos as int) {
                let y = code_witness(bytes@, pos as int);
                lemma_code_parts(y, bytes@, pos as int);
                assert(chunk_writable(y.instruction_bytes@));
                lemma_chunk_prefix_free(instruction_bytes@, y.instruction_bytes@, bytes@, p2 as int);
            }
        }
        proof {
            acc = acc + chunk(instruction_bytes@);
        }
        let (exception_table, p4) = match read_counted::<ExceptionTableEntry>(bytes, p3) {
            Ok(v) => v,
            Err(e) => {
                proof {
                    if code_readable(bytes@, pos as int) {
                        let y = code_witness(bytes@, pos as int);
                        lemma_code_parts(y, bytes@, pos as int);
                        assert(holds_at(bytes@, p3 as int, counted(y.exception_table@)));
                        assert(counted_writable(y.exception_table@));
                    }
                }
                return Err(e);
            },
        };
        proof {
            lemma_holds_concat(bytes@, pos as int, acc, counted(exception_table@));
        }
        assert(code_readable(bytes@, pos as int) ==> acc + counted(exception_table@) == be16(code_witness(bytes@, pos as int).max_stack) + be16(code_witness(bytes@, pos as int).max_locals) + chunk(code_witness(bytes@, pos as int).instruction_bytes@) + counted(code_witness(bytes@, pos as int).exception_table@)) by {
            if code_readable(bytes@, pos as int) {
                let y = code_witness(bytes@, pos as int);
                lemma_code_parts(y, bytes@, pos as int);
                assert(counted_writable(y.exception_table@));
                lemma_counted_prefix_free(exception_table@, y.exception_table@, bytes@, p3 as int);
            }
        }
        proof {
            acc = acc + counted(exception_table@);
        }
        let (attributes, p5) = match read_counted::<AttributeInfo>(bytes, p4) {
            Ok(v) => v,
            Err(e) => {
                proof {
                    if code_readable(bytes@, pos as int) {
                        let y = code_witness(bytes@, pos as int);
                        lemma_code_parts(y, bytes@, pos as int);
                        assert(holds_at(bytes@, p4 as int, counted(y.attributes@)));
                        assert(counted_writable(y.attributes@));
                    }
                }
                return Err(e);
            },
        };
        proof {
            lemma_holds_concat(bytes@, pos as int, acc, counted(attributes@));
        }
        assert(code_readable(bytes@, pos as int) ==> acc + counted(attributes@) == be16(code_witness(bytes@, pos as int).max_stack) + be16(code_witness(bytes@, pos as int).max_locals) + chunk(code_witness(bytes@, pos as int).instruction_bytes@) + counted(code_witness(bytes@, pos as int).exception_table@) + counted(code_witness(bytes@, pos as int).attributes@)) by {
            if code_readable(bytes@, pos as int) {
                let y = code_witness(bytes@, pos as int);
                lemma_code_parts(y, bytes@, pos as int);
                assert(counted_writable(y.attributes@));
                lemma_counted_prefix_free(attributes@, y.attributes@, bytes@, p4 as int);
            }
        }
        proof {
            acc = acc + counted(attributes@);
        }
        let x = Code { max_stack, max_locals, instruction_bytes, exception_table, attributes };
        assert(acc =~= x.encoding());
        Ok((x, p5))
    }

    proof fn lemma_prefix_free(a: Self, b: Self, bytes: Seq<u8>, pos: int) {
        lemma_code_parts(a, bytes, pos);
        lemma_code_parts(b, bytes, pos);
        assert(be16(a.max_stack) == bytes.subrange(pos, pos + 2));
        assert(be16(b.max_stack) == bytes.subrange(pos, pos + 2));
        assert(be16(a.max_locals) == bytes.subrange(pos + (be16(a.max_stack)).len(), pos + (be16(a.max_stack)).len() + 2));
        assert(be16(b.max_locals) == bytes.subrange(pos + (be16(a.max_stack)).len(), pos + (be16(a.max_stack)).len() + 2));
        lemma_chunk_prefix_free(a.instruction_bytes@, b.instruction_bytes@, bytes, pos + (be16(a.max_stack) + be16(a.max_locals)).len());
        lemma_counted_prefix_free(a.exception_table@, b.exception_table@, bytes, pos + (be16(a.max_stack) + be16(a.max_locals) + chunk(a.instruction_bytes@)).len());
        lemma_counted_prefix_free(a.attributes@, b.attributes@, bytes, pos + (be16(a.max_stack) + be16(a.max_locals) + chunk(a.instruction_bytes@) + counted(a.exception_table@)).len());
    }
}

/// A component of a record, in the `Record` attribute.
#[derive(Debug, PartialEq, Eq, Clone)]
pub struct RecordComponentInfo {
    /// The constant pool index of the name.
    pub name_index: u16,
    /// The constant pool index of the descriptor.
    pub descriptor_index: u16,
    /// The attributes of the component.
    pub attributes: Vec<AttributeInfo>,
}

/// Each part of the bytes of a `RecordComponentInfo` is held where it starts.
proof fn lemma_record_component_info_parts(y: RecordComponentInfo, bytes: Seq<u8>, pos: int)
    requires
        holds_at(bytes, pos, y.encoding()),
    ensures
        holds_at(bytes, pos, be16(y.name_index)),
        holds_at(bytes, pos + (be16(y.name_index)).len(), be16(y.descriptor_index)),
        holds_at(bytes, pos + (be16(y.name_index) + be16(y.descriptor_index)).len(), counted(y.attributes@)),
{
    lemma_holds_concat(bytes, pos, be16(y.name_index) + be16(y.descriptor_index), counted(y.attributes@));
    lemma_holds_concat(bytes, pos, be16(y.name_index), be16(y.descriptor_index));
}

/// Whether a `RecordComponentInfo` that can be written is held at `pos`.
spec fn record_component_info_readable(bytes: Seq<u8>, pos: int) -> bool {
    exists|y: RecordComponentInfo| #[trigger] y.writable() && holds_at(bytes, pos, y.encoding())
}

/// A `RecordComponentInfo` that can be written and is held at `pos`, if there is one.
spec fn record_component_info_witness(bytes: Seq<u8>, pos: int) -> RecordComponentInfo {
    choose|y: RecordComponentInfo| #[trigger] y.writable() && holds_at(bytes, pos, y.encoding())
}

impl Element for RecordComponentInfo {
    open spec fn encoding(&self) -> Seq<u8> {
        be16(self.name_index) + be16(self.descriptor_index) + counted(self.attributes@)
    }

    open spec fn writable(&self) -> bool {
        counted_writable(self.attributes@)
    }

    fn to_writer(&self, out: &mut Vec<u8>) -> (r: Result<(), GenerationError>) {
        let ghost start = out@;
        put_u16(out, self.name_index);
        assert(out@ =~= start + be16(self.name_index));
        put_u16(out, self.descriptor_index);
        assert(out@ =~= start + be16(self.name_index) + be16(self.descriptor_index));
        let ghost before = out@;
        let written = write_counted(&self.attributes, out);
        proof {
            assert(out@.subrange(0, start.len() as int) =~= before.subrange(0, start.len() as int)) by {
                assert(out@.subrange(0, before.len() as int) == before);
            }
        }
        if written.is_err() {
            assert(out@.subrange(0, start.len() as int) =~= start);
            return written;
        }
        assert(out@ =~= start + be16(self.name_index) + be16(self.descriptor_index) + counted(self.attributes@));
        assert(out@.subrange(0, start.len() as int) =~= start);
        Ok(())
    }

    #[verifier::spinoff_prover]
    fn from_reader(bytes: &[u8], pos: usize) -> (r: Result<(Self, usize), ParseError>) {
        let ghost mut acc: Seq<u8> = Seq::empty();
        assert(bytes@.subrange(pos as int, pos as int) =~= acc);
        let p0 = pos;
        let (name_index, p1) = match take_u16(bytes, p0) {
            Ok(v) => v,
            Err(e) => {
                proof {
                    if record_component_info_readable(bytes@, pos as int) {
                        let y = record_component_info_witness(bytes@, pos as int);
                        lemma_record_component_info_parts(y, bytes@, pos as int);
                        assert(holds_at(bytes@, p0 as int, be16(y.name_index)));
                    }
                }
                return Err(e);
            },
        };
        proof {
            lemma_holds_concat(bytes@, pos as int, acc, be16(name_index));
        }
        assert(record_component_info_readable(bytes@, pos as int) ==> acc + be16(name_index) == be16(record_component_info_witness(bytes@, pos as int).name_index)) by {
            if record_component_info_readable(bytes@, pos as int) {
                let y = record_component_info_witness(bytes@, pos as int);
                lemma_record_component_info_parts(y, bytes@, pos as int);
                assert(be16(name_index) == bytes@.subrange(p0 as int, p0 + 2));
                assert(be16(y.name_index) == bytes@.subrange(p0 as int, p0 + 2));
            }
        }
        proof {
            acc = acc + be16(name_index);
        }
        let (descriptor_index, p2) = match take_u16(bytes, p1) {
            Ok(v) => v,
            Err(e) => {
                proof {
                    if record_component_info_readable(bytes@, pos as int) {
                        let y = record_component_info_witness(bytes@, pos as int);
                        lemma_record_component_info_parts(y, bytes@, pos as int);
                        assert(holds_at(bytes@, p1 as int, be16(y.descriptor_index)));
                    }
                }
                return Err(e);
            },
        };
        proof {
            lemma_holds_concat(bytes@, pos as int, acc, be16(descriptor_index));
        }
        assert(record_component_info_readable(bytes@, pos as int) ==> acc + be16(descriptor_index) == be16(record_component_info_witness(bytes@, pos as int).name_index) + be16(record_component_info_witness(bytes@, pos as int).descriptor_index)) by {
            if record_component_info_readable(bytes@, pos as int) {
                let y = record_component_info_witness(bytes@, pos as int);
                lemma_record_component_info_parts(y, bytes@, pos as int);
                assert(be16(descriptor_index) == bytes@.subrange(p1 as int, p1 + 2));
                assert(be16(y.descriptor_index) == bytes@.subrange(p1 as int, p1 + 2));
            }
        }
        proof {
            acc = acc + be16(descriptor_index);
        }
        let (attributes, p3) = match read_counted::<AttributeInfo>(bytes, p2) {
            Ok(v) => v,
            Err(e) => {
                proof {
                    if record_component_info_readable(bytes@, pos as int) {
                        let y = record_component_info_witness(bytes@, pos as int);
                        lemma_record_component_info_parts(y, bytes@, pos as int);
                        assert(holds_at(bytes@, p2 as int, counted(y.attributes@)));
                        assert(counted_writable(y.attributes@));
                    }
                }
                return Err(e);
            },
        };
        proof {
            lemma_holds_concat(bytes@, pos as int, acc, counted(attributes@));
        }
        assert(record_component_info_readable(bytes@, pos as int) ==> acc + counted(attributes@) == be16(record_component_info_witness(bytes@, pos as int).name_index) + be16(record_component_info_witness(bytes@, pos as int).descriptor_index) + counted(record_component_info_witness(bytes@, pos as int).attributes@)) by {
            if record_component_info_readable(bytes@, pos as int) {
                let y = record_component_info_witness(bytes@, pos as int);
                lemma_record_component_info_parts(y, bytes@, pos as int);
                assert(counted_writable(y.attributes@));
                lemma_counted_prefix_free(attributes@, y.attributes@, bytes@, p2 as int);
            }
        }
        proof {
            acc = acc + counted(attributes@);
        }
        let x = RecordComponentInfo { name_index, descriptor_index, attributes };
        assert(acc =~= x.encoding());
        Ok((x, p3))
    }

    proof fn lemma_prefix_free(a: Self, b: Self, bytes: Seq<u8>, pos: int) {
        lemma_record_component_info_parts(a, bytes, pos);
        lemma_record_component_info_parts(b, bytes, pos);
        assert(be16(a.name_index) == bytes.subrange(pos, pos + 2));
        assert(be16(b.name_index) == bytes.subrange(pos, pos + 2));
        assert(be16(a.descriptor_index) == bytes.subrange(pos + (be16(a.name_index)).len(), pos + (be16(a.name_index)).len() + 2));
        assert(be16(b.descriptor_index) == bytes.subrange(pos + (be16(a.name_index)).len(), pos + (be16(a.name_index)).len() + 2));
        lemma_counted_prefix_free(a.attributes@, b.attributes@, bytes, pos + (be16(a.name_index) + be16(a.descriptor_index)).len());
    }
}

/// A lower-case hexadecimal digit.
pub open spec fn hex_lower_digit(d: int) -> char {
    if d < 10 {
        (d + 48) as char
    } else {
        (d + 87) as char
    }
}

/// The lower-case hexadecimal text of a byte, without leading zeros.
pub open spec fn hex_lower(v: u8) -> Seq<char> {
    if v >= 16 {
        seq![hex_lower_digit(v as int / 16), hex_lower_digit(v as int % 16)]
    } else {
        seq![hex_lower_digit(v as int)]
    }
}

/// Appends the lower-case hexadecimal digits of `v`, without leading zeros.
pub(crate) fn push_hex_lower(s: &mut String, v: u8)
    ensures
        final(s)@ == old(s)@ + hex_lower(v),
{
    let digits = [
        "0", "1", "2", "3", "4", "5", "6", "7", "8", "9", "a", "b", "c", "d", "e", "f",
    ];
    proof {
        reveal_strlit("0");
        reveal_strlit("1");
        reveal_strlit("2");
        reveal_strlit("3");
        reveal_strlit("4");
        reveal_strlit("5");
        reveal_strlit("6");
        reveal_strlit("7");
        reveal_strlit("8");
        reveal_strlit("9");
        reveal_strlit("a");
        reveal_strlit("b");
        reveal_strlit("c");
        reveal_strlit("d");
        reveal_strlit("e");
        reveal_strlit("f");
    }
    assert(forall|i: int| 0 <= i < 16 ==> (#[trigger] digits@[i])@ == seq![hex_lower_digit(i)]);
    if v >= 16 {
        let hi: &str = digits[(v / 16) as usize];
        assert(hi@ == seq![hex_lower_digit(v as int / 16)]);
        s.append(hi);
    }
    let lo: &str = digits[(v % 16) as usize];
    assert(lo@ == seq![hex_lower_digit(v as int % 16)]);
    s.append(lo);
    assert(s@ =~= old(s)@ + hex_lower(v));
}

/// The error for a tag that denotes nothing: the bytes are malformed. Its message is `message`
/// followed by the tag in decimal, or in hexadecimal when `hex` holds.
fn bad_tag(message: &str, tag: u8, hex: bool) -> (r: ParseError)
    ensures
        r.kind_of() == ParsingErrorKind::Malformed,
        r.message_of() == message@ + (if hex {
            hex_lower(tag)
        } else {
            decimal(tag as int)
        }),
{
    let mut text = String::new();
    text.append(message);
    if hex {
        push_hex_lower(&mut text, tag);
    } else {
        push_decimal(&mut text, tag as i64);
    }
    ParseError::malform(text)
}

impl Element for (ProgramCounter, u16, u16) {
    open spec fn encoding(&self) -> Seq<u8> {
        be16(self.0@) + be16(self.1) + be16(self.2)
    }

    open spec fn writable(&self) -> bool {
        true
    }

    fn to_writer(&self, out: &mut Vec<u8>) -> (r: Result<(), GenerationError>) {
        put_u16(out, self.0.into());
        put_u16(out, self.1);
        put_u16(out, self.2);
        assert(out@ =~= old(out)@ + self.encoding());
        assert(out@.subrange(0, old(out)@.len() as int) =~= old(out)@);
        Ok(())
    }

    fn from_reader(bytes: &[u8], pos: usize) -> (r: Result<(Self, usize), ParseError>) {
        if bytes.len() - pos < 6 {
            proof {
                if exists|y: Self| #[trigger] y.writable() && holds_at(bytes@, pos as int, y.encoding()) {
                    let y = choose|y: Self| #[trigger] y.writable() && holds_at(bytes@, pos as int, y.encoding());
                    assert(y.encoding().len() == 6);
                }
            }
            return Err(end_of_input());
        }
        let (a, p1) = take_u16(bytes, pos).unwrap();
        let (b, p2) = take_u16(bytes, p1).unwrap();
        let (c, p3) = take_u16(bytes, p2).unwrap();
        let x = (ProgramCounter::new(a), b, c);
        proof {
            lemma_holds_concat(bytes@, pos as int, be16(a), be16(b));
            lemma_holds_concat(bytes@, pos as int, be16(a) + be16(b), be16(c));
        }
        Ok((x, p3))
    }

    proof fn lemma_prefix_free(a: Self, b: Self, bytes: Seq<u8>, pos: int) {
    }
}

/// The type of a value in a frame of the `StackMapTable` attribute.
#[derive(Debug, PartialEq, Eq, Structural, Clone, Copy)]
pub enum VerificationTypeInfo {
    /// The `top` type.
    Top,
    /// The `int` type.
    Integer,
    /// The `float` type.
    Float,
    /// The `double` type.
    Double,
    /// The `long` type.
    Long,
    /// The type of `null`.
    Null,
    /// `this` in a constructor before the super constructor is called.
    UninitializedThis,
    /// An object of the class at the constant pool index.
    Object {
        /// The class info index.
        class_info_index: u16,
    },
    /// An object created by the `new` at the offset and not initialized yet.
    Uninitialized {
        /// The offset.
        offset: u16,
    },
}

/// The tag of VerificationTypeInfo in a class file.
pub open spec fn verification_type_info_tag(x: VerificationTypeInfo) -> u8 {
    match x {
        VerificationTypeInfo::Top => 0x00,
        VerificationTypeInfo::Integer => 0x01,
        VerificationTypeInfo::Float => 0x02,
        VerificationTypeInfo::Double => 0x03,
        VerificationTypeInfo::Long => 0x04,
        VerificationTypeInfo::Null => 0x05,
        VerificationTypeInfo::UninitializedThis => 0x06,
        VerificationTypeInfo::Object { .. } => 0x07,
        VerificationTypeInfo::Uninitialized { .. } => 0x08,
    }
}

/// The bytes of VerificationTypeInfo after its tag.
pub open spec fn verification_type_info_payload(x: VerificationTypeInfo) -> Seq<u8> {
    match x {
        VerificationTypeInfo::Top => Seq::<u8>::empty(),
        VerificationTypeInfo::Integer => Seq::<u8>::empty(),
        VerificationTypeInfo::Float => Seq::<u8>::empty(),
        VerificationTypeInfo::Double => Seq::<u8>::empty(),
        VerificationTypeInfo::Long => Seq::<u8>::empty(),
        VerificationTypeInfo::Null => Seq::<u8>::empty(),
        VerificationTypeInfo::UninitializedThis => Seq::<u8>::empty(),
        VerificationTypeInfo::Object { class_info_index } => be16(class_info_index),
        VerificationTypeInfo::Uninitialized { offset } => be16(offset),
    }
}

/// Whether VerificationTypeInfo that can be written is held at `pos`.
spec fn verification_type_info_readable(bytes: Seq<u8>, pos: int) -> bool {
    exists|y: VerificationTypeInfo| #[trigger] y.writable() && holds_at(bytes, pos, y.encoding())
}

/// VerificationTypeInfo that can be written and is held at `pos`, if there is one.
spec fn verification_type_info_witness(bytes: Seq<u8>, pos: int) -> VerificationTypeInfo {
    choose|y: VerificationTypeInfo| #[trigger] y.writable() && holds_at(bytes, pos, y.encoding())
}

/// The tag and the rest of the bytes of VerificationTypeInfo are held where they start.
proof fn lemma_verification_type_info_parts(y: VerificationTypeInfo, bytes: Seq<u8>, pos: int)
    requires
        holds_at(bytes, pos, y.encoding()),
    ensures
        holds_at(bytes, pos, seq![verification_type_info_tag(y)]),
        holds_at(bytes, pos + 1, verification_type_info_payload(y)),
        bytes[pos] == verification_type_info_tag(y),
{
    lemma_holds_concat(bytes, pos, seq![verification_type_info_tag(y)], verification_type_info_payload(y));
    assert(bytes.subrange(pos, pos + 1)[0] == bytes[pos]);
}

impl Element for VerificationTypeInfo {
    open spec fn encoding(&self) -> Seq<u8> {
        seq![verification_type_info_tag(*self)] + verification_type_info_payload(*self)
    }

    open spec fn writable(&self) -> bool {
        true
    }

    fn to_writer(&self, out: &mut Vec<u8>) -> (r: Result<(), GenerationError>) {
        let ghost start = out@;
        match self {
            VerificationTypeInfo::Top => {
                out.push(0x00);
            },
            VerificationTypeInfo::Integer => {
                out.push(0x01);
            },
            VerificationTypeInfo::Float => {
                out.push(0x02);
            },
            VerificationTypeInfo::Double => {
                out.push(0x03);
            },
            VerificationTypeInfo::Long => {
                out.push(0x04);
            },
            VerificationTypeInfo::Null => {
                out.push(0x05);
            },
            VerificationTypeInfo::UninitializedThis => {
                out.push(0x06);
            },
            VerificationTypeInfo::Object { class_info_index } => {
                out.push(0x07);
                put_u16(out, *class_info_index);
            },
            VerificationTypeInfo::Uninitialized { offset } => {
                out.push(0x08);
                put_u16(out, *offset);
            },
        }
        assert(out@ =~= start + self.encoding());
        assert(out@.subrange(0, start.len() as int) =~= start);
        Ok(())
    }

    fn from_reader(bytes: &[u8], pos: usize) -> (r: Result<(Self, usize), ParseError>)
        ensures
            pos < bytes@.len() && bytes@[pos as int] > 8 ==> (r matches Err(e) && e.kind_of()
                == ParsingErrorKind::Malformed && e.message_of() == "Unknown verification type tag: "@
                + decimal(bytes@[pos as int] as int)),
    {
        let (tag, p) = match take_u8(bytes, pos) {
            Ok(v) => v,
            Err(e) => {
                proof {
                    if verification_type_info_readable(bytes@, pos as int) {
                        lemma_verification_type_info_parts(verification_type_info_witness(bytes@, pos as int), bytes@, pos as int);
                    }
                }
                return Err(e);
            },
        };
        assert(bytes@[pos as int] == tag) by {
            assert(bytes@.subrange(pos as int, pos + 1)[0] == bytes@[pos as int]);
        }
        proof {
            if verification_type_info_readable(bytes@, pos as int) {
                lemma_verification_type_info_parts(verification_type_info_witness(bytes@, pos as int), bytes@, pos as int);
            }
        }
        let x: Self = match tag {
            0x00 => {
                let x = VerificationTypeInfo::Top;
                assert(x.encoding() =~= seq![tag]);
                proof {
                    lemma_holds_concat(bytes@, pos as int, seq![tag], Seq::<u8>::empty());
                }
                return Ok((x, p));
            },
            0x01 => {
                let x = VerificationTypeInfo::Integer;
                assert(x.encoding() =~= seq![tag]);
                proof {
                    lemma_holds_concat(bytes@, pos as int, seq![tag], Seq::<u8>::empty());
                }
                return Ok((x, p));
            },
            0x02 => {
                let x = VerificationTypeInfo::Float;
                assert(x.encoding() =~= seq![tag]);
                proof {
                    lemma_holds_concat(bytes@, pos as int, seq![tag], Seq::<u8>::empty());
                }
                return Ok((x, p));
            },
            0x03 => {
                let x = VerificationTypeInfo::Double;
                assert(x.encoding() =~= seq![tag]);
                proof {
                    lemma_holds_concat(bytes@, pos as int, seq![tag], Seq::<u8>::empty());
                }
                return Ok((x, p));
            },
            0x04 => {
                let x = VerificationTypeInfo::Long;
                assert(x.encoding() =~= seq![tag]);
                proof {
                    lemma_holds_concat(bytes@, pos as int, seq![tag], Seq::<u8>::empty());
                }
                return Ok((x, p));
            },
            0x05 => {
                let x = VerificationTypeInfo::Null;
                assert(x.encoding() =~= seq![tag]);
                proof {
                    lemma_holds_concat(bytes@, pos as int, seq![tag], Seq::<u8>::empty());
                }
                return Ok((x, p));
            },
            0x06 => {
                let x = VerificationTypeInfo::UninitializedThis;
                assert(x.encoding() =~= seq![tag]);
                proof {
                    lemma_holds_concat(bytes@, pos as int, seq![tag], Seq::<u8>::empty());
                }
                return Ok((x, p));
            },
            0x07 => {
                let (a, q) = match take_u16(bytes, p) {
                    Ok(v) => v,
                    Err(e) => {
                        proof {
                            if verification_type_info_readable(bytes@, pos as int) {
                                lemma_verification_type_info_parts(verification_type_info_witness(bytes@, pos as int), bytes@, pos as int);
                            }
                        }
                        return Err(e);
                    },
                };
                let x = VerificationTypeInfo::Object { class_info_index: a };
                proof {
                    lemma_holds_concat(bytes@, pos as int, seq![tag], verification_type_info_payload(x));
                }
                return Ok((x, q));
            },
            0x08 => {
                let (a, q) = match take_u16(bytes, p) {
                    Ok(v) => v,
                    Err(e) => {
                        proof {
                            if verification_type_info_readable(bytes@, pos as int) {
                                lemma_verification_type_info_parts(verification_type_info_witness(bytes@, pos as int), bytes@, pos as int);
                            }
                        }
                        return Err(e);
                    },
                };
                let x = VerificationTypeInfo::Uninitialized { offset: a };
                proof {
                    lemma_holds_concat(bytes@, pos as int, seq![tag], verification_type_info_payload(x));
                }
                return Ok((x, q));
            },
            _ => {
                proof {
                    if verification_type_info_readable(bytes@, pos as int) {
                        lemma_verification_type_info_parts(verification_type_info_witness(bytes@, pos as int), bytes@, pos as int);
                    }
                }
                return Err(bad_tag("Unknown verification type tag: ", tag, false));
            },
        };
    }

    proof fn lemma_prefix_free(a: Self, b: Self, bytes: Seq<u8>, pos: int) {
        lemma_verification_type_info_parts(a, bytes, pos);
        lemma_verification_type_info_parts(b, bytes, pos);
        assert(verification_type_info_payload(a) == bytes.subrange(pos + 1, pos + 1 + verification_type_info_payload(a).len()));
        assert(verification_type_info_payload(b) == bytes.subrange(pos + 1, pos + 1 + verification_type_info_payload(b).len()));
    }
}

/// The location of a type annotation, with its target type.
#[derive(Debug, PartialEq, Eq, Clone)]
pub enum TargetInfo {
    /// A type parameter of a generic class or interface.
    TypeParameterOfClass {
        /// The index.
        index: u8,
    },
    /// A type parameter of a generic method or constructor.
    TypeParameterOfMethod {
        /// The index.
        index: u8,
    },
    /// A super class or an implemented interface.
    SuperType {
        /// The index.
        index: u16,
    },
    /// A bound of a type parameter of a class or interface.
    TypeParameterBoundOfClass {
        /// The type parameter index.
        type_parameter_index: u8,
        /// The bound index.
        bound_index: u8,
    },
    /// A bound of a type parameter of a method or constructor.
    TypeParameterBoundOfMethod {
        /// The type parameter index.
        type_parameter_index: u8,
        /// The bound index.
        bound_index: u8,
    },
    /// The type in a field declaration.
    Field,
    /// The return type of a method, or the type of a newly constructed object.
    TypeOfField,
    /// The receiver type of a method or constructor.
    Receiver,
    /// The type of a formal parameter.
    FormalParameter {
        /// The index.
        index: u8,
    },
    /// A type in a `throws` clause.
    Throws {
        /// The index.
        index: u16,
    },
    /// The type of local variables: where each starts, how long it lives, and its index.
    LocalVariable(Vec<(ProgramCounter, u16, u16)>),
    /// The type of resource variables: where each starts, how long it lives, and its index.
    ResourceVariable(Vec<(ProgramCounter, u16, u16)>),
    /// The type in an exception parameter.
    Catch {
        /// The index.
        index: u16,
    },
    /// The type in an `instanceof` expression.
    InstanceOf {
        /// The offset.
        offset: u16,
    },
    /// The type in a `new` expression.
    New {
        /// The offset.
        offset: u16,
    },
    /// The type in a constructor reference expression.
    NewMethodReference {
        /// The offset.
        offset: u16,
    },
    /// The type in a method reference expression.
    VarMethodReference {
        /// The offset.
        offset: u16,
    },
    /// The type in a cast.
    TypeInCast {
        /// The offset.
        offset: ProgramCounter,
        /// The index.
        index: u8,
    },
    /// A type argument of a generic constructor in a `new` expression.
    TypeArgumentInConstructor {
        /// The offset.
        offset: ProgramCounter,
        /// The index.
        index: u8,
    },
    /// A type argument of a generic method in a call.
    TypeArgumentInCall {
        /// The offset.
        offset: ProgramCounter,
        /// The index.
        index: u8,
    },
    /// A type argument of a generic constructor in a constructor reference.
    TypeArgumentInConstructorReference {
        /// The offset.
        offset: ProgramCounter,
        /// The index.
        index: u8,
    },
    /// A type argument of a generic method in a method reference.
    TypeArgumentInMethodReference {
        /// The offset.
        offset: ProgramCounter,
        /// The index.
        index: u8,
    },
}

/// The tag of TargetInfo in a class file.
pub open spec fn target_info_tag(x: TargetInfo) -> u8 {
    match x {
        TargetInfo::TypeParameterOfClass { .. } => 0x00,
        TargetInfo::TypeParameterOfMethod { .. } => 0x01,
        TargetInfo::SuperType { .. } => 0x10,
        TargetInfo::TypeParameterBoundOfClass { .. } => 0x11,
        TargetInfo::TypeParameterBoundOfMethod { .. } => 0x12,
        TargetInfo::Field => 0x13,
        TargetInfo::TypeOfField => 0x14,
        TargetInfo::Receiver => 0x15,
        TargetInfo::FormalParameter { .. } => 0x16,
        TargetInfo::Throws { .. } => 0x17,
        TargetInfo::LocalVariable(_) => 0x40,
        TargetInfo::ResourceVariable(_) => 0x41,
        TargetInfo::Catch { .. } => 0x42,
        TargetInfo::InstanceOf { .. } => 0x43,
        TargetInfo::New { .. } => 0x44,
        TargetInfo::NewMethodReference { .. } => 0x45,
        TargetInfo::VarMethodReference { .. } => 0x46,
        TargetInfo::TypeInCast { .. } => 0x47,
        TargetInfo::TypeArgumentInConstructor { .. } => 0x48,
        TargetInfo::TypeArgumentInCall { .. } => 0x49,
        TargetInfo::TypeArgumentInConstructorReference { .. } => 0x4a,
        TargetInfo::TypeArgumentInMethodReference { .. } => 0x4b,
    }
}

/// The bytes of TargetInfo after its tag.
pub open spec fn target_info_payload(x: TargetInfo) -> Seq<u8> {
    match x {
        TargetInfo::TypeParameterOfClass { index } => seq![index],
        TargetInfo::TypeParameterOfMethod { index } => seq![index],
        TargetInfo::SuperType { index } => be16(index),
        TargetInfo::TypeParameterBoundOfClass { type_parameter_index, bound_index } => seq![type_parameter_index, bound_index],
        TargetInfo::TypeParameterBoundOfMethod { type_parameter_index, bound_index } => seq![type_parameter_index, bound_index],
        TargetInfo::Field => Seq::<u8>::empty(),
        TargetInfo::TypeOfField => Seq::<u8>::empty(),
        TargetInfo::Receiver => Seq::<u8>::empty(),
        TargetInfo::FormalParameter { index } => seq![index],
        TargetInfo::Throws { index } => be16(index),
        TargetInfo::LocalVariable(v) => counted(v@),
        TargetInfo::ResourceVariable(v) => counted(v@),
        TargetInfo::Catch { index } => be16(index),
        TargetInfo::InstanceOf { offset } => be16(offset),
        TargetInfo::New { offset } => be16(offset),
        TargetInfo::NewMethodReference { offset } => be16(offset),
        TargetInfo::VarMethodReference { offset } => be16(offset),
        TargetInfo::TypeInCast { offset, index } => be16(offset@) + seq![index],
        TargetInfo::TypeArgumentInConstructor { offset, index } => be16(offset@) + seq![index],
        TargetInfo::TypeArgumentInCall { offset, index } => be16(offset@) + seq![index],
        TargetInfo::TypeArgumentInConstructorReference { offset, index } => be16(offset@) + seq![index],
        TargetInfo::TypeArgumentInMethodReference { offset, index } => be16(offset@) + seq![index],
    }
}

/// Whether TargetInfo that can be written is held at `pos`.
spec fn target_info_readable(bytes: Seq<u8>, pos: int) -> bool {
    exists|y: TargetInfo| #[trigger] y.writable() && holds_at(bytes, pos, y.encoding())
}

/// TargetInfo that can be written and is held at `pos`, if there is one.
spec fn target_info_witness(bytes: Seq<u8>, pos: int) -> TargetInfo {
    choose|y: TargetInfo| #[trigger] y.writable() && holds_at(bytes, pos, y.encoding())
}

/// The tag and the rest of the bytes of TargetInfo are held where they start.
proof fn lemma_target_info_parts(y: TargetInfo, bytes: Seq<u8>, pos: int)
    requires
        holds_at(bytes, pos, y.encoding()),
    ensures
        holds_at(bytes, pos, seq![target_info_tag(y)]),
        holds_at(bytes, pos + 1, target_info_payload(y)),
        bytes[pos] == target_info_tag(y),
{
    lemma_holds_concat(bytes, pos, seq![target_info_tag(y)], target_info_payload(y));
    assert(bytes.subrange(pos, pos + 1)[0] == bytes[pos]);
}

/// Whether a byte is the tag of a target of a type annotation.
pub open spec fn is_target_tag(t: u8) -> bool {
    t <= 0x01 || (0x10 <= t <= 0x17) || (0x40 <= t <= 0x4b)
}

/// Whether two targets are the same: of the same kind with the same fields, and for local
/// and resource variables with the same entries in the same order.
pub open spec fn same_target_info(a: TargetInfo, b: TargetInfo) -> bool {
    match (a, b) {
        (TargetInfo::LocalVariable(x), TargetInfo::LocalVariable(y)) => x@ == y@,
        (TargetInfo::ResourceVariable(x), TargetInfo::ResourceVariable(y)) => x@ == y@,
        _ => a == b,
    }
}

/// Lists of entries of local variables with the same bytes are the same.
proof fn lemma_ranges_injective(a: Seq<(ProgramCounter, u16, u16)>, b: Seq<(ProgramCounter, u16, u16)>)
    requires
        a.len() == b.len(),
        encode_all(a) == encode_all(b),
    ensures
        a == b,
    decreases a.len(),
{
    broadcast use crate::jvm::code::pc::group_pc_facts;

    if a.len() > 0 {
        let ea = a[0].encoding();
        let eb = b[0].encoding();
        assert(encode_all(a) == ea + encode_all(a.drop_first()));
        assert(encode_all(b) == eb + encode_all(b.drop_first()));
        assert(ea.len() == 6 && eb.len() == 6);
        assert(ea =~= encode_all(a).subrange(0, 6));
        assert(eb =~= encode_all(b).subrange(0, 6));
        assert(encode_all(a.drop_first()) =~= encode_all(a).subrange(6, encode_all(a).len() as int));
        assert(encode_all(b.drop_first()) =~= encode_all(b).subrange(6, encode_all(b).len() as int));
        assert(be16(a[0].0@) =~= ea.subrange(0, 2) && be16(b[0].0@) =~= eb.subrange(0, 2));
        assert(be16(a[0].1) =~= ea.subrange(2, 4) && be16(b[0].1) =~= eb.subrange(2, 4));
        assert(be16(a[0].2) =~= ea.subrange(4, 6) && be16(b[0].2) =~= eb.subrange(4, 6));
        lemma_be16_unique(a[0].0@, b[0].0@);
        lemma_be16_unique(a[0].1, b[0].1);
        lemma_be16_unique(a[0].2, b[0].2);
        lemma_ranges_injective(a.drop_first(), b.drop_first());
        assert(a =~= seq![a[0]] + a.drop_first());
        assert(b =~= seq![b[0]] + b.drop_first());
    } else {
        assert(a =~= b);
    }
}

/// Targets that can be written and have the same bytes are the same: reading back written
/// bytes gives the target that was written.
pub proof fn lemma_target_info_injective(a: TargetInfo, b: TargetInfo)
    requires
        a.writable(),
        b.writable(),
        a.encoding() == b.encoding(),
    ensures
        same_target_info(a, b),
{
    broadcast use crate::jvm::code::pc::group_pc_facts;

    let pa = target_info_payload(a);
    let pb = target_info_payload(b);
    assert(a.encoding()[0] == target_info_tag(a));
    assert(b.encoding()[0] == target_info_tag(b));
    assert(pa =~= a.encoding().drop_first());
    assert(pb =~= b.encoding().drop_first());
    match (a, b) {
        (TargetInfo::LocalVariable(x), TargetInfo::LocalVariable(y)) | (
            TargetInfo::ResourceVariable(x),
            TargetInfo::ResourceVariable(y),
        ) => {
            assert(be16(x@.len() as u16) =~= pa.subrange(0, 2));
            assert(be16(y@.len() as u16) =~= pb.subrange(0, 2));
            lemma_be16_unique(x@.len() as u16, y@.len() as u16);
            assert(encode_all(x@) =~= pa.subrange(2, pa.len() as int));
            assert(encode_all(y@) =~= pb.subrange(2, pb.len() as int));
            lemma_ranges_injective(x@, y@);
        },
        _ => {
            if target_info_tag(a) == target_info_tag(b) {
                match (a, b) {
                    (TargetInfo::SuperType { index: i }, TargetInfo::SuperType { index: j }) => lemma_be16_unique(i, j),
                    (TargetInfo::Throws { index: i }, TargetInfo::Throws { index: j }) => lemma_be16_unique(i, j),
                    (TargetInfo::Catch { index: i }, TargetInfo::Catch { index: j }) => lemma_be16_unique(i, j),
                    (TargetInfo::InstanceOf { offset: i }, TargetInfo::InstanceOf { offset: j }) => lemma_be16_unique(i, j),
                    (TargetInfo::New { offset: i }, TargetInfo::New { offset: j }) => lemma_be16_unique(i, j),
                    (TargetInfo::NewMethodReference { offset: i }, TargetInfo::NewMethodReference { offset: j }) => lemma_be16_unique(i, j),
                    (TargetInfo::VarMethodReference { offset: i }, TargetInfo::VarMethodReference { offset: j }) => lemma_be16_unique(i, j),
                    (TargetInfo::TypeInCast { offset: i, index: k }, TargetInfo::TypeInCast { offset: j, index: l })
                    | (TargetInfo::TypeArgumentInConstructor { offset: i, index: k }, TargetInfo::TypeArgumentInConstructor { offset: j, index: l })
                    | (TargetInfo::TypeArgumentInCall { offset: i, index: k }, TargetInfo::TypeArgumentInCall { offset: j, index: l })
                    | (TargetInfo::TypeArgumentInConstructorReference { offset: i, index: k }, TargetInfo::TypeArgumentInConstructorReference { offset: j, index: l })
                    | (TargetInfo::TypeArgumentInMethodReference { offset: i, index: k }, TargetInfo::TypeArgumentInMethodReference { offset: j, index: l }) => {
                        assert(be16(i@) =~= pa.subrange(0, 2) && be16(j@) =~= pb.subrange(0, 2));
                        lemma_be16_unique(i@, j@);
                        assert(pa[2] == k && pb[2] == l);
                    },
                    _ => {
                        assert(pa.len() == pb.len());
                        if pa.len() > 0 {
                            assert(pa[0] == pb[0]);
                        }
                        if pa.len() > 1 {
                            assert(pa[1] == pb[1]);
                        }
                    },
                }
            }
        },
    }
}

impl Element for TargetInfo {
    open spec fn encoding(&self) -> Seq<u8> {
        seq![target_info_tag(*self)] + target_info_payload(*self)
    }

    open spec fn writable(&self) -> bool {
        match *self {
            TargetInfo::LocalVariable(v) => counted_writable(v@),
            TargetInfo::ResourceVariable(v) => counted_writable(v@),
            _ => true,
        }
    }

    fn to_writer(&self, out: &mut Vec<u8>) -> (r: Result<(), GenerationError>) {
        let ghost start = out@;
        match self {
            TargetInfo::TypeParameterOfClass { index } => {
                out.push(0x00);
                out.push(*index);
            },
            TargetInfo::TypeParameterOfMethod { index } => {
                out.push(0x01);
                out.push(*index);
            },
            TargetInfo::SuperType { index } => {
                out.push(0x10);
                put_u16(out, *index);
            },
            TargetInfo::TypeParameterBoundOfClass { type_parameter_index, bound_index } => {
                out.push(0x11);
                out.push(*type_parameter_index);
                out.push(*bound_index);
            },
            TargetInfo::TypeParameterBoundOfMethod { type_parameter_index, bound_index } => {
                out.push(0x12);
                out.push(*type_parameter_index);
                out.push(*bound_index);
            },
            TargetInfo::Field => {
                out.push(0x13);
            },
            TargetInfo::TypeOfField => {
                out.push(0x14);
            },
            TargetInfo::Receiver => {
                out.push(0x15);
            },
            TargetInfo::FormalParameter { index } => {
                out.push(0x16);
                out.push(*index);
            },
            TargetInfo::Throws { index } => {
                out.push(0x17);
                put_u16(out, *index);
            },
            TargetInfo::LocalVariable(v) => {
                out.push(0x40);
                let ghost mid = out@;
                let written = write_counted(v, out);
                proof {
                    assert(out@.subrange(0, start.len() as int) =~= mid.subrange(0, start.len() as int)) by {
                        assert(out@.subrange(0, mid.len() as int) == mid);
                    }
                }
                if written.is_err() {
                    assert(out@.subrange(0, start.len() as int) =~= start);
                    return written;
                }
            },
            TargetInfo::ResourceVariable(v) => {
                out.push(0x41);
                let ghost mid = out@;
                let written = write_counted(v, out);
                proof {
                    assert(out@.subrange(0, start.len() as int) =~= mid.subrange(0, start.len() as int)) by {
                        assert(out@.subrange(0, mid.len() as int) == mid);
                    }
                }
                if written.is_err() {
                    assert(out@.subrange(0, start.len() as int) =~= start);
                    return written;
                }
            },
            TargetInfo::Catch { index } => {
                out.push(0x42);
                put_u16(out, *index);
            },
            TargetInfo::InstanceOf { offset } => {
                out.push(0x43);
                put_u16(out, *offset);
            },
            TargetInfo::New { offset } => {
                out.push(0x44);
                put_u16(out, *offset);
            },
            TargetInfo::NewMethodReference { offset } => {
                out.push(0x45);
                put_u16(out, *offset);
            },
            TargetInfo::VarMethodReference { offset } => {
                out.push(0x46);
                put_u16(out, *offset);
            },
            TargetInfo::TypeInCast { offset, index } => {
                out.push(0x47);
                put_u16(out, (*offset).into());
                out.push(*index);
            },
            TargetInfo::TypeArgumentInConstructor { offset, index } => {
                out.push(0x48);
                put_u16(out, (*offset).into());
                out.push(*index);
            },
            TargetInfo::TypeArgumentInCall { offset, index } => {
                out.push(0x49);
                put_u16(out, (*offset).into());
                out.push(*index);
            },
            TargetInfo::TypeArgumentInConstructorReference { offset, index } => {
                out.push(0x4a);
                put_u16(out, (*offset).into());
                out.push(*index);
            },
            TargetInfo::TypeArgumentInMethodReference { offset, index } => {
                out.push(0x4b);
                put_u16(out, (*offset).into());
                out.push(*index);
            },
        }
        assert(out@ =~= start + self.encoding());
        assert(out@.subrange(0, start.len() as int) =~= start);
        Ok(())
    }

    fn from_reader(bytes: &[u8], pos: usize) -> (r: Result<(Self, usize), ParseError>)
        ensures
            pos < bytes@.len() && !is_target_tag(bytes@[pos as int]) ==> (r matches Err(e) && e.kind_of()
                == ParsingErrorKind::Malformed && e.message_of() == "Invalid target type: "@ + hex_lower(bytes@[pos as int])),
    {
        let (tag, p) = match take_u8(bytes, pos) {
            Ok(v) => v,
            Err(e) => {
                proof {
                    if target_info_readable(bytes@, pos as int) {
                        lemma_target_info_parts(target_info_witness(bytes@, pos as int), bytes@, pos as int);
                    }
                }
                return Err(e);
            },
        };
        assert(bytes@[pos as int] == tag) by {
            assert(bytes@.subrange(pos as int, pos + 1)[0] == bytes@[pos as int]);
        }
        proof {
            if target_info_readable(bytes@, pos as int) {
                lemma_target_info_parts(target_info_witness(bytes@, pos as int), bytes@, pos as int);
            }
        }
        let x: Self = match tag {
            0x00 => {
                let (a, q) = match take_u8(bytes, p) {
                    Ok(v) => v,
                    Err(e) => {
                        proof {
                            if target_info_readable(bytes@, pos as int) {
                                lemma_target_info_parts(target_info_witness(bytes@, pos as int), bytes@, pos as int);
                            }
                        }
                        return Err(e);
                    },
                };
                let x = TargetInfo::TypeParameterOfClass { index: a };
                proof {
                    lemma_holds_concat(bytes@, pos as int, seq![tag], target_info_payload(x));
                }
                return Ok((x, q));
            },
            0x01 => {
                let (a, q) = match take_u8(bytes, p) {
                    Ok(v) => v,
                    Err(e) => {
                        proof {
                            if target_info_readable(bytes@, pos as int) {
                                lemma_target_info_parts(target_info_witness(bytes@, pos as int), bytes@, pos as int);
                            }
                        }
                        return Err(e);
                    },
                };
                let x = TargetInfo::TypeParameterOfMethod { index: a };
                proof {
                    lemma_holds_concat(bytes@, pos as int, seq![tag], target_info_payload(x));
                }
                return Ok((x, q));
            },
            0x10 => {
                let (a, q) = match take_u16(bytes, p) {
                    Ok(v) => v,
                    Err(e) => {
                        proof {
                            if target_info_readable(bytes@, pos as int) {
                                lemma_target_info_parts(target_info_witness(bytes@, pos as int), bytes@, pos as int);
                            }
                        }
                        return Err(e);
                    },
                };
                let x = TargetInfo::SuperType { index: a };
                proof {
                    lemma_holds_concat(bytes@, pos as int, seq![tag], target_info_payload(x));
                }
                return Ok((x, q));
            },
            0x11 => {
                let (a0, q0) = match take_u8(bytes, p) {
                    Ok(v) => v,
                    Err(e) => {
                        proof {
                            if target_info_readable(bytes@, pos as int) {
                                lemma_target_info_parts(target_info_witness(bytes@, pos as int), bytes@, pos as int);
                            }
                        }
                        return Err(e);
                    },
                };
                let (a1, q1) = match take_u8(bytes, q0) {
                    Ok(v) => v,
                    Err(e) => {
                        proof {
                            if target_info_readable(bytes@, pos as int) {
                                lemma_target_info_parts(target_info_witness(bytes@, pos as int), bytes@, pos as int);
                            }
                        }
                        return Err(e);
                    },
                };
                let x = TargetInfo::TypeParameterBoundOfClass { type_parameter_index: a0, bound_index: a1 };
                proof {
                    lemma_holds_concat(bytes@, p as int, seq![a0], seq![a1]);
                    assert(seq![a0] + seq![a1] =~= target_info_payload(x));
                    lemma_holds_concat(bytes@, pos as int, seq![tag], target_info_payload(x));
                }
                return Ok((x, q1));
            },
            0x12 => {
                let (a0, q0) = match take_u8(bytes, p) {
                    Ok(v) => v,
                    Err(e) => {
                        proof {
                            if target_info_readable(bytes@, pos as int) {
                                lemma_target_info_parts(target_info_witness(bytes@, pos as int), bytes@, pos as int);
                            }
                        }
                        return Err(e);
                    },
                };
                let (a1, q1) = match take_u8(bytes, q0) {
                    Ok(v) => v,
                    Err(e) => {
                        proof {
                            if target_info_readable(bytes@, pos as int) {
                                lemma_target_info_parts(target_info_witness(bytes@, pos as int), bytes@, pos as int);
                            }
                        }
                        return Err(e);
                    },
                };
                let x = TargetInfo::TypeParameterBoundOfMethod { type_parameter_index: a0, bound_index: a1 };
                proof {
                    lemma_holds_concat(bytes@, p as int, seq![a0], seq![a1]);
                    assert(seq![a0] + seq![a1] =~= target_info_payload(x));
                    lemma_holds_concat(bytes@, pos as int, seq![tag], target_info_payload(x));
                }
                return Ok((x, q1));
            },
            0x13 => {
                let x = TargetInfo::Field;
                assert(x.encoding() =~= seq![tag]);
                proof {
                    lemma_holds_concat(bytes@, pos as int, seq![tag], Seq::<u8>::empty());
                }
                return Ok((x, p));
            },
            0x14 => {
                let x = TargetInfo::TypeOfField;
                assert(x.encoding() =~= seq![tag]);
                proof {
                    lemma_holds_concat(bytes@, pos as int, seq![tag], Seq::<u8>::empty());
                }
                return Ok((x, p));
            },
            0x15 => {
                let x = TargetInfo::Receiver;
                assert(x.encoding() =~= seq![tag]);
                proof {
                    lemma_holds_concat(bytes@, pos as int, seq![tag], Seq::<u8>::empty());
                }
                return Ok((x, p));
            },
            0x16 => {
                let (a, q) = match take_u8(bytes, p) {
                    Ok(v) => v,
                    Err(e) => {
                        proof {
                            if target_info_readable(bytes@, pos as int) {
                                lemma_target_info_parts(target_info_witness(bytes@, pos as int), bytes@, pos as int);
                            }
                        }
                        return Err(e);
                    },
                };
                let x = TargetInfo::FormalParameter { index: a };
                proof {
                    lemma_holds_concat(bytes@, pos as int, seq![tag], target_info_payload(x));
                }
                return Ok((x, q));
            },
            0x17 => {
                let (a, q) = match take_u16(bytes, p) {
                    Ok(v) => v,
                    Err(e) => {
                        proof {
                            if target_info_readable(bytes@, pos as int) {
                                lemma_target_info_parts(target_info_witness(bytes@, pos as int), bytes@, pos as int);
                            }
                        }
                        return Err(e);
                    },
                };
                let x = TargetInfo::Throws { index: a };
                proof {
                    lemma_holds_concat(bytes@, pos as int, seq![tag], target_info_payload(x));
                }
                return Ok((x, q));
            },
            0x40 => {
                let (t, q) = match read_counted(bytes, p) {
                    Ok(v) => v,
                    Err(e) => {
                        proof {
                            if target_info_readable(bytes@, pos as int) {
                                let y = target_info_witness(bytes@, pos as int);
                                lemma_target_info_parts(y, bytes@, pos as int);
                                assert(counted_writable(y->LocalVariable_0@));
                            }
                        }
                        return Err(e);
                    },
                };
                let x = TargetInfo::LocalVariable(t);
                proof {
                    lemma_holds_concat(bytes@, pos as int, seq![tag], target_info_payload(x));
                }
                return Ok((x, q));
            },
            0x41 => {
                let (t, q) = match read_counted(bytes, p) {
                    Ok(v) => v,
                    Err(e) => {
                        proof {
                            if target_info_readable(bytes@, pos as int) {
                                let y = target_info_witness(bytes@, pos as int);
                                lemma_target_info_parts(y, bytes@, pos as int);
                                assert(counted_writable(y->ResourceVariable_0@));
                            }
                        }
                        return Err(e);
                    },
                };
                let x = TargetInfo::ResourceVariable(t);
                proof {
                    lemma_holds_concat(bytes@, pos as int, seq![tag], target_info_payload(x));
                }
                return Ok((x, q));
            },
            0x42 => {
                let (a, q) = match take_u16(bytes, p) {
                    Ok(v) => v,
                    Err(e) => {
                        proof {
                            if target_info_readable(bytes@, pos as int) {
                                lemma_target_info_parts(target_info_witness(bytes@, pos as int), bytes@, pos as int);
                            }
                        }
                        return Err(e);
                    },
                };
                let x = TargetInfo::Catch { index: a };
                proof {
                    lemma_holds_concat(bytes@, pos as int, seq![tag], target_info_payload(x));
                }
                return Ok((x, q));
            },
            0x43 => {
                let (a, q) = match take_u16(bytes, p) {
                    Ok(v) => v,
                    Err(e) => {
                        proof {
                            if target_info_readable(bytes@, pos as int) {
                                lemma_target_info_parts(target_info_witness(bytes@, pos as int), bytes@, pos as int);
                            }
                        }
                        return Err(e);
                    },
                };
                let x = TargetInfo::InstanceOf { offset: a };
                proof {
                    lemma_holds_concat(bytes@, pos as int, seq![tag], target_info_payload(x));
                }
                return Ok((x, q));
            },
            0x44 => {
                let (a, q) = match take_u16(bytes, p) {
                    Ok(v) => v,
                    Err(e) => {
                        proof {
                            if target_info_readable(bytes@, pos as int) {
                                lemma_target_info_parts(target_info_witness(bytes@, pos as int), bytes@, pos as int);
                            }
                        }
                        return Err(e);
                    },
                };
                let x = TargetInfo::New { offset: a };
                proof {
                    lemma_holds_concat(bytes@, pos as int, seq![tag], target_info_payload(x));
                }
                return Ok((x, q));
            },
            0x45 => {
                let (a, q) = match take_u16(bytes, p) {
                    Ok(v) => v,
                    Err(e) => {
                        proof {
                            if target_info_readable(bytes@, pos as int) {
                                lemma_target_info_parts(target_info_witness(bytes@, pos as int), bytes@, pos as int);
                            }
                        }
                        return Err(e);
                    },
                };
                let x = TargetInfo::NewMethodReference { offset: a };
                proof {
                    lemma_holds_concat(bytes@, pos as int, seq![tag], target_info_payload(x));
                }
                return Ok((x, q));
            },
            0x46 => {
                let (a, q) = match take_u16(bytes, p) {
                    Ok(v) => v,
                    Err(e) => {
                        proof {
                            if target_info_readable(bytes@, pos as int) {
                                lemma_target_info_parts(target_info_witness(bytes@, pos as int), bytes@, pos as int);
                            }
                        }
                        return Err(e);
                    },
                };
                let x = TargetInfo::VarMethodReference { offset: a };
                proof {
                    lemma_holds_concat(bytes@, pos as int, seq![tag], target_info_payload(x));
                }
                return Ok((x, q));
            },
            0x47 => {
                let (a0, q0) = match take_u16(bytes, p) {
                    Ok(v) => v,
                    Err(e) => {
                        proof {
                            if target_info_readable(bytes@, pos as int) {
                                lemma_target_info_parts(target_info_witness(bytes@, pos as int), bytes@, pos as int);
                            }
                        }
                        return Err(e);
                    },
                };
                let (a1, q1) = match take_u8(bytes, q0) {
                    Ok(v) => v,
                    Err(e) => {
                        proof {
                            if target_info_readable(bytes@, pos as int) {
                                lemma_target_info_parts(target_info_witness(bytes@, pos as int), bytes@, pos as int);
                            }
                        }
                        return Err(e);
                    },
                };
                let x = TargetInfo::TypeInCast { offset: ProgramCounter::new(a0), index: a1 };
                proof {
                    lemma_holds_concat(bytes@, p as int, be16(a0), seq![a1]);
                    lemma_holds_concat(bytes@, pos as int, seq![tag], target_info_payload(x));
                }
                return Ok((x, q1));
            },
            0x48 => {
                let (a0, q0) = match take_u16(bytes, p) {
                    Ok(v) => v,
                    Err(e) => {
                        proof {
                            if target_info_readable(bytes@, pos as int) {
                                lemma_target_info_parts(target_info_witness(bytes@, pos as int), bytes@, pos as int);
                            }
                        }
                        return Err(e);
                    },
                };
                let (a1, q1) = match take_u8(bytes, q0) {
                    Ok(v) => v,
                    Err(e) => {
                        proof {
                            if target_info_readable(bytes@, pos as int) {
                                lemma_target_info_parts(target_info_witness(bytes@, pos as int), bytes@, pos as int);
                            }
                        }
                        return Err(e);
                    },
                };
                let x = TargetInfo::TypeArgumentInConstructor { offset: ProgramCounter::new(a0), index: a1 };
                proof {
                    lemma_holds_concat(bytes@, p as int, be16(a0), seq![a1]);
                    lemma_holds_concat(bytes@, pos as int, seq![tag], target_info_payload(x));
                }
                return Ok((x, q1));
            },
            0x49 => {
                let (a0, q0) = match take_u16(bytes, p) {
                    Ok(v) => v,
                    Err(e) => {
                        proof {
                            if target_info_readable(bytes@, pos as int) {
                                lemma_target_info_parts(target_info_witness(bytes@, pos as int), bytes@, pos as int);
                            }
                        }
                        return Err(e);
                    },
                };
                let (a1, q1) = match take_u8(bytes, q0) {
                    Ok(v) => v,
                    Err(e) => {
                        proof {
                            if target_info_readable(bytes@, pos as int) {
                                lemma_target_info_parts(target_info_witness(bytes@, pos as int), bytes@, pos as int);
                            }
                        }
                        return Err(e);
                    },
                };
                let x = TargetInfo::TypeArgumentInCall { offset: ProgramCounter::new(a0), index: a1 };
                proof {
                    lemma_holds_concat(bytes@, p as int, be16(a0), seq![a1]);
                    lemma_holds_concat(bytes@, pos as int, seq![tag], target_info_payload(x));
                }
                return Ok((x, q1));
            },
            0x4a => {
                let (a0, q0) = match take_u16(bytes, p) {
                    Ok(v) => v,
                    Err(e) => {
                        proof {
                            if target_info_readable(bytes@, pos as int) {
                                lemma_target_info_parts(target_info_witness(bytes@, pos as int), bytes@, pos as int);
                            }
                        }
                        return Err(e);
                    },
                };
                let (a1, q1) = match take_u8(bytes, q0) {
                    Ok(v) => v,
                    Err(e) => {
                        proof {
                            if target_info_readable(bytes@, pos as int) {
                                lemma_target_info_parts(target_info_witness(bytes@, pos as int), bytes@, pos as int);
                            }
                        }
                        return Err(e);
                    },
                };
                let x = TargetInfo::TypeArgumentInConstructorReference { offset: ProgramCounter::new(a0), index: a1 };
                proof {
                    lemma_holds_concat(bytes@, p as int, be16(a0), seq![a1]);
                    lemma_holds_concat(bytes@, pos as int, seq![tag], target_info_payload(x));
                }
                return Ok((x, q1));
            },
            0x4b => {
                let (a0, q0) = match take_u16(bytes, p) {
                    Ok(v) => v,
                    Err(e) => {
                        proof {
                            if target_info_readable(bytes@, pos as int) {
                                lemma_target_info_parts(target_info_witness(bytes@, pos as int), bytes@, pos as int);
                            }
                        }
                        return Err(e);
                    },
                };
                let (a1, q1) = match take_u8(bytes, q0) {
                    Ok(v) => v,
                    Err(e) => {
                        proof {
                            if target_info_readable(bytes@, pos as int) {
                                lemma_target_info_parts(target_info_witness(bytes@, pos as int), bytes@, pos as int);
                            }
                        }
                        return Err(e);
                    },
                };
                let x = TargetInfo::TypeArgumentInMethodReference { offset: ProgramCounter::new(a0), index: a1 };
                proof {
                    lemma_holds_concat(bytes@, p as int, be16(a0), seq![a1]);
                    lemma_holds_concat(bytes@, pos as int, seq![tag], target_info_payload(x));
                }
                return Ok((x, q1));
            },
            _ => {
                proof {
                    if target_info_readable(bytes@, pos as int) {
                        lemma_target_info_parts(target_info_witness(bytes@, pos as int), bytes@, pos as int);
                    }
                }
                return Err(bad_tag("Invalid target type: ", tag, true));
            },
        };
    }

    proof fn lemma_prefix_free(a: Self, b: Self, bytes: Seq<u8>, pos: int) {
        lemma_target_info_parts(a, bytes, pos);
        lemma_target_info_parts(b, bytes, pos);
        match (a, b) {
            (TargetInfo::LocalVariable(x), TargetInfo::LocalVariable(y)) => {
                lemma_counted_prefix_free(x@, y@, bytes, pos + 1);
            },
            (TargetInfo::ResourceVariable(x), TargetInfo::ResourceVariable(y)) => {
                lemma_counted_prefix_free(x@, y@, bytes, pos + 1);
            },
            _ => {
                assert(target_info_payload(a) == bytes.subrange(pos + 1, pos + 1 + target_info_payload(a).len()));
                assert(target_info_payload(b) == bytes.subrange(pos + 1, pos + 1 + target_info_payload(b).len()));
            },
        }
    }
}

/// A frame of the `StackMapTable` attribute, as it is stored.
#[derive(Debug, PartialEq, Eq, Clone)]
pub enum StackMapFrameInfo {
    /// The same locals as the previous frame and an empty stack, at the offset that the frame
    /// type gives (0 to 63).
    SameFrame {
        /// The frame type.
        frame_type: u8,
    },
    /// The same locals as the previous frame and one value on the stack, at the offset that the
    /// frame type gives (64 to 127).
    SameLocals1StackItemFrame {
        /// The frame type.
        frame_type: u8,
        /// The value on the stack.
        stack: VerificationTypeInfo,
    },
    /// The same locals as the previous frame and one value on the stack (frame type 247).
    SameLocals1StackItemFrameExtended {
        /// The distance to the previous frame.
        offset_delta: u16,
        /// The value on the stack.
        stack: VerificationTypeInfo,
    },
    /// The locals of the previous frame without the last ones and an empty stack (frame types
    /// 248 to 250).
    ChopFrame {
        /// The frame type.
        frame_type: u8,
        /// The distance to the previous frame.
        offset_delta: u16,
    },
    /// The same locals as the previous frame and an empty stack (frame type 251).
    SameFrameExtended {
        /// The distance to the previous frame.
        offset_delta: u16,
    },
    /// The locals of the previous frame with one to three more, and an empty stack (frame
    /// types 252 to 254).
    AppendFrame {
        /// The distance to the previous frame.
        offset_delta: u16,
        /// The locals added.
        locals: Vec<VerificationTypeInfo>,
    },
    /// A frame given in full (frame type 255).
    FullFrame {
        /// The distance to the previous frame.
        offset_delta: u16,
        /// The locals.
        locals: Vec<VerificationTypeInfo>,
        /// The values on the stack.
        stack: Vec<VerificationTypeInfo>,
    },
}

/// The frame type of a frame in a class file.
pub open spec fn frame_type_of(x: StackMapFrameInfo) -> u8 {
    match x {
        StackMapFrameInfo::SameFrame { frame_type } => frame_type,
        StackMapFrameInfo::SameLocals1StackItemFrame { frame_type, .. } => frame_type,
        StackMapFrameInfo::SameLocals1StackItemFrameExtended { .. } => 247,
        StackMapFrameInfo::ChopFrame { frame_type, .. } => frame_type,
        StackMapFrameInfo::SameFrameExtended { .. } => 251,
        StackMapFrameInfo::AppendFrame { locals, .. } => (251 + locals@.len()) as u8,
        StackMapFrameInfo::FullFrame { .. } => 255,
    }
}

/// The bytes of a frame after its frame type.
pub open spec fn frame_payload(x: StackMapFrameInfo) -> Seq<u8> {
    match x {
        StackMapFrameInfo::SameFrame { .. } => Seq::empty(),
        StackMapFrameInfo::SameLocals1StackItemFrame { stack, .. } => stack.encoding(),
        StackMapFrameInfo::SameLocals1StackItemFrameExtended { offset_delta, stack } => be16(offset_delta) + stack.encoding(),
        StackMapFrameInfo::ChopFrame { offset_delta, .. } => be16(offset_delta),
        StackMapFrameInfo::SameFrameExtended { offset_delta } => be16(offset_delta),
        StackMapFrameInfo::AppendFrame { offset_delta, locals } => be16(offset_delta) + encode_all(locals@),
        StackMapFrameInfo::FullFrame { offset_delta, locals, stack } => be16(offset_delta) + counted(locals@) + counted(
            stack@,
        ),
    }
}

/// Every list of verification types can be written.
proof fn lemma_types_writable(s: Seq<VerificationTypeInfo>)
    ensures
        all_writable(s),
{
}

/// Whether a frame that can be written is held at `pos`.
spec fn frame_readable(bytes: Seq<u8>, pos: int) -> bool {
    exists|y: StackMapFrameInfo| #[trigger] y.writable() && holds_at(bytes, pos, y.encoding())
}

/// A frame that can be written and is held at `pos`, if there is one.
spec fn frame_witness(bytes: Seq<u8>, pos: int) -> StackMapFrameInfo {
    choose|y: StackMapFrameInfo| #[trigger] y.writable() && holds_at(bytes, pos, y.encoding())
}

/// The frame type and the rest of the bytes of a frame are held where they start, and so are
/// the parts of the rest.
proof fn lemma_frame_parts(y: StackMapFrameInfo, bytes: Seq<u8>, pos: int)
    requires
        holds_at(bytes, pos, y.encoding()),
    ensures
        bytes[pos] == frame_type_of(y),
        holds_at(bytes, pos + 1, frame_payload(y)),
        y matches StackMapFrameInfo::SameLocals1StackItemFrameExtended { offset_delta, stack } ==> holds_at(
            bytes,
            pos + 1,
            be16(offset_delta),
        ) && holds_at(bytes, pos + 3, stack.encoding()),
        y matches StackMapFrameInfo::AppendFrame { offset_delta, locals } ==> holds_at(bytes, pos + 1, be16(offset_delta))
            && holds_at(bytes, pos + 3, encode_all(locals@)),
        y matches StackMapFrameInfo::FullFrame { offset_delta, locals, stack } ==> holds_at(
            bytes,
            pos + 1,
            be16(offset_delta),
        ) && holds_at(bytes, pos + 3, counted(locals@)) && holds_at(bytes, pos + 3 + counted(locals@).len(), counted(stack@)),
{
    lemma_holds_concat(bytes, pos, seq![frame_type_of(y)], frame_payload(y));
    assert(bytes.subrange(pos, pos + 1)[0] == bytes[pos]);
    match y {
        StackMapFrameInfo::SameLocals1StackItemFrameExtended { offset_delta, stack } => {
            lemma_holds_concat(bytes, pos + 1, be16(offset_delta), stack.encoding());
        },
        StackMapFrameInfo::AppendFrame { offset_delta, locals } => {
            lemma_holds_concat(bytes, pos + 1, be16(offset_delta), encode_all(locals@));
        },
        StackMapFrameInfo::FullFrame { offset_delta, locals, stack } => {
            lemma_holds_concat(bytes, pos + 1, be16(offset_delta) + counted(locals@), counted(stack@));
            lemma_holds_concat(bytes, pos + 1, be16(offset_delta), counted(locals@));
        },
        _ => {},
    }
}

/// The error for a frame whose frame type does not fit its kind.
fn invalid_frame(kind: &str) -> (r: GenerationError)
    ensures
        r.kind_of() == GenerationErrorKind::Other,
{
    let mut text = String::new();
    text.append("Invalid frame type in ");
    text.append(kind);
    GenerationError::other(text)
}

impl Element for StackMapFrameInfo {
    open spec fn encoding(&self) -> Seq<u8> {
        seq![frame_type_of(*self)] + frame_payload(*self)
    }

    open spec fn writable(&self) -> bool {
        match *self {
            StackMapFrameInfo::SameFrame { frame_type } => frame_type <= 63,
            StackMapFrameInfo::SameLocals1StackItemFrame { frame_type, .. } => 64 <= frame_type <= 127,
            StackMapFrameInfo::ChopFrame { frame_type, .. } => 248 <= frame_type <= 250,
            StackMapFrameInfo::AppendFrame { locals, .. } => 1 <= locals@.len() <= 3,
            StackMapFrameInfo::FullFrame { locals, stack, .. } => locals@.len() <= 0xFFFF && stack@.len() <= 0xFFFF,
            _ => true,
        }
    }

    fn to_writer(&self, out: &mut Vec<u8>) -> (r: Result<(), GenerationError>) {
        let ghost start = out@;
        match self {
            StackMapFrameInfo::SameFrame { frame_type } => {
                if *frame_type > 63 {
                    assert(out@.subrange(0, start.len() as int) =~= start);
                    return Err(invalid_frame("SameFrame"));
                }
                out.push(*frame_type);
            },
            StackMapFrameInfo::SameLocals1StackItemFrame { frame_type, stack } => {
                if *frame_type < 64 || *frame_type > 127 {
                    assert(out@.subrange(0, start.len() as int) =~= start);
                    return Err(invalid_frame("SameLocals1StackItemFrame"));
                }
                out.push(*frame_type);
                let _ = stack.to_writer(out);
            },
            StackMapFrameInfo::SameLocals1StackItemFrameExtended { offset_delta, stack } => {
                out.push(247);
                put_u16(out, *offset_delta);
                let _ = stack.to_writer(out);
            },
            StackMapFrameInfo::ChopFrame { frame_type, offset_delta } => {
                if *frame_type < 248 || *frame_type > 250 {
                    assert(out@.subrange(0, start.len() as int) =~= start);
                    return Err(invalid_frame("ChopFrame"));
                }
                out.push(*frame_type);
                put_u16(out, *offset_delta);
            },
            StackMapFrameInfo::SameFrameExtended { offset_delta } => {
                out.push(251);
                put_u16(out, *offset_delta);
            },
            StackMapFrameInfo::AppendFrame { offset_delta, locals } => {
                if locals.len() > 4 {
                    assert(out@.subrange(0, start.len() as int) =~= start);
                    return Err(too_long());
                }
                if locals.len() == 0 || locals.len() == 4 {
                    assert(out@.subrange(0, start.len() as int) =~= start);
                    return Err(invalid_frame("AppendFrame"));
                }
                let frame_type: u8 = (locals.len() + 251) as u8;
                out.push(frame_type);
                put_u16(out, *offset_delta);
                proof {
                    lemma_types_writable(locals@);
                }
                let _ = write_list(locals, out);
            },
            StackMapFrameInfo::FullFrame { offset_delta, locals, stack } => {
                out.push(255);
                put_u16(out, *offset_delta);
                proof {
                    lemma_types_writable(locals@);
                    lemma_types_writable(stack@);
                }
                let ghost mid = out@;
                let written = write_counted(locals, out);
                proof {
                    assert(out@.subrange(0, start.len() as int) =~= mid.subrange(0, start.len() as int)) by {
                        assert(out@.subrange(0, mid.len() as int) == mid);
                    }
                }
                if written.is_err() {
                    assert(out@.subrange(0, start.len() as int) =~= start);
                    return written;
                }
                let ghost mid2 = out@;
                let written = write_counted(stack, out);
                proof {
                    assert(out@.subrange(0, start.len() as int) =~= mid2.subrange(0, start.len() as int)) by {
                        assert(out@.subrange(0, mid2.len() as int) == mid2);
                    }
                }
                if written.is_err() {
                    assert(out@.subrange(0, start.len() as int) =~= start);
                    return written;
                }
            },
        }
        assert(out@ =~= start + self.encoding());
        assert(out@.subrange(0, start.len() as int) =~= start);
        Ok(())
    }

    #[verifier::rlimit(50)]
    fn from_reader(bytes: &[u8], pos: usize) -> (r: Result<(Self, usize), ParseError>)
        ensures
            pos < bytes@.len() && 128 <= bytes@[pos as int] <= 246 ==> (r matches Err(e) && e.kind_of()
                == ParsingErrorKind::Malformed),
    {
        let (ft, p) = match take_u8(bytes, pos) {
            Ok(v) => v,
            Err(e) => {
                proof {
                    if frame_readable(bytes@, pos as int) {
                        lemma_frame_parts(frame_witness(bytes@, pos as int), bytes@, pos as int);
                    }
                }
                return Err(e);
            },
        };
        assert(bytes@[pos as int] == ft) by {
            assert(bytes@.subrange(pos as int, pos + 1)[0] == bytes@[pos as int]);
        }
        let ghost y = frame_witness(bytes@, pos as int);
        proof {
            if frame_readable(bytes@, pos as int) {
                lemma_frame_parts(y, bytes@, pos as int);
            }
        }
        if ft <= 63 {
            let x = StackMapFrameInfo::SameFrame { frame_type: ft };
            assert(x.encoding() =~= seq![ft]);
            return Ok((x, p));
        }
        if ft <= 127 {
            let (stack, q) = match VerificationTypeInfo::from_reader(bytes, p) {
                Ok(v) => v,
                Err(e) => {
                    proof {
                        if frame_readable(bytes@, pos as int) {
                            assert(y->SameLocals1StackItemFrame_stack.writable());
                        }
                    }
                    return Err(e);
                },
            };
            let x = StackMapFrameInfo::SameLocals1StackItemFrame { frame_type: ft, stack };
            proof {
                lemma_holds_concat(bytes@, pos as int, seq![ft], stack.encoding());
            }
            return Ok((x, q));
        }
        if ft <= 246 {
            let mut text = String::new();
            text.append("Frame type ");
            push_decimal(&mut text, ft as i64);
            text.append(" is reserved for future use.");
            return Err(ParseError::malform(text));
        }
        let (offset_delta, q) = match take_u16(bytes, p) {
            Ok(v) => v,
            Err(e) => {
                proof {
                    if frame_readable(bytes@, pos as int) {
                        assert(frame_payload(y).len() >= 2);
                    }
                }
                return Err(e);
            },
        };
        proof {
            lemma_holds_concat(bytes@, pos as int, seq![ft], be16(offset_delta));
        }
        if ft == 247 {
            let (stack, r) = match VerificationTypeInfo::from_reader(bytes, q) {
                Ok(v) => v,
                Err(e) => {
                    proof {
                        if frame_readable(bytes@, pos as int) {
                            assert(y->SameLocals1StackItemFrameExtended_stack.writable());
                        }
                    }
                    return Err(e);
                },
            };
            let x = StackMapFrameInfo::SameLocals1StackItemFrameExtended { offset_delta, stack };
            proof {
                lemma_holds_concat(bytes@, pos as int, seq![ft] + be16(offset_delta), stack.encoding());
                assert(x.encoding() =~= seq![ft] + be16(offset_delta) + stack.encoding());
            }
            return Ok((x, r));
        }
        if ft <= 250 {
            let x = StackMapFrameInfo::ChopFrame { frame_type: ft, offset_delta };
            assert(x.encoding() =~= seq![ft] + be16(offset_delta));
            return Ok((x, q));
        }
        if ft == 251 {
            let x = StackMapFrameInfo::SameFrameExtended { offset_delta };
            assert(x.encoding() =~= seq![ft] + be16(offset_delta));
            return Ok((x, q));
        }
        if ft <= 254 {
            let n: usize = (ft - 251) as usize;
            let (locals, r) = match read_list::<VerificationTypeInfo>(bytes, q, n) {
                Ok(v) => v,
                Err(e) => {
                    proof {
                        if frame_readable(bytes@, pos as int) {
                            let l = y->AppendFrame_locals@;
                            lemma_types_writable(l);
                            assert(l.len() == n);
                        }
                    }
                    return Err(e);
                },
            };
            let x = StackMapFrameInfo::AppendFrame { offset_delta, locals };
            proof {
                lemma_holds_concat(bytes@, pos as int, seq![ft] + be16(offset_delta), encode_all(locals@));
                assert(x.encoding() =~= seq![ft] + be16(offset_delta) + encode_all(locals@));
            }
            return Ok((x, r));
        }
        let (locals, r) = match read_counted::<VerificationTypeInfo>(bytes, q) {
            Ok(v) => v,
            Err(e) => {
                proof {
                    if frame_readable(bytes@, pos as int) {
                        lemma_types_writable(y->FullFrame_locals@);
                        assert(counted_writable(y->FullFrame_locals@));
                    }
                }
                return Err(e);
            },
        };
        proof {
            if frame_readable(bytes@, pos as int) {
                lemma_types_writable(y->FullFrame_locals@);
                lemma_counted_prefix_free(locals@, y->FullFrame_locals@, bytes@, q as int);
            }
        }
        let (stack, s) = match read_counted::<VerificationTypeInfo>(bytes, r) {
            Ok(v) => v,
            Err(e) => {
                proof {
                    if frame_readable(bytes@, pos as int) {
                        lemma_types_writable(y->FullFrame_stack@);
                        assert(counted_writable(y->FullFrame_stack@));
                    }
                }
                return Err(e);
            },
        };
        let x = StackMapFrameInfo::FullFrame { offset_delta, locals, stack };
        proof {
            lemma_holds_concat(bytes@, pos as int, seq![ft] + be16(offset_delta), counted(locals@));
            lemma_holds_concat(bytes@, pos as int, seq![ft] + be16(offset_delta) + counted(locals@), counted(stack@));
            assert(x.encoding() =~= seq![ft] + be16(offset_delta) + counted(locals@) + counted(stack@));
        }
        Ok((x, s))
    }

    proof fn lemma_prefix_free(a: Self, b: Self, bytes: Seq<u8>, pos: int) {
        lemma_frame_parts(a, bytes, pos);
        lemma_frame_parts(b, bytes, pos);
        match (a, b) {
            (
                StackMapFrameInfo::SameLocals1StackItemFrame { stack: x, .. },
                StackMapFrameInfo::SameLocals1StackItemFrame { stack: y, .. },
            ) => {
                VerificationTypeInfo::lemma_prefix_free(x, y, bytes, pos + 1);
            },
            (
                StackMapFrameInfo::SameLocals1StackItemFrameExtended { stack: x, offset_delta: d, .. },
                StackMapFrameInfo::SameLocals1StackItemFrameExtended { stack: y, offset_delta: e, .. },
            ) => {
                assert(be16(d) == bytes.subrange(pos + 1, pos + 3));
                assert(be16(e) == bytes.subrange(pos + 1, pos + 3));
                VerificationTypeInfo::lemma_prefix_free(x, y, bytes, pos + 3);
            },
            (
                StackMapFrameInfo::AppendFrame { locals: x, offset_delta: d, .. },
                StackMapFrameInfo::AppendFrame { locals: y, offset_delta: e, .. },
            ) => {
                assert(be16(d) == bytes.subrange(pos + 1, pos + 3));
                assert(be16(e) == bytes.subrange(pos + 1, pos + 3));
                lemma_types_writable(x@);
                lemma_types_writable(y@);
                lemma_encode_all_prefix_free(x@, y@, bytes, pos + 3);
            },
            (
                StackMapFrameInfo::FullFrame { locals: x, stack: s, offset_delta: d, .. },
                StackMapFrameInfo::FullFrame { locals: y, stack: t, offset_delta: e, .. },
            ) => {
                assert(be16(d) == bytes.subrange(pos + 1, pos + 3));
                assert(be16(e) == bytes.subrange(pos + 1, pos + 3));
                lemma_types_writable(x@);
                lemma_types_writable(y@);
                lemma_types_writable(s@);
                lemma_types_writable(t@);
                lemma_counted_prefix_free(x@, y@, bytes, pos + 3);
                lemma_counted_prefix_free(s@, t@, bytes, pos + 3 + counted(x@).len());
            },
            _ => {
                assert(frame_payload(a) == bytes.subrange(pos + 1, pos + 1 + frame_payload(a).len()));
                assert(frame_payload(b) == bytes.subrange(pos + 1, pos + 1 + frame_payload(b).len()));
            },
        }
    }
}


} // verus!
