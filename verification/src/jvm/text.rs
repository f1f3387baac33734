//! The text of constants, types and references.
use vstd::prelude::*;

use crate::jvm::bytecode::raw_attributes::{hex_lower, push_hex_lower};
use crate::jvm::class::MethodHandle;
use crate::jvm::code::instruction::{decimal, push_i64};
use crate::jvm::code::pc::{hex_digit, push_hex_digit};
use crate::jvm::references::{ClassRef, FieldRef, MethodRef};
use crate::jvm::{ConstantValue, JavaString};
use crate::types::{FieldType, MethodDescriptor, PrimitiveType, ReturnType};

verus! {

/// The text of a byte: `0x` and two upper-case hexadecimal digits.
pub open spec fn byte_text(b: u8) -> Seq<char> {
    "0x"@ + seq![hex_digit(b as int / 16), hex_digit(b as int % 16)]
}

/// The texts of bytes, separated by spaces.
pub open spec fn bytes_text(bs: Seq<u8>) -> Seq<char>
    decreases bs.len(),
{
    if bs.len() == 0 {
        Seq::empty()
    } else if bs.len() == 1 {
        byte_text(bs[0])
    } else {
        bytes_text(bs.drop_last()) + " "@ + byte_text(bs.last())
    }
}

/// The text of a string constant: the string in quotes, or its bytes when they are not
/// valid UTF-8.
pub open spec fn java_string_text(j: JavaString) -> Seq<char> {
    match j {
        JavaString::Utf8(s) => "String(\""@ + s@ + "\")"@,
        JavaString::InvalidUtf8(b) => "String("@ + bytes_text(b@) + ") // Invalid UTF-8"@,
    }
}

/// The text of a constant.
pub open spec fn constant_text(c: ConstantValue) -> Seq<char> {
    match c {
        ConstantValue::Null => "null"@,
        ConstantValue::Integer(i) => "int("@ + decimal(i as int) + ")"@,
        ConstantValue::Long(l) => "long("@ + decimal(l as int) + ")"@,
        ConstantValue::String(j) => java_string_text(j),
        ConstantValue::Class(k) => k.binary_name@ + ".class"@,
        ConstantValue::Handle(h) => handle_debug(h),
        ConstantValue::MethodType(d) => descriptor_debug(d),
        ConstantValue::Dynamic(i, n, t) => "Dynamic("@ + decimal(i as int) + ", "@ + n@ + ", "@ + field_type_text(t)
            + ")"@,
        _ => Seq::empty(),
    }
}

/// Whether this module shows a constant: all but floating-point values.
pub open spec fn constant_shown(c: ConstantValue) -> bool {
    !(c is Float || c is Double)
}

/// Appends the text of a string constant.
pub(crate) fn push_java_string(s: &mut String, j: &JavaString)
    ensures
        final(s)@ == old(s)@ + java_string_text(*j),
{
    match j {
        JavaString::Utf8(t) => {
            s.append("String(\"");
            s.append(t.as_str());
            s.append("\")");
        },
        JavaString::InvalidUtf8(b) => {
            s.append("String(");
            let ghost head = s@;
            let mut k: usize = 0;
            assert(bytes_text(b@.take(0)) == Seq::<char>::empty());
            assert(s@ =~= head + bytes_text(b@.take(0)));
            while k < b.len()
                invariant
                    k <= b@.len(),
                    s@ == head + bytes_text(b@.take(k as int)),
                decreases b@.len() - k,
            {
                let ghost before = b@.take(k as int);
                if k > 0 {
                    s.append(" ");
                }
                s.append("0x");
                push_hex_digit(s, (b[k] / 16) as u16);
                push_hex_digit(s, (b[k] % 16) as u16);
                proof {
                    let after = b@.take(k + 1);
                    assert(after.drop_last() =~= before);
                    assert(after.last() == b@[k as int]);
                    if k == 0 {
                        assert(after =~= seq![b@[0]]);
                    }
                }
                assert(s@ =~= head + bytes_text(b@.take(k + 1)));
                k = k + 1;
            }
            assert(b@.take(b@.len() as int) =~= b@);
            s.append(") // Invalid UTF-8");
        },
    }
    assert(s@ =~= old(s)@ + java_string_text(*j));
}

/// Appends the text of a constant that this module shows.
pub(crate) fn push_constant(s: &mut String, c: &ConstantValue)
    requires
        constant_shown(*c),
    ensures
        final(s)@ == old(s)@ + constant_text(*c),
{
    match c {
        ConstantValue::Null => s.append("null"),
        ConstantValue::Integer(i) => {
            s.append("int(");
            push_i64(s, *i as i64);
            s.append(")");
        },
        ConstantValue::Long(l) => {
            s.append("long(");
            push_i64(s, *l);
            s.append(")");
        },
        ConstantValue::String(j) => push_java_string(s, j),
        ConstantValue::Class(k) => {
            s.append(k.binary_name.as_str());
            s.append(".class");
        },
        ConstantValue::Handle(h) => push_handle_debug(s, h),
        ConstantValue::MethodType(d) => push_descriptor_debug(s, d),
        ConstantValue::Dynamic(i, n, t) => {
            s.append("Dynamic(");
            push_i64(s, *i as i64);
            s.append(", ");
            s.append(n.as_str());
            s.append(", ");
            push_field_type_text(s, t);
            s.append(")");
        },
        _ => {},
    }
    assert(s@ =~= old(s)@ + constant_text(*c));
}

impl JavaString {
    /// The text of the string constant.
    pub fn to_string(&self) -> (r: String)
        ensures
            r@ == java_string_text(*self),
    {
        let mut s = String::new();
        push_java_string(&mut s, self);
        s
    }
}

impl ConstantValue {
    /// The text of the constant.
    pub fn to_string(&self) -> (r: String)
        requires
            constant_shown(*self),
        ensures
            r@ == constant_text(*self),
    {
        let mut s = String::new();
        push_constant(&mut s, self);
        s
    }
}

/// The Java name of a primitive type, e.g., `int`.
pub open spec fn primitive_text(p: PrimitiveType) -> Seq<char> {
    match p {
        PrimitiveType::Boolean => "boolean"@,
        PrimitiveType::Char => "char"@,
        PrimitiveType::Float => "float"@,
        PrimitiveType::Double => "double"@,
        PrimitiveType::Byte => "byte"@,
        PrimitiveType::Short => "short"@,
        PrimitiveType::Int => "int"@,
        PrimitiveType::Long => "long"@,
    }
}

/// The text of a field type: a primitive type by its Java name, a class by its binary name,
/// and an array type as its element type followed by `[]`.
pub open spec fn field_type_text(t: FieldType) -> Seq<char>
    decreases t,
{
    match t {
        FieldType::Base(p) => primitive_text(p),
        FieldType::Object(c) => c.binary_name@,
        FieldType::Array(e) => field_type_text(*e) + "[]"@,
    }
}

/// The text of a field reference: the owner, a dot and the name.
pub open spec fn field_ref_text(f: FieldRef) -> Seq<char> {
    f.owner.binary_name@ + "."@ + f.name@
}

/// The text of a method reference: the owner, `::` and the name.
pub open spec fn method_ref_text(m: MethodRef) -> Seq<char> {
    m.owner.binary_name@ + "::"@ + m.name@
}

/// The descriptor letter of a primitive type.
pub open spec fn primitive_descriptor(p: PrimitiveType) -> Seq<char> {
    match p {
        PrimitiveType::Boolean => "Z"@,
        PrimitiveType::Char => "C"@,
        PrimitiveType::Float => "F"@,
        PrimitiveType::Double => "D"@,
        PrimitiveType::Byte => "B"@,
        PrimitiveType::Short => "S"@,
        PrimitiveType::Int => "I"@,
        PrimitiveType::Long => "J"@,
    }
}

/// The descriptor of a field type, as a class file writes it, e.g., `[Ljava/lang/String;`.
pub open spec fn field_descriptor(t: FieldType) -> Seq<char>
    decreases t,
{
    match t {
        FieldType::Base(p) => primitive_descriptor(p),
        FieldType::Object(c) => "L"@ + c.binary_name@ + ";"@,
        FieldType::Array(e) => "["@ + field_descriptor(*e),
    }
}

/// The descriptors of field types, one after the other.
pub open spec fn field_descriptors(ts: Seq<FieldType>) -> Seq<char>
    decreases ts.len(),
{
    if ts.len() == 0 {
        Seq::empty()
    } else {
        field_descriptors(ts.drop_last()) + field_descriptor(ts.last())
    }
}

/// The text of a method descriptor: the descriptors of its parameters in brackets, followed
/// by that of its return type, `V` for none, e.g., `(I[J)V`.
pub open spec fn descriptor_text(d: MethodDescriptor) -> Seq<char> {
    "("@ + field_descriptors(d.parameters_types@) + ")"@ + match d.return_type {
        ReturnType::Returns(t) => field_descriptor(t),
        ReturnType::Void => "V"@,
    }
}

/// The escaped form of a character in the quoted text of a string: quotes, backslashes,
/// tabs, line breaks and nul are escaped with a backslash, the other ASCII control
/// characters as `\u{..}` with their hexadecimal code, and every other character stands for
/// itself.
pub open spec fn escaped_char(c: char) -> Seq<char> {
    if c == '"' {
        "\\\""@
    } else if c == '\\' {
        "\\\\"@
    } else if c == '\n' {
        "\\n"@
    } else if c == '\r' {
        "\\r"@
    } else if c == '\t' {
        "\\t"@
    } else if c == '\0' {
        "\\0"@
    } else if (c as int) < 32 || (c as int) == 127 {
        "\\u{"@ + hex_lower((c as int) as u8) + "}"@
    } else {
        seq![c]
    }
}

/// The escaped forms of characters, one after the other.
pub open spec fn escaped_chars(cs: Seq<char>) -> Seq<char>
    decreases cs.len(),
{
    if cs.len() == 0 {
        Seq::empty()
    } else {
        escaped_chars(cs.drop_last()) + escaped_char(cs.last())
    }
}

/// A string in quotes, with its characters escaped.
pub open spec fn quoted(cs: Seq<char>) -> Seq<char> {
    "\""@ + escaped_chars(cs) + "\""@
}

/// The name of a primitive type in the structural form.
pub open spec fn primitive_debug(p: PrimitiveType) -> Seq<char> {
    match p {
        PrimitiveType::Boolean => "Boolean"@,
        PrimitiveType::Char => "Char"@,
        PrimitiveType::Float => "Float"@,
        PrimitiveType::Double => "Double"@,
        PrimitiveType::Byte => "Byte"@,
        PrimitiveType::Short => "Short"@,
        PrimitiveType::Int => "Int"@,
        PrimitiveType::Long => "Long"@,
    }
}

/// The structural form of a class reference, e.g., `ClassRef { binary_name: "A" }`.
pub open spec fn class_ref_debug(c: ClassRef) -> Seq<char> {
    "ClassRef { binary_name: "@ + quoted(c.binary_name@) + " }"@
}

/// The structural form of a field type, e.g., `Array(Base(Int))`.
pub open spec fn field_type_debug(t: FieldType) -> Seq<char>
    decreases t,
{
    match t {
        FieldType::Base(p) => "Base("@ + primitive_debug(p) + ")"@,
        FieldType::Object(c) => "Object("@ + class_ref_debug(c) + ")"@,
        FieldType::Array(e) => "Array("@ + field_type_debug(*e) + ")"@,
    }
}

/// The structural forms of field types, separated by `, `.
pub open spec fn field_types_debug(ts: Seq<FieldType>) -> Seq<char>
    decreases ts.len(),
{
    if ts.len() == 0 {
        Seq::empty()
    } else if ts.len() == 1 {
        field_type_debug(ts[0])
    } else {
        field_types_debug(ts.drop_last()) + ", "@ + field_type_debug(ts.last())
    }
}

/// The structural form of a method descriptor.
pub open spec fn descriptor_debug(d: MethodDescriptor) -> Seq<char> {
    "MethodDescriptor { parameters_types: ["@ + field_types_debug(d.parameters_types@) + "], return_type: "@
        + match d.return_type {
        ReturnType::Returns(t) => "Returns("@ + field_type_debug(t) + ")"@,
        ReturnType::Void => "Void"@,
    } + " }"@
}

/// The structural form of a field reference.
pub open spec fn field_ref_debug(f: FieldRef) -> Seq<char> {
    "FieldRef { owner: "@ + class_ref_debug(f.owner) + ", name: "@ + quoted(f.name@) + ", field_type: "@
        + field_type_debug(f.field_type) + " }"@
}

/// The structural form of a method reference.
pub open spec fn method_ref_debug(m: MethodRef) -> Seq<char> {
    "MethodRef { owner: "@ + class_ref_debug(m.owner) + ", name: "@ + quoted(m.name@) + ", descriptor: "@
        + descriptor_debug(m.descriptor) + " }"@
}

/// The structural form of a method handle: the kind, with the reference in brackets.
pub open spec fn handle_debug(h: MethodHandle) -> Seq<char> {
    match h {
        MethodHandle::RefGetField(f) => "RefGetField("@ + field_ref_debug(f) + ")"@,
        MethodHandle::RefGetStatic(f) => "RefGetStatic("@ + field_ref_debug(f) + ")"@,
        MethodHandle::RefPutField(f) => "RefPutField("@ + field_ref_debug(f) + ")"@,
        MethodHandle::RefPutStatic(f) => "RefPutStatic("@ + field_ref_debug(f) + ")"@,
        MethodHandle::RefInvokeVirtual(m) => "RefInvokeVirtual("@ + method_ref_debug(m) + ")"@,
        MethodHandle::RefInvokeStatic(m) => "RefInvokeStatic("@ + method_ref_debug(m) + ")"@,
        MethodHandle::RefInvokeSpecial(m) => "RefInvokeSpecial("@ + method_ref_debug(m) + ")"@,
        MethodHandle::RefNewInvokeSpecial(m) => "RefNewInvokeSpecial("@ + method_ref_debug(m) + ")"@,
        MethodHandle::RefInvokeInterface(m) => "RefInvokeInterface("@ + method_ref_debug(m) + ")"@,
    }
}

/// Appends the Java name of a primitive type.
pub(crate) fn push_primitive_text(s: &mut String, p: &PrimitiveType)
    ensures
        final(s)@ == old(s)@ + primitive_text(*p),
{
    match p {
        PrimitiveType::Boolean => s.append("boolean"),
        PrimitiveType::Char => s.append("char"),
        PrimitiveType::Float => s.append("float"),
        PrimitiveType::Double => s.append("double"),
        PrimitiveType::Byte => s.append("byte"),
        PrimitiveType::Short => s.append("short"),
        PrimitiveType::Int => s.append("int"),
        PrimitiveType::Long => s.append("long"),
    }
}

/// Appends the text of a field type.
pub(crate) fn push_field_type_text(s: &mut String, t: &FieldType)
    ensures
        final(s)@ == old(s)@ + field_type_text(*t),
    decreases t,
{
    match t {
        FieldType::Base(p) => push_primitive_text(s, p),
        FieldType::Object(c) => s.append(c.binary_name.as_str()),
        FieldType::Array(e) => {
            push_field_type_text(s, e);
            s.append("[]");
        },
    }
    assert(s@ =~= old(s)@ + field_type_text(*t));
}

/// Appends the text of a field reference.
pub(crate) fn push_field_ref_text(s: &mut String, f: &FieldRef)
    ensures
        final(s)@ == old(s)@ + field_ref_text(*f),
{
    s.append(f.owner.binary_name.as_str());
    s.append(".");
    s.append(f.name.as_str());
    assert(s@ =~= old(s)@ + field_ref_text(*f));
}

/// Appends the text of a method reference.
pub(crate) fn push_method_ref_text(s: &mut String, m: &MethodRef)
    ensures
        final(s)@ == old(s)@ + method_ref_text(*m),
{
    s.append(m.owner.binary_name.as_str());
    s.append("::");
    s.append(m.name.as_str());
    assert(s@ =~= old(s)@ + method_ref_text(*m));
}

/// Appends the descriptor letter of a primitive type.
fn push_primitive_descriptor(s: &mut String, p: &PrimitiveType)
    ensures
        final(s)@ == old(s)@ + primitive_descriptor(*p),
{
    match p {
        PrimitiveType::Boolean => s.append("Z"),
        PrimitiveType::Char => s.append("C"),
        PrimitiveType::Float => s.append("F"),
        PrimitiveType::Double => s.append("D"),
        PrimitiveType::Byte => s.append("B"),
        PrimitiveType::Short => s.append("S"),
        PrimitiveType::Int => s.append("I"),
        PrimitiveType::Long => s.append("J"),
    }
}

/// Appends the descriptor of a field type.
fn push_field_descriptor(s: &mut String, t: &FieldType)
    ensures
        final(s)@ == old(s)@ + field_descriptor(*t),
    decreases t,
{
    match t {
        FieldType::Base(p) => push_primitive_descriptor(s, p),
        FieldType::Object(c) => {
            s.append("L");
            s.append(c.binary_name.as_str());
            s.append(";");
        },
        FieldType::Array(e) => {
            s.append("[");
            push_field_descriptor(s, e);
        },
    }
    assert(s@ =~= old(s)@ + field_descriptor(*t));
}

/// Appends the text of a method descriptor.
pub(crate) fn push_descriptor_text(s: &mut String, d: &MethodDescriptor)
    ensures
        final(s)@ == old(s)@ + descriptor_text(*d),
{
    let ts = &d.parameters_types;
    s.append("(");
    let ghost head = s@;
    let mut k: usize = 0;
    assert(ts@.take(0) =~= Seq::<FieldType>::empty());
    assert(s@ =~= head + field_descriptors(ts@.take(0)));
    while k < ts.len()
        invariant
            k <= ts@.len(),
            s@ == head + field_descriptors(ts@.take(k as int)),
        decreases ts@.len() - k,
    {
        push_field_descriptor(s, &ts[k]);
        proof {
            let t = ts@.take(k + 1);
            assert(t.drop_last() =~= ts@.take(k as int));
            assert(t.last() == ts@[k as int]);
        }
        assert(s@ =~= head + field_descriptors(ts@.take(k + 1)));
        k = k + 1;
    }
    assert(ts@.take(k as int) =~= ts@);
    s.append(")");
    match &d.return_type {
        ReturnType::Returns(t) => push_field_descriptor(s, t),
        ReturnType::Void => s.append("V"),
    }
    assert(s@ =~= old(s)@ + descriptor_text(*d));
}

/// Appends a string in quotes, with its characters escaped.
fn push_quoted(s: &mut String, t: &str)
    ensures
        final(s)@ == old(s)@ + quoted(t@),
{
    s.append("\"");
    let ghost head = s@;
    let n = t.unicode_len();
    let mut k: usize = 0;
    assert(t@.take(0) =~= Seq::<char>::empty());
    assert(s@ =~= head + escaped_chars(t@.take(0)));
    while k < n
        invariant
            n == t@.len(),
            k <= n,
            s@ == head + escaped_chars(t@.take(k as int)),
        decreases n - k,
    {
        let ghost before = s@;
        let c = t.get_char(k);
        let code = c as u32;
        if c == '"' {
            s.append("\\\"");
        } else if c == '\\' {
            s.append("\\\\");
        } else if c == '\n' {
            s.append("\\n");
        } else if c == '\r' {
            s.append("\\r");
        } else if c == '\t' {
            s.append("\\t");
        } else if c == '\0' {
            s.append("\\0");
        } else if code < 32 || code == 127 {
            s.append("\\u{");
            push_hex_lower(s, code as u8);
            s.append("}");
        } else {
            s.append(t.substring_char(k, k + 1));
            assert(t@.subrange(k as int, k + 1) =~= seq![c]);
        }
        assert(s@ =~= before + escaped_char(c));
        proof {
            let u = t@.take(k + 1);
            assert(u.drop_last() =~= t@.take(k as int));
            assert(u.last() == c);
        }
        assert(s@ =~= head + escaped_chars(t@.take(k + 1)));
        k = k + 1;
    }
    assert(t@.take(n as int) =~= t@);
    s.append("\"");
    assert(s@ =~= old(s)@ + quoted(t@));
}

/// Appends the structural name of a primitive type.
fn push_primitive_debug(s: &mut String, p: &PrimitiveType)
    ensures
        final(s)@ == old(s)@ + primitive_debug(*p),
{
    match p {
        PrimitiveType::Boolean => s.append("Boolean"),
        PrimitiveType::Char => s.append("Char"),
        PrimitiveType::Float => s.append("Float"),
        PrimitiveType::Double => s.append("Double"),
        PrimitiveType::Byte => s.append("Byte"),
        PrimitiveType::Short => s.append("Short"),
        PrimitiveType::Int => s.append("Int"),
        PrimitiveType::Long => s.append("Long"),
    }
}

/// Appends the structural form of a class reference.
fn push_class_ref_debug(s: &mut String, c: &ClassRef)
    ensures
        final(s)@ == old(s)@ + class_ref_debug(*c),
{
    s.append("ClassRef { binary_name: ");
    push_quoted(s, c.binary_name.as_str());
    s.append(" }");
    assert(s@ =~= old(s)@ + class_ref_debug(*c));
}

/// Appends the structural form of a field type.
fn push_field_type_debug(s: &mut String, t: &FieldType)
    ensures
        final(s)@ == old(s)@ + field_type_debug(*t),
    decreases t,
{
    match t {
        FieldType::Base(p) => {
            s.append("Base(");
            push_primitive_debug(s, p);
            s.append(")");
        },
        FieldType::Object(c) => {
            s.append("Object(");
            push_class_ref_debug(s, c);
            s.append(")");
        },
        FieldType::Array(e) => {
            s.append("Array(");
            push_field_type_debug(s, e);
            s.append(")");
        },
    }
    assert(s@ =~= old(s)@ + field_type_debug(*t));
}

/// Appends the structural form of a method descriptor.
fn push_descriptor_debug(s: &mut String, d: &MethodDescriptor)
    ensures
        final(s)@ == old(s)@ + descriptor_debug(*d),
{
    let ts = &d.parameters_types;
    s.append("MethodDescriptor { parameters_types: [");
    let ghost head = s@;
    let mut k: usize = 0;
    assert(ts@.take(0) =~= Seq::<FieldType>::empty());
    assert(s@ =~= head + field_types_debug(ts@.take(0)));
    while k < ts.len()
        invariant
            k <= ts@.len(),
            s@ == head + field_types_debug(ts@.take(k as int)),
        decreases ts@.len() - k,
    {
        if k > 0 {
            s.append(", ");
        }
        push_field_type_debug(s, &ts[k]);
        proof {
            let t = ts@.take(k + 1);
            assert(t.drop_last() =~= ts@.take(k as int));
            assert(t.last() == ts@[k as int]);
            if k == 0 {
                assert(t =~= seq![ts@[0]]);
            }
        }
        assert(s@ =~= head + field_types_debug(ts@.take(k + 1)));
        k = k + 1;
    }
    assert(ts@.take(k as int) =~= ts@);
    s.append("], return_type: ");
    match &d.return_type {
        ReturnType::Returns(t) => {
            s.append("Returns(");
            push_field_type_debug(s, t);
            s.append(")");
        },
        ReturnType::Void => s.append("Void"),
    }
    s.append(" }");
    assert(s@ =~= old(s)@ + descriptor_debug(*d));
}

/// Appends the structural form of a field reference.
fn push_field_ref_debug(s: &mut String, f: &FieldRef)
    ensures
        final(s)@ == old(s)@ + field_ref_debug(*f),
{
    s.append("FieldRef { owner: ");
    push_class_ref_debug(s, &f.owner);
    s.append(", name: ");
    push_quoted(s, f.name.as_str());
    s.append(", field_type: ");
    push_field_type_debug(s, &f.field_type);
    s.append(" }");
    assert(s@ =~= old(s)@ + field_ref_debug(*f));
}

/// Appends the structural form of a method reference.
fn push_method_ref_debug(s: &mut String, m: &MethodRef)
    ensures
        final(s)@ == old(s)@ + method_ref_debug(*m),
{
    s.append("MethodRef { owner: ");
    push_class_ref_debug(s, &m.owner);
    s.append(", name: ");
    push_quoted(s, m.name.as_str());
    s.append(", descriptor: ");
    push_descriptor_debug(s, &m.descriptor);
    s.append(" }");
    assert(s@ =~= old(s)@ + method_ref_debug(*m));
}

/// Appends the structural form of a method handle.
fn push_handle_debug(s: &mut String, h: &MethodHandle)
    ensures
        final(s)@ == old(s)@ + handle_debug(*h),
{
    match h {
        MethodHandle::RefGetField(f) => { s.append("RefGetField("); push_field_ref_debug(s, f); },
        MethodHandle::RefGetStatic(f) => { s.append("RefGetStatic("); push_field_ref_debug(s, f); },
        MethodHandle::RefPutField(f) => { s.append("RefPutField("); push_field_ref_debug(s, f); },
        MethodHandle::RefPutStatic(f) => { s.append("RefPutStatic("); push_field_ref_debug(s, f); },
        MethodHandle::RefInvokeVirtual(m) => { s.append("RefInvokeVirtual("); push_method_ref_debug(s, m); },
        MethodHandle::RefInvokeStatic(m) => { s.append("RefInvokeStatic("); push_method_ref_debug(s, m); },
        MethodHandle::RefInvokeSpecial(m) => { s.append("RefInvokeSpecial("); push_method_ref_debug(s, m); },
        MethodHandle::RefNewInvokeSpecial(m) => { s.append("RefNewInvokeSpecial("); push_method_ref_debug(s, m); },
        MethodHandle::RefInvokeInterface(m) => { s.append("RefInvokeInterface("); push_method_ref_debug(s, m); },
    }
    s.append(")");
    assert(s@ =~= old(s)@ + handle_debug(*h));
}

/// The text of a return type: `void`, or the text of the type.
pub open spec fn return_type_text(r: ReturnType) -> Seq<char> {
    match r {
        ReturnType::Returns(t) => field_type_text(t),
        ReturnType::Void => "void"@,
    }
}

/// Appends the text of a return type.
pub(crate) fn push_return_type_text(s: &mut String, r: &ReturnType)
    ensures
        final(s)@ == old(s)@ + return_type_text(*r),
{
    match r {
        ReturnType::Returns(t) => push_field_type_text(s, t),
        ReturnType::Void => s.append("void"),
    }
}

} // verus!
