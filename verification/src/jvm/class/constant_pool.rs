//! The constant pool of a class file.
use vstd::prelude::*;

use crate::jvm::JavaString;

verus! {

/// A slot of the constant pool: an entry, or the unusable slot after a `long` or `double`
/// entry (and slot 0).
#[derive(Debug, Clone)]
pub enum Slot {
    /// An entry.
    Entry(Entry),
    /// An unusable slot.
    Padding,
}

/// The constant pool of a class file, indexed from 1.
#[derive(Debug, Clone)]
pub struct ConstantPool {
    inner: Vec<Slot>,
}

/// An index that denotes no entry of the constant pool.
#[derive(Debug, PartialEq, Eq, Structural, Clone, Copy)]
pub struct BadConstantPoolIndex(pub u16);

/// An entry of the constant pool. `float` and `double` constants are held as the bits of
/// their IEEE 754 representation.
#[derive(Debug, Clone)]
#[non_exhaustive]
pub enum Entry {
    /// A `CONSTANT_Utf8` entry.
    Utf8(JavaString),
    /// A `CONSTANT_Integer` entry.
    Integer(i32),
    /// A `CONSTANT_Float` entry, by its bits.
    Float(u32),
    /// A `CONSTANT_Long` entry.
    Long(i64),
    /// A `CONSTANT_Double` entry, by its bits.
    Double(u64),
    /// A `CONSTANT_Class` entry.
    Class { name_index: u16 },
    /// A `CONSTANT_String` entry.
    String { string_index: u16 },
    /// A `CONSTANT_Fieldref` entry.
    FieldRef { class_index: u16, name_and_type_index: u16 },
    /// A `CONSTANT_Methodref` entry.
    MethodRef { class_index: u16, name_and_type_index: u16 },
    /// A `CONSTANT_InterfaceMethodref` entry.
    InterfaceMethodRef { class_index: u16, name_and_type_index: u16 },
    /// A `CONSTANT_NameAndType` entry.
    NameAndType { name_index: u16, descriptor_index: u16 },
    /// A `CONSTANT_MethodHandle` entry.
    MethodHandle { reference_kind: u8, reference_index: u16 },
    /// A `CONSTANT_MethodType` entry.
    MethodType { descriptor_index: u16 },
    /// A `CONSTANT_Dynamic` entry.
    Dynamic { bootstrap_method_attr_index: u16, name_and_type_index: u16 },
    /// A `CONSTANT_InvokeDynamic` entry.
    InvokeDynamic { bootstrap_method_attr_index: u16, name_and_type_index: u16 },
    /// A `CONSTANT_Module` entry.
    Module { name_index: u16 },
    /// A `CONSTANT_Package` entry.
    Package { name_index: u16 },
}

/// The name of the kind of an entry, as the JVM specification writes it.
pub open spec fn kind_name(e: Entry) -> Seq<char> {
    match e {
        Entry::Utf8(_) => "CONSTANT_Utf8"@,
        Entry::Integer(_) => "CONSTANT_Integer"@,
        Entry::Float(_) => "CONSTANT_Float"@,
        Entry::Long(_) => "CONSTANT_Long"@,
        Entry::Double(_) => "CONSTANT_Double"@,
        Entry::Class { .. } => "CONSTANT_Class"@,
        Entry::String { .. } => "CONSTANT_String"@,
        Entry::FieldRef { .. } => "CONSTANT_Fieldref"@,
        Entry::MethodRef { .. } => "CONSTANT_Methodref"@,
        Entry::InterfaceMethodRef { .. } => "CONSTANT_InterfaceMethodref"@,
        Entry::NameAndType { .. } => "CONSTANT_NameAndType"@,
        Entry::MethodHandle { .. } => "CONSTANT_MethodHandle"@,
        Entry::MethodType { .. } => "CONSTANT_MethodType"@,
        Entry::Dynamic { .. } => "CONSTANT_Dynamic"@,
        Entry::InvokeDynamic { .. } => "CONSTANT_InvokeDynamic"@,
        Entry::Module { .. } => "CONSTANT_Module"@,
        Entry::Package { .. } => "CONSTANT_Package"@,
    }
}

/// The name of the kind of every entry starts with `CONSTANT_`.
pub proof fn lemma_kind_name_prefix(e: Entry)
    ensures
        kind_name(e).len() > 9,
        kind_name(e).take(9) == "CONSTANT_"@,
{
    reveal_strlit("CONSTANT_");
    reveal_strlit("CONSTANT_Utf8");
    reveal_strlit("CONSTANT_Integer");
    reveal_strlit("CONSTANT_Float");
    reveal_strlit("CONSTANT_Long");
    reveal_strlit("CONSTANT_Double");
    reveal_strlit("CONSTANT_Class");
    reveal_strlit("CONSTANT_String");
    reveal_strlit("CONSTANT_Fieldref");
    reveal_strlit("CONSTANT_Methodref");
    reveal_strlit("CONSTANT_InterfaceMethodref");
    reveal_strlit("CONSTANT_NameAndType");
    reveal_strlit("CONSTANT_MethodHandle");
    reveal_strlit("CONSTANT_MethodType");
    reveal_strlit("CONSTANT_Dynamic");
    reveal_strlit("CONSTANT_InvokeDynamic");
    reveal_strlit("CONSTANT_Module");
    reveal_strlit("CONSTANT_Package");
    assert(kind_name(e).take(9) =~= "CONSTANT_"@);
}

impl Entry {
    /// Gets the name of the kind of the entry.
    pub fn constant_kind(&self) -> (r: &'static str)
        ensures
            r@ == kind_name(*self),
    {
        match self {
            Entry::Utf8(_) => "CONSTANT_Utf8",
            Entry::Integer(_) => "CONSTANT_Integer",
            Entry::Float(_) => "CONSTANT_Float",
            Entry::Long(_) => "CONSTANT_Long",
            Entry::Double(_) => "CONSTANT_Double",
            Entry::Class { .. } => "CONSTANT_Class",
            Entry::String { .. } => "CONSTANT_String",
            Entry::FieldRef { .. } => "CONSTANT_Fieldref",
            Entry::MethodRef { .. } => "CONSTANT_Methodref",
            Entry::InterfaceMethodRef { .. } => "CONSTANT_InterfaceMethodref",
            Entry::NameAndType { .. } => "CONSTANT_NameAndType",
            Entry::MethodHandle { .. } => "CONSTANT_MethodHandle",
            Entry::MethodType { .. } => "CONSTANT_MethodType",
            Entry::Dynamic { .. } => "CONSTANT_Dynamic",
            Entry::InvokeDynamic { .. } => "CONSTANT_InvokeDynamic",
            Entry::Module { .. } => "CONSTANT_Module",
            Entry::Package { .. } => "CONSTANT_Package",
        }
    }

    /// Whether the entry takes two slots (`long` and `double`).
    pub open spec fn is_wide(self) -> bool {
        self is Long || self is Double
    }
}

/// The slots that a sequence of entries fills, after the unusable slot 0.
pub open spec fn slots_of(entries: Seq<Entry>) -> Seq<Slot>
    decreases entries.len(),
{
    if entries.len() == 0 {
        seq![Slot::Padding]
    } else {
        let last = entries.last();
        let before = slots_of(entries.drop_last());
        if last.is_wide() {
            before.push(Slot::Entry(last)).push(Slot::Padding)
        } else {
            before.push(Slot::Entry(last))
        }
    }
}

impl ConstantPool {
    /// The slots of the pool, slot 0 included.
    pub closed spec fn slots(self) -> Seq<Slot> {
        self.inner@
    }

    /// Creates a constant pool that holds the entries in order: each `long` and `double`
    /// entry takes two slots.
    pub fn from_entries(entries: Vec<Entry>) -> (r: Self)
        ensures
            r.slots() == slots_of(entries@),
    {
        let mut inner: Vec<Slot> = Vec::new();
        inner.push(Slot::Padding);
        let ghost all = entries@;
        let ghost mut taken: Seq<Entry> = Seq::empty();
        let mut source = entries;
        let mut rest: Vec<Entry> = Vec::new();
        while source.len() > 0
            invariant
                source@ + rest@.reverse() == all,
            decreases source@.len(),
        {
            let ghost s0 = source@;
            let ghost r0 = rest@;
            let e = source.pop().unwrap();
            rest.push(e);
            proof {
                assert(rest@.reverse() =~= seq![e] + r0.reverse());
                assert(s0 =~= source@.push(e));
                assert(source@ + rest@.reverse() =~= s0 + r0.reverse());
            }
        }
        assert(rest@.reverse() == all);
        assert(rest@ =~= all.reverse());
        assert(all.take(0) =~= taken);
        assert(all.skip(0) =~= all);
        assert(rest@ =~= all.skip(0).reverse());
        while rest.len() > 0
            invariant
                taken.len() + rest@.len() == all.len(),
                taken == all.take(taken.len() as int),
                rest@ == all.skip(taken.len() as int).reverse(),
                inner@ == slots_of(taken),
            decreases rest@.len(),
        {
            let ghost k = taken.len() as int;
            let e = rest.pop().unwrap();
            proof {
                assert(all.skip(k).reverse()[rest@.len() as int] == all[k]);
                taken = taken.push(e);
                assert(taken =~= all.take(k + 1));
                assert(rest@ =~= all.skip(k + 1).reverse());
                assert(taken.drop_last() =~= all.take(k));
            }
            let wide = match &e {
                Entry::Long(_) | Entry::Double(_) => true,
                _ => false,
            };
            if wide {
                inner.push(Slot::Entry(e));
                inner.push(Slot::Padding);
            } else {
                inner.push(Slot::Entry(e));
            }
        }
        assert(taken =~= all);
        ConstantPool { inner }
    }

    /// Gets the entry at `index`.
    ///
    /// # Errors
    /// [`BadConstantPoolIndex`] when no entry is at `index`.
    pub fn get_entry(&self, index: u16) -> (r: Result<&Entry, BadConstantPoolIndex>)
        ensures
            (index < self.slots().len() && self.slots()[index as int] is Entry) ==> r == Ok::<&Entry, BadConstantPoolIndex>(
                &self.slots()[index as int]->Entry_0,
            ),
            !(index < self.slots().len() && self.slots()[index as int] is Entry) ==> r == Err::<&Entry, BadConstantPoolIndex>(
                BadConstantPoolIndex(index),
            ),
    {
        let i = index as usize;
        if i < self.inner.len() {
            match &self.inner[i] {
                Slot::Entry(entry) => Ok(entry),
                Slot::Padding => Err(BadConstantPoolIndex(index)),
            }
        } else {
            Err(BadConstantPoolIndex(index))
        }
    }
}

} // verus!
