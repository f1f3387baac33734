//! Program counters, i.e., locations of instructions in a method body.
use vstd::prelude::*;

verus! {

/// Denotes a program counter in an instruction sequence.
#[derive(Clone, Copy, PartialEq, Eq, Structural, Hash, PartialOrd, Ord, Debug)]
pub struct ProgramCounter(u16);

/// An error occurring when trying to offset a program counter.
#[derive(Debug, PartialEq, Eq, Structural, Clone, Copy)]
pub struct InvalidOffset;

impl View for ProgramCounter {
    type V = u16;

    closed spec fn view(&self) -> u16 {
        self.0
    }
}

/// The program counter with the given value.
pub closed spec fn pc_of(value: int) -> ProgramCounter
    recommends
        0 <= value <= u16::MAX,
{
    ProgramCounter(value as u16)
}

/// A program counter is determined by its value.
pub broadcast proof fn lemma_pc_view_injective(a: ProgramCounter, b: ProgramCounter)
    ensures
        #[trigger] a@ == #[trigger] b@ ==> a == b,
{
}

/// The program counter built from a value has that value.
pub broadcast proof fn lemma_pc_of_view(value: int)
    requires
        0 <= value <= u16::MAX,
    ensures
        #[trigger] pc_of(value)@ == value,
{
}

/// Every program counter is the one built from its value.
pub broadcast proof fn lemma_pc_of_own_view(pc: ProgramCounter)
    ensures
        pc_of(#[trigger] pc@ as int) == pc,
{
}

pub broadcast group group_pc_facts {
    lemma_pc_view_injective,
    lemma_pc_of_view,
    lemma_pc_of_own_view,
}

/// The result of moving a program counter by `offset`: the new location when it fits into a
/// program counter, and [`InvalidOffset`] otherwise.
pub open spec fn offset_result(pc: ProgramCounter, offset: int) -> Result<ProgramCounter, InvalidOffset> {
    let target = pc@ + offset;
    if 0 <= target <= u16::MAX {
        Ok(pc_of(target))
    } else {
        Err(InvalidOffset)
    }
}

/// The upper-case hexadecimal digit of a number in `0..16`.
pub open spec fn hex_digit(d: int) -> char {
    if d < 10 {
        (d + 48) as char
    } else {
        (d + 55) as char
    }
}

/// The textual form of a program counter: `#` followed by four upper-case hexadecimal digits.
pub open spec fn pc_text(value: u16) -> Seq<char> {
    seq![
        '#',
        hex_digit(value as int / 4096),
        hex_digit((value as int / 256) % 16),
        hex_digit((value as int / 16) % 16),
        hex_digit(value as int % 16),
    ]
}

/// Appends the hexadecimal digit `d` to `s`.
pub(crate) fn push_hex_digit(s: &mut String, d: u16)
    requires
        d < 16,
    ensures
        final(s)@ == old(s)@.push(hex_digit(d as int)),
{
    let digits = [
        "0", "1", "2", "3", "4", "5", "6", "7", "8", "9", "A", "B", "C", "D", "E", "F",
    ];
    let digit: &str = digits[d as usize];
    proof {
        reveal_strlit("0");
        reveal_strlit("1");
        reveal_strlit("2");
        reveal_strlit("3");
        reveal_strlit("4");
        reveal_strlit("5");
        reveal_strlit("6");
        reveal_strlit("7");
        reveal_strlit("8");
        reveal_strlit("9");
        reveal_strlit("A");
        reveal_strlit("B");
        reveal_strlit("C");
        reveal_strlit("D");
        reveal_strlit("E");
        reveal_strlit("F");
    }
    assert(digit@ == seq![hex_digit(d as int)]);
    s.append(digit);
}

impl ProgramCounter {
    /// Denotes the entry point of a program.
    pub fn zero() -> (pc: Self)
        ensures
            pc@ == 0,
    {
        ProgramCounter(0)
    }

    /// Creates a program counter from its numeric value.
    pub fn new(value: u16) -> (pc: Self)
        ensures
            pc@ == value,
    {
        ProgramCounter(value)
    }

    /// Creates a new program counter based on the given value with a given offset.
    ///
    /// # Errors
    /// [`InvalidOffset`] if the resulting value does not fit into a [`ProgramCounter`].
    pub fn offset(&self, offset: i32) -> (r: Result<Self, InvalidOffset>)
        ensures
            r == offset_result(*self, offset as int),
    {
        self.checked_offset(offset as i64)
    }

    /// Creates a new program counter based on the given value with a given offset (in [`i16`]).
    ///
    /// # Errors
    /// [`InvalidOffset`] if the resulting value does not fit into a [`ProgramCounter`].
    pub fn offset_i16(&self, offset: i16) -> (r: Result<Self, InvalidOffset>)
        ensures
            r == offset_result(*self, offset as int),
    {
        self.checked_offset(offset as i64)
    }

    /// Moves the program counter by `offset`, failing when the result is out of range.
    fn checked_offset(&self, offset: i64) -> (r: Result<Self, InvalidOffset>)
        requires
            i32::MIN <= offset <= i32::MAX,
        ensures
            r == offset_result(*self, offset as int),
    {
        let target: i64 = self.0 as i64 + offset;
        if 0 <= target && target <= 0xFFFF {
            Ok(ProgramCounter(target as u16))
        } else {
            Err(InvalidOffset)
        }
    }

    /// Checks if the program counter is an entry point.
    pub fn is_entry_point(&self) -> (r: bool)
        ensures
            r == (self@ == 0),
    {
        self.0 == 0
    }

    /// Converts the program counter into its numeric value.
    pub fn into(self) -> (r: u16)
        ensures
            r == self@,
    {
        self.0
    }

    /// Formats the program counter as `#` followed by four upper-case hexadecimal digits,
    /// e.g., `#000A`.
    pub fn to_string(&self) -> (s: String)
        ensures
            s@ == pc_text(self@),
    {
        let v = self.0;
        let mut s = String::new();
        proof {
            reveal_strlit("#");
        }
        s.append("#");
        push_hex_digit(&mut s, v / 4096);
        push_hex_digit(&mut s, (v / 256) % 16);
        push_hex_digit(&mut s, (v / 16) % 16);
        push_hex_digit(&mut s, v % 16);
        s
    }
}

impl Default for ProgramCounter {
    /// The default program counter is the entry point.
    fn default() -> (pc: Self)
        ensures
            pc@ == 0,
    {
        ProgramCounter(0)
    }
}

impl From<u16> for ProgramCounter {
    fn from(value: u16) -> (pc: Self) {
        ProgramCounter(value)
    }
}

impl vstd::std_specs::convert::FromSpecImpl<u16> for ProgramCounter {
    open spec fn obeys_from_spec() -> bool {
        true
    }

    open spec fn from_spec(v: u16) -> Self {
        pc_of(v as int)
    }
}

impl From<ProgramCounter> for u16 {
    fn from(pc: ProgramCounter) -> (v: u16) {
        pc.0
    }
}

impl vstd::std_specs::convert::FromSpecImpl<ProgramCounter> for u16 {
    open spec fn obeys_from_spec() -> bool {
        true
    }

    open spec fn from_spec(pc: ProgramCounter) -> u16 {
        pc@
    }
}

impl core::ops::Add<i16> for ProgramCounter {
    type Output = Result<ProgramCounter, InvalidOffset>;

    fn add(self, rhs: i16) -> (r: Result<ProgramCounter, InvalidOffset>) {
        self.checked_offset(rhs as i64)
    }
}

impl vstd::std_specs::ops::AddSpecImpl<i16> for ProgramCounter {
    open spec fn obeys_add_spec() -> bool {
        true
    }

    open spec fn add_req(self, rhs: i16) -> bool {
        true
    }

    open spec fn add_spec(self, rhs: i16) -> Result<ProgramCounter, InvalidOffset> {
        offset_result(self, rhs as int)
    }
}

impl core::ops::Add<i32> for ProgramCounter {
    type Output = Result<ProgramCounter, InvalidOffset>;

    fn add(self, rhs: i32) -> (r: Result<ProgramCounter, InvalidOffset>) {
        self.checked_offset(rhs as i64)
    }
}

impl vstd::std_specs::ops::AddSpecImpl<i32> for ProgramCounter {
    open spec fn obeys_add_spec() -> bool {
        true
    }

    open spec fn add_req(self, rhs: i32) -> bool {
        true
    }

    open spec fn add_spec(self, rhs: i32) -> Result<ProgramCounter, InvalidOffset> {
        offset_result(self, rhs as int)
    }
}

impl core::ops::Add<u16> for ProgramCounter {
    type Output = Result<ProgramCounter, InvalidOffset>;

    fn add(self, rhs: u16) -> (r: Result<ProgramCounter, InvalidOffset>) {
        self.checked_offset(rhs as i64)
    }
}

impl vstd::std_specs::ops::AddSpecImpl<u16> for ProgramCounter {
    open spec fn obeys_add_spec() -> bool {
        true
    }

    open spec fn add_req(self, rhs: u16) -> bool {
        true
    }

    open spec fn add_spec(self, rhs: u16) -> Result<ProgramCounter, InvalidOffset> {
        offset_result(self, rhs as int)
    }
}

} // verus!
