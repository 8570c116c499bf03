//! The word with option flags. Its tag has three bits; two flags behind the tag say
//! whether the value is an option and whether that option is none.
//!
//! | field       | bits   |
//! |-------------|--------|
//! | `tag`       | 0..3   |
//! | `is_option` | 3      |
//! | `is_none`   | 4      |
//! | `opcode`    | 5..11  |
//! | `chaff`     | 11..32 |
//! | `ptr`       | 32..64 |

use vstd::prelude::*;

verus! {

pub use crate::word::structure::{bitmask, spec_bitmask};

/// The kind of value that a word holds.
#[derive(Debug, Clone, Copy, PartialEq, Eq, Structural)]
pub enum ValueTag {
    Int,
    Bool,
    Char,
    FnPtr,
    FloatPtr,
    StrPtr,
    TablePtr,
}

impl ValueTag {
    /// The number that stands for this variant in a word.
    pub open spec fn code(self) -> u64 {
        match self {
            ValueTag::Int => 0,
            ValueTag::Bool => 1,
            ValueTag::Char => 2,
            ValueTag::FnPtr => 3,
            ValueTag::FloatPtr => 4,
            ValueTag::StrPtr => 5,
            ValueTag::TablePtr => 6,
        }
    }

    pub fn to_u8(&self) -> (n: u8)
        ensures
            n == self.code(),
            n < 7,
    {
        match self {
            ValueTag::Int => 0,
            ValueTag::Bool => 1,
            ValueTag::Char => 2,
            ValueTag::FnPtr => 3,
            ValueTag::FloatPtr => 4,
            ValueTag::StrPtr => 5,
            ValueTag::TablePtr => 6,
        }
    }

    pub fn from_u64(n: u64) -> (r: Option<ValueTag>)
        ensures
            r is Some <==> n < 7,
            r matches Some(v) ==> v.code() == n,
    {
        match n {
            0 => Some(ValueTag::Int),
            1 => Some(ValueTag::Bool),
            2 => Some(ValueTag::Char),
            3 => Some(ValueTag::FnPtr),
            4 => Some(ValueTag::FloatPtr),
            5 => Some(ValueTag::StrPtr),
            6 => Some(ValueTag::TablePtr),
            _ => None,
        }
    }
}

/// What the machine does with a word.
#[derive(Debug, Clone, Copy, PartialEq, Eq, Structural)]
pub enum OpCode {
    Value,
    Stop,
    Return,
    Jump,
    JumpIfFalse,
    Call,
    CallBuiltin,
    SetLocal,
    GetLocal,
    SetGlobal,
    GetGlobal,
    IndexGet,
    IndexSet,
    WrapInOption,
    UnwrapOption,
    Add,
    Subtract,
    Multiply,
    Divide,
    Modulo,
    Power,
    Print,
    Negate,
    LogicalAnd,
    LogicalOr,
    LogicalXor,
    GreaterThan,
    LessThan,
    Equals,
    NotEquals,
    GreaterThanEq,
    LessThanEq,
    Cast,
}

impl OpCode {
    /// The number that stands for this variant in a word.
    pub open spec fn code(self) -> u64 {
        match self {
            OpCode::Value => 0,
            OpCode::Stop => 1,
            OpCode::Return => 2,
            OpCode::Jump => 3,
            OpCode::JumpIfFalse => 4,
            OpCode::Call => 5,
            OpCode::CallBuiltin => 6,
            OpCode::SetLocal => 7,
            OpCode::GetLocal => 8,
            OpCode::SetGlobal => 9,
            OpCode::GetGlobal => 10,
            OpCode::IndexGet => 11,
            OpCode::IndexSet => 12,
            OpCode::WrapInOption => 13,
            OpCode::UnwrapOption => 14,
            OpCode::Add => 15,
            OpCode::Subtract => 16,
            OpCode::Multiply => 17,
            OpCode::Divide => 18,
            OpCode::Modulo => 19,
            OpCode::Power => 20,
            OpCode::Print => 21,
            OpCode::Negate => 22,
            OpCode::LogicalAnd => 23,
            OpCode::LogicalOr => 24,
            OpCode::LogicalXor => 25,
            OpCode::GreaterThan => 26,
            OpCode::LessThan => 27,
            OpCode::Equals => 28,
            OpCode::NotEquals => 29,
            OpCode::GreaterThanEq => 30,
            OpCode::LessThanEq => 31,
            OpCode::Cast => 32,
        }
    }

    pub fn to_u8(&self) -> (n: u8)
        ensures
            n == self.code(),
            n < 33,
    {
        match self {
            OpCode::Value => 0,
            OpCode::Stop => 1,
            OpCode::Return => 2,
            OpCode::Jump => 3,
            OpCode::JumpIfFalse => 4,
            OpCode::Call => 5,
            OpCode::CallBuiltin => 6,
            OpCode::SetLocal => 7,
            OpCode::GetLocal => 8,
            OpCode::SetGlobal => 9,
            OpCode::GetGlobal => 10,
            OpCode::IndexGet => 11,
            OpCode::IndexSet => 12,
            OpCode::WrapInOption => 13,
            OpCode::UnwrapOption => 14,
            OpCode::Add => 15,
            OpCode::Subtract => 16,
            OpCode::Multiply => 17,
            OpCode::Divide => 18,
            OpCode::Modulo => 19,
            OpCode::Power => 20,
            OpCode::Print => 21,
            OpCode::Negate => 22,
            OpCode::LogicalAnd => 23,
            OpCode::LogicalOr => 24,
            OpCode::LogicalXor => 25,
            OpCode::GreaterThan => 26,
            OpCode::LessThan => 27,
            OpCode::Equals => 28,
            OpCode::NotEquals => 29,
            OpCode::GreaterThanEq => 30,
            OpCode::LessThanEq => 31,
            OpCode::Cast => 32,
        }
    }

    pub fn from_u64(n: u64) -> (r: Option<OpCode>)
        ensures
            r is Some <==> n < 33,
            r matches Some(v) ==> v.code() == n,
    {
        match n {
            0 => Some(OpCode::Value),
            1 => Some(OpCode::Stop),
            2 => Some(OpCode::Return),
            3 => Some(OpCode::Jump),
            4 => Some(OpCode::JumpIfFalse),
            5 => Some(OpCode::Call),
            6 => Some(OpCode::CallBuiltin),
            7 => Some(OpCode::SetLocal),
            8 => Some(OpCode::GetLocal),
            9 => Some(OpCode::SetGlobal),
            10 => Some(OpCode::GetGlobal),
            11 => Some(OpCode::IndexGet),
            12 => Some(OpCode::IndexSet),
            13 => Some(OpCode::WrapInOption),
            14 => Some(OpCode::UnwrapOption),
            15 => Some(OpCode::Add),
            16 => Some(OpCode::Subtract),
            17 => Some(OpCode::Multiply),
            18 => Some(OpCode::Divide),
            19 => Some(OpCode::Modulo),
            20 => Some(OpCode::Power),
            21 => Some(OpCode::Print),
            22 => Some(OpCode::Negate),
            23 => Some(OpCode::LogicalAnd),
            24 => Some(OpCode::LogicalOr),
            25 => Some(OpCode::LogicalXor),
            26 => Some(OpCode::GreaterThan),
            27 => Some(OpCode::LessThan),
            28 => Some(OpCode::Equals),
            29 => Some(OpCode::NotEquals),
            30 => Some(OpCode::GreaterThanEq),
            31 => Some(OpCode::LessThanEq),
            32 => Some(OpCode::Cast),
            _ => None,
        }
    }
}

pub const TAG_START: u64 = 0;

pub const IS_OPTION_FLAG_START: u64 = 3;

pub const IS_NONE_OPTION_FLAG_START: u64 = 4;

pub const OPCODE_START: u64 = 5;

pub const CHAFF_START: u64 = 11;

pub const PTR_START: u64 = 32;

pub const TAG_MASK: u64 = 0x0000_0000_0000_0007;

pub const IS_OPTION_FLAG_MASK: u64 = 0x0000_0000_0000_0008;

pub const IS_NONE_OPTION_FLAG_MASK: u64 = 0x0000_0000_0000_0010;

pub const OPCODE_MASK: u64 = 0x0000_0000_0000_07E0;

pub const CHAFF_MASK: u64 = 0x0000_0000_FFFF_F800;

pub const PTR_MASK: u64 = 0xFFFF_FFFF_0000_0000;

/// stores VM values in 64 bits that can either be the direct representation of the
/// value, or the place of the value in the heap.
#[derive(Debug, Clone, Copy, PartialEq, Eq, Structural)]
pub struct Word(pub u64);

/// The fields of a word, as numbers.
pub struct WordView {
    pub tag: u64,
    pub is_option: bool,
    pub is_none: bool,
    pub opcode: u64,
    pub chaff: u64,
    pub payload: u64,
}

impl View for Word {
    type V = WordView;

    open spec fn view(&self) -> WordView {
        WordView {
            tag: self.0 & TAG_MASK,
            is_option: (self.0 & IS_OPTION_FLAG_MASK) >> IS_OPTION_FLAG_START == 1,
            is_none: (self.0 & IS_NONE_OPTION_FLAG_MASK) >> IS_NONE_OPTION_FLAG_START == 1,
            opcode: (self.0 & OPCODE_MASK) >> OPCODE_START,
            chaff: (self.0 & CHAFF_MASK) >> CHAFF_START,
            payload: (self.0 & PTR_MASK) >> PTR_START,
        }
    }
}

/// The fields of the word that is put together from its parts.
proof fn lemma_made(p: u64, a: u64, b: u64, o: u64, t: u64)
    requires
        p < 0x1_0000_0000,
        a <= 1,
        b <= 1,
        o < 64,
        t < 8,
    ensures
        ({
            let r = ((p << 32) & 0xFFFF_FFFF_0000_0000) | (a << 3) | (b << 4) | ((o << 5) & 0x7E0) | (t
                & 0x7);
            &&& r & 0x7 == t
            &&& (r & 0x8) >> 3 == a
            &&& (r & 0x10) >> 4 == b
            &&& (r & 0x7E0) >> 5 == o
            &&& (r & 0xFFFF_F800) >> 11 == 0
            &&& (r & 0xFFFF_FFFF_0000_0000) >> 32 == p
        }),
{
    assert({
        let r = ((p << 32) & 0xFFFF_FFFF_0000_0000) | (a << 3) | (b << 4) | ((o << 5) & 0x7E0) | (t
            & 0x7);
        &&& r & 0x7 == t
        &&& (r & 0x8) >> 3 == a
        &&& (r & 0x10) >> 4 == b
        &&& (r & 0x7E0) >> 5 == o
        &&& (r & 0xFFFF_F800) >> 11 == 0
        &&& (r & 0xFFFF_FFFF_0000_0000) >> 32 == p
    }) by (bit_vector)
        requires
            p < 0x1_0000_0000,
            a <= 1,
            b <= 1,
            o < 64,
            t < 8,
    ;
}

/// The fields of a word after its payload, its opcode and its tag were replaced.
proof fn lemma_replaced(raw: u64, p: u64, o: u64, t: u64)
    requires
        p < 0x1_0000_0000,
        o < 64,
        t < 8,
    ensures
        ({
            let r = ((raw & !0xFFFF_FFFF_0000_0000u64) & !0x7E0u64) | (p << 32) | ((o << 5) & 0x7E0);
            &&& r & 0x7 == raw & 0x7
            &&& (r & 0x8) >> 3 == (raw & 0x8) >> 3
            &&& (r & 0x10) >> 4 == (raw & 0x10) >> 4
            &&& (r & 0x7E0) >> 5 == o
            &&& (r & 0xFFFF_F800) >> 11 == (raw & 0xFFFF_F800) >> 11
            &&& (r & 0xFFFF_FFFF_0000_0000) >> 32 == p
        }),
        ({
            let r = (((raw & !0xFFFF_FFFF_0000_0000u64) & !0x7E0u64) & !0x7u64) | (p << 32) | ((o
                << 5) & 0x7E0) | (t & 0x7);
            &&& r & 0x7 == t
            &&& (r & 0x8) >> 3 == (raw & 0x8) >> 3
            &&& (r & 0x10) >> 4 == (raw & 0x10) >> 4
            &&& (r & 0x7E0) >> 5 == o
            &&& (r & 0xFFFF_F800) >> 11 == (raw & 0xFFFF_F800) >> 11
            &&& (r & 0xFFFF_FFFF_0000_0000) >> 32 == p
        }),
        ({
            let r = (raw & !0xFFFF_FFFF_0000_0000u64) | (p << 32);
            &&& r & 0x7 == raw & 0x7
            &&& (r & 0x8) >> 3 == (raw & 0x8) >> 3
            &&& (r & 0x10) >> 4 == (raw & 0x10) >> 4
            &&& (r & 0x7E0) >> 5 == (raw & 0x7E0) >> 5
            &&& (r & 0xFFFF_F800) >> 11 == (raw & 0xFFFF_F800) >> 11
            &&& (r & 0xFFFF_FFFF_0000_0000) >> 32 == p
        }),
        (raw & 0x7E0) >> 5 < 64,
        raw & 0x7 < 8,
        (raw & 0xFFFF_F800) >> 11 < 0x20_0000,
        (raw & 0xFFFF_FFFF_0000_0000) >> 32 < 0x1_0000_0000,
{
    assert({
        let r = ((raw & !0xFFFF_FFFF_0000_0000u64) & !0x7E0u64) | (p << 32) | ((o << 5) & 0x7E0);
        &&& r & 0x7 == raw & 0x7
        &&& (r & 0x8) >> 3 == (raw & 0x8) >> 3
        &&& (r & 0x10) >> 4 == (raw & 0x10) >> 4
        &&& (r & 0x7E0) >> 5 == o
        &&& (r & 0xFFFF_F800) >> 11 == (raw & 0xFFFF_F800) >> 11
        &&& (r & 0xFFFF_FFFF_0000_0000) >> 32 == p
    }) by (bit_vector)
        requires
            p < 0x1_0000_0000,
            o < 64,
    ;
    assert({
        let r = (((raw & !0xFFFF_FFFF_0000_0000u64) & !0x7E0u64) & !0x7u64) | (p << 32) | ((o << 5)
            & 0x7E0) | (t & 0x7);
        &&& r & 0x7 == t
        &&& (r & 0x8) >> 3 == (raw & 0x8) >> 3
        &&& (r & 0x10) >> 4 == (raw & 0x10) >> 4
        &&& (r & 0x7E0) >> 5 == o
        &&& (r & 0xFFFF_F800) >> 11 == (raw & 0xFFFF_F800) >> 11
        &&& (r & 0xFFFF_FFFF_0000_0000) >> 32 == p
    }) by (bit_vector)
        requires
            p < 0x1_0000_0000,
            o < 64,
            t < 8,
    ;
    assert({
        let r = (raw & !0xFFFF_FFFF_0000_0000u64) | (p << 32);
        &&& r & 0x7 == raw & 0x7
        &&& (r & 0x8) >> 3 == (raw & 0x8) >> 3
        &&& (r & 0x10) >> 4 == (raw & 0x10) >> 4
        &&& (r & 0x7E0) >> 5 == (raw & 0x7E0) >> 5
        &&& (r & 0xFFFF_F800) >> 11 == (raw & 0xFFFF_F800) >> 11
        &&& (r & 0xFFFF_FFFF_0000_0000) >> 32 == p
    }) by (bit_vector)
        requires
            p < 0x1_0000_0000,
    ;
    assert((raw & 0x7E0) >> 5 < 64 && raw & 0x7 < 8 && (raw & 0xFFFF_F800) >> 11 < 0x20_0000 && (
    raw & 0xFFFF_FFFF_0000_0000) >> 32 < 0x1_0000_0000) by (bit_vector);
}

impl Word {
    /// Whether the tag field names a kind of value.
    pub open spec fn has_tag(self) -> bool {
        self@.tag < 7
    }

    /// Whether the opcode field names an instruction.
    pub open spec fn has_opcode(self) -> bool {
        self@.opcode < 33
    }

    /// The place of the value in the heap.
    pub fn ptr(self) -> (place: u32)
        ensures
            place == self@.payload,
    {
        proof {
            lemma_replaced(self.0, 0, 0, 0);
        }
        ((self.0 & PTR_MASK) >> PTR_START) as u32
    }

    pub fn chaff(&self) -> (chaff: u32)
        ensures
            chaff == self@.chaff,
    {
        proof {
            lemma_replaced(self.0, 0, 0, 0);
        }
        ((self.0 & CHAFF_MASK) >> CHAFF_START) as u32
    }

    pub fn is_option(&self) -> (flag: bool)
        ensures
            flag == self@.is_option,
    {
        ((self.0 & IS_OPTION_FLAG_MASK) >> IS_OPTION_FLAG_START) == 1
    }

    pub fn is_none(&self) -> (flag: bool)
        ensures
            flag == self@.is_none,
    {
        ((self.0 & IS_NONE_OPTION_FLAG_MASK) >> IS_NONE_OPTION_FLAG_START) == 1
    }

    pub fn opcode(&self) -> (opcode: OpCode)
        requires
            self.has_opcode(),
        ensures
            opcode.code() == self@.opcode,
    {
        OpCode::from_u64((self.0 & OPCODE_MASK) >> OPCODE_START).unwrap()
    }

    pub fn tag(&self) -> (tag: ValueTag)
        requires
            self.has_tag(),
        ensures
            tag.code() == self@.tag,
    {
        ValueTag::from_u64(self.0 & TAG_MASK).unwrap()
    }

    pub fn new(ptr: u32, is_option: bool, is_none: bool, op_code: OpCode, tag: ValueTag) -> (word:
        Word)
        ensures
            word@ == (WordView {
                tag: tag.code(),
                is_option,
                is_none,
                opcode: op_code.code(),
                chaff: 0,
                payload: ptr as u64,
            }),
    {
        let p: u64 = ptr as u64;
        let a: u64 = if is_option { 1 } else { 0 };
        let b: u64 = if is_none { 1 } else { 0 };
        let o: u64 = op_code.to_u8() as u64;
        let t: u64 = tag.to_u8() as u64;
        proof {
            lemma_made(p, a, b, o, t);
        }
        Word(
            ((p << PTR_START) & PTR_MASK) | (a << IS_OPTION_FLAG_START) | (b
                << IS_NONE_OPTION_FLAG_START) | ((o << OPCODE_START) & OPCODE_MASK) | (t
                & TAG_MASK),
        )
    }

    pub fn in_heap(&self) -> (heap: bool)
        ensures
            heap == (self@.tag > ValueTag::Char.code()),
    {
        self.0 & TAG_MASK > 2
    }

    /// The payload.
    pub fn value(&self) -> (value: u32)
        ensures
            value == self@.payload,
    {
        proof {
            lemma_replaced(self.0, 0, 0, 0);
        }
        ((self.0 & PTR_MASK) >> PTR_START) as u32
    }

    /// Sets the payload.
    pub fn set_value(&mut self, value: u32)
        ensures
            final(self)@ == (WordView { payload: value as u64, ..old(self)@ }),
    {
        proof {
            lemma_replaced(self.0, value as u64, 0, 0);
        }
        self.0 = (self.0 & !PTR_MASK) | ((value as u64) << PTR_START);
    }

    pub fn update_stack_value(&mut self, value: u32, opcode: OpCode)
        ensures
            final(self)@ == (WordView {
                payload: value as u64,
                opcode: opcode.code(),
                ..old(self)@
            }),
    {
        let o: u64 = opcode.to_u8() as u64;
        proof {
            lemma_replaced(self.0, value as u64, o, 0);
        }
        self.0 = ((self.0 & !PTR_MASK) & !OPCODE_MASK) | ((value as u64) << PTR_START) | ((o
            << OPCODE_START) & OPCODE_MASK);
    }

    pub fn replace_with_stack_value(&mut self, value: u32, opcode: OpCode, tag: ValueTag)
        ensures
            final(self)@ == (WordView {
                payload: value as u64,
                opcode: opcode.code(),
                tag: tag.code(),
                ..old(self)@
            }),
    {
        let o: u64 = opcode.to_u8() as u64;
        let t: u64 = tag.to_u8() as u64;
        proof {
            lemma_replaced(self.0, value as u64, o, t);
        }
        self.0 = (((self.0 & !PTR_MASK) & !OPCODE_MASK) & !TAG_MASK) | ((value as u64)
            << PTR_START) | ((o << OPCODE_START) & OPCODE_MASK) | (t & TAG_MASK);
    }

    /// Adds the bits of a tag and of the two flags to the word. Bits that are set stay
    /// set.
    pub fn change_tag(&mut self, new_tag: ValueTag, is_option: bool, is_none: bool)
        ensures
            final(self).0 == old(self).0 | new_tag.code() | (if is_option {
                0x8u64
            } else {
                0
            }) | (if is_none {
                0x10u64
            } else {
                0
            }),
    {
        let t: u64 = new_tag.to_u8() as u64;
        let a: u64 = if is_option { 0x8 } else { 0 };
        let b: u64 = if is_none { 0x10 } else { 0 };
        self.0 = self.0 | t | a | b;
    }
}

} // verus!
