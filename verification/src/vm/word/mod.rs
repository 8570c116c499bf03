//! Words with option flags: building them from immediate values, and reading the values
//! back.

pub mod word_shape;

use vstd::prelude::*;
use crate::vm::word::word_shape::{OpCode, ValueTag, Word, WordView};
use crate::word::conversions::{bits_int, char_bits, i32_from_bits, i32_to_bits, int_bits};

verus! {

// constructors
impl Word {
    pub fn bool(value: bool, opcode: OpCode) -> (word: Word)
        ensures
            word@ == (WordView {
                tag: ValueTag::Bool.code(),
                is_option: false,
                is_none: false,
                opcode: opcode.code(),
                chaff: 0,
                payload: if value { 1 } else { 0 },
            }),
    {
        Word::new(if value { 1 } else { 0 }, false, false, opcode, ValueTag::Bool)
    }

    pub fn integer(value: i32, opcode: OpCode) -> (word: Word)
        ensures
            word@ == (WordView {
                tag: ValueTag::Int.code(),
                is_option: false,
                is_none: false,
                opcode: opcode.code(),
                chaff: 0,
                payload: int_bits(value) as u64,
            }),
    {
        Word::new(i32_to_bits(value), false, false, opcode, ValueTag::Int)
    }

    pub fn char(value: char, opcode: OpCode) -> (word: Word)
        ensures
            word@ == (WordView {
                tag: ValueTag::Char.code(),
                is_option: false,
                is_none: false,
                opcode: opcode.code(),
                chaff: 0,
                payload: char_bits(value) as u64,
            }),
    {
        Word::new((value as u32) % 256, false, false, opcode, ValueTag::Char)
    }
}

// finalizers
impl Word {
    pub fn to_bool(self) -> (value: bool)
        ensures
            value == (self@.payload == 1),
    {
        self.value() == 1
    }

    pub fn to_int(self) -> (value: i32)
        ensures
            value == bits_int(self@.payload as u32),
    {
        i32_from_bits(self.value())
    }

    /// The character whose scalar value is the low eight bits of the payload.
    pub fn to_char(self) -> (value: char)
        ensures
            value as u32 == self@.payload % 256,
    {
        let low: u8 = (self.value() % 256) as u8;
        low as char
    }
}

} // verus!
