//! A plain instruction: an opcode in the low byte of 64 bits, and a value above it.

use vstd::prelude::*;
use crate::word::conversions::{i32_to_bits, int_bits};

verus! {

#[derive(Debug, Clone, Copy, PartialEq, Eq, Structural)]
pub enum OpCode {
    Return,
    Constant,
    Add,
    Sub,
    Mul,
    Div,
    Print,
    Negate,
}

impl OpCode {
    /// The number that stands for the opcode.
    pub open spec fn code(self) -> u8 {
        match self {
            OpCode::Return => 0,
            OpCode::Constant => 1,
            OpCode::Add => 2,
            OpCode::Sub => 3,
            OpCode::Mul => 4,
            OpCode::Div => 5,
            OpCode::Print => 6,
            OpCode::Negate => 7,
        }
    }

    pub fn to_u8(&self) -> (n: u8)
        ensures
            n == self.code(),
            n < 8,
    {
        match self {
            OpCode::Return => 0,
            OpCode::Constant => 1,
            OpCode::Add => 2,
            OpCode::Sub => 3,
            OpCode::Mul => 4,
            OpCode::Div => 5,
            OpCode::Print => 6,
            OpCode::Negate => 7,
        }
    }

    pub fn from_u8(n: u8) -> (opcode: Option<OpCode>)
        ensures
            opcode is Some <==> n < 8,
            opcode matches Some(o) ==> o.code() == n,
    {
        match n {
            0 => Some(OpCode::Return),
            1 => Some(OpCode::Constant),
            2 => Some(OpCode::Add),
            3 => Some(OpCode::Sub),
            4 => Some(OpCode::Mul),
            5 => Some(OpCode::Div),
            6 => Some(OpCode::Print),
            7 => Some(OpCode::Negate),
            _ => None,
        }
    }
}

pub type Value = i32;

#[derive(Debug, PartialEq)]
pub struct Instruction(u64);

/// The raw bits of an instruction: the opcode in the low byte; above it the value, moved
/// up by eight bits within its 32, and the sign of what is left of it in all the bits
/// above.
pub open spec fn spec_raw(opcode: OpCode, value: Value) -> u64 {
    let shifted = (int_bits(value) * 256) % 0x1_0000_0000;
    if shifted < 0x8000_0000 {
        (shifted + opcode.code()) as u64
    } else {
        (0xFFFF_FFFF_0000_0000 + shifted + opcode.code()) as u64
    }
}

impl Instruction {
    /// The raw bits.
    pub closed spec fn raw(&self) -> u64 {
        self.0
    }

    #[verifier::type_invariant]
    spec fn inv(self) -> bool {
        self.0 % 256 < 8
    }

    pub fn new(opcode: OpCode, value: Value) -> (instruction: Instruction)
        ensures
            instruction.raw() == spec_raw(opcode, value),
    {
        let shifted: u64 = (i32_to_bits(value) as u64 * 256) % 0x1_0000_0000;
        let extended: u64 = if shifted < 0x8000_0000 {
            shifted
        } else {
            0xFFFF_FFFF_0000_0000 + shifted
        };
        Instruction(extended + opcode.to_u8() as u64)
    }

    /// The low sixteen bits of the value.
    pub fn value(&self) -> (value: Value)
        ensures
            value == (self.raw() / 256) % 65536,
    {
        ((self.0 / 256) % 65536) as Value
    }

    pub fn opcode(&self) -> (opcode: OpCode)
        ensures
            opcode.code() == self.raw() % 256,
    {
        proof {
            use_type_invariant(self);
        }
        OpCode::from_u8((self.0 % 256) as u8).unwrap()
    }
}

/// An instruction gives back its opcode, and its value where the value takes no more
/// than sixteen bits.
pub proof fn lemma_instruction_fields(opcode: OpCode, value: Value)
    ensures
        spec_raw(opcode, value) % 256 == opcode.code(),
        0 <= value < 65536 ==> (spec_raw(opcode, value) / 256) % 65536 == value,
        (spec_raw(opcode, value) / 256) % 65536 == int_bits(value) % 65536,
{
    let bits = int_bits(value) as int;
    let shifted = (bits * 256) % 0x1_0000_0000;
    assert(shifted % 256 == 0 && (shifted / 256) % 65536 == bits % 65536) by {
        assert(bits * 256 == 0x1_0000_0000 * ((bits * 256) / 0x1_0000_0000) + shifted);
        let q = (bits * 256) / 0x1_0000_0000;
        assert(shifted == 256 * (bits - 0x100_0000 * q));
        assert(shifted / 256 == bits - 0x100_0000 * q);
        assert((bits - 0x100_0000 * q) % 65536 == bits % 65536) by {
            vstd::arithmetic::div_mod::lemma_mod_multiples_vanish(-256 * q, bits, 65536);
        }
    }
}

} // verus!
