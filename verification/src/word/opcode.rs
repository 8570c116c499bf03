//! The instruction set: what a word tells the virtual machine to do.
//!
//! Every operator exists in two forms. The plain form pops its right operand from the
//! stack; the embedded form (its name ends in `This`) finds the operand in the payload of
//! the instruction word itself, so that "load a value, then apply an operator" takes one
//! word where it would take two.

use vstd::prelude::*;

verus! {

/// What the virtual machine does when it meets a word.
#[derive(Debug, Clone, Copy, PartialEq, Eq, Structural)]
pub enum OpCode {
    Value,
    ReadFromMap,
    Stop,
    Return,
    Jump,
    JumpIfFalse,
    Call,
    CallBuiltin,
    SetLocal,
    SetLocalThis,
    GetLocal,
    SetGlobal,
    GetGlobal,
    IndexGet,
    IndexSet,
    WrapInOption,
    UnwrapOption,
    Print,
    Cast,
    Add,
    Subtract,
    Multiply,
    Divide,
    Modulo,
    Power,
    Negate,
    LogicalAnd,
    LogicalOr,
    LogicalXor,
    GreaterThan,
    LessThan,
    Equals,
    NotEquals,
    GreaterThanEq,
    LessThanEq,
    PrintThis,
    CastThis,
    AddThis,
    SubtractThis,
    MultiplyThis,
    DivideThis,
    ModuloThis,
    PowerThis,
    NegateThis,
    LogicalAndThis,
    LogicalOrThis,
    LogicalXorThis,
    GreaterThanThis,
    LessThanThis,
    EqualsThis,
    NotEqualsThis,
    GreaterThanEqThis,
    LessThanEqThis,
    JumpIfNo,
    IndexGetThis,
    WrapInOptionThis,
    UnwrapOptionThis,
}

impl OpCode {
    /// The number that stands for this variant in a word's bit field.
    pub open spec fn code(self) -> u64 {
        match self {
            OpCode::Value => 0,
            OpCode::ReadFromMap => 1,
            OpCode::Stop => 2,
            OpCode::Return => 3,
            OpCode::Jump => 4,
            OpCode::JumpIfFalse => 5,
            OpCode::Call => 6,
            OpCode::CallBuiltin => 7,
            OpCode::SetLocal => 8,
            OpCode::SetLocalThis => 9,
            OpCode::GetLocal => 10,
            OpCode::SetGlobal => 11,
            OpCode::GetGlobal => 12,
            OpCode::IndexGet => 13,
            OpCode::IndexSet => 14,
            OpCode::WrapInOption => 15,
            OpCode::UnwrapOption => 16,
            OpCode::Print => 17,
            OpCode::Cast => 18,
            OpCode::Add => 19,
            OpCode::Subtract => 20,
            OpCode::Multiply => 21,
            OpCode::Divide => 22,
            OpCode::Modulo => 23,
            OpCode::Power => 24,
            OpCode::Negate => 25,
            OpCode::LogicalAnd => 26,
            OpCode::LogicalOr => 27,
            OpCode::LogicalXor => 28,
            OpCode::GreaterThan => 29,
            OpCode::LessThan => 30,
            OpCode::Equals => 31,
            OpCode::NotEquals => 32,
            OpCode::GreaterThanEq => 33,
            OpCode::LessThanEq => 34,
            OpCode::PrintThis => 35,
            OpCode::CastThis => 36,
            OpCode::AddThis => 37,
            OpCode::SubtractThis => 38,
            OpCode::MultiplyThis => 39,
            OpCode::DivideThis => 40,
            OpCode::ModuloThis => 41,
            OpCode::PowerThis => 42,
            OpCode::NegateThis => 43,
            OpCode::LogicalAndThis => 44,
            OpCode::LogicalOrThis => 45,
            OpCode::LogicalXorThis => 46,
            OpCode::GreaterThanThis => 47,
            OpCode::LessThanThis => 48,
            OpCode::EqualsThis => 49,
            OpCode::NotEqualsThis => 50,
            OpCode::GreaterThanEqThis => 51,
            OpCode::LessThanEqThis => 52,
            OpCode::JumpIfNo => 53,
            OpCode::IndexGetThis => 54,
            OpCode::WrapInOptionThis => 55,
            OpCode::UnwrapOptionThis => 56,
        }
    }

    /// The variant that a number stands for, if any.
    pub open spec fn decode(n: u64) -> Option<OpCode> {
        if n == 0 {
            Some(OpCode::Value)
        } else if n == 1 {
            Some(OpCode::ReadFromMap)
        } else if n == 2 {
            Some(OpCode::Stop)
        } else if n == 3 {
            Some(OpCode::Return)
        } else if n == 4 {
            Some(OpCode::Jump)
        } else if n == 5 {
            Some(OpCode::JumpIfFalse)
        } else if n == 6 {
            Some(OpCode::Call)
        } else if n == 7 {
            Some(OpCode::CallBuiltin)
        } else if n == 8 {
            Some(OpCode::SetLocal)
        } else if n == 9 {
            Some(OpCode::SetLocalThis)
        } else if n == 10 {
            Some(OpCode::GetLocal)
        } else if n == 11 {
            Some(OpCode::SetGlobal)
        } else if n == 12 {
            Some(OpCode::GetGlobal)
        } else if n == 13 {
            Some(OpCode::IndexGet)
        } else if n == 14 {
            Some(OpCode::IndexSet)
        } else if n == 15 {
            Some(OpCode::WrapInOption)
        } else if n == 16 {
            Some(OpCode::UnwrapOption)
        } else if n == 17 {
            Some(OpCode::Print)
        } else if n == 18 {
            Some(OpCode::Cast)
        } else if n == 19 {
            Some(OpCode::Add)
        } else if n == 20 {
            Some(OpCode::Subtract)
        } else if n == 21 {
            Some(OpCode::Multiply)
        } else if n == 22 {
            Some(OpCode::Divide)
        } else if n == 23 {
            Some(OpCode::Modulo)
        } else if n == 24 {
            Some(OpCode::Power)
        } else if n == 25 {
            Some(OpCode::Negate)
        } else if n == 26 {
            Some(OpCode::LogicalAnd)
        } else if n == 27 {
            Some(OpCode::LogicalOr)
        } else if n == 28 {
            Some(OpCode::LogicalXor)
        } else if n == 29 {
            Some(OpCode::GreaterThan)
        } else if n == 30 {
            Some(OpCode::LessThan)
        } else if n == 31 {
            Some(OpCode::Equals)
        } else if n == 32 {
            Some(OpCode::NotEquals)
        } else if n == 33 {
            Some(OpCode::GreaterThanEq)
        } else if n == 34 {
            Some(OpCode::LessThanEq)
        } else if n == 35 {
            Some(OpCode::PrintThis)
        } else if n == 36 {
            Some(OpCode::CastThis)
        } else if n == 37 {
            Some(OpCode::AddThis)
        } else if n == 38 {
            Some(OpCode::SubtractThis)
        } else if n == 39 {
            Some(OpCode::MultiplyThis)
        } else if n == 40 {
            Some(OpCode::DivideThis)
        } else if n == 41 {
            Some(OpCode::ModuloThis)
        } else if n == 42 {
            Some(OpCode::PowerThis)
        } else if n == 43 {
            Some(OpCode::NegateThis)
        } else if n == 44 {
            Some(OpCode::LogicalAndThis)
        } else if n == 45 {
            Some(OpCode::LogicalOrThis)
        } else if n == 46 {
            Some(OpCode::LogicalXorThis)
        } else if n == 47 {
            Some(OpCode::GreaterThanThis)
        } else if n == 48 {
            Some(OpCode::LessThanThis)
        } else if n == 49 {
            Some(OpCode::EqualsThis)
        } else if n == 50 {
            Some(OpCode::NotEqualsThis)
        } else if n == 51 {
            Some(OpCode::GreaterThanEqThis)
        } else if n == 52 {
            Some(OpCode::LessThanEqThis)
        } else if n == 53 {
            Some(OpCode::JumpIfNo)
        } else if n == 54 {
            Some(OpCode::IndexGetThis)
        } else if n == 55 {
            Some(OpCode::WrapInOptionThis)
        } else if n == 56 {
            Some(OpCode::UnwrapOptionThis)
        } else {
            None
        }
    }

    pub fn to_u8(&self) -> (n: u8)
        ensures
            n == self.code(),
            n < 57,
    {
        match self {
            OpCode::Value => 0,
            OpCode::ReadFromMap => 1,
            OpCode::Stop => 2,
            OpCode::Return => 3,
            OpCode::Jump => 4,
            OpCode::JumpIfFalse => 5,
            OpCode::Call => 6,
            OpCode::CallBuiltin => 7,
            OpCode::SetLocal => 8,
            OpCode::SetLocalThis => 9,
            OpCode::GetLocal => 10,
            OpCode::SetGlobal => 11,
            OpCode::GetGlobal => 12,
            OpCode::IndexGet => 13,
            OpCode::IndexSet => 14,
            OpCode::WrapInOption => 15,
            OpCode::UnwrapOption => 16,
            OpCode::Print => 17,
            OpCode::Cast => 18,
            OpCode::Add => 19,
            OpCode::Subtract => 20,
            OpCode::Multiply => 21,
            OpCode::Divide => 22,
            OpCode::Modulo => 23,
            OpCode::Power => 24,
            OpCode::Negate => 25,
            OpCode::LogicalAnd => 26,
            OpCode::LogicalOr => 27,
            OpCode::LogicalXor => 28,
            OpCode::GreaterThan => 29,
            OpCode::LessThan => 30,
            OpCode::Equals => 31,
            OpCode::NotEquals => 32,
            OpCode::GreaterThanEq => 33,
            OpCode::LessThanEq => 34,
            OpCode::PrintThis => 35,
            OpCode::CastThis => 36,
            OpCode::AddThis => 37,
            OpCode::SubtractThis => 38,
            OpCode::MultiplyThis => 39,
            OpCode::DivideThis => 40,
            OpCode::ModuloThis => 41,
            OpCode::PowerThis => 42,
            OpCode::NegateThis => 43,
            OpCode::LogicalAndThis => 44,
            OpCode::LogicalOrThis => 45,
            OpCode::LogicalXorThis => 46,
            OpCode::GreaterThanThis => 47,
            OpCode::LessThanThis => 48,
            OpCode::EqualsThis => 49,
            OpCode::NotEqualsThis => 50,
            OpCode::GreaterThanEqThis => 51,
            OpCode::LessThanEqThis => 52,
            OpCode::JumpIfNo => 53,
            OpCode::IndexGetThis => 54,
            OpCode::WrapInOptionThis => 55,
            OpCode::UnwrapOptionThis => 56,
        }
    }

    pub fn from_u64(n: u64) -> (r: Option<OpCode>)
        ensures
            r == OpCode::decode(n),
            r is Some <==> n < 57,
    {
        match n {
            0 => Some(OpCode::Value),
            1 => Some(OpCode::ReadFromMap),
            2 => Some(OpCode::Stop),
            3 => Some(OpCode::Return),
            4 => Some(OpCode::Jump),
            5 => Some(OpCode::JumpIfFalse),
            6 => Some(OpCode::Call),
            7 => Some(OpCode::CallBuiltin),
            8 => Some(OpCode::SetLocal),
            9 => Some(OpCode::SetLocalThis),
            10 => Some(OpCode::GetLocal),
            11 => Some(OpCode::SetGlobal),
            12 => Some(OpCode::GetGlobal),
            13 => Some(OpCode::IndexGet),
            14 => Some(OpCode::IndexSet),
            15 => Some(OpCode::WrapInOption),
            16 => Some(OpCode::UnwrapOption),
            17 => Some(OpCode::Print),
            18 => Some(OpCode::Cast),
            19 => Some(OpCode::Add),
            20 => Some(OpCode::Subtract),
            21 => Some(OpCode::Multiply),
            22 => Some(OpCode::Divide),
            23 => Some(OpCode::Modulo),
            24 => Some(OpCode::Power),
            25 => Some(OpCode::Negate),
            26 => Some(OpCode::LogicalAnd),
            27 => Some(OpCode::LogicalOr),
            28 => Some(OpCode::LogicalXor),
            29 => Some(OpCode::GreaterThan),
            30 => Some(OpCode::LessThan),
            31 => Some(OpCode::Equals),
            32 => Some(OpCode::NotEquals),
            33 => Some(OpCode::GreaterThanEq),
            34 => Some(OpCode::LessThanEq),
            35 => Some(OpCode::PrintThis),
            36 => Some(OpCode::CastThis),
            37 => Some(OpCode::AddThis),
            38 => Some(OpCode::SubtractThis),
            39 => Some(OpCode::MultiplyThis),
            40 => Some(OpCode::DivideThis),
            41 => Some(OpCode::ModuloThis),
            42 => Some(OpCode::PowerThis),
            43 => Some(OpCode::NegateThis),
            44 => Some(OpCode::LogicalAndThis),
            45 => Some(OpCode::LogicalOrThis),
            46 => Some(OpCode::LogicalXorThis),
            47 => Some(OpCode::GreaterThanThis),
            48 => Some(OpCode::LessThanThis),
            49 => Some(OpCode::EqualsThis),
            50 => Some(OpCode::NotEqualsThis),
            51 => Some(OpCode::GreaterThanEqThis),
            52 => Some(OpCode::LessThanEqThis),
            53 => Some(OpCode::JumpIfNo),
            54 => Some(OpCode::IndexGetThis),
            55 => Some(OpCode::WrapInOptionThis),
            56 => Some(OpCode::UnwrapOptionThis),
            _ => None,
        }
    }

    /// Decoding undoes encoding, and a number that decodes is the code of what it
    /// decodes to.
    pub proof fn lemma_code_decode(self)
        ensures
            self.code() < 57,
            OpCode::decode(self.code()) == Some(self),
    {
    }

    pub proof fn lemma_decode_code(n: u64)
        ensures
            OpCode::decode(n) is Some <==> n < 57,
            OpCode::decode(n) is Some ==> OpCode::decode(n).unwrap().code() == n,
    {
    }

    /// The variant of an operator that carries its operand in the instruction word itself.
    pub open spec fn spec_embedded(self) -> Option<OpCode> {
        match self {
            OpCode::Print => Some(OpCode::PrintThis),
            OpCode::Cast => Some(OpCode::CastThis),
            OpCode::Add => Some(OpCode::AddThis),
            OpCode::Subtract => Some(OpCode::SubtractThis),
            OpCode::Multiply => Some(OpCode::MultiplyThis),
            OpCode::Divide => Some(OpCode::DivideThis),
            OpCode::Modulo => Some(OpCode::ModuloThis),
            OpCode::Power => Some(OpCode::PowerThis),
            OpCode::Negate => Some(OpCode::NegateThis),
            OpCode::LogicalAnd => Some(OpCode::LogicalAndThis),
            OpCode::LogicalOr => Some(OpCode::LogicalOrThis),
            OpCode::LogicalXor => Some(OpCode::LogicalXorThis),
            OpCode::GreaterThan => Some(OpCode::GreaterThanThis),
            OpCode::LessThan => Some(OpCode::LessThanThis),
            OpCode::Equals => Some(OpCode::EqualsThis),
            OpCode::NotEquals => Some(OpCode::NotEqualsThis),
            OpCode::GreaterThanEq => Some(OpCode::GreaterThanEqThis),
            OpCode::LessThanEq => Some(OpCode::LessThanEqThis),
            OpCode::IndexGet => Some(OpCode::IndexGetThis),
            OpCode::WrapInOption => Some(OpCode::WrapInOptionThis),
            OpCode::UnwrapOption => Some(OpCode::UnwrapOptionThis),
            OpCode::SetLocal => Some(OpCode::SetLocalThis),
            _ => None,
        }
    }

    /// The operator that an embedded-operand variant applies.
    pub open spec fn spec_plain(self) -> Option<OpCode> {
        match self {
            OpCode::PrintThis => Some(OpCode::Print),
            OpCode::CastThis => Some(OpCode::Cast),
            OpCode::AddThis => Some(OpCode::Add),
            OpCode::SubtractThis => Some(OpCode::Subtract),
            OpCode::MultiplyThis => Some(OpCode::Multiply),
            OpCode::DivideThis => Some(OpCode::Divide),
            OpCode::ModuloThis => Some(OpCode::Modulo),
            OpCode::PowerThis => Some(OpCode::Power),
            OpCode::NegateThis => Some(OpCode::Negate),
            OpCode::LogicalAndThis => Some(OpCode::LogicalAnd),
            OpCode::LogicalOrThis => Some(OpCode::LogicalOr),
            OpCode::LogicalXorThis => Some(OpCode::LogicalXor),
            OpCode::GreaterThanThis => Some(OpCode::GreaterThan),
            OpCode::LessThanThis => Some(OpCode::LessThan),
            OpCode::EqualsThis => Some(OpCode::Equals),
            OpCode::NotEqualsThis => Some(OpCode::NotEquals),
            OpCode::GreaterThanEqThis => Some(OpCode::GreaterThanEq),
            OpCode::LessThanEqThis => Some(OpCode::LessThanEq),
            OpCode::IndexGetThis => Some(OpCode::IndexGet),
            OpCode::WrapInOptionThis => Some(OpCode::WrapInOption),
            OpCode::UnwrapOptionThis => Some(OpCode::UnwrapOption),
            OpCode::SetLocalThis => Some(OpCode::SetLocal),
            _ => None,
        }
    }

    /// Whether this is one of the two-operand arithmetic, logic or comparison operators,
    /// in the form that pops both operands.
    pub open spec fn spec_is_binary(self) -> bool {
        match self {
            OpCode::Add
            | OpCode::Subtract
            | OpCode::Multiply
            | OpCode::Divide
            | OpCode::Modulo
            | OpCode::Power
            | OpCode::LogicalAnd
            | OpCode::LogicalOr
            | OpCode::LogicalXor
            | OpCode::GreaterThan
            | OpCode::LessThan
            | OpCode::Equals
            | OpCode::NotEquals
            | OpCode::GreaterThanEq
            | OpCode::LessThanEq => true,
            _ => false,
        }
    }

    pub fn embedded(&self) -> (r: Option<OpCode>)
        ensures
            r == self.spec_embedded(),
    {
        match self {
            OpCode::Print => Some(OpCode::PrintThis),
            OpCode::Cast => Some(OpCode::CastThis),
            OpCode::Add => Some(OpCode::AddThis),
            OpCode::Subtract => Some(OpCode::SubtractThis),
            OpCode::Multiply => Some(OpCode::MultiplyThis),
            OpCode::Divide => Some(OpCode::DivideThis),
            OpCode::Modulo => Some(OpCode::ModuloThis),
            OpCode::Power => Some(OpCode::PowerThis),
            OpCode::Negate => Some(OpCode::NegateThis),
            OpCode::LogicalAnd => Some(OpCode::LogicalAndThis),
            OpCode::LogicalOr => Some(OpCode::LogicalOrThis),
            OpCode::LogicalXor => Some(OpCode::LogicalXorThis),
            OpCode::GreaterThan => Some(OpCode::GreaterThanThis),
            OpCode::LessThan => Some(OpCode::LessThanThis),
            OpCode::Equals => Some(OpCode::EqualsThis),
            OpCode::NotEquals => Some(OpCode::NotEqualsThis),
            OpCode::GreaterThanEq => Some(OpCode::GreaterThanEqThis),
            OpCode::LessThanEq => Some(OpCode::LessThanEqThis),
            OpCode::IndexGet => Some(OpCode::IndexGetThis),
            OpCode::WrapInOption => Some(OpCode::WrapInOptionThis),
            OpCode::UnwrapOption => Some(OpCode::UnwrapOptionThis),
            OpCode::SetLocal => Some(OpCode::SetLocalThis),
            _ => None,
        }
    }

    pub fn plain(&self) -> (r: Option<OpCode>)
        ensures
            r == self.spec_plain(),
    {
        match self {
            OpCode::PrintThis => Some(OpCode::Print),
            OpCode::CastThis => Some(OpCode::Cast),
            OpCode::AddThis => Some(OpCode::Add),
            OpCode::SubtractThis => Some(OpCode::Subtract),
            OpCode::MultiplyThis => Some(OpCode::Multiply),
            OpCode::DivideThis => Some(OpCode::Divide),
            OpCode::ModuloThis => Some(OpCode::Modulo),
            OpCode::PowerThis => Some(OpCode::Power),
            OpCode::NegateThis => Some(OpCode::Negate),
            OpCode::LogicalAndThis => Some(OpCode::LogicalAnd),
            OpCode::LogicalOrThis => Some(OpCode::LogicalOr),
            OpCode::LogicalXorThis => Some(OpCode::LogicalXor),
            OpCode::GreaterThanThis => Some(OpCode::GreaterThan),
            OpCode::LessThanThis => Some(OpCode::LessThan),
            OpCode::EqualsThis => Some(OpCode::Equals),
            OpCode::NotEqualsThis => Some(OpCode::NotEquals),
            OpCode::GreaterThanEqThis => Some(OpCode::GreaterThanEq),
            OpCode::LessThanEqThis => Some(OpCode::LessThanEq),
            OpCode::IndexGetThis => Some(OpCode::IndexGet),
            OpCode::WrapInOptionThis => Some(OpCode::WrapInOption),
            OpCode::UnwrapOptionThis => Some(OpCode::UnwrapOption),
            OpCode::SetLocalThis => Some(OpCode::SetLocal),
            _ => None,
        }
    }

    pub fn is_binary(&self) -> (r: bool)
        ensures
            r == self.spec_is_binary(),
    {
        match self {
            OpCode::Add
            | OpCode::Subtract
            | OpCode::Multiply
            | OpCode::Divide
            | OpCode::Modulo
            | OpCode::Power
            | OpCode::LogicalAnd
            | OpCode::LogicalOr
            | OpCode::LogicalXor
            | OpCode::GreaterThan
            | OpCode::LessThan
            | OpCode::Equals
            | OpCode::NotEquals
            | OpCode::GreaterThanEq
            | OpCode::LessThanEq => true,
            _ => false,
        }
    }

    /// The two forms of an operator name each other.
    pub proof fn lemma_embedded_plain(self)
        ensures
            self.spec_embedded() matches Some(e) ==> e.spec_plain() == Some(self),
            self.spec_plain() matches Some(p) ==> p.spec_embedded() == Some(self),
            self.spec_is_binary() ==> self.spec_embedded() is Some,
    {
    }
}

} // verus!
