//! The kinds of node that a syntax tree is made of.

use vstd::prelude::*;
use crate::word::opcode::OpCode;

verus! {

/// The kind of a node of the syntax tree.
#[derive(Debug, Clone, Copy, PartialEq, Eq, Structural, Hash)]
pub enum AstNode {
    Root,
    Int,
    Float,
    Bool,
    Str,
    Char,
    Comment,
    Whitespace,
    Identifier,
    Add,
    Subtract,
    Multiply,
    Divide,
    LogicalAnd,
    LogicalOr,
    LogicalXor,
    LogicalNot,
    Modulo,
    Grouping,
    Scope,
    Else,
    If,
    VarDecl,
    TypeAnnotation,
    TypeChar,
    TypeInt,
    TypeFloat,
    TypeBool,
    TypeStr,
    Table,
    TablePair,
    TypeTable,
    DefaultKey,
    FunctionDecl,
    PrincipalParam,
    ContourParam,
    FunctionAppl,
    ContourArgs,
    Lambda,
    TypeFn,
    ContourTypes,
    Option,
    TypeOption,
    Print,
    Power,
    Equals,
    NotEquals,
    GreaterThan,
    LessThan,
    GreaterThanEq,
    LessThanEq,
    UnwrapOption,
    TableIndexing,
    Assign,
}

impl AstNode {
    /// The number of kinds.
    pub const COUNT: u16 = 54;

    /// The number that stands for this kind in a raw syntax tree.
    pub open spec fn code(self) -> u16 {
        match self {
            AstNode::Root => 0,
            AstNode::Int => 1,
            AstNode::Float => 2,
            AstNode::Bool => 3,
            AstNode::Str => 4,
            AstNode::Char => 5,
            AstNode::Comment => 6,
            AstNode::Whitespace => 7,
            AstNode::Identifier => 8,
            AstNode::Add => 9,
            AstNode::Subtract => 10,
            AstNode::Multiply => 11,
            AstNode::Divide => 12,
            AstNode::LogicalAnd => 13,
            AstNode::LogicalOr => 14,
            AstNode::LogicalXor => 15,
            AstNode::LogicalNot => 16,
            AstNode::Modulo => 17,
            AstNode::Grouping => 18,
            AstNode::Scope => 19,
            AstNode::Else => 20,
            AstNode::If => 21,
            AstNode::VarDecl => 22,
            AstNode::TypeAnnotation => 23,
            AstNode::TypeChar => 24,
            AstNode::TypeInt => 25,
            AstNode::TypeFloat => 26,
            AstNode::TypeBool => 27,
            AstNode::TypeStr => 28,
            AstNode::Table => 29,
            AstNode::TablePair => 30,
            AstNode::TypeTable => 31,
            AstNode::DefaultKey => 32,
            AstNode::FunctionDecl => 33,
            AstNode::PrincipalParam => 34,
            AstNode::ContourParam => 35,
            AstNode::FunctionAppl => 36,
            AstNode::ContourArgs => 37,
            AstNode::Lambda => 38,
            AstNode::TypeFn => 39,
            AstNode::ContourTypes => 40,
            AstNode::Option => 41,
            AstNode::TypeOption => 42,
            AstNode::Print => 43,
            AstNode::Power => 44,
            AstNode::Equals => 45,
            AstNode::NotEquals => 46,
            AstNode::GreaterThan => 47,
            AstNode::LessThan => 48,
            AstNode::GreaterThanEq => 49,
            AstNode::LessThanEq => 50,
            AstNode::UnwrapOption => 51,
            AstNode::TableIndexing => 52,
            AstNode::Assign => 53,
        }
    }

    /// The kind that a number stands for.
    pub open spec fn spec_from(code: u16) -> Option<AstNode> {
        if code == 0 {
            Some(AstNode::Root)
        } else if code == 1 {
            Some(AstNode::Int)
        } else if code == 2 {
            Some(AstNode::Float)
        } else if code == 3 {
            Some(AstNode::Bool)
        } else if code == 4 {
            Some(AstNode::Str)
        } else if code == 5 {
            Some(AstNode::Char)
        } else if code == 6 {
            Some(AstNode::Comment)
        } else if code == 7 {
            Some(AstNode::Whitespace)
        } else if code == 8 {
            Some(AstNode::Identifier)
        } else if code == 9 {
            Some(AstNode::Add)
        } else if code == 10 {
            Some(AstNode::Subtract)
        } else if code == 11 {
            Some(AstNode::Multiply)
        } else if code == 12 {
            Some(AstNode::Divide)
        } else if code == 13 {
            Some(AstNode::LogicalAnd)
        } else if code == 14 {
            Some(AstNode::LogicalOr)
        } else if code == 15 {
            Some(AstNode::LogicalXor)
        } else if code == 16 {
            Some(AstNode::LogicalNot)
        } else if code == 17 {
            Some(AstNode::Modulo)
        } else if code == 18 {
            Some(AstNode::Grouping)
        } else if code == 19 {
            Some(AstNode::Scope)
        } else if code == 20 {
            Some(AstNode::Else)
        } else if code == 21 {
            Some(AstNode::If)
        } else if code == 22 {
            Some(AstNode::VarDecl)
        } else if code == 23 {
            Some(AstNode::TypeAnnotation)
        } else if code == 24 {
            Some(AstNode::TypeChar)
        } else if code == 25 {
            Some(AstNode::TypeInt)
        } else if code == 26 {
            Some(AstNode::TypeFloat)
        } else if code == 27 {
            Some(AstNode::TypeBool)
        } else if code == 28 {
            Some(AstNode::TypeStr)
        } else if code == 29 {
            Some(AstNode::Table)
        } else if code == 30 {
            Some(AstNode::TablePair)
        } else if code == 31 {
            Some(AstNode::TypeTable)
        } else if code == 32 {
            Some(AstNode::DefaultKey)
        } else if code == 33 {
            Some(AstNode::FunctionDecl)
        } else if code == 34 {
            Some(AstNode::PrincipalParam)
        } else if code == 35 {
            Some(AstNode::ContourParam)
        } else if code == 36 {
            Some(AstNode::FunctionAppl)
        } else if code == 37 {
            Some(AstNode::ContourArgs)
        } else if code == 38 {
            Some(AstNode::Lambda)
        } else if code == 39 {
            Some(AstNode::TypeFn)
        } else if code == 40 {
            Some(AstNode::ContourTypes)
        } else if code == 41 {
            Some(AstNode::Option)
        } else if code == 42 {
            Some(AstNode::TypeOption)
        } else if code == 43 {
            Some(AstNode::Print)
        } else if code == 44 {
            Some(AstNode::Power)
        } else if code == 45 {
            Some(AstNode::Equals)
        } else if code == 46 {
            Some(AstNode::NotEquals)
        } else if code == 47 {
            Some(AstNode::GreaterThan)
        } else if code == 48 {
            Some(AstNode::LessThan)
        } else if code == 49 {
            Some(AstNode::GreaterThanEq)
        } else if code == 50 {
            Some(AstNode::LessThanEq)
        } else if code == 51 {
            Some(AstNode::UnwrapOption)
        } else if code == 52 {
            Some(AstNode::TableIndexing)
        } else if code == 53 {
            Some(AstNode::Assign)
        } else {
            None
        }
    }

    /// How many nodes a node of this kind has below it: the least, and the most where
    /// there is a most.
    pub open spec fn operands(self) -> (int, Option<int>) {
        match self {
            AstNode::Int
            | AstNode::Float
            | AstNode::Bool
            | AstNode::Str
            | AstNode::Char
            | AstNode::Identifier
            | AstNode::DefaultKey
            | AstNode::TypeChar
            | AstNode::TypeInt
            | AstNode::TypeFloat
            | AstNode::TypeBool
            | AstNode::TypeStr
            | AstNode::Comment
            | AstNode::Whitespace
            | AstNode::TypeAnnotation => (0, Some(0)),
            AstNode::Option => (0, Some(1)),
            AstNode::Grouping
            | AstNode::LogicalNot
            | AstNode::Print
            | AstNode::UnwrapOption
            | AstNode::TypeOption
            | AstNode::PrincipalParam
            | AstNode::ContourParam => (1, Some(1)),
            AstNode::Add
            | AstNode::Subtract
            | AstNode::Multiply
            | AstNode::Divide
            | AstNode::Modulo
            | AstNode::Power
            | AstNode::LogicalAnd
            | AstNode::LogicalOr
            | AstNode::LogicalXor
            | AstNode::Equals
            | AstNode::NotEquals
            | AstNode::GreaterThan
            | AstNode::LessThan
            | AstNode::GreaterThanEq
            | AstNode::LessThanEq
            | AstNode::If
            | AstNode::Else
            | AstNode::TablePair
            | AstNode::Assign
            | AstNode::TableIndexing
            | AstNode::TypeTable => (2, Some(2)),
            AstNode::VarDecl => (1, Some(2)),
            AstNode::FunctionAppl | AstNode::TypeFn => (2, Some(3)),
            AstNode::FunctionDecl => (2, None),
            AstNode::Root
            | AstNode::Scope
            | AstNode::Lambda
            | AstNode::Table
            | AstNode::ContourArgs
            | AstNode::ContourTypes => (0, None),
        }
    }

    /// Whether a node of this kind may have `nodes` nodes below it.
    pub open spec fn takes(self, nodes: int) -> bool {
        let (least, most) = self.operands();
        least <= nodes && (most matches Some(m) ==> nodes <= m)
    }

    /// A kind is the kind that its code stands for.
    pub proof fn lemma_code(self)
        ensures
            AstNode::spec_from(self.code()) == Some(self),
            self.code() < AstNode::COUNT,
    {
    }

    pub fn to_u16(&self) -> (n: u16)
        ensures
            n == self.code(),
            n < AstNode::COUNT,
    {
        match self {
            AstNode::Root => 0,
            AstNode::Int => 1,
            AstNode::Float => 2,
            AstNode::Bool => 3,
            AstNode::Str => 4,
            AstNode::Char => 5,
            AstNode::Comment => 6,
            AstNode::Whitespace => 7,
            AstNode::Identifier => 8,
            AstNode::Add => 9,
            AstNode::Subtract => 10,
            AstNode::Multiply => 11,
            AstNode::Divide => 12,
            AstNode::LogicalAnd => 13,
            AstNode::LogicalOr => 14,
            AstNode::LogicalXor => 15,
            AstNode::LogicalNot => 16,
            AstNode::Modulo => 17,
            AstNode::Grouping => 18,
            AstNode::Scope => 19,
            AstNode::Else => 20,
            AstNode::If => 21,
            AstNode::VarDecl => 22,
            AstNode::TypeAnnotation => 23,
            AstNode::TypeChar => 24,
            AstNode::TypeInt => 25,
            AstNode::TypeFloat => 26,
            AstNode::TypeBool => 27,
            AstNode::TypeStr => 28,
            AstNode::Table => 29,
            AstNode::TablePair => 30,
            AstNode::TypeTable => 31,
            AstNode::DefaultKey => 32,
            AstNode::FunctionDecl => 33,
            AstNode::PrincipalParam => 34,
            AstNode::ContourParam => 35,
            AstNode::FunctionAppl => 36,
            AstNode::ContourArgs => 37,
            AstNode::Lambda => 38,
            AstNode::TypeFn => 39,
            AstNode::ContourTypes => 40,
            AstNode::Option => 41,
            AstNode::TypeOption => 42,
            AstNode::Print => 43,
            AstNode::Power => 44,
            AstNode::Equals => 45,
            AstNode::NotEquals => 46,
            AstNode::GreaterThan => 47,
            AstNode::LessThan => 48,
            AstNode::GreaterThanEq => 49,
            AstNode::LessThanEq => 50,
            AstNode::UnwrapOption => 51,
            AstNode::TableIndexing => 52,
            AstNode::Assign => 53,
        }
    }

    pub fn from_u16(n: u16) -> (kind: Option<AstNode>)
        ensures
            kind is Some <==> n < 54,
            kind matches Some(k) ==> k.code() == n,
    {
        match n {
            0 => Some(AstNode::Root),
            1 => Some(AstNode::Int),
            2 => Some(AstNode::Float),
            3 => Some(AstNode::Bool),
            4 => Some(AstNode::Str),
            5 => Some(AstNode::Char),
            6 => Some(AstNode::Comment),
            7 => Some(AstNode::Whitespace),
            8 => Some(AstNode::Identifier),
            9 => Some(AstNode::Add),
            10 => Some(AstNode::Subtract),
            11 => Some(AstNode::Multiply),
            12 => Some(AstNode::Divide),
            13 => Some(AstNode::LogicalAnd),
            14 => Some(AstNode::LogicalOr),
            15 => Some(AstNode::LogicalXor),
            16 => Some(AstNode::LogicalNot),
            17 => Some(AstNode::Modulo),
            18 => Some(AstNode::Grouping),
            19 => Some(AstNode::Scope),
            20 => Some(AstNode::Else),
            21 => Some(AstNode::If),
            22 => Some(AstNode::VarDecl),
            23 => Some(AstNode::TypeAnnotation),
            24 => Some(AstNode::TypeChar),
            25 => Some(AstNode::TypeInt),
            26 => Some(AstNode::TypeFloat),
            27 => Some(AstNode::TypeBool),
            28 => Some(AstNode::TypeStr),
            29 => Some(AstNode::Table),
            30 => Some(AstNode::TablePair),
            31 => Some(AstNode::TypeTable),
            32 => Some(AstNode::DefaultKey),
            33 => Some(AstNode::FunctionDecl),
            34 => Some(AstNode::PrincipalParam),
            35 => Some(AstNode::ContourParam),
            36 => Some(AstNode::FunctionAppl),
            37 => Some(AstNode::ContourArgs),
            38 => Some(AstNode::Lambda),
            39 => Some(AstNode::TypeFn),
            40 => Some(AstNode::ContourTypes),
            41 => Some(AstNode::Option),
            42 => Some(AstNode::TypeOption),
            43 => Some(AstNode::Print),
            44 => Some(AstNode::Power),
            45 => Some(AstNode::Equals),
            46 => Some(AstNode::NotEquals),
            47 => Some(AstNode::GreaterThan),
            48 => Some(AstNode::LessThan),
            49 => Some(AstNode::GreaterThanEq),
            50 => Some(AstNode::LessThanEq),
            51 => Some(AstNode::UnwrapOption),
            52 => Some(AstNode::TableIndexing),
            53 => Some(AstNode::Assign),
            _ => None,
        }
    }

    /// The operator of a node with two operands.
    pub open spec fn spec_binary_operator(self) -> Option<OpCode> {
        match self {
            AstNode::Add => Some(OpCode::Add),
            AstNode::Subtract => Some(OpCode::Subtract),
            AstNode::Multiply => Some(OpCode::Multiply),
            AstNode::Divide => Some(OpCode::Divide),
            AstNode::Modulo => Some(OpCode::Modulo),
            AstNode::Power => Some(OpCode::Power),
            AstNode::LogicalAnd => Some(OpCode::LogicalAnd),
            AstNode::LogicalOr => Some(OpCode::LogicalOr),
            AstNode::LogicalXor => Some(OpCode::LogicalXor),
            AstNode::Equals => Some(OpCode::Equals),
            AstNode::NotEquals => Some(OpCode::NotEquals),
            AstNode::GreaterThan => Some(OpCode::GreaterThan),
            AstNode::LessThan => Some(OpCode::LessThan),
            AstNode::GreaterThanEq => Some(OpCode::GreaterThanEq),
            AstNode::LessThanEq => Some(OpCode::LessThanEq),
            AstNode::TableIndexing => Some(OpCode::IndexGet),
            _ => None,
        }
    }

    /// The operator of a node with one operand.
    pub open spec fn spec_unary_operator(self) -> Option<OpCode> {
        match self {
            AstNode::Print => Some(OpCode::Print),
            AstNode::LogicalNot => Some(OpCode::Negate),
            AstNode::UnwrapOption => Some(OpCode::UnwrapOption),
            _ => None,
        }
    }

    pub fn binary_operator(&self) -> (operator: Option<OpCode>)
        ensures
            operator == self.spec_binary_operator(),
    {
        match self {
            AstNode::Add => Some(OpCode::Add),
            AstNode::Subtract => Some(OpCode::Subtract),
            AstNode::Multiply => Some(OpCode::Multiply),
            AstNode::Divide => Some(OpCode::Divide),
            AstNode::Modulo => Some(OpCode::Modulo),
            AstNode::Power => Some(OpCode::Power),
            AstNode::LogicalAnd => Some(OpCode::LogicalAnd),
            AstNode::LogicalOr => Some(OpCode::LogicalOr),
            AstNode::LogicalXor => Some(OpCode::LogicalXor),
            AstNode::Equals => Some(OpCode::Equals),
            AstNode::NotEquals => Some(OpCode::NotEquals),
            AstNode::GreaterThan => Some(OpCode::GreaterThan),
            AstNode::LessThan => Some(OpCode::LessThan),
            AstNode::GreaterThanEq => Some(OpCode::GreaterThanEq),
            AstNode::LessThanEq => Some(OpCode::LessThanEq),
            AstNode::TableIndexing => Some(OpCode::IndexGet),
            _ => None,
        }
    }

    pub fn unary_operator(&self) -> (operator: Option<OpCode>)
        ensures
            operator == self.spec_unary_operator(),
    {
        match self {
            AstNode::Print => Some(OpCode::Print),
            AstNode::LogicalNot => Some(OpCode::Negate),
            AstNode::UnwrapOption => Some(OpCode::UnwrapOption),
            _ => None,
        }
    }
}

} // verus!
