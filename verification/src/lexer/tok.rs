//! The tokens of the language.

use vstd::prelude::*;

verus! {

/// The kind of a token. A token does not hold its text: the text travels beside it, as a
/// piece of the source.
#[derive(Debug, Clone, Copy, PartialEq, Eq, Structural)]
pub enum Tok {
    // parens
    LParen,
    RParen,
    LBracket,
    RBracket,
    Colon,
    LBrace,
    RBrace,
    // punctuation
    Comma,
    Semicolon,
    Dot,
    Pipe,
    // var and assign
    Var,
    Assign,
    PlusAssign,
    MinusAssign,
    StarAssign,
    SlashAssign,
    CaretAssign,
    ModuloAssign,
    // primitive types
    TypeInt,
    TypeFloat,
    TypeStr,
    TypeBool,
    TypeChar,
    // primitive values
    Bool,
    Int,
    Float,
    Str,
    Char,
    // arithmetic
    Plus,
    Minus,
    Star,
    Slash,
    Caret,
    Modulo,
    // logic
    Not,
    And,
    Or,
    Xor,
    GreaterThan,
    LessThan,
    Equals,
    NotEquals,
    GreaterThanEq,
    LessThanEq,
    // optionals, tables
    If,
    Else,
    Question,
    No,
    Bang,
    Underscore,
    Iter,
    List,
    SetKeyword,
    Range,
    // functions and structs
    Fn,
    At,
    Return,
    Struct,
    New,
    // others
    Dollar, // print
    As, // cast
    Whitespace,
    Comment,
    Identifier,
}

} // verus!
