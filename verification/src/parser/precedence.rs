//! How tightly the operators bind.

use vstd::prelude::*;
use crate::lexer::tok::Tok;

verus! {

impl Tok {
    /// The precedence of a token that may follow an expression: of two operators the one
    /// with the higher precedence takes its operands first. A token that ends an
    /// expression or starts a new one has the precedence 0; a token that cannot follow
    /// an expression has none.
    pub open spec fn spec_precedence(self) -> Option<u8> {
        match self {
            Tok::Semicolon
            | Tok::RBrace
            | Tok::RParen
            | Tok::Colon
            | Tok::Comma
            | Tok::Int
            | Tok::Bool
            | Tok::Str
            | Tok::Char
            | Tok::Float
            | Tok::Pipe
            | Tok::LParen
            | Tok::LBrace
            | Tok::RBracket => Some(0),
            Tok::Assign => Some(10),
            Tok::And
            | Tok::Or
            | Tok::Xor
            | Tok::Not => Some(20),
            Tok::Equals
            | Tok::NotEquals => Some(30),
            Tok::GreaterThan
            | Tok::LessThan
            | Tok::GreaterThanEq
            | Tok::LessThanEq => Some(40),
            Tok::Range => Some(50),
            Tok::Plus
            | Tok::Minus => Some(60),
            Tok::Star
            | Tok::Slash
            | Tok::Modulo => Some(70),
            Tok::Caret => Some(80),
            Tok::Dollar => Some(90),
            Tok::As => Some(100),
            Tok::Else => Some(109),
            Tok::Bang
            | Tok::Question
            | Tok::If => Some(110),
            Tok::Iter => Some(120),
            Tok::LBracket
            | Tok::At => Some(130),
            _ => None,
        }
    }

    /// Whether the token has a precedence.
    pub fn binds(&self) -> (binds: bool)
        ensures
            binds == self.spec_precedence() is Some,
    {
        match self {
            Tok::Semicolon
            | Tok::RBrace
            | Tok::RParen
            | Tok::Colon
            | Tok::Comma
            | Tok::Int
            | Tok::Bool
            | Tok::Str
            | Tok::Char
            | Tok::Float
            | Tok::Pipe
            | Tok::LParen
            | Tok::LBrace
            | Tok::RBracket
            | Tok::Assign
            | Tok::And
            | Tok::Or
            | Tok::Xor
            | Tok::Not
            | Tok::Equals
            | Tok::NotEquals
            | Tok::GreaterThan
            | Tok::LessThan
            | Tok::GreaterThanEq
            | Tok::LessThanEq
            | Tok::Range
            | Tok::Plus
            | Tok::Minus
            | Tok::Star
            | Tok::Slash
            | Tok::Modulo
            | Tok::Caret
            | Tok::Dollar
            | Tok::As
            | Tok::Else
            | Tok::Bang
            | Tok::Question
            | Tok::If
            | Tok::Iter
            | Tok::LBracket
            | Tok::At => true,
            _ => false,
        }
    }

    pub fn precedence(&self) -> (precedence: u8)
        requires
            self.spec_precedence() is Some,
        ensures
            Some(precedence) == self.spec_precedence(),
    {
        // a > b -> a must finish evaluating before b
        match self {
            Tok::Semicolon
            | Tok::RBrace
            | Tok::RParen
            | Tok::Colon
            | Tok::Comma
            | Tok::Int
            | Tok::Bool
            | Tok::Str
            | Tok::Char
            | Tok::Float
            | Tok::Pipe
            | Tok::LParen
            | Tok::LBrace
            | Tok::RBracket => 0,
            Tok::Assign => 10,
            Tok::And
            | Tok::Or
            | Tok::Xor
            | Tok::Not => 20,
            Tok::Equals
            | Tok::NotEquals => 30,
            Tok::GreaterThan
            | Tok::LessThan
            | Tok::GreaterThanEq
            | Tok::LessThanEq => 40,
            Tok::Range => 50,
            Tok::Plus
            | Tok::Minus => 60,
            Tok::Star
            | Tok::Slash
            | Tok::Modulo => 70,
            Tok::Caret => 80,
            Tok::Dollar => 90,
            Tok::As => 100,
            Tok::Else => 109,
            Tok::Bang
            | Tok::Question
            | Tok::If => 110,
            Tok::Iter => 120,
            Tok::LBracket
            | Tok::At => 130,
            _ => 0,
        }
    }
}

} // verus!
