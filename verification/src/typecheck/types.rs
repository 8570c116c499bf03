//! The types of the language, and the partial knowledge of a type that type inference
//! works with.

use vstd::prelude::*;
use crate::errors::err::LanguloErr;

verus! {

#[derive(Debug, PartialEq, Eq)]
pub enum LanguloType {
    Int,
    Float,
    Bool,
    Str,
    Char,
    Option(Box<LanguloType>),
}

#[derive(Clone, Copy, Debug, PartialEq, Eq, Structural)]
pub enum LanguloVariant {
    //concrete types
    Int,
    Float,
    Bool,
    Str,
    // utility types for type inference
    Any,
    Addable,  // int+int, flt+flt, str+str
    Multipliable,
    Char,
}

impl LanguloVariant {
    /// What is known of a type that must be both `lhs` and `rhs`: the more specific of
    /// the two where one includes the other, and an error where no type is both.
    pub open spec fn spec_meet(lhs: LanguloVariant, rhs: LanguloVariant) -> Result<
        LanguloVariant,
        LanguloErr,
    > {
        match (lhs, rhs) {
            (LanguloVariant::Any, other) => Ok(other),
            (other, LanguloVariant::Any) => Ok(other),
            (LanguloVariant::Int, LanguloVariant::Int) => Ok(LanguloVariant::Int),
            (LanguloVariant::Float, LanguloVariant::Float) => Ok(LanguloVariant::Float),
            (LanguloVariant::Str, LanguloVariant::Str) => Ok(LanguloVariant::Str),
            (LanguloVariant::Char, LanguloVariant::Char) => Ok(LanguloVariant::Char),
            (LanguloVariant::Addable, LanguloVariant::Int) | (
                LanguloVariant::Int,
                LanguloVariant::Addable,
            ) => Ok(LanguloVariant::Int),
            (LanguloVariant::Addable, LanguloVariant::Float) | (
                LanguloVariant::Float,
                LanguloVariant::Addable,
            ) => Ok(LanguloVariant::Float),
            (LanguloVariant::Addable, LanguloVariant::Str) | (
                LanguloVariant::Str,
                LanguloVariant::Addable,
            ) => Ok(LanguloVariant::Str),
            (LanguloVariant::Addable, LanguloVariant::Addable) => Ok(LanguloVariant::Addable),
            (LanguloVariant::Multipliable, LanguloVariant::Int) | (
                LanguloVariant::Int,
                LanguloVariant::Multipliable,
            ) => Ok(LanguloVariant::Int),
            (LanguloVariant::Multipliable, LanguloVariant::Float) | (
                LanguloVariant::Float,
                LanguloVariant::Multipliable,
            ) => Ok(LanguloVariant::Float),
            (LanguloVariant::Multipliable, LanguloVariant::Multipliable) => Ok(
                LanguloVariant::Multipliable,
            ),
            _ => Err(LanguloErr::Typecheck),
        }
    }

    /// The type that a variant stands for; the variants that only serve inference
    /// stand for none.
    pub open spec fn spec_construct(self) -> Result<LanguloType, LanguloErr> {
        match self {
            LanguloVariant::Int => Ok(LanguloType::Int),
            LanguloVariant::Float => Ok(LanguloType::Float),
            LanguloVariant::Bool => Ok(LanguloType::Bool),
            LanguloVariant::Str => Ok(LanguloType::Str),
            LanguloVariant::Char => Ok(LanguloType::Char),
            LanguloVariant::Any | LanguloVariant::Addable | LanguloVariant::Multipliable => Err(
                LanguloErr::Typecheck,
            ),
        }
    }

    /// The variant of which nothing is known.
    pub fn top() -> (variant: LanguloVariant)
        ensures
            variant == LanguloVariant::Any,
    {
        LanguloVariant::Any
    }

    pub fn meet(lhs: LanguloVariant, rhs: LanguloVariant) -> (result: Result<
        LanguloVariant,
        LanguloErr,
    >)
        ensures
            result == LanguloVariant::spec_meet(lhs, rhs),
    {
        match (lhs, rhs) {
            (LanguloVariant::Any, other) => Ok(other),
            (other, LanguloVariant::Any) => Ok(other),
            (LanguloVariant::Int, LanguloVariant::Int) => Ok(LanguloVariant::Int),
            (LanguloVariant::Float, LanguloVariant::Float) => Ok(LanguloVariant::Float),
            (LanguloVariant::Str, LanguloVariant::Str) => Ok(LanguloVariant::Str),
            (LanguloVariant::Char, LanguloVariant::Char) => Ok(LanguloVariant::Char),
            (LanguloVariant::Addable, LanguloVariant::Int) | (
                LanguloVariant::Int,
                LanguloVariant::Addable,
            ) => Ok(LanguloVariant::Int),
            (LanguloVariant::Addable, LanguloVariant::Float) | (
                LanguloVariant::Float,
                LanguloVariant::Addable,
            ) => Ok(LanguloVariant::Float),
            (LanguloVariant::Addable, LanguloVariant::Str) | (
                LanguloVariant::Str,
                LanguloVariant::Addable,
            ) => Ok(LanguloVariant::Str),
            (LanguloVariant::Addable, LanguloVariant::Addable) => Ok(LanguloVariant::Addable),
            (LanguloVariant::Multipliable, LanguloVariant::Int) | (
                LanguloVariant::Int,
                LanguloVariant::Multipliable,
            ) => Ok(LanguloVariant::Int),
            (LanguloVariant::Multipliable, LanguloVariant::Float) | (
                LanguloVariant::Float,
                LanguloVariant::Multipliable,
            ) => Ok(LanguloVariant::Float),
            (LanguloVariant::Multipliable, LanguloVariant::Multipliable) => Ok(
                LanguloVariant::Multipliable,
            ),
            _ => Err(LanguloErr::Typecheck),
        }
    }

    /// The number of types that a type of this variant is made of.
    pub fn arity(&self) -> (arity: usize)
        ensures
            arity == 0,
    {
        0
    }

    pub fn construct(&self) -> (result: Result<LanguloType, LanguloErr>)
        ensures
            result == self.spec_construct(),
    {
        match self {
            LanguloVariant::Int => Ok(LanguloType::Int),
            LanguloVariant::Float => Ok(LanguloType::Float),
            LanguloVariant::Bool => Ok(LanguloType::Bool),
            LanguloVariant::Str => Ok(LanguloType::Str),
            LanguloVariant::Char => Ok(LanguloType::Char),
            LanguloVariant::Any | LanguloVariant::Addable | LanguloVariant::Multipliable => Err(
                LanguloErr::Typecheck,
            ),
        }
    }

    /// The meet does not depend on the order of its operands, and meeting with the
    /// variant of which nothing is known changes nothing. Booleans take part in no
    /// operation that is typed by a meet: they meet nothing but that variant.
    pub proof fn lemma_meet(lhs: LanguloVariant, rhs: LanguloVariant)
        ensures
            LanguloVariant::spec_meet(lhs, rhs) == LanguloVariant::spec_meet(rhs, lhs),
            LanguloVariant::spec_meet(LanguloVariant::Any, rhs) == Ok::<LanguloVariant, LanguloErr>(
                rhs,
            ),
            lhs == LanguloVariant::Bool && rhs != LanguloVariant::Any ==> LanguloVariant::spec_meet(
                lhs,
                rhs,
            ) is Err,
            LanguloVariant::spec_meet(lhs, rhs) matches Ok(both) ==> both == LanguloVariant::Bool
                || LanguloVariant::spec_meet(both, lhs) == Ok::<LanguloVariant, LanguloErr>(both),
    {
    }
}

} // verus!
