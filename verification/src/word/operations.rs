//! Arithmetic, logic and comparison on words. Each operator changes its left operand in
//! place, and both operands must be of the same kind.
//!
//! The library holds floats as bits and never computes with them. Where an operator
//! meets floats it leaves the left operand alone and hands back a request that says what
//! is to be computed; whoever runs the machine computes it and completes the operation
//! with the bits of the result.

use vstd::prelude::*;
use crate::errors::err::{LanguloErr, VmError};
use crate::vm::garbage_collector::GarbageCollector;
use crate::word::conversions::{bits_int, i32_from_bits, i32_to_bits, int_bits};
use crate::word::heap::{float_in, reference, str_in, Cell, Heap, HeapFloat, HeapObject};
use crate::word::opcode::OpCode;
use crate::word::structure::{ValueTag, Word, WordView};

verus! {

/// The arithmetic operators.
#[derive(Debug, Clone, Copy, PartialEq, Eq, Structural)]
pub enum Arith {
    Add,
    Subtract,
    Multiply,
    Divide,
    Modulo,
    Power,
}

/// An operand of a float operation: an integer to be promoted, or the bits of a float.
#[derive(Debug, Clone, Copy, PartialEq, Eq, Structural)]
pub enum Operand {
    Int(i32),
    Float(u64),
}

/// A float operation that is to be computed outside the library. Integers are promoted
/// to floats first, and the result is always a float.
#[derive(Debug, Clone, Copy, PartialEq, Eq, Structural)]
pub struct FloatRequest {
    pub op: Arith,
    pub lhs: Operand,
    pub rhs: Operand,
}

/// How an operator ended.
#[derive(Debug, Clone, Copy, PartialEq, Eq, Structural)]
pub enum Outcome {
    /// The left operand holds the result.
    Done,
    /// The left operand is unchanged. The result of the request completes the
    /// operation.
    Float(FloatRequest),
}

/// What an operator does to its left operand.
pub enum Applied {
    /// The left operand becomes this word, and the heap stays as it is.
    Word(Word),
    /// Nothing yet: floats are to be computed.
    Float(FloatRequest),
}

/// The order of two values.
#[derive(Debug, Clone, Copy, PartialEq, Eq, Structural)]
pub enum Order {
    Less,
    Equal,
    Greater,
}

/// The relations that can be asked of two values.
#[derive(Debug, Clone, Copy, PartialEq, Eq, Structural)]
pub enum Relation {
    Equals,
    NotEquals,
    GreaterThan,
    LessThan,
    GreaterThanEq,
    LessThanEq,
}

/// The logical operators.
#[derive(Debug, Clone, Copy, PartialEq, Eq, Structural)]
pub enum Logic {
    And,
    Or,
    Xor,
}

/// The integer that `value` wraps to in 32 bits, two's complement.
pub open spec fn wrap_i32(value: int) -> i32 {
    bits_int((value % 0x1_0000_0000) as u32)
}

/// The quotient of `a` by `b`, rounded toward zero.
pub open spec fn trunc_div(a: int, b: int) -> int {
    let q = (if a >= 0 { a } else { -a }) / (if b >= 0 { b } else { -b });
    if (a >= 0) == (b >= 0) {
        q
    } else {
        -q
    }
}

/// The remainder of `a` by `b` that has the sign of `a`.
pub open spec fn trunc_rem(a: int, b: int) -> int {
    let r = (if a >= 0 { a } else { -a }) % (if b >= 0 { b } else { -b });
    if a >= 0 {
        r
    } else {
        -r
    }
}

/// The result of an arithmetic operator on two integers. Sums, differences, products and
/// quotients wrap to 32 bits; a zero divisor is an error; the power of integers is a
/// float and has no integer result.
pub open spec fn int_arith(op: Arith, a: i32, b: i32) -> Result<i32, VmError> {
    match op {
        Arith::Add => Ok(wrap_i32(a + b)),
        Arith::Subtract => Ok(wrap_i32(a - b)),
        Arith::Multiply => Ok(wrap_i32(a * b)),
        Arith::Divide => if b == 0 {
            Err(VmError::DivisionByZero)
        } else {
            Ok(wrap_i32(trunc_div(a as int, b as int)))
        },
        Arith::Modulo => if b == 0 {
            Err(VmError::DivisionByZero)
        } else {
            Ok(wrap_i32(trunc_rem(a as int, b as int)))
        },
        Arith::Power => Err(VmError::BadOperand),
    }
}

/// A number that fits in 32 bits is not changed by wrapping.
pub proof fn lemma_wrap_exact(value: int)
    requires
        i32::MIN <= value <= i32::MAX,
    ensures
        wrap_i32(value) == value,
{
    let m = value % 0x1_0000_0000;
    assert(value == 0x1_0000_0000 * (value / 0x1_0000_0000) + m);
    assert(0 <= m < 0x1_0000_0000);
}

/// A truncated division splits the dividend into a multiple of the divisor and a
/// remainder that is smaller than the divisor and has the sign of the dividend.
pub proof fn lemma_trunc_div_rem(a: int, b: int)
    requires
        b != 0,
    ensures
        a == b * trunc_div(a, b) + trunc_rem(a, b),
        b > 0 ==> -b < trunc_rem(a, b) < b,
        b < 0 ==> b < trunc_rem(a, b) < -b,
        a >= 0 ==> trunc_rem(a, b) >= 0,
        a <= 0 ==> trunc_rem(a, b) <= 0,
        (if a >= 0 { -a } else { a }) <= trunc_div(a, b) <= (if a >= 0 { a } else { -a }),
        b != 1 && b != -1 ==> (if a >= 0 { -a } else { a }) <= 2 * trunc_div(a, b) <= (if a >= 0 {
            a
        } else {
            -a
        }),
        b == 1 ==> trunc_div(a, b) == a,
{
    let x: int = if a >= 0 { a } else { -a };
    let y: int = if b >= 0 { b } else { -b };
    vstd::arithmetic::div_mod::lemma_fundamental_div_mod(x, y);
    vstd::arithmetic::div_mod::lemma_mod_bound(x, y);
    vstd::arithmetic::div_mod::lemma_div_pos_is_pos(x, y);
    let q = x / y;
    let r = x % y;
    assert(x == y * q + r);
    assert(y * (-q) == -(y * q)) by (nonlinear_arith);
    assert((-y) * q == -(y * q)) by (nonlinear_arith);
    assert((-y) * (-q) == y * q) by (nonlinear_arith);
    assert(q <= x) by (nonlinear_arith)
        requires
            x == y * q + r,
            y >= 1,
            q >= 0,
            r >= 0,
    ;
    assert(y >= 2 ==> 2 * q <= x) by (nonlinear_arith)
        requires
            x == y * q + r,
            q >= 0,
            r >= 0,
    ;
    assert(y == 1 ==> q == x) by (nonlinear_arith)
        requires
            x == y * q + r,
            0 <= r < y,
    ;
}

/// Where the mathematical result fits in 32 bits, it is the result.
pub proof fn lemma_int_arith_exact(op: Arith, a: i32, b: i32)
    ensures
        op == Arith::Add && i32::MIN <= a + b <= i32::MAX ==> int_arith(op, a, b) == Ok::<
            i32,
            VmError,
        >((a + b) as i32),
        op == Arith::Subtract && i32::MIN <= a - b <= i32::MAX ==> int_arith(op, a, b) == Ok::<
            i32,
            VmError,
        >((a - b) as i32),
        op == Arith::Multiply && i32::MIN <= a * b <= i32::MAX ==> int_arith(op, a, b) == Ok::<
            i32,
            VmError,
        >((a * b) as i32),
        op == Arith::Divide && b != 0 && !(a == i32::MIN && b == -1) ==> int_arith(op, a, b)
            == Ok::<i32, VmError>(trunc_div(a as int, b as int) as i32),
        op == Arith::Modulo && b != 0 ==> int_arith(op, a, b) == Ok::<i32, VmError>(
            trunc_rem(a as int, b as int) as i32,
        ),
        (op == Arith::Divide || op == Arith::Modulo) && b == 0 ==> int_arith(op, a, b) == Err::<
            i32,
            VmError,
        >(VmError::DivisionByZero),
{
    match op {
        Arith::Add => if i32::MIN <= a + b <= i32::MAX {
            lemma_wrap_exact(a + b);
        },
        Arith::Subtract => if i32::MIN <= a - b <= i32::MAX {
            lemma_wrap_exact(a - b);
        },
        Arith::Multiply => if i32::MIN <= a * b <= i32::MAX {
            lemma_wrap_exact(a * b);
        },
        Arith::Divide => if b != 0 && !(a == i32::MIN && b == -1) {
            lemma_trunc_div_rem(a as int, b as int);
            lemma_wrap_exact(trunc_div(a as int, b as int));
        },
        Arith::Modulo => if b != 0 {
            lemma_trunc_div_rem(a as int, b as int);
            lemma_wrap_exact(trunc_rem(a as int, b as int));
        },
        Arith::Power => {},
    }
}

/// Whether the bits are those of a float that is not a number.
pub open spec fn float_is_nan(bits: u64) -> bool {
    bits % 0x8000_0000_0000_0000 > 0x7FF0_0000_0000_0000
}

/// Whether the bits are those of a zero, of either sign.
pub open spec fn float_is_zero(bits: u64) -> bool {
    bits % 0x8000_0000_0000_0000 == 0
}

/// A number that orders the floats that are numbers as their values are ordered: the
/// magnitude bits, negated where the sign bit is set.
pub open spec fn float_key(bits: u64) -> int {
    if bits < 0x8000_0000_0000_0000 {
        bits as int
    } else {
        -(bits - 0x8000_0000_0000_0000)
    }
}

pub open spec fn order_of(a: int, b: int) -> Order {
    if a < b {
        Order::Less
    } else if a == b {
        Order::Equal
    } else {
        Order::Greater
    }
}

/// The order of two floats given by their bits; none where either is not a number.
pub open spec fn float_order(a: u64, b: u64) -> Option<Order> {
    if float_is_nan(a) || float_is_nan(b) {
        None
    } else {
        Some(order_of(float_key(a), float_key(b)))
    }
}

/// The order of two byte strings: that of the first byte in which they differ, and the
/// shorter before the longer where there is none.
pub open spec fn lex_order(a: Seq<u8>, b: Seq<u8>) -> Order
    decreases a.len(),
{
    if a.len() == 0 {
        if b.len() == 0 {
            Order::Equal
        } else {
            Order::Less
        }
    } else if b.len() == 0 {
        Order::Greater
    } else if a[0] != b[0] {
        order_of(a[0] as int, b[0] as int)
    } else {
        lex_order(a.drop_first(), b.drop_first())
    }
}

/// Whether a relation holds of two values in the given order; of two values that have
/// no order, only `NotEquals` holds.
pub open spec fn holds(relation: Relation, order: Option<Order>) -> bool {
    match relation {
        Relation::Equals => order == Some(Order::Equal),
        Relation::NotEquals => order != Some(Order::Equal),
        Relation::GreaterThan => order == Some(Order::Greater),
        Relation::LessThan => order == Some(Order::Less),
        Relation::GreaterThanEq => order == Some(Order::Greater) || order == Some(Order::Equal),
        Relation::LessThanEq => order == Some(Order::Less) || order == Some(Order::Equal),
    }
}

/// The left operand after an operator whose result is the immediate `payload`.
pub open spec fn with_value(lhs: Word, payload: u32) -> Word {
    (WordView { payload: payload as u64, opcode: OpCode::Value.code(), ..lhs@ }).word()
}

/// The left operand after a comparison whose result is `truth`.
pub open spec fn with_truth(lhs: Word, truth: bool) -> Word {
    (WordView {
        payload: if truth { 1 } else { 0 },
        opcode: OpCode::Value.code(),
        tag: ValueTag::Bool.code(),
        ..lhs@
    }).word()
}

/// A word as an operand of a float operation.
pub open spec fn operand_of(heap: Seq<Cell>, word: Word) -> Result<Operand, VmError> {
    if word@.tag == ValueTag::Int.code() {
        Ok(Operand::Int(word.spec_to_int()))
    } else if word@.tag == ValueTag::FloatPtr.code() {
        match float_in(heap, word) {
            Some(bits) => Ok(Operand::Float(bits)),
            None => Err(VmError::BadAddress),
        }
    } else {
        Err(VmError::BadOperand)
    }
}

/// What an arithmetic operator does.
pub open spec fn spec_arith(op: Arith, lhs: Word, rhs: Word, heap: Seq<Cell>) -> Result<
    Applied,
    VmError,
> {
    if op == Arith::Power {
        match (operand_of(heap, lhs), operand_of(heap, rhs)) {
            (Ok(a), Ok(b)) => Ok(Applied::Float(FloatRequest { op, lhs: a, rhs: b })),
            (Err(e), _) => Err(e),
            (_, Err(e)) => Err(e),
        }
    } else if lhs@.tag != rhs@.tag {
        Err(VmError::TagMismatch)
    } else if lhs@.tag == ValueTag::Int.code() {
        match int_arith(op, lhs.spec_to_int(), rhs.spec_to_int()) {
            Ok(value) => Ok(Applied::Word(with_value(lhs, int_bits(value)))),
            Err(e) => Err(e),
        }
    } else if lhs@.tag == ValueTag::FloatPtr.code() {
        match (float_in(heap, lhs), float_in(heap, rhs)) {
            (Some(a), Some(b)) => if (op == Arith::Divide || op == Arith::Modulo) && float_is_zero(
                b,
            ) {
                Err(VmError::DivisionByZero)
            } else {
                Ok(
                    Applied::Float(
                        FloatRequest { op, lhs: Operand::Float(a), rhs: Operand::Float(b) },
                    ),
                )
            },
            _ => Err(VmError::BadAddress),
        }
    } else {
        Err(VmError::BadOperand)
    }
}

pub open spec fn logic_of(op: Logic, a: bool, b: bool) -> bool {
    match op {
        Logic::And => a && b,
        Logic::Or => a || b,
        Logic::Xor => a != b,
    }
}

/// What a logical operator does.
pub open spec fn spec_logic(op: Logic, lhs: Word, rhs: Word) -> Result<Applied, VmError> {
    if lhs@.tag != rhs@.tag {
        Err(VmError::TagMismatch)
    } else if lhs@.tag == ValueTag::Bool.code() {
        Ok(
            Applied::Word(
                with_value(
                    lhs,
                    if logic_of(op, lhs.spec_to_bool(), rhs.spec_to_bool()) {
                        1
                    } else {
                        0
                    },
                ),
            ),
        )
    } else {
        Err(VmError::BadOperand)
    }
}

/// The order of two words of the same kind: integers by the signed number that they
/// hold, booleans and characters by their payload, floats by their value, strings by
/// their bytes.
pub open spec fn spec_order(lhs: Word, rhs: Word, heap: Seq<Cell>) -> Result<Option<Order>, VmError> {
    if lhs@.tag != rhs@.tag {
        Err(VmError::TagMismatch)
    } else if lhs@.tag == ValueTag::Int.code() {
        Ok(Some(order_of(lhs.spec_to_int() as int, rhs.spec_to_int() as int)))
    } else if lhs@.tag == ValueTag::Bool.code() || lhs@.tag == ValueTag::Char.code() {
        Ok(Some(order_of(lhs@.payload as int, rhs@.payload as int)))
    } else if lhs@.tag == ValueTag::FloatPtr.code() {
        match (float_in(heap, lhs), float_in(heap, rhs)) {
            (Some(a), Some(b)) => Ok(float_order(a, b)),
            _ => Err(VmError::BadAddress),
        }
    } else if lhs@.tag == ValueTag::StrPtr.code() {
        match (str_in(heap, lhs), str_in(heap, rhs)) {
            (Some(a), Some(b)) => Ok(
                Some(lex_order(vstd::utf8::encode_utf8(a), vstd::utf8::encode_utf8(b))),
            ),
            _ => Err(VmError::BadAddress),
        }
    } else {
        Err(VmError::BadOperand)
    }
}

/// What a comparison does.
pub open spec fn spec_relate(relation: Relation, lhs: Word, rhs: Word, heap: Seq<Cell>) -> Result<
    Applied,
    VmError,
> {
    match spec_order(lhs, rhs, heap) {
        Ok(order) => Ok(Applied::Word(with_truth(lhs, holds(relation, order)))),
        Err(e) => Err(e),
    }
}

/// Whether an operator did what it is to do: `after` is the left operand after the
/// call, and `result` what the call returned.
pub open spec fn realizes(
    expected: Result<Applied, VmError>,
    before: Word,
    after: Word,
    result: Result<Outcome, LanguloErr>,
) -> bool {
    match expected {
        Ok(Applied::Word(word)) => result == Ok::<Outcome, LanguloErr>(Outcome::Done) && after
            == word,
        Ok(Applied::Float(request)) => result == Ok::<Outcome, LanguloErr>(
            Outcome::Float(request),
        ) && after == before,
        Err(e) => result == Err::<Outcome, LanguloErr>(LanguloErr::Vm(e)) && after == before,
    }
}

fn wrap(value: i64) -> (wrapped: i32)
    requires
        -0x4000_0000_0000_0000 <= value <= 0x4000_0000_0000_0000,
    ensures
        wrapped == wrap_i32(value as int),
{
    let shifted: u64 = ((value as i128) + 0x4000_0000_0000_0000) as u64;
    let low: u32 = (shifted % 0x1_0000_0000) as u32;
    proof {
        let v = value as int;
        assert(v == 0x1_0000_0000 * (v / 0x1_0000_0000) + v % 0x1_0000_0000);
        assert((v + 0x4000_0000_0000_0000) == 0x1_0000_0000 * ((v + 0x4000_0000_0000_0000)
            / 0x1_0000_0000) + (v + 0x4000_0000_0000_0000) % 0x1_0000_0000);
        assert((v + 0x4000_0000_0000_0000) % 0x1_0000_0000 == v % 0x1_0000_0000);
    }
    i32_from_bits(low)
}

/// An arithmetic operator on two integers.
pub fn int_arith_exec(op: Arith, a: i32, b: i32) -> (result: Result<i32, VmError>)
    ensures
        result == int_arith(op, a, b),
{
    let wide_a: i64 = a as i64;
    let wide_b: i64 = b as i64;
    match op {
        Arith::Add => Ok(wrap(wide_a + wide_b)),
        Arith::Subtract => Ok(wrap(wide_a - wide_b)),
        Arith::Multiply => {
            assert(-0x4000_0000_0000_0000 <= wide_a * wide_b <= 0x4000_0000_0000_0000)
                by (nonlinear_arith)
                requires
                    -0x8000_0000 <= wide_a <= 0x7FFF_FFFF,
                    -0x8000_0000 <= wide_b <= 0x7FFF_FFFF,
            ;
            Ok(wrap(wide_a * wide_b))
        },
        Arith::Divide | Arith::Modulo => {
            if b == 0 {
                return Err(VmError::DivisionByZero);
            }
            let x: u64 = if a >= 0 { wide_a as u64 } else { (-wide_a) as u64 };
            let y: u64 = if b >= 0 { wide_b as u64 } else { (-wide_b) as u64 };
            proof {
                lemma_trunc_div_rem(a as int, b as int);
            }
            match op {
                Arith::Divide => {
                    let q: i64 = (x / y) as i64;
                    Ok(wrap(if (a >= 0) == (b >= 0) { q } else { -q }))
                },
                _ => {
                    let r: i64 = (x % y) as i64;
                    Ok(wrap(if a >= 0 { r } else { -r }))
                },
            }
        },
        Arith::Power => Err(VmError::BadOperand),
    }
}

pub fn float_order_exec(a: u64, b: u64) -> (order: Option<Order>)
    ensures
        order == float_order(a, b),
{
    if a % 0x8000_0000_0000_0000 > 0x7FF0_0000_0000_0000 || b % 0x8000_0000_0000_0000
        > 0x7FF0_0000_0000_0000 {
        return None;
    }
    let key_a: i128 = if a < 0x8000_0000_0000_0000 {
        a as i128
    } else {
        -((a - 0x8000_0000_0000_0000) as i128)
    };
    let key_b: i128 = if b < 0x8000_0000_0000_0000 {
        b as i128
    } else {
        -((b - 0x8000_0000_0000_0000) as i128)
    };
    if key_a < key_b {
        Some(Order::Less)
    } else if key_a == key_b {
        Some(Order::Equal)
    } else {
        Some(Order::Greater)
    }
}

pub fn lex_order_exec(a: &[u8], b: &[u8]) -> (order: Order)
    ensures
        order == lex_order(a@, b@),
{
    let mut i: usize = 0;
    proof {
        assert(a@.skip(0) =~= a@);
        assert(b@.skip(0) =~= b@);
    }
    while i < a.len() && i < b.len()
        invariant
            i <= a@.len(),
            i <= b@.len(),
            lex_order(a@, b@) == lex_order(a@.skip(i as int), b@.skip(i as int)),
        decreases a@.len() - i,
    {
        let x = a[i];
        let y = b[i];
        proof {
            assert(a@.skip(i as int)[0] == x);
            assert(b@.skip(i as int)[0] == y);
            assert(a@.skip(i as int).drop_first() =~= a@.skip(i + 1));
            assert(b@.skip(i as int).drop_first() =~= b@.skip(i + 1));
        }
        if x < y {
            return Order::Less;
        }
        if x > y {
            return Order::Greater;
        }
        i += 1;
    }
    if i < b.len() {
        Order::Less
    } else if i < a.len() {
        Order::Greater
    } else {
        Order::Equal
    }
}

pub fn holds_exec(relation: Relation, order: Option<Order>) -> (truth: bool)
    ensures
        truth == holds(relation, order),
{
    match relation {
        Relation::Equals => matches!(order, Some(Order::Equal)),
        Relation::NotEquals => !matches!(order, Some(Order::Equal)),
        Relation::GreaterThan => matches!(order, Some(Order::Greater)),
        Relation::LessThan => matches!(order, Some(Order::Less)),
        Relation::GreaterThanEq => matches!(order, Some(Order::Greater) | Some(Order::Equal)),
        Relation::LessThanEq => matches!(order, Some(Order::Less) | Some(Order::Equal)),
    }
}

fn operand_exec(heap: &Heap, word: Word) -> (operand: Result<Operand, VmError>)
    ensures
        operand == operand_of(heap@, word),
{
    let tag = word.0 & 0xF;
    if tag == 0 {
        Ok(Operand::Int(word.to_int()))
    } else if tag == 4 {
        match heap.float_of(word) {
            Some(bits) => Ok(Operand::Float(bits)),
            None => Err(VmError::BadAddress),
        }
    } else {
        Err(VmError::BadOperand)
    }
}

impl Word {
    /// The order of this word and `rhs`.
    pub fn order(&self, rhs: &Word, heap: &Heap) -> (order: Result<Option<Order>, VmError>)
        ensures
            order == spec_order(*self, *rhs, heap@),
    {
        let tag = self.0 & 0xF;
        if tag != rhs.0 & 0xF {
            return Err(VmError::TagMismatch);
        }
        if tag == 0 {
            let a = self.to_int();
            let b = rhs.to_int();
            Ok(
                Some(
                    if a < b {
                        Order::Less
                    } else if a == b {
                        Order::Equal
                    } else {
                        Order::Greater
                    },
                ),
            )
        } else if tag <= 2 {
            let a = self.value();
            let b = rhs.value();
            Ok(
                Some(
                    if a < b {
                        Order::Less
                    } else if a == b {
                        Order::Equal
                    } else {
                        Order::Greater
                    },
                ),
            )
        } else if tag == 4 {
            match (heap.float_of(*self), heap.float_of(*rhs)) {
                (Some(a), Some(b)) => Ok(float_order_exec(a, b)),
                _ => Err(VmError::BadAddress),
            }
        } else if tag == 5 {
            match (heap.str_of(*self), heap.str_of(*rhs)) {
                (Some(a), Some(b)) => Ok(Some(lex_order_exec(a.as_bytes(), b.as_bytes()))),
                _ => Err(VmError::BadAddress),
            }
        } else {
            Err(VmError::BadOperand)
        }
    }

    /// Applies an arithmetic operator to this word and `rhs`.
    pub fn arith_inplace(&mut self, op: Arith, rhs: &Word, heap: &Heap) -> (result: Result<
        Outcome,
        LanguloErr,
    >)
        ensures
            realizes(spec_arith(op, *old(self), *rhs, heap@), *old(self), *final(self), result),
    {
        if let Arith::Power = op {
            let a = match operand_exec(heap, *self) {
                Ok(a) => a,
                Err(e) => {
                    return Err(LanguloErr::Vm(e));
                },
            };
            let b = match operand_exec(heap, *rhs) {
                Ok(b) => b,
                Err(e) => {
                    return Err(LanguloErr::Vm(e));
                },
            };
            return Ok(Outcome::Float(FloatRequest { op, lhs: a, rhs: b }));
        }
        let tag = self.0 & 0xF;
        if tag != rhs.0 & 0xF {
            return Err(LanguloErr::Vm(VmError::TagMismatch));
        }
        if tag == 0 {
            match int_arith_exec(op, self.to_int(), rhs.to_int()) {
                Ok(value) => {
                    let ghost before = *self;
                    self.update_stack_value(i32_to_bits(value), OpCode::Value);
                    proof {
                        self.lemma_word_of_view(
                            WordView {
                                payload: int_bits(value) as u64,
                                opcode: OpCode::Value.code(),
                                ..before@
                            },
                        );
                    }
                    Ok(Outcome::Done)
                },
                Err(e) => Err(LanguloErr::Vm(e)),
            }
        } else if tag == 4 {
            match (heap.float_of(*self), heap.float_of(*rhs)) {
                (Some(a), Some(b)) => {
                    let dividing = match op {
                        Arith::Divide | Arith::Modulo => true,
                        _ => false,
                    };
                    if dividing && b % 0x8000_0000_0000_0000 == 0 {
                        Err(LanguloErr::Vm(VmError::DivisionByZero))
                    } else {
                        Ok(
                            Outcome::Float(
                                FloatRequest { op, lhs: Operand::Float(a), rhs: Operand::Float(b) },
                            ),
                        )
                    }
                },
                _ => Err(LanguloErr::Vm(VmError::BadAddress)),
            }
        } else {
            Err(LanguloErr::Vm(VmError::BadOperand))
        }
    }

    /// Applies a logical operator to this word and `rhs`.
    pub fn logic_inplace(&mut self, op: Logic, rhs: &Word) -> (result: Result<Outcome, LanguloErr>)
        ensures
            realizes(spec_logic(op, *old(self), *rhs), *old(self), *final(self), result),
    {
        let tag = self.0 & 0xF;
        if tag != rhs.0 & 0xF {
            return Err(LanguloErr::Vm(VmError::TagMismatch));
        }
        if tag != 1 {
            return Err(LanguloErr::Vm(VmError::BadOperand));
        }
        let a = self.to_bool();
        let b = rhs.to_bool();
        let truth = match op {
            Logic::And => a && b,
            Logic::Or => a || b,
            Logic::Xor => a != b,
        };
        let ghost before = *self;
        let payload: u32 = if truth { 1 } else { 0 };
        self.update_stack_value(payload, OpCode::Value);
        proof {
            self.lemma_word_of_view(
                WordView { payload: payload as u64, opcode: OpCode::Value.code(), ..before@ },
            );
        }
        Ok(Outcome::Done)
    }

    /// Replaces this word by the boolean that says whether `relation` holds of it and
    /// `rhs`.
    pub fn relate_inplace(&mut self, relation: Relation, rhs: &Word, heap: &Heap) -> (result:
        Result<Outcome, LanguloErr>)
        ensures
            realizes(
                spec_relate(relation, *old(self), *rhs, heap@),
                *old(self),
                *final(self),
                result,
            ),
    {
        match self.order(rhs, heap) {
            Ok(order) => {
                let truth = holds_exec(relation, order);
                let ghost before = *self;
                let payload: u32 = if truth { 1 } else { 0 };
                self.replace_with_stack_value(payload, OpCode::Value, ValueTag::Bool);
                proof {
                    self.lemma_word_of_view(
                        WordView {
                            payload: payload as u64,
                            opcode: OpCode::Value.code(),
                            tag: ValueTag::Bool.code(),
                            ..before@
                        },
                    );
                }
                Ok(Outcome::Done)
            },
            Err(e) => Err(LanguloErr::Vm(e)),
        }
    }
}

/// The operator that an opcode names, in either of its two forms.
pub enum Binary {
    Arith(Arith),
    Logic(Logic),
    Relation(Relation),
}

/// The operator of a two-operand opcode that pops both operands.
pub open spec fn spec_binary(opcode: OpCode) -> Option<Binary> {
    match opcode {
        OpCode::Add => Some(Binary::Arith(Arith::Add)),
        OpCode::Subtract => Some(Binary::Arith(Arith::Subtract)),
        OpCode::Multiply => Some(Binary::Arith(Arith::Multiply)),
        OpCode::Divide => Some(Binary::Arith(Arith::Divide)),
        OpCode::Modulo => Some(Binary::Arith(Arith::Modulo)),
        OpCode::Power => Some(Binary::Arith(Arith::Power)),
        OpCode::LogicalAnd => Some(Binary::Logic(Logic::And)),
        OpCode::LogicalOr => Some(Binary::Logic(Logic::Or)),
        OpCode::LogicalXor => Some(Binary::Logic(Logic::Xor)),
        OpCode::Equals => Some(Binary::Relation(Relation::Equals)),
        OpCode::NotEquals => Some(Binary::Relation(Relation::NotEquals)),
        OpCode::GreaterThan => Some(Binary::Relation(Relation::GreaterThan)),
        OpCode::LessThan => Some(Binary::Relation(Relation::LessThan)),
        OpCode::GreaterThanEq => Some(Binary::Relation(Relation::GreaterThanEq)),
        OpCode::LessThanEq => Some(Binary::Relation(Relation::LessThanEq)),
        _ => None,
    }
}

pub fn binary_of(opcode: OpCode) -> (binary: Option<Binary>)
    ensures
        binary == spec_binary(opcode),
        binary is Some <==> opcode.spec_is_binary(),
{
    match opcode {
        OpCode::Add => Some(Binary::Arith(Arith::Add)),
        OpCode::Subtract => Some(Binary::Arith(Arith::Subtract)),
        OpCode::Multiply => Some(Binary::Arith(Arith::Multiply)),
        OpCode::Divide => Some(Binary::Arith(Arith::Divide)),
        OpCode::Modulo => Some(Binary::Arith(Arith::Modulo)),
        OpCode::Power => Some(Binary::Arith(Arith::Power)),
        OpCode::LogicalAnd => Some(Binary::Logic(Logic::And)),
        OpCode::LogicalOr => Some(Binary::Logic(Logic::Or)),
        OpCode::LogicalXor => Some(Binary::Logic(Logic::Xor)),
        OpCode::Equals => Some(Binary::Relation(Relation::Equals)),
        OpCode::NotEquals => Some(Binary::Relation(Relation::NotEquals)),
        OpCode::GreaterThan => Some(Binary::Relation(Relation::GreaterThan)),
        OpCode::LessThan => Some(Binary::Relation(Relation::LessThan)),
        OpCode::GreaterThanEq => Some(Binary::Relation(Relation::GreaterThanEq)),
        OpCode::LessThanEq => Some(Binary::Relation(Relation::LessThanEq)),
        _ => None,
    }
}

/// What a two-operand operator does to its left operand.
pub open spec fn spec_apply(binary: Binary, lhs: Word, rhs: Word, heap: Seq<Cell>) -> Result<
    Applied,
    VmError,
> {
    match binary {
        Binary::Arith(op) => spec_arith(op, lhs, rhs, heap),
        Binary::Logic(op) => spec_logic(op, lhs, rhs),
        Binary::Relation(relation) => spec_relate(relation, lhs, rhs, heap),
    }
}

/// The left operand and the heap after the float operation that an operator asked for
/// gave `bits`: a float operand keeps its cell, which then holds the result; an integer
/// operand becomes a reference to a new cell.
pub open spec fn spec_complete(lhs: Word, bits: u64, heap: Seq<Cell>) -> Result<
    (Word, Seq<Cell>),
    VmError,
> {
    if lhs@.tag == ValueTag::FloatPtr.code() {
        if lhs@.payload < heap.len() {
            Ok(
                (
                    (WordView { opcode: OpCode::Value.code(), ..lhs@ }).word(),
                    heap.update(lhs@.payload as int, Cell::Float(bits)),
                ),
            )
        } else {
            Err(VmError::BadAddress)
        }
    } else if lhs@.tag == ValueTag::Int.code() {
        if heap.len() < crate::word::heap::ADDRESS_SPACE {
            Ok(
                (
                    reference(heap.len() as int, OpCode::Value, ValueTag::FloatPtr).word(),
                    heap.push(Cell::Float(bits)),
                ),
            )
        } else {
            Err(VmError::OutOfMemory)
        }
    } else {
        Err(VmError::BadOperand)
    }
}

/// The option that wraps `value`: none where `value` is a sentinel, which stands for
/// the absence of a value.
pub open spec fn wrapped(value: Word) -> Option<Word> {
    if value@.tag == ValueTag::Special.code() {
        None
    } else {
        Some(value)
    }
}

/// The value inside the option that `word` refers to.
pub open spec fn spec_unwrap(heap: Seq<Cell>, word: Word) -> Result<Word, VmError> {
    match crate::word::heap::option_in(heap, word) {
        Some(Some(inner)) => Ok(inner),
        Some(None) => Err(VmError::UnwrapNone),
        None => Err(VmError::BadOperand),
    }
}

/// Unwrapping what was wrapped gives the value back, unless the value was the sentinel
/// for "none": then unwrapping fails.
pub proof fn lemma_unwrap_wrap(heap: Seq<Cell>, value: Word, opcode: OpCode)
    requires
        heap.len() < crate::word::heap::ADDRESS_SPACE,
    ensures
        ({
            let word = reference(heap.len() as int, opcode, ValueTag::OptionPtr).word();
            let after = heap.push(Cell::Option(wrapped(value)));
            spec_unwrap(after, word) == if value@.tag == ValueTag::Special.code() {
                Err::<Word, VmError>(VmError::UnwrapNone)
            } else {
                Ok::<Word, VmError>(value)
            }
        }),
{
    let view = reference(heap.len() as int, opcode, ValueTag::OptionPtr);
    opcode.lemma_code_decode();
    Word::lemma_view_of_word(view);
}

/// Of two values of one kind that can be compared, exactly one of "less than", "equal"
/// and "greater than" holds. Floats that are not numbers have no order and are left out.
pub proof fn lemma_comparison_total(lhs: Word, rhs: Word, heap: Seq<Cell>)
    requires
        lhs@.tag == rhs@.tag,
        ({
            ||| lhs@.tag == ValueTag::Int.code()
            ||| lhs@.tag == ValueTag::Bool.code()
            ||| lhs@.tag == ValueTag::Char.code()
            ||| (str_in(heap, lhs) is Some && str_in(heap, rhs) is Some)
            ||| (float_in(heap, lhs) matches Some(a) && float_in(heap, rhs) matches Some(b)
                && !float_is_nan(a) && !float_is_nan(b))
        }),
    ensures
        spec_relate(Relation::LessThan, lhs, rhs, heap) is Ok,
        spec_relate(Relation::Equals, lhs, rhs, heap) is Ok,
        spec_relate(Relation::GreaterThan, lhs, rhs, heap) is Ok,
        ({
            let less = spec_relate(Relation::LessThan, lhs, rhs, heap) == Ok::<Applied, VmError>(
                Applied::Word(with_truth(lhs, true)),
            );
            let equal = spec_relate(Relation::Equals, lhs, rhs, heap) == Ok::<Applied, VmError>(
                Applied::Word(with_truth(lhs, true)),
            );
            let greater = spec_relate(Relation::GreaterThan, lhs, rhs, heap) == Ok::<
                Applied,
                VmError,
            >(Applied::Word(with_truth(lhs, true)));
            (less && !equal && !greater) || (!less && equal && !greater) || (!less && !equal
                && greater)
        }),
{
    lhs.lemma_view_fits();
    Word::lemma_view_of_word(
        WordView {
            payload: 1,
            opcode: OpCode::Value.code(),
            tag: ValueTag::Bool.code(),
            ..lhs@
        },
    );
    Word::lemma_view_of_word(
        WordView {
            payload: 0,
            opcode: OpCode::Value.code(),
            tag: ValueTag::Bool.code(),
            ..lhs@
        },
    );
    assert(with_truth(lhs, true) != with_truth(lhs, false));
}

impl Word {
    pub fn add_inplace(&mut self, rhs: &Word, heap: &Heap) -> (result: Result<Outcome, LanguloErr>)
        ensures
            realizes(
                spec_arith(Arith::Add, *old(self), *rhs, heap@),
                *old(self),
                *final(self),
                result,
            ),
    {
        self.arith_inplace(Arith::Add, rhs, heap)
    }
    pub fn subtract_inplace(&mut self, rhs: &Word, heap: &Heap) -> (result: Result<Outcome, LanguloErr>)
        ensures
            realizes(
                spec_arith(Arith::Subtract, *old(self), *rhs, heap@),
                *old(self),
                *final(self),
                result,
            ),
    {
        self.arith_inplace(Arith::Subtract, rhs, heap)
    }
    pub fn multiply_inplace(&mut self, rhs: &Word, heap: &Heap) -> (result: Result<Outcome, LanguloErr>)
        ensures
            realizes(
                spec_arith(Arith::Multiply, *old(self), *rhs, heap@),
                *old(self),
                *final(self),
                result,
            ),
    {
        self.arith_inplace(Arith::Multiply, rhs, heap)
    }
    pub fn divide_inplace(&mut self, rhs: &Word, heap: &Heap) -> (result: Result<Outcome, LanguloErr>)
        ensures
            realizes(
                spec_arith(Arith::Divide, *old(self), *rhs, heap@),
                *old(self),
                *final(self),
                result,
            ),
    {
        self.arith_inplace(Arith::Divide, rhs, heap)
    }
    pub fn modulo_inplace(&mut self, rhs: &Word, heap: &Heap) -> (result: Result<Outcome, LanguloErr>)
        ensures
            realizes(
                spec_arith(Arith::Modulo, *old(self), *rhs, heap@),
                *old(self),
                *final(self),
                result,
            ),
    {
        self.arith_inplace(Arith::Modulo, rhs, heap)
    }
    pub fn exponentiate_inplace(&mut self, rhs: &Word, heap: &Heap) -> (result: Result<Outcome, LanguloErr>)
        ensures
            realizes(
                spec_arith(Arith::Power, *old(self), *rhs, heap@),
                *old(self),
                *final(self),
                result,
            ),
    {
        self.arith_inplace(Arith::Power, rhs, heap)
    }
    pub fn logical_and_inplace(&mut self, rhs: &Word) -> (result: Result<Outcome, LanguloErr>)
        ensures
            realizes(spec_logic(Logic::And, *old(self), *rhs), *old(self), *final(self), result),
    {
        self.logic_inplace(Logic::And, rhs)
    }
    pub fn logical_or_inplace(&mut self, rhs: &Word) -> (result: Result<Outcome, LanguloErr>)
        ensures
            realizes(spec_logic(Logic::Or, *old(self), *rhs), *old(self), *final(self), result),
    {
        self.logic_inplace(Logic::Or, rhs)
    }
    pub fn logical_xor_inplace(&mut self, rhs: &Word) -> (result: Result<Outcome, LanguloErr>)
        ensures
            realizes(spec_logic(Logic::Xor, *old(self), *rhs), *old(self), *final(self), result),
    {
        self.logic_inplace(Logic::Xor, rhs)
    }
    pub fn equals_inplace(&mut self, rhs: &Word, heap: &Heap) -> (result: Result<Outcome, LanguloErr>)
        ensures
            realizes(
                spec_relate(Relation::Equals, *old(self), *rhs, heap@),
                *old(self),
                *final(self),
                result,
            ),
    {
        self.relate_inplace(Relation::Equals, rhs, heap)
    }
    pub fn not_equals_inplace(&mut self, rhs: &Word, heap: &Heap) -> (result: Result<Outcome, LanguloErr>)
        ensures
            realizes(
                spec_relate(Relation::NotEquals, *old(self), *rhs, heap@),
                *old(self),
                *final(self),
                result,
            ),
    {
        self.relate_inplace(Relation::NotEquals, rhs, heap)
    }
    pub fn greater_than_inplace(&mut self, rhs: &Word, heap: &Heap) -> (result: Result<Outcome, LanguloErr>)
        ensures
            realizes(
                spec_relate(Relation::GreaterThan, *old(self), *rhs, heap@),
                *old(self),
                *final(self),
                result,
            ),
    {
        self.relate_inplace(Relation::GreaterThan, rhs, heap)
    }
    pub fn greater_than_eq_inplace(&mut self, rhs: &Word, heap: &Heap) -> (result: Result<Outcome, LanguloErr>)
        ensures
            realizes(
                spec_relate(Relation::GreaterThanEq, *old(self), *rhs, heap@),
                *old(self),
                *final(self),
                result,
            ),
    {
        self.relate_inplace(Relation::GreaterThanEq, rhs, heap)
    }
    pub fn less_than_inplace(&mut self, rhs: &Word, heap: &Heap) -> (result: Result<Outcome, LanguloErr>)
        ensures
            realizes(
                spec_relate(Relation::LessThan, *old(self), *rhs, heap@),
                *old(self),
                *final(self),
                result,
            ),
    {
        self.relate_inplace(Relation::LessThan, rhs, heap)
    }
    pub fn less_than_eq_inplace(&mut self, rhs: &Word, heap: &Heap) -> (result: Result<Outcome, LanguloErr>)
        ensures
            realizes(
                spec_relate(Relation::LessThanEq, *old(self), *rhs, heap@),
                *old(self),
                *final(self),
                result,
            ),
    {
        self.relate_inplace(Relation::LessThanEq, rhs, heap)
    }
    /// Applies a two-operand operator to this word and `rhs`.
    pub fn apply_inplace(&mut self, binary: Binary, rhs: &Word, heap: &Heap) -> (result: Result<
        Outcome,
        LanguloErr,
    >)
        ensures
            realizes(
                spec_apply(binary, *old(self), *rhs, heap@),
                *old(self),
                *final(self),
                result,
            ),
    {
        match binary {
            Binary::Arith(op) => self.arith_inplace(op, rhs, heap),
            Binary::Logic(op) => self.logic_inplace(op, rhs),
            Binary::Relation(relation) => self.relate_inplace(relation, rhs, heap),
        }
    }

    /// Completes an operator that asked for a float operation, with the bits of the
    /// operation's result.
    pub fn complete_float(&mut self, bits: u64, heap: &mut Heap, gc: &mut GarbageCollector) -> (result:
        Result<(), LanguloErr>)
        requires
            old(gc).has_room(),
        ensures
            match spec_complete(*old(self), bits, old(heap)@) {
                Ok((word, cells)) => {
                    &&& result is Ok
                    &&& *final(self) == word
                    &&& final(heap)@ == cells
                    &&& final(gc).traced() == if old(self)@.tag == ValueTag::Int.code() {
                        old(gc).traced().push(word)
                    } else {
                        old(gc).traced()
                    }
                },
                Err(e) => {
                    &&& result == Err::<(), LanguloErr>(LanguloErr::Vm(e))
                    &&& *final(self) == *old(self)
                    &&& final(heap)@ == old(heap)@
                    &&& final(gc).traced() == old(gc).traced()
                },
            },
            final(gc).marks() == old(gc).marks(),
    {
        let tag = self.0 & 0xF;
        if tag == 4 {
            if (self.value() as usize) < heap.len() {
                let ghost before = *self;
                self.update_heap_value(heap, HeapObject::Float(HeapFloat(bits)), OpCode::Value);
                proof {
                    self.lemma_word_of_view(WordView { opcode: OpCode::Value.code(), ..before@ });
                }
                Ok(())
            } else {
                Err(LanguloErr::Vm(VmError::BadAddress))
            }
        } else if tag == 0 {
            if heap.has_room() {
                let word = Word::float(bits, OpCode::Value, heap, gc);
                proof {
                    word.lemma_word_of_view(
                        reference(old(heap)@.len() as int, OpCode::Value, ValueTag::FloatPtr),
                    );
                }
                self.become_word(word);
                Ok(())
            } else {
                Err(LanguloErr::Vm(VmError::OutOfMemory))
            }
        } else {
            Err(LanguloErr::Vm(VmError::BadOperand))
        }
    }

    /// Wraps `value` in an option: none where `value` is a sentinel.
    pub fn wrap_in_option(value: Word, heap: &mut Heap, gc: &mut GarbageCollector) -> (word: Word)
        requires
            old(heap).spec_has_room(),
            old(gc).has_room(),
        ensures
            final(heap)@ == old(heap)@.push(Cell::Option(wrapped(value))),
            word == reference(old(heap)@.len() as int, OpCode::Value, ValueTag::OptionPtr).word(),
            final(gc).traced() == old(gc).traced().push(word),
            final(gc).marks() == old(gc).marks(),
    {
        let inner = if value.0 & 0xF == 8 { None } else { Some(value) };
        let word = Word::option(inner, OpCode::Value, heap, gc);
        proof {
            word.lemma_word_of_view(
                reference(old(heap)@.len() as int, OpCode::Value, ValueTag::OptionPtr),
            );
        }
        word
    }

    /// The value inside the option that this word refers to.
    pub fn unwrap_option(self, heap: &Heap) -> (result: Result<Word, LanguloErr>)
        ensures
            match spec_unwrap(heap@, self) {
                Ok(inner) => result == Ok::<Word, LanguloErr>(inner),
                Err(e) => result == Err::<Word, LanguloErr>(LanguloErr::Vm(e)),
            },
    {
        match heap.option_of(self) {
            Some(Some(inner)) => Ok(inner),
            Some(None) => Err(LanguloErr::Vm(VmError::UnwrapNone)),
            None => Err(LanguloErr::Vm(VmError::BadOperand)),
        }
    }
}

} // verus!
