//! A tagged machine word: it holds a small value, or the place of a value in the heap,
//! above three bits that say which.
//!
//! | 0..2 | 3..           |
//! |------|---------------|
//! | tag  | value or place|

use vstd::prelude::*;

verus! {

#[derive(Debug, Clone, Copy, PartialEq, Eq, Structural)]
pub enum ValueTag {
    Int,
    Bool,
    Char,
    FnPtr,
    FloatPtr,
    StrPtr,
    TablePtr,
}

impl ValueTag {
    pub open spec fn code(self) -> usize {
        match self {
            ValueTag::Int => 0,
            ValueTag::Bool => 1,
            ValueTag::Char => 2,
            ValueTag::FnPtr => 3,
            ValueTag::FloatPtr => 4,
            ValueTag::StrPtr => 5,
            ValueTag::TablePtr => 6,
        }
    }

    pub fn to_usize(&self) -> (n: usize)
        ensures
            n == self.code(),
            n < 7,
    {
        match self {
            ValueTag::Int => 0,
            ValueTag::Bool => 1,
            ValueTag::Char => 2,
            ValueTag::FnPtr => 3,
            ValueTag::FloatPtr => 4,
            ValueTag::StrPtr => 5,
            ValueTag::TablePtr => 6,
        }
    }

    pub fn from_usize(n: usize) -> (tag: Option<ValueTag>)
        ensures
            tag is Some <==> n < 7,
            tag matches Some(t) ==> t.code() == n,
    {
        match n {
            0 => Some(ValueTag::Int),
            1 => Some(ValueTag::Bool),
            2 => Some(ValueTag::Char),
            3 => Some(ValueTag::FnPtr),
            4 => Some(ValueTag::FloatPtr),
            5 => Some(ValueTag::StrPtr),
            6 => Some(ValueTag::TablePtr),
            _ => None,
        }
    }
}

pub const TAG_SPAN: usize = 3;

pub const TAG_MASK: usize = 7;

/// The largest integer that a value can hold.
pub open spec fn max_int() -> int {
    isize::MAX / 8
}

/// The smallest integer that a value can hold.
pub open spec fn min_int() -> int {
    -(isize::MAX / 8) - 1
}

/// stores VM values in an usize that can either be the direct representation of the value,
/// or a pointer to its location in the heap.
#[derive(Debug, Clone, Copy)]
pub struct TaggedValue(usize);

/// The machine word of an integer: the integer moved up by three bits, in two's
/// complement. What does not fit above the tag is lost.
pub open spec fn int_word(value: int) -> int {
    (8 * value) % (usize::MAX + 1)
}

impl TaggedValue {
    /// The machine word.
    pub closed spec fn raw(&self) -> usize {
        self.0
    }

    #[verifier::type_invariant]
    spec fn inv(self) -> bool {
        self.0 % 8 < 7
    }

    /// The value above the tag `typ`, where `of` is the value moved up by three bits.
    fn new(of: usize, typ: ValueTag) -> (value: TaggedValue)
        requires
            of % 8 == 0,
        ensures
            value.raw() == of + typ.code(),
    {
        TaggedValue(of + typ.to_usize())
    }

    pub fn bool(value: bool) -> (tagged: TaggedValue)
        ensures
            tagged.raw() == (if value { 8int } else { 0int }) + ValueTag::Bool.code(),
    {
        TaggedValue::new(if value { 8 } else { 0 }, ValueTag::Bool)
    }

    pub fn integer(value: isize) -> (tagged: TaggedValue)
        ensures
            tagged.raw() == int_word(value as int),
    {
        // the value in two's complement
        let bits: usize = if value >= 0 {
            value as usize
        } else {
            usize::MAX - ((-(value + 1)) as usize)
        };
        let span: usize = usize::MAX / 8 + 1;
        let low: usize = bits % span;
        proof {
            assert(usize::MAX == 0xFFFF_FFFF || usize::MAX == 0xFFFF_FFFF_FFFF_FFFF);
            let whole = usize::MAX + 1;
            assert(whole == 8 * span);
            assert(bits == value || bits == value + whole);
            vstd::arithmetic::div_mod::lemma_truncate_middle(bits as int, 8, span as int);
            vstd::arithmetic::div_mod::lemma_mod_multiples_vanish(8, 8 * value, whole);
            assert(8 * bits == 8 * value || 8 * bits == whole * 8 + 8 * value);
        }
        TaggedValue::new(low * 8, ValueTag::Int)
    }

    pub fn tag(&self) -> (tag: ValueTag)
        ensures
            tag.code() == self.raw() % 8,
    {
        proof {
            use_type_invariant(self);
        }
        ValueTag::from_usize(self.0 % 8).unwrap()
    }

    /// The place in the heap: the word without its tag and without its three highest
    /// bits.
    pub fn ptr(self) -> (place: usize)
        ensures
            place == (self.raw() as int % (usize::MAX as int / 8 + 1)) / 8 * 8,
    {
        (self.0 % (usize::MAX / 8 + 1)) / 8 * 8
    }

    pub fn in_heap(&self) -> (heap: bool)
        ensures
            heap == (self.raw() % 8 > ValueTag::Char.code()),
    {
        self.0 % 8 > 2
    }

    pub fn to_bool(self) -> (value: bool)
        ensures
            value == ((self.raw() % 256) / 8 == 1),
    {
        (self.0 % 256) / 8 == 1
    }

    /// The integer above the tag: the word as a signed number, divided by eight and
    /// rounded down.
    pub fn to_int(self) -> (value: isize)
        ensures
            self.raw() <= isize::MAX ==> value == self.raw() / 8,
            self.raw() > isize::MAX ==> value == -((usize::MAX - self.raw() + 8) / 8),
    {
        if self.0 <= isize::MAX as usize {
            (self.0 / 8) as isize
        } else {
            let below: usize = usize::MAX - self.0;
            -((below / 8 + 1) as isize)
        }
    }
}

/// An integer that was put in a value is the integer that is read from it, and its tag
/// says that it is an integer; likewise a boolean.
pub proof fn lemma_tagged_round_trip(value: isize, raw: usize)
    requires
        min_int() <= value <= max_int(),
        raw == int_word(value as int),
    ensures
        raw % 8 == ValueTag::Int.code(),
        raw <= isize::MAX ==> value == raw / 8,
        raw > isize::MAX ==> value == -((usize::MAX - raw + 8) / 8),
{
    assert(usize::MAX == 2 * isize::MAX + 1);
    assert(isize::MAX % 8 == 7 && usize::MAX % 8 == 7) by {
        assert(usize::MAX == 0xFFFF_FFFF || usize::MAX == 0xFFFF_FFFF_FFFF_FFFF);
    }
    let whole = usize::MAX + 1;
    if value >= 0 {
        vstd::arithmetic::div_mod::lemma_small_mod((8 * value) as nat, whole as nat);
    } else {
        vstd::arithmetic::div_mod::lemma_mod_multiples_vanish(1, 8 * value, whole);
        vstd::arithmetic::div_mod::lemma_small_mod((whole + 8 * value) as nat, whole as nat);
        assert(raw == whole + 8 * value);
    }
}

} // verus!
