//! The word: one 64-bit quantity that is both an instruction and a value.
//!
//! | field     | bits   | meaning                                            |
//! |-----------|--------|----------------------------------------------------|
//! | `tag`     | 0..4   | the kind of value                                  |
//! | `opcode`  | 4..10  | what the virtual machine does with the word        |
//! | `aux`     | 10..32 | auxiliary integer, such as a local variable index  |
//! | `payload` | 32..64 | an immediate value, or the address of a heap value |

use vstd::prelude::*;
use vstd::arithmetic::power2::pow2;
use crate::word::opcode::OpCode;

verus! {

pub const TAG_START: u64 = 0;

pub const OPCODE_START: u64 = 4;

pub const AUX_START: u64 = 10;

pub const PTR_START: u64 = 32;

pub const TAG_MASK: u64 = 0x0000_0000_0000_000F;

pub const OPCODE_MASK: u64 = 0x0000_0000_0000_03F0;

pub const AUX_MASK: u64 = 0x0000_0000_FFFF_FC00;

pub const PTR_MASK: u64 = 0xFFFF_FFFF_0000_0000;

/// The largest auxiliary integer that a word can hold.
pub const AUX_MAX: u32 = 0x003F_FFFF;

/// The mask whose set bits are exactly those from `from` up to, not including,
/// `to_excluded`; zero when that range is empty or leaves the 64 bits of a word.
pub open spec fn spec_bitmask(from: u32, to_excluded: u32) -> int {
    if from < to_excluded && to_excluded <= 64 {
        pow2(to_excluded as nat) - pow2(from as nat)
    } else {
        0
    }
}

proof fn lemma_pow2_values()
    ensures
        pow2(0) == 1,
        pow2(64) == 0x1_0000_0000_0000_0000,
        forall|n: nat| #[trigger] pow2(n + 1) == 2 * pow2(n),
        forall|n: nat| #[trigger] pow2(n) > 0,
{
    vstd::arithmetic::power2::lemma2_to64();
    assert forall|n: nat| #[trigger] pow2(n + 1) == 2 * pow2(n) by {
        vstd::arithmetic::power2::lemma_pow2_unfold(n + 1);
    }
    assert forall|n: nat| #[trigger] pow2(n) > 0 by {
        vstd::arithmetic::power2::lemma_pow2_pos(n);
    }
}

pub fn bitmask(from: u32, to_excluded: u32) -> (mask: u64)
    ensures
        mask == spec_bitmask(from, to_excluded),
{
    if from >= to_excluded || to_excluded > 64 {
        return 0;
    }
    // `low` counts up to 2^from - 1 and `high` to 2^to_excluded - 1, one bit per round.
    let mut low: u64 = 0;
    let mut high: u64 = 0;
    let mut i: u32 = 0;
    proof {
        lemma_pow2_values();
    }
    while i < to_excluded
        invariant
            i <= to_excluded <= 64,
            from < to_excluded,
            high == pow2(i as nat) - 1,
            low == (if i <= from { pow2(i as nat) - 1 } else { pow2(from as nat) - 1 }),
            pow2(0) == 1,
            pow2(64) == 0x1_0000_0000_0000_0000,
            forall|n: nat| #[trigger] pow2(n + 1) == 2 * pow2(n),
            forall|n: nat| #[trigger] pow2(n) > 0,
        decreases to_excluded - i,
    {
        proof {
            vstd::arithmetic::power2::lemma_pow2_strictly_increases(i as nat, 64);
            assert(pow2(i as nat + 1) == 2 * pow2(i as nat));
            if i + 1 < 64 {
                vstd::arithmetic::power2::lemma_pow2_strictly_increases((i + 1) as nat, 64);
            }
        }
        if i < from {
            low = low + low + 1;
        }
        high = high + high + 1;
        i = i + 1;
    }
    proof {
        vstd::arithmetic::power2::lemma_pow2_strictly_increases(from as nat, to_excluded as nat);
    }
    high - low
}

/// The kind of value a word holds.
#[derive(Debug, Clone, Copy, PartialEq, Eq, Structural)]
pub enum ValueTag {
    Int,
    Bool,
    Char,
    FnPtr,
    FloatPtr,
    StrPtr,
    TablePtr,
    OptionPtr,
    Special,
}

impl ValueTag {
    /// The number that stands for this variant in a word's bit field.
    pub open spec fn code(self) -> u64 {
        match self {
            ValueTag::Int => 0,
            ValueTag::Bool => 1,
            ValueTag::Char => 2,
            ValueTag::FnPtr => 3,
            ValueTag::FloatPtr => 4,
            ValueTag::StrPtr => 5,
            ValueTag::TablePtr => 6,
            ValueTag::OptionPtr => 7,
            ValueTag::Special => 8,
        }
    }

    /// The variant that a number stands for, if any.
    pub open spec fn decode(n: u64) -> Option<ValueTag> {
        if n == 0 {
            Some(ValueTag::Int)
        } else if n == 1 {
            Some(ValueTag::Bool)
        } else if n == 2 {
            Some(ValueTag::Char)
        } else if n == 3 {
            Some(ValueTag::FnPtr)
        } else if n == 4 {
            Some(ValueTag::FloatPtr)
        } else if n == 5 {
            Some(ValueTag::StrPtr)
        } else if n == 6 {
            Some(ValueTag::TablePtr)
        } else if n == 7 {
            Some(ValueTag::OptionPtr)
        } else if n == 8 {
            Some(ValueTag::Special)
        } else {
            None
        }
    }

    pub fn to_u8(&self) -> (n: u8)
        ensures
            n == self.code(),
            n < 9,
    {
        match self {
            ValueTag::Int => 0,
            ValueTag::Bool => 1,
            ValueTag::Char => 2,
            ValueTag::FnPtr => 3,
            ValueTag::FloatPtr => 4,
            ValueTag::StrPtr => 5,
            ValueTag::TablePtr => 6,
            ValueTag::OptionPtr => 7,
            ValueTag::Special => 8,
        }
    }

    pub fn from_u64(n: u64) -> (r: Option<ValueTag>)
        ensures
            r == ValueTag::decode(n),
            r is Some <==> n < 9,
    {
        match n {
            0 => Some(ValueTag::Int),
            1 => Some(ValueTag::Bool),
            2 => Some(ValueTag::Char),
            3 => Some(ValueTag::FnPtr),
            4 => Some(ValueTag::FloatPtr),
            5 => Some(ValueTag::StrPtr),
            6 => Some(ValueTag::TablePtr),
            7 => Some(ValueTag::OptionPtr),
            8 => Some(ValueTag::Special),
            _ => None,
        }
    }

    /// Decoding undoes encoding, and a number that decodes is the code of what it
    /// decodes to.
    pub proof fn lemma_code_decode(self)
        ensures
            self.code() < 9,
            ValueTag::decode(self.code()) == Some(self),
    {
    }

    pub proof fn lemma_decode_code(n: u64)
        ensures
            ValueTag::decode(n) is Some <==> n < 9,
            ValueTag::decode(n) is Some ==> ValueTag::decode(n).unwrap().code() == n,
    {
    }

    /// Whether values of this kind live in the heap, so that a word holds their address.
    pub open spec fn spec_is_heap(self) -> bool {
        match self {
            ValueTag::FnPtr
            | ValueTag::FloatPtr
            | ValueTag::StrPtr
            | ValueTag::TablePtr
            | ValueTag::OptionPtr => true,
            _ => false,
        }
    }

    pub fn is_heap(&self) -> (r: bool)
        ensures
            r == self.spec_is_heap(),
    {
        match self {
            ValueTag::FnPtr
            | ValueTag::FloatPtr
            | ValueTag::StrPtr
            | ValueTag::TablePtr
            | ValueTag::OptionPtr => true,
            _ => false,
        }
    }
}

/// A word, held as its 64 raw bits.
#[derive(Debug, Clone, Copy, PartialEq, Eq, Structural)]
pub struct Word(pub u64);

/// The four fields of a word, as numbers.
pub struct WordView {
    pub tag: u64,
    pub opcode: u64,
    pub aux: u64,
    pub payload: u64,
}

/// The raw bits of the word whose fields are the given numbers, cut to the width of
/// their fields.
pub open spec fn pack(tag: u64, opcode: u64, aux: u64, payload: u64) -> u64 {
    ((payload << 32) & 0xFFFF_FFFF_0000_0000) | ((aux << 10) & 0x0000_0000_FFFF_FC00) | ((opcode
        << 4) & 0x0000_0000_0000_03F0) | (tag & 0x0000_0000_0000_000F)
}

/// The fields of a packed word are the numbers that went in, as far as they fit.
pub proof fn lemma_pack_fields(tag: u64, opcode: u64, aux: u64, payload: u64)
    ensures
        pack(tag, opcode, aux, payload) & 0xF == tag & 0xF,
        (pack(tag, opcode, aux, payload) & 0x3F0) >> 4 == opcode & 0x3F,
        (pack(tag, opcode, aux, payload) & 0xFFFF_FC00) >> 10 == aux & 0x3F_FFFF,
        (pack(tag, opcode, aux, payload) & 0xFFFF_FFFF_0000_0000) >> 32 == payload & 0xFFFF_FFFF,
        tag < 16 ==> tag & 0xF == tag,
        opcode < 64 ==> opcode & 0x3F == opcode,
        aux < 0x40_0000 ==> aux & 0x3F_FFFF == aux,
        payload < 0x1_0000_0000 ==> payload & 0xFFFF_FFFF == payload,
{
    assert(((((payload << 32) & 0xFFFF_FFFF_0000_0000) | ((aux << 10) & 0x0000_0000_FFFF_FC00) | ((
    opcode << 4) & 0x0000_0000_0000_03F0) | (tag & 0x0000_0000_0000_000F)) & 0xF) == tag & 0xF)
        by (bit_vector);
    assert((((((payload << 32) & 0xFFFF_FFFF_0000_0000) | ((aux << 10) & 0x0000_0000_FFFF_FC00) | ((
    opcode << 4) & 0x0000_0000_0000_03F0) | (tag & 0x0000_0000_0000_000F)) & 0x3F0) >> 4) == opcode
        & 0x3F) by (bit_vector);
    assert((((((payload << 32) & 0xFFFF_FFFF_0000_0000) | ((aux << 10) & 0x0000_0000_FFFF_FC00) | ((
    opcode << 4) & 0x0000_0000_0000_03F0) | (tag & 0x0000_0000_0000_000F)) & 0xFFFF_FC00) >> 10)
        == aux & 0x3F_FFFF) by (bit_vector);
    assert((((((payload << 32) & 0xFFFF_FFFF_0000_0000) | ((aux << 10) & 0x0000_0000_FFFF_FC00) | ((
    opcode << 4) & 0x0000_0000_0000_03F0) | (tag & 0x0000_0000_0000_000F)) & 0xFFFF_FFFF_0000_0000)
        >> 32) == payload & 0xFFFF_FFFF) by (bit_vector);
    assert((tag < 16 ==> tag & 0xF == tag) && (opcode < 64 ==> opcode & 0x3F == opcode) && (aux
        < 0x40_0000 ==> aux & 0x3F_FFFF == aux) && (payload < 0x1_0000_0000 ==> payload
        & 0xFFFF_FFFF == payload)) by (bit_vector);
}

/// Every raw word is the packing of its own fields, and each field fits its width.
pub proof fn lemma_fields_pack(raw: u64)
    ensures
        pack(raw & 0xF, (raw & 0x3F0) >> 4, (raw & 0xFFFF_FC00) >> 10, (raw & 0xFFFF_FFFF_0000_0000)
            >> 32) == raw,
        raw & 0xF < 16,
        (raw & 0x3F0) >> 4 < 64,
        (raw & 0xFFFF_FC00) >> 10 < 0x40_0000,
        (raw & 0xFFFF_FFFF_0000_0000) >> 32 < 0x1_0000_0000,
{
    assert((((((raw & 0xFFFF_FFFF_0000_0000) >> 32) << 32) & 0xFFFF_FFFF_0000_0000) | ((((raw
        & 0xFFFF_FC00) >> 10) << 10) & 0x0000_0000_FFFF_FC00) | ((((raw & 0x3F0) >> 4) << 4)
        & 0x0000_0000_0000_03F0) | ((raw & 0xF) & 0x0000_0000_0000_000F)) == raw) by (bit_vector);
    assert(raw & 0xF < 16 && (raw & 0x3F0) >> 4 < 64 && (raw & 0xFFFF_FC00) >> 10 < 0x40_0000 && (
    raw & 0xFFFF_FFFF_0000_0000) >> 32 < 0x1_0000_0000) by (bit_vector);
}

impl View for Word {
    type V = WordView;

    open spec fn view(&self) -> WordView {
        WordView {
            tag: self.0 & TAG_MASK,
            opcode: (self.0 & OPCODE_MASK) >> OPCODE_START,
            aux: (self.0 & AUX_MASK) >> AUX_START,
            payload: (self.0 & PTR_MASK) >> PTR_START,
        }
    }
}

/// Replacing one field of a raw word leaves the other three as they were.
proof fn lemma_replace_field(raw: u64, v: u64)
    ensures
        ({
            let r = (raw & !0xFu64) | (v & 0xF);
            &&& r & 0xF == v & 0xF
            &&& (r & 0x3F0) >> 4 == (raw & 0x3F0) >> 4
            &&& (r & 0xFFFF_FC00) >> 10 == (raw & 0xFFFF_FC00) >> 10
            &&& (r & 0xFFFF_FFFF_0000_0000) >> 32 == (raw & 0xFFFF_FFFF_0000_0000) >> 32
        }),
        ({
            let r = (raw & !0x3F0u64) | ((v << 4) & 0x3F0);
            &&& r & 0xF == raw & 0xF
            &&& (r & 0x3F0) >> 4 == v & 0x3F
            &&& (r & 0xFFFF_FC00) >> 10 == (raw & 0xFFFF_FC00) >> 10
            &&& (r & 0xFFFF_FFFF_0000_0000) >> 32 == (raw & 0xFFFF_FFFF_0000_0000) >> 32
        }),
        ({
            let r = (raw & !0xFFFF_FC00u64) | ((v << 10) & 0xFFFF_FC00);
            &&& r & 0xF == raw & 0xF
            &&& (r & 0x3F0) >> 4 == (raw & 0x3F0) >> 4
            &&& (r & 0xFFFF_FC00) >> 10 == v & 0x3F_FFFF
            &&& (r & 0xFFFF_FFFF_0000_0000) >> 32 == (raw & 0xFFFF_FFFF_0000_0000) >> 32
        }),
        ({
            let r = (raw & !0xFFFF_FFFF_0000_0000u64) | ((v << 32) & 0xFFFF_FFFF_0000_0000);
            &&& r & 0xF == raw & 0xF
            &&& (r & 0x3F0) >> 4 == (raw & 0x3F0) >> 4
            &&& (r & 0xFFFF_FC00) >> 10 == (raw & 0xFFFF_FC00) >> 10
            &&& (r & 0xFFFF_FFFF_0000_0000) >> 32 == v & 0xFFFF_FFFF
        }),
{
    assert({
        let r = (raw & !0xFu64) | (v & 0xF);
        &&& r & 0xF == v & 0xF
        &&& (r & 0x3F0) >> 4 == (raw & 0x3F0) >> 4
        &&& (r & 0xFFFF_FC00) >> 10 == (raw & 0xFFFF_FC00) >> 10
        &&& (r & 0xFFFF_FFFF_0000_0000) >> 32 == (raw & 0xFFFF_FFFF_0000_0000) >> 32
    }) by (bit_vector);
    assert({
        let r = (raw & !0x3F0u64) | ((v << 4) & 0x3F0);
        &&& r & 0xF == raw & 0xF
        &&& (r & 0x3F0) >> 4 == v & 0x3F
        &&& (r & 0xFFFF_FC00) >> 10 == (raw & 0xFFFF_FC00) >> 10
        &&& (r & 0xFFFF_FFFF_0000_0000) >> 32 == (raw & 0xFFFF_FFFF_0000_0000) >> 32
    }) by (bit_vector);
    assert({
        let r = (raw & !0xFFFF_FC00u64) | ((v << 10) & 0xFFFF_FC00);
        &&& r & 0xF == raw & 0xF
        &&& (r & 0x3F0) >> 4 == (raw & 0x3F0) >> 4
        &&& (r & 0xFFFF_FC00) >> 10 == v & 0x3F_FFFF
        &&& (r & 0xFFFF_FFFF_0000_0000) >> 32 == (raw & 0xFFFF_FFFF_0000_0000) >> 32
    }) by (bit_vector);
    assert({
        let r = (raw & !0xFFFF_FFFF_0000_0000u64) | ((v << 32) & 0xFFFF_FFFF_0000_0000);
        &&& r & 0xF == raw & 0xF
        &&& (r & 0x3F0) >> 4 == (raw & 0x3F0) >> 4
        &&& (r & 0xFFFF_FC00) >> 10 == (raw & 0xFFFF_FC00) >> 10
        &&& (r & 0xFFFF_FFFF_0000_0000) >> 32 == v & 0xFFFF_FFFF
    }) by (bit_vector);
}

/// A number that fits a field is what the field's mask leaves of it.
proof fn lemma_fits(v: u64)
    ensures
        v < 16 ==> v & 0xF == v,
        v < 64 ==> v & 0x3F == v,
        v < 0x40_0000 ==> v & 0x3F_FFFF == v,
        v < 0x1_0000_0000 ==> v & 0xFFFF_FFFF == v,
{
    assert((v < 16 ==> v & 0xF == v) && (v < 64 ==> v & 0x3F == v) && (v < 0x40_0000 ==> v
        & 0x3F_FFFF == v) && (v < 0x1_0000_0000 ==> v & 0xFFFF_FFFF == v)) by (bit_vector);
}

impl Word {
    /// Whether the tag field names a kind of value.
    pub open spec fn has_tag(self) -> bool {
        ValueTag::decode(self@.tag) is Some
    }

    /// Whether the opcode field names an instruction.
    pub open spec fn has_opcode(self) -> bool {
        OpCode::decode(self@.opcode) is Some
    }

    /// Whether both the tag and the opcode can be read.
    pub open spec fn well_formed(self) -> bool {
        self.has_tag() && self.has_opcode()
    }

    pub open spec fn spec_tag(self) -> ValueTag
        recommends
            self.has_tag(),
    {
        ValueTag::decode(self@.tag).unwrap()
    }

    pub open spec fn spec_opcode(self) -> OpCode
        recommends
            self.has_opcode(),
    {
        OpCode::decode(self@.opcode).unwrap()
    }

    /// Whether the payload is the address of a value in the heap.
    pub open spec fn spec_is_tag_for_heap(self) -> bool {
        self.has_tag() && self.spec_tag().spec_is_heap()
    }

    /// Two words with the same fields are the same word.
    pub proof fn lemma_view_determines_word(a: Word, b: Word)
        requires
            a@ == b@,
        ensures
            a == b,
    {
        lemma_fields_pack(a.0);
        lemma_fields_pack(b.0);
    }

    /// A word is the packing of its fields.
    pub proof fn lemma_word_of_view(self, view: WordView)
        requires
            self@ == view,
        ensures
            self == view.word(),
            view.fits(),
    {
        lemma_fields_pack(self.0);
    }

    /// The fields of a packed word are the fields that went in, where each fits.
    pub proof fn lemma_view_of_word(view: WordView)
        requires
            view.fits(),
        ensures
            view.word()@ == view,
    {
        lemma_pack_fields(view.tag, view.opcode, view.aux, view.payload);
    }

    /// The fields of every word fit their widths, and the word is the packing of them.
    pub proof fn lemma_view_fits(self)
        ensures
            self@.fits(),
            self@.word() == self,
    {
        lemma_fields_pack(self.0);
    }

    /// The address in the payload.
    pub fn ptr(self) -> (address: u32)
        ensures
            address == self@.payload,
    {
        proof {
            lemma_fields_pack(self.0);
        }
        ((self.0 & PTR_MASK) >> PTR_START) as u32
    }

    pub fn aux(&self) -> (aux: u32)
        ensures
            aux == self@.aux,
            aux <= AUX_MAX,
    {
        proof {
            lemma_fields_pack(self.0);
        }
        ((self.0 & AUX_MASK) >> AUX_START) as u32
    }

    /// Whether `tag` and `opcode` may be called on this word.
    pub fn is_well_formed(&self) -> (ok: bool)
        ensures
            ok == self.well_formed(),
    {
        ValueTag::from_u64(self.0 & TAG_MASK).is_some() && OpCode::from_u64(
            (self.0 & OPCODE_MASK) >> OPCODE_START,
        ).is_some()
    }

    pub fn opcode(&self) -> (opcode: OpCode)
        requires
            self.has_opcode(),
        ensures
            opcode == self.spec_opcode(),
            opcode.code() == self@.opcode,
    {
        proof {
            OpCode::lemma_decode_code(self@.opcode);
        }
        OpCode::from_u64((self.0 & OPCODE_MASK) >> OPCODE_START).unwrap()
    }

    pub fn tag(&self) -> (tag: ValueTag)
        requires
            self.has_tag(),
        ensures
            tag == self.spec_tag(),
            tag.code() == self@.tag,
    {
        proof {
            ValueTag::lemma_decode_code(self@.tag);
        }
        ValueTag::from_u64(self.0 & TAG_MASK).unwrap()
    }

    pub fn new(ptr: u32, op_code: OpCode, tag: ValueTag) -> (word: Word)
        ensures
            word@ == (WordView { tag: tag.code(), opcode: op_code.code(), aux: 0, payload: ptr as u64 }),
            word.well_formed(),
            word.spec_tag() == tag,
            word.spec_opcode() == op_code,
    {
        let p: u64 = ptr as u64;
        let o: u64 = op_code.to_u8() as u64;
        let t: u64 = tag.to_u8() as u64;
        proof {
            lemma_pack_fields(t, o, 0, p);
            assert(((0u64 << 10) & 0xFFFF_FC00) == 0 && forall|x: u64| x | 0 == x) by (bit_vector);
            assert(pack(t, o, 0, p) == ((p << 32) & 0xFFFF_FFFF_0000_0000) | ((o << 4) & 0x3F0) | (t
                & 0xF)) by (bit_vector);
            op_code.lemma_code_decode();
            tag.lemma_code_decode();
        }
        Word(((p << PTR_START) & PTR_MASK) | ((o << OPCODE_START) & OPCODE_MASK) | (t & TAG_MASK))
    }

    pub fn is_tag_for_heap(&self) -> (heap: bool)
        ensures
            heap == self.spec_is_tag_for_heap(),
    {
        match ValueTag::from_u64(self.0 & TAG_MASK) {
            Some(tag) => tag.is_heap(),
            None => false,
        }
    }

    /// Whether the word is a pure value, which an operator may carry as its operand.
    pub fn is_embeddable(&self) -> (pure: bool)
        ensures
            pure == (self@.opcode == OpCode::Value.code()),
            pure ==> self.has_opcode() && self.spec_opcode() == OpCode::Value,
    {
        (self.0 & OPCODE_MASK) >> OPCODE_START == 0
    }

    /// The payload.
    pub fn value(&self) -> (value: u32)
        ensures
            value == self@.payload,
    {
        proof {
            lemma_fields_pack(self.0);
        }
        ((self.0 & PTR_MASK) >> PTR_START) as u32
    }

    pub fn update_stack_value(&mut self, value: u32, opcode: OpCode)
        ensures
            final(self)@ == (WordView {
                payload: value as u64,
                opcode: opcode.code(),
                ..old(self)@
            }),
            final(self).has_opcode(),
            final(self).spec_opcode() == opcode,
    {
        self.set_value(value);
        self.set_opcode(opcode);
    }

    pub fn replace_with_stack_value(&mut self, value: u32, opcode: OpCode, tag: ValueTag)
        ensures
            final(self)@ == (WordView {
                payload: value as u64,
                opcode: opcode.code(),
                tag: tag.code(),
                ..old(self)@
            }),
            final(self).well_formed(),
            final(self).spec_opcode() == opcode,
            final(self).spec_tag() == tag,
    {
        self.set_value(value);
        self.set_opcode(opcode);
        self.set_tag(tag);
    }

    pub fn set_tag(&mut self, new_tag: ValueTag)
        ensures
            final(self)@ == (WordView { tag: new_tag.code(), ..old(self)@ }),
            final(self).has_tag(),
            final(self).spec_tag() == new_tag,
    {
        let t: u64 = new_tag.to_u8() as u64;
        proof {
            lemma_replace_field(self.0, t);
            lemma_fits(t);
            new_tag.lemma_code_decode();
        }
        self.0 = (self.0 & !TAG_MASK) | (t & TAG_MASK);
    }

    pub fn set_opcode(&mut self, new_opcode: OpCode)
        ensures
            final(self)@ == (WordView { opcode: new_opcode.code(), ..old(self)@ }),
            final(self).has_opcode(),
            final(self).spec_opcode() == new_opcode,
    {
        let o: u64 = new_opcode.to_u8() as u64;
        proof {
            lemma_replace_field(self.0, o);
            lemma_fits(o);
            new_opcode.lemma_code_decode();
        }
        self.0 = (self.0 & !OPCODE_MASK) | ((o << OPCODE_START) & OPCODE_MASK);
    }

    /// Sets the auxiliary integer to the low 22 bits of `new_aux`.
    pub fn set_aux(&mut self, new_aux: u32)
        ensures
            final(self)@ == (WordView { aux: (new_aux & AUX_MAX) as u64, ..old(self)@ }),
            new_aux <= AUX_MAX ==> final(self)@.aux == new_aux,
    {
        let a: u64 = new_aux as u64;
        proof {
            lemma_replace_field(self.0, a);
            lemma_fits(a);
            assert((new_aux & 0x3F_FFFF) as u64 == (new_aux as u64) & 0x3F_FFFF) by (bit_vector);
        }
        self.0 = (self.0 & !AUX_MASK) | ((a << AUX_START) & AUX_MASK);
    }

    /// Sets the payload.
    pub fn set_value(&mut self, value: u32)
        ensures
            final(self)@ == (WordView { payload: value as u64, ..old(self)@ }),
    {
        let p: u64 = value as u64;
        proof {
            lemma_replace_field(self.0, p);
            lemma_fits(p);
        }
        self.0 = (self.0 & !PTR_MASK) | ((p << PTR_START) & PTR_MASK);
    }

    pub fn become_word(&mut self, new_word: Word)
        ensures
            *final(self) == new_word,
    {
        self.0 = new_word.0;
    }

    pub fn from_u64(raw: u64) -> (word: Word)
        ensures
            word.0 == raw,
    {
        Word(raw)
    }
}


impl WordView {
    /// The word with these fields.
    pub open spec fn word(self) -> Word {
        Word(pack(self.tag, self.opcode, self.aux, self.payload))
    }

    /// Each field fits its width.
    pub open spec fn fits(self) -> bool {
        &&& self.tag < 16
        &&& self.opcode < 64
        &&& self.aux < 0x40_0000
        &&& self.payload < 0x1_0000_0000
    }
}


} // verus!
