//! Building words from immediate values, and reading the values back.

use vstd::prelude::*;
use crate::vm::garbage_collector::GarbageCollector;
use crate::word::heap::{
    float_in, option_in, reference, str_in, table_in, Cell, Heap, HeapFloat, HeapObject,
    HeapOption, HeapStr, HeapTable,
};
use crate::word::opcode::OpCode;
use crate::word::structure::{ValueTag, Word, WordView};
use crate::word::table::Table;

verus! {

/// The 32 bits that stand for a signed integer, in two's complement.
pub open spec fn int_bits(value: i32) -> u32 {
    if value >= 0 {
        value as u32
    } else {
        (value + 0x1_0000_0000) as u32
    }
}

/// The signed integer that 32 bits stand for, in two's complement.
pub open spec fn bits_int(bits: u32) -> i32 {
    if bits < 0x8000_0000 {
        bits as i32
    } else {
        (bits - 0x1_0000_0000) as i32
    }
}

/// Reading the bits of an integer gives the integer back, and the other way round.
pub proof fn lemma_int_bits_round_trip(value: i32, bits: u32)
    ensures
        bits_int(int_bits(value)) == value,
        int_bits(bits_int(bits)) == bits,
{
}

pub fn i32_to_bits(value: i32) -> (bits: u32)
    ensures
        bits == int_bits(value),
{
    if value >= 0 {
        value as u32
    } else {
        ((value as i64) + 0x1_0000_0000) as u32
    }
}

pub fn i32_from_bits(bits: u32) -> (value: i32)
    ensures
        value == bits_int(bits),
{
    if bits < 0x8000_0000 {
        bits as i32
    } else {
        ((bits as i64) - 0x1_0000_0000) as i32
    }
}

/// The payload that stands for a character: the low eight bits of its scalar value.
pub open spec fn char_bits(value: char) -> u32 {
    ((value as u32) % 256) as u32
}

impl Word {
    /// The payload of the sentinel that stands for "no value" where an option is built.
    pub const NO_OPTION_PAYLOAD: u32 = 1;

    /// The payload of the sentinel that stands for the default arm of a table.
    pub const DEFAULT_ARM_PAYLOAD: u32 = 0;

    pub fn bool(value: bool, opcode: OpCode) -> (word: Word)
        ensures
            word@ == (WordView {
                tag: ValueTag::Bool.code(),
                opcode: opcode.code(),
                aux: 0,
                payload: if value { 1 } else { 0 },
            }),
            word.well_formed(),
            word.spec_tag() == ValueTag::Bool,
            word.spec_opcode() == opcode,
    {
        Word::new(if value { 1 } else { 0 }, opcode, ValueTag::Bool)
    }

    pub fn integer(value: i32, opcode: OpCode) -> (word: Word)
        ensures
            word@ == (WordView {
                tag: ValueTag::Int.code(),
                opcode: opcode.code(),
                aux: 0,
                payload: int_bits(value) as u64,
            }),
            word.well_formed(),
            word.spec_tag() == ValueTag::Int,
            word.spec_opcode() == opcode,
    {
        Word::new(i32_to_bits(value), opcode, ValueTag::Int)
    }

    pub fn char(value: char, opcode: OpCode) -> (word: Word)
        ensures
            word@ == (WordView {
                tag: ValueTag::Char.code(),
                opcode: opcode.code(),
                aux: 0,
                payload: char_bits(value) as u64,
            }),
            word.well_formed(),
            word.spec_tag() == ValueTag::Char,
            word.spec_opcode() == opcode,
    {
        Word::new((value as u32) % 256, opcode, ValueTag::Char)
    }

    /// The word that stands for the float at index `pointer_to_float_map` of the constant
    /// pool, until the virtual machine puts the float in the heap.
    pub fn raw_float(pointer_to_float_map: u32) -> (word: Word)
        ensures
            word@ == (WordView {
                tag: ValueTag::FloatPtr.code(),
                opcode: OpCode::ReadFromMap.code(),
                aux: 0,
                payload: pointer_to_float_map as u64,
            }),
            word.well_formed(),
            word.spec_tag() == ValueTag::FloatPtr,
            word.spec_opcode() == OpCode::ReadFromMap,
    {
        Word::new(pointer_to_float_map, OpCode::ReadFromMap, ValueTag::FloatPtr)
    }

    /// The sentinel that an option is built from when there is nothing to wrap.
    pub fn no_option() -> (word: Word)
        ensures
            word@ == (WordView {
                tag: ValueTag::Special.code(),
                opcode: OpCode::Value.code(),
                aux: 0,
                payload: Word::NO_OPTION_PAYLOAD as u64,
            }),
            word.well_formed(),
            word.spec_tag() == ValueTag::Special,
            word.spec_opcode() == OpCode::Value,
    {
        Word::new(Word::NO_OPTION_PAYLOAD, OpCode::Value, ValueTag::Special)
    }

    /// The sentinel key of a table's default arm. No literal of a program has its tag.
    pub fn default_table_arm() -> (word: Word)
        ensures
            word@ == (WordView {
                tag: ValueTag::Special.code(),
                opcode: OpCode::Value.code(),
                aux: 0,
                payload: Word::DEFAULT_ARM_PAYLOAD as u64,
            }),
            word.well_formed(),
            word.spec_tag() == ValueTag::Special,
            word.spec_opcode() == OpCode::Value,
    {
        Word::new(Word::DEFAULT_ARM_PAYLOAD, OpCode::Value, ValueTag::Special)
    }

    pub open spec fn spec_to_bool(self) -> bool {
        self@.payload == 1
    }

    pub open spec fn spec_to_int(self) -> i32 {
        bits_int(self@.payload as u32)
    }

    pub fn to_bool(self) -> (value: bool)
        ensures
            value == self.spec_to_bool(),
    {
        self.value() == 1
    }

    pub fn to_int(self) -> (value: i32)
        ensures
            value == self.spec_to_int(),
    {
        i32_from_bits(self.value())
    }

    /// The character whose scalar value is the low eight bits of the payload.
    pub fn to_char(self) -> (value: char)
        ensures
            value as u32 == self@.payload % 256,
    {
        let low: u8 = (self.value() % 256) as u8;
        low as char
    }
}

// Values in the heap. A constructor puts the value in a new cell, registers the word that
// refers to it with the collector, and returns that word.
impl Word {
    /// A float, given as the bits of its IEEE-754 double.
    pub fn float(bits: u64, opcode: OpCode, heap: &mut Heap, gc: &mut GarbageCollector) -> (word:
        Word)
        requires
            old(heap).spec_has_room(),
            old(gc).has_room(),
        ensures
            final(heap)@ == old(heap)@.push(Cell::Float(bits)),
            word@ == reference(old(heap)@.len() as int, opcode, ValueTag::FloatPtr),
            word.well_formed(),
            word.spec_opcode() == opcode,
            word.spec_tag() == ValueTag::FloatPtr,
            final(gc).traced() == old(gc).traced().push(word),
            final(gc).marks() == old(gc).marks(),
    {
        let word = heap.write(HeapObject::Float(HeapFloat(bits)), opcode);
        gc.trace(word);
        word
    }

    pub fn str(value: &str, opcode: OpCode, heap: &mut Heap, gc: &mut GarbageCollector) -> (word:
        Word)
        requires
            old(heap).spec_has_room(),
            old(gc).has_room(),
        ensures
            final(heap)@ == old(heap)@.push(Cell::Str(value@)),
            word@ == reference(old(heap)@.len() as int, opcode, ValueTag::StrPtr),
            word.well_formed(),
            word.spec_opcode() == opcode,
            word.spec_tag() == ValueTag::StrPtr,
            final(gc).traced() == old(gc).traced().push(word),
            final(gc).marks() == old(gc).marks(),
    {
        let word = heap.write(HeapObject::Str(HeapStr(value.to_owned())), opcode);
        gc.trace(word);
        word
    }

    pub fn table(value: Table, opcode: OpCode, heap: &mut Heap, gc: &mut GarbageCollector) -> (word:
        Word)
        requires
            old(heap).spec_has_room(),
            old(gc).has_room(),
        ensures
            final(heap)@ == old(heap)@.push(Cell::Table(value@)),
            word@ == reference(old(heap)@.len() as int, opcode, ValueTag::TablePtr),
            word.well_formed(),
            word.spec_opcode() == opcode,
            word.spec_tag() == ValueTag::TablePtr,
            final(gc).traced() == old(gc).traced().push(word),
            final(gc).marks() == old(gc).marks(),
    {
        let word = heap.write(HeapObject::Table(HeapTable(value)), opcode);
        gc.trace(word);
        word
    }

    pub fn option(
        value: Option<Word>,
        opcode: OpCode,
        heap: &mut Heap,
        gc: &mut GarbageCollector,
    ) -> (word: Word)
        requires
            old(heap).spec_has_room(),
            old(gc).has_room(),
        ensures
            final(heap)@ == old(heap)@.push(Cell::Option(value)),
            word@ == reference(old(heap)@.len() as int, opcode, ValueTag::OptionPtr),
            word.well_formed(),
            word.spec_opcode() == opcode,
            word.spec_tag() == ValueTag::OptionPtr,
            final(gc).traced() == old(gc).traced().push(word),
            final(gc).marks() == old(gc).marks(),
    {
        let word = heap.write(HeapObject::Option(HeapOption(value)), opcode);
        gc.trace(word);
        word
    }

    /// The bits of the float that the word refers to.
    pub fn to_float(self, heap: &Heap) -> (bits: u64)
        requires
            float_in(heap@, self) is Some,
        ensures
            Some(bits) == float_in(heap@, self),
    {
        heap.float_of(self).unwrap()
    }

    pub fn as_str<'a>(&self, heap: &'a Heap) -> (text: &'a str)
        requires
            str_in(heap@, *self) is Some,
        ensures
            Some(text@) == str_in(heap@, *self),
    {
        heap.str_of(*self).unwrap()
    }

    pub fn as_table<'a>(&self, heap: &'a Heap) -> (table: &'a Table)
        requires
            table_in(heap@, *self) is Some,
        ensures
            Some(table@) == table_in(heap@, *self),
    {
        heap.table_of(*self).unwrap()
    }

    pub fn as_option(&self, heap: &Heap) -> (inner: Option<Word>)
        requires
            option_in(heap@, *self) is Some,
        ensures
            Some(inner) == option_in(heap@, *self),
    {
        heap.option_of(*self).unwrap()
    }

    pub fn as_str_mut<'a>(&self, heap: &'a mut Heap) -> (text: &'a mut String)
        requires
            str_in(old(heap)@, *self) is Some,
        ensures
            Some(text@) == str_in(old(heap)@, *self),
            final(heap)@ == old(heap)@.update(self@.payload as int, Cell::Str(final(text)@)),
    {
        heap.str_mut(*self)
    }

    pub fn as_table_mut<'a>(&self, heap: &'a mut Heap) -> (table: &'a mut Table)
        requires
            table_in(old(heap)@, *self) is Some,
        ensures
            Some(table@) == table_in(old(heap)@, *self),
            final(heap)@ == old(heap)@.update(self@.payload as int, Cell::Table(final(table)@)),
    {
        heap.table_mut(*self)
    }

    pub fn as_option_mut<'a>(&self, heap: &'a mut Heap) -> (inner: &'a mut Option<Word>)
        requires
            option_in(old(heap)@, *self) is Some,
        ensures
            Some(*inner) == option_in(old(heap)@, *self),
            final(heap)@ == old(heap)@.update(self@.payload as int, Cell::Option(*final(inner))),
    {
        heap.option_mut(*self)
    }

    /// Puts `value` in the cell that the word refers to, and gives the word `opcode`.
    pub fn update_heap_value(&mut self, heap: &mut Heap, value: HeapObject, opcode: OpCode)
        requires
            old(self)@.payload < old(heap)@.len(),
        ensures
            final(heap)@ == old(heap)@.update(old(self)@.payload as int, value@),
            final(self)@ == (WordView { opcode: opcode.code(), ..old(self)@ }),
            final(self).has_opcode(),
            final(self).spec_opcode() == opcode,
    {
        heap.replace(self.value(), value);
        self.set_opcode(opcode);
    }

    /// Destroys the float, string or table that the word refers to. Other words own
    /// nothing and are left alone.
    pub fn free(self, heap: &mut Heap)
        ensures
            final(heap)@ == if (self@.tag == ValueTag::FloatPtr.code() || self@.tag
                == ValueTag::StrPtr.code() || self@.tag == ValueTag::TablePtr.code())
                && self@.payload < old(heap)@.len() {
                old(heap)@.update(self@.payload as int, Cell::Free)
            } else {
                old(heap)@
            },
    {
        let tag = self.0 & 0xF;
        if tag == 4 || tag == 5 || tag == 6 {
            heap.destroy(self);
        }
    }
}

} // verus!
