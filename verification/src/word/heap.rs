//! The heap: the values that do not fit in a word. A word with a heap tag holds the
//! address of its value, and an address is 32 bits wide, so the heap is a region of at
//! most 2^32 cells that hands out its addresses in rising order.

use vstd::prelude::*;
use crate::word::opcode::OpCode;
use crate::word::structure::{ValueTag, Word, WordView};
use crate::word::table::Table;

verus! {

/// The number of addresses that a word can tell apart.
pub const ADDRESS_SPACE: u64 = 0x1_0000_0000;

/// A float in the heap, as the 64 bits of its IEEE-754 double.
pub struct HeapFloat(pub u64);

/// A string in the heap.
pub struct HeapStr(pub String);

/// A table in the heap.
pub struct HeapTable(pub Table);

/// An optional value in the heap.
pub struct HeapOption(pub Option<Word>);

/// What a cell of the heap holds.
pub enum HeapObject {
    Float(HeapFloat),
    Str(HeapStr),
    Table(HeapTable),
    Option(HeapOption),
    /// Nothing: the value that was here has been destroyed.
    Free,
}

/// What a cell of the heap holds, as a mathematical value.
pub enum Cell {
    Float(u64),
    Str(Seq<char>),
    Table(Seq<(Word, Word)>),
    Option(Option<Word>),
    Free,
}

impl View for HeapObject {
    type V = Cell;

    open spec fn view(&self) -> Cell {
        match *self {
            HeapObject::Float(HeapFloat(bits)) => Cell::Float(bits),
            HeapObject::Str(HeapStr(text)) => Cell::Str(text@),
            HeapObject::Table(HeapTable(table)) => Cell::Table(table@),
            HeapObject::Option(HeapOption(inner)) => Cell::Option(inner),
            HeapObject::Free => Cell::Free,
        }
    }
}

impl HeapObject {
    /// The tag of the words that refer to a value of this kind.
    pub fn tag(&self) -> (tag: Option<ValueTag>)
        ensures
            tag == spec_cell_tag(self@),
    {
        match self {
            HeapObject::Float(_) => Some(ValueTag::FloatPtr),
            HeapObject::Str(_) => Some(ValueTag::StrPtr),
            HeapObject::Table(_) => Some(ValueTag::TablePtr),
            HeapObject::Option(_) => Some(ValueTag::OptionPtr),
            HeapObject::Free => None,
        }
    }
}

/// The tag of the words that refer to a cell of this kind.
pub open spec fn spec_cell_tag(cell: Cell) -> Option<ValueTag> {
    match cell {
        Cell::Float(_) => Some(ValueTag::FloatPtr),
        Cell::Str(_) => Some(ValueTag::StrPtr),
        Cell::Table(_) => Some(ValueTag::TablePtr),
        Cell::Option(_) => Some(ValueTag::OptionPtr),
        Cell::Free => None,
    }
}

/// The cell that a word's payload addresses; `Free` where the heap has no such cell.
pub open spec fn cell_at(heap: Seq<Cell>, word: Word) -> Cell {
    if word@.payload < heap.len() {
        heap[word@.payload as int]
    } else {
        Cell::Free
    }
}

/// The float that a word refers to, if it is tagged as a float and the heap holds one
/// at its address.
pub open spec fn float_in(heap: Seq<Cell>, word: Word) -> Option<u64> {
    match cell_at(heap, word) {
        Cell::Float(bits) if word@.tag == ValueTag::FloatPtr.code() => Some(bits),
        _ => None,
    }
}

/// The string that a word refers to.
pub open spec fn str_in(heap: Seq<Cell>, word: Word) -> Option<Seq<char>> {
    match cell_at(heap, word) {
        Cell::Str(text) if word@.tag == ValueTag::StrPtr.code() => Some(text),
        _ => None,
    }
}

/// The table that a word refers to.
pub open spec fn table_in(heap: Seq<Cell>, word: Word) -> Option<Seq<(Word, Word)>> {
    match cell_at(heap, word) {
        Cell::Table(pairs) if word@.tag == ValueTag::TablePtr.code() => Some(pairs),
        _ => None,
    }
}

/// The optional value that a word refers to.
pub open spec fn option_in(heap: Seq<Cell>, word: Word) -> Option<Option<Word>> {
    match cell_at(heap, word) {
        Cell::Option(inner) if word@.tag == ValueTag::OptionPtr.code() => Some(inner),
        _ => None,
    }
}

/// The word that refers to the cell at `address`: a pure reference has the opcode
/// `Value`, but a reference may carry any opcode.
pub open spec fn reference(address: int, opcode: OpCode, tag: ValueTag) -> WordView {
    WordView { tag: tag.code(), opcode: opcode.code(), aux: 0, payload: address as u64 }
}

pub struct Heap {
    objects: Vec<HeapObject>,
}

impl View for Heap {
    type V = Seq<Cell>;

    closed spec fn view(&self) -> Seq<Cell> {
        Seq::new(self.objects@.len(), |i: int| self.objects@[i]@)
    }
}

impl Heap {
    /// Whether the heap has an address left to give.
    pub open spec fn spec_has_room(&self) -> bool {
        self@.len() < ADDRESS_SPACE
    }

    pub fn new() -> (heap: Heap)
        ensures
            heap@ == Seq::<Cell>::empty(),
    {
        let heap = Heap { objects: Vec::new() };
        proof {
            assert(heap@ =~= Seq::<Cell>::empty());
        }
        heap
    }

    /// The number of cells.
    pub fn len(&self) -> (n: usize)
        ensures
            n == self@.len(),
    {
        self.objects.len()
    }

    pub fn has_room(&self) -> (room: bool)
        ensures
            room == self.spec_has_room(),
    {
        (self.objects.len() as u64) < ADDRESS_SPACE
    }

    /// Puts `object` in a new cell and returns the cell's address.
    pub fn allocate(&mut self, object: HeapObject) -> (address: u32)
        requires
            old(self).spec_has_room(),
        ensures
            address == old(self)@.len(),
            final(self)@ == old(self)@.push(object@),
    {
        let address = self.objects.len() as u32;
        self.objects.push(object);
        proof {
            assert(self@ =~= old(self)@.push(object@));
        }
        address
    }

    /// The object in the cell at `address`.
    pub fn get(&self, address: u32) -> (object: Option<&HeapObject>)
        ensures
            address < self@.len() ==> object is Some && object.unwrap()@ == self@[address as int],
            address >= self@.len() ==> object is None,
    {
        if (address as usize) < self.objects.len() {
            Some(&self.objects[address as usize])
        } else {
            None
        }
    }

    /// Puts `object` in the cell at `address`, in place of what was there.
    pub fn replace(&mut self, address: u32, object: HeapObject)
        requires
            address < old(self)@.len(),
        ensures
            final(self)@ == old(self)@.update(address as int, object@),
    {
        self.objects.set(address as usize, object);
        proof {
            assert(self@ =~= old(self)@.update(address as int, object@));
        }
    }

    pub fn float_of(&self, word: Word) -> (bits: Option<u64>)
        ensures
            bits == float_in(self@, word),
    {
        if word.0 & 0xF != 4 {
            return None;
        }
        match self.get(word.value()) {
            Some(HeapObject::Float(HeapFloat(bits))) => Some(*bits),
            _ => None,
        }
    }

    pub fn str_of(&self, word: Word) -> (text: Option<&str>)
        ensures
            match str_in(self@, word) {
                Some(chars) => text is Some && text.unwrap()@ == chars,
                None => text is None,
            },
    {
        if word.0 & 0xF != 5 {
            return None;
        }
        match self.get(word.value()) {
            Some(HeapObject::Str(HeapStr(text))) => Some(text.as_str()),
            _ => None,
        }
    }

    pub fn table_of(&self, word: Word) -> (table: Option<&Table>)
        ensures
            match table_in(self@, word) {
                Some(pairs) => table is Some && table.unwrap()@ == pairs,
                None => table is None,
            },
    {
        if word.0 & 0xF != 6 {
            return None;
        }
        match self.get(word.value()) {
            Some(HeapObject::Table(HeapTable(table))) => Some(table),
            _ => None,
        }
    }

    pub fn option_of(&self, word: Word) -> (inner: Option<Option<Word>>)
        ensures
            inner == option_in(self@, word),
    {
        if word.0 & 0xF != 7 {
            return None;
        }
        match self.get(word.value()) {
            Some(HeapObject::Option(HeapOption(inner))) => Some(*inner),
            _ => None,
        }
    }

    /// The string that `word` refers to, to be changed in place.
    pub fn str_mut(&mut self, word: Word) -> (text: &mut String)
        requires
            str_in(old(self)@, word) is Some,
        ensures
            Some(text@) == str_in(old(self)@, word),
            final(self)@ == old(self)@.update(word@.payload as int, Cell::Str(final(text)@)),
    {
        let index = word.value() as usize;
        match &mut self.objects[index] {
            HeapObject::Str(HeapStr(text)) => text,
            _ => vstd::pervasive::unreached(),
        }
    }

    /// The table that `word` refers to, to be changed in place.
    pub fn table_mut(&mut self, word: Word) -> (table: &mut Table)
        requires
            table_in(old(self)@, word) is Some,
        ensures
            Some(table@) == table_in(old(self)@, word),
            final(self)@ == old(self)@.update(word@.payload as int, Cell::Table(final(table)@)),
    {
        let index = word.value() as usize;
        match &mut self.objects[index] {
            HeapObject::Table(HeapTable(table)) => table,
            _ => vstd::pervasive::unreached(),
        }
    }

    /// The optional value that `word` refers to, to be changed in place.
    pub fn option_mut(&mut self, word: Word) -> (inner: &mut Option<Word>)
        requires
            option_in(old(self)@, word) is Some,
        ensures
            Some(*inner) == option_in(old(self)@, word),
            final(self)@ == old(self)@.update(word@.payload as int, Cell::Option(*final(inner))),
    {
        let index = word.value() as usize;
        match &mut self.objects[index] {
            HeapObject::Option(HeapOption(inner)) => inner,
            _ => vstd::pervasive::unreached(),
        }
    }

    /// Puts `object` in a new cell and returns the word that refers to it.
    pub fn write(&mut self, object: HeapObject, opcode: OpCode) -> (word: Word)
        requires
            old(self).spec_has_room(),
            spec_cell_tag(object@) is Some,
        ensures
            final(self)@ == old(self)@.push(object@),
            word@ == reference(old(self)@.len() as int, opcode, spec_cell_tag(object@).unwrap()),
            word.well_formed(),
            word.spec_opcode() == opcode,
            word.spec_tag() == spec_cell_tag(object@).unwrap(),
    {
        let tag = object.tag().unwrap();
        let address = self.allocate(object);
        Word::new(address, opcode, tag)
    }

    /// Empties the cell that `word` refers to, if there is one.
    pub fn destroy(&mut self, word: Word)
        ensures
            final(self)@ == if word@.payload < old(self)@.len() {
                old(self)@.update(word@.payload as int, Cell::Free)
            } else {
                old(self)@
            },
    {
        let address = word.value();
        if (address as usize) < self.objects.len() {
            self.replace(address, HeapObject::Free);
        }
    }
}

/// A kind of value that lives in the heap.
pub trait HeapValue: Sized {
    /// What a cell of this kind holds.
    type Inner;

    /// The tag of the words that refer to values of this kind.
    spec fn spec_tag() -> ValueTag;

    /// The cell that holds `inner`.
    spec fn cell(inner: Self::Inner) -> Cell;

    /// Whether a cell is of this kind.
    spec fn holds(cell: Cell) -> bool;

    /// The value that `w` refers to, where `w` is tagged for this kind and the heap
    /// holds a value of this kind at its address.
    fn read<'a>(heap: &'a Heap, w: &Word) -> (inner: Option<&'a Self::Inner>)
        ensures
            inner is Some <==> w@.tag == Self::spec_tag().code() && Self::holds(
                cell_at(heap@, *w),
            ),
            inner matches Some(value) ==> cell_at(heap@, *w) == Self::cell(*value);

    /// Puts `value` in a new cell and returns the word that refers to it.
    fn write(value: Self::Inner, opcode: OpCode, heap: &mut Heap) -> (word: Word)
        requires
            old(heap).spec_has_room(),
        ensures
            final(heap)@ == old(heap)@.push(Self::cell(value)),
            word@ == reference(old(heap)@.len() as int, opcode, Self::spec_tag());

    /// Empties the cell that `w` refers to, if there is one.
    fn destroy(w: Word, heap: &mut Heap)
        ensures
            final(heap)@ == if w@.payload < old(heap)@.len() {
                old(heap)@.update(w@.payload as int, Cell::Free)
            } else {
                old(heap)@
            };
}

impl HeapValue for HeapFloat {
    type Inner = u64;

    open spec fn spec_tag() -> ValueTag {
        ValueTag::FloatPtr
    }

    open spec fn cell(inner: u64) -> Cell {
        Cell::Float(inner)
    }

    open spec fn holds(cell: Cell) -> bool {
        cell is Float
    }

    fn read<'a>(heap: &'a Heap, w: &Word) -> (inner: Option<&'a u64>) {
        if w.0 & 0xF != 4 {
            return None;
        }
        match heap.get(w.value()) {
            Some(HeapObject::Float(HeapFloat(bits))) => Some(bits),
            _ => None,
        }
    }

    fn write(value: u64, opcode: OpCode, heap: &mut Heap) -> (word: Word) {
        heap.write(HeapObject::Float(HeapFloat(value)), opcode)
    }

    fn destroy(w: Word, heap: &mut Heap) {
        heap.destroy(w)
    }
}

impl HeapValue for HeapStr {
    type Inner = String;

    open spec fn spec_tag() -> ValueTag {
        ValueTag::StrPtr
    }

    open spec fn cell(inner: String) -> Cell {
        Cell::Str(inner@)
    }

    open spec fn holds(cell: Cell) -> bool {
        cell is Str
    }

    fn read<'a>(heap: &'a Heap, w: &Word) -> (inner: Option<&'a String>) {
        if w.0 & 0xF != 5 {
            return None;
        }
        match heap.get(w.value()) {
            Some(HeapObject::Str(HeapStr(text))) => Some(text),
            _ => None,
        }
    }

    fn write(value: String, opcode: OpCode, heap: &mut Heap) -> (word: Word) {
        heap.write(HeapObject::Str(HeapStr(value)), opcode)
    }

    fn destroy(w: Word, heap: &mut Heap) {
        heap.destroy(w)
    }
}

impl HeapValue for HeapTable {
    type Inner = Table;

    open spec fn spec_tag() -> ValueTag {
        ValueTag::TablePtr
    }

    open spec fn cell(inner: Table) -> Cell {
        Cell::Table(inner@)
    }

    open spec fn holds(cell: Cell) -> bool {
        cell is Table
    }

    fn read<'a>(heap: &'a Heap, w: &Word) -> (inner: Option<&'a Table>) {
        if w.0 & 0xF != 6 {
            return None;
        }
        match heap.get(w.value()) {
            Some(HeapObject::Table(HeapTable(table))) => Some(table),
            _ => None,
        }
    }

    fn write(value: Table, opcode: OpCode, heap: &mut Heap) -> (word: Word) {
        heap.write(HeapObject::Table(HeapTable(value)), opcode)
    }

    fn destroy(w: Word, heap: &mut Heap) {
        heap.destroy(w)
    }
}

impl HeapValue for HeapOption {
    type Inner = Option<Word>;

    open spec fn spec_tag() -> ValueTag {
        ValueTag::OptionPtr
    }

    open spec fn cell(inner: Option<Word>) -> Cell {
        Cell::Option(inner)
    }

    open spec fn holds(cell: Cell) -> bool {
        cell is Option
    }

    fn read<'a>(heap: &'a Heap, w: &Word) -> (inner: Option<&'a Option<Word>>) {
        if w.0 & 0xF != 7 {
            return None;
        }
        match heap.get(w.value()) {
            Some(HeapObject::Option(HeapOption(inner))) => Some(inner),
            _ => None,
        }
    }

    fn write(value: Option<Word>, opcode: OpCode, heap: &mut Heap) -> (word: Word) {
        heap.write(HeapObject::Option(HeapOption(value)), opcode)
    }

    fn destroy(w: Word, heap: &mut Heap) {
        heap.destroy(w)
    }
}

/// The raw words of the pairs of a table, key before value, pair after pair.
pub open spec fn flattened(pairs: Seq<(Word, Word)>) -> Seq<u64> {
    Seq::new(
        2 * pairs.len(),
        |i: int|
            if i % 2 == 0 {
                pairs[i / 2].0.0
            } else {
                pairs[i / 2].1.0
            },
    )
}

/// The pairs that a run of bytes encodes: sixteen bytes a pair, the key's raw word before
/// the value's, each little-endian.
pub open spec fn decoded_pairs(bytes: Seq<u8>) -> Seq<(Word, Word)> {
    Seq::new(
        (bytes.len() / 16) as nat,
        |i: int|
            (
                Word(vstd::bytes::spec_u64_from_le_bytes(bytes.subrange(16 * i, 16 * i + 8))),
                Word(vstd::bytes::spec_u64_from_le_bytes(bytes.subrange(16 * i + 8, 16 * i + 16))),
            ),
    )
}

pub fn encode_table(table: &Table) -> (encoded: Vec<u64>)
    ensures
        encoded@ == flattened(table@),
{
    let mut encoded: Vec<u64> = Vec::new();
    let pairs = table.pairs();
    let n = pairs.len();
    let mut i: usize = 0;
    while i < n
        invariant
            n == table@.len(),
            pairs@ == table@,
            i <= n,
            encoded@ == flattened(table@.take(i as int)),
        decreases n - i,
    {
        let (key, value) = pairs[i];
        encoded.push(key.0);
        encoded.push(value.0);
        proof {
            assert(encoded@ =~= flattened(table@.take(i + 1)));
        }
        i += 1;
    }
    proof {
        assert(table@.take(n as int) =~= table@);
    }
    encoded
}

/// The table that holds the pairs encoded in `encoded`; where a key comes twice, its
/// last value stays.
pub fn decode_table(encoded: Vec<u8>) -> (table: Table)
    requires
        encoded@.len() % 16 == 0,
    ensures
        table@ == crate::word::table::collected(decoded_pairs(encoded@)),
{
    let mut table = Table::new();
    let bytes = encoded.as_slice();
    let n = bytes.len();
    let mut i: usize = 0;
    while i < n
        invariant
            n == encoded@.len(),
            bytes@ == encoded@,
            n % 16 == 0,
            i % 16 == 0,
            i <= n,
            table@ == crate::word::table::collected(decoded_pairs(encoded@).take(i as int / 16)),
        decreases n - i,
    {
        let key = Word::from_u64(vstd::bytes::u64_from_le_bytes(vstd::slice::slice_subrange(bytes, i, i + 8)));
        let value = Word::from_u64(
            vstd::bytes::u64_from_le_bytes(vstd::slice::slice_subrange(bytes, i + 8, i + 16)),
        );
        proof {
            let pairs = decoded_pairs(encoded@);
            let k = i as int / 16;
            assert(pairs.take(k + 1).drop_last() =~= pairs.take(k));
            assert(pairs.take(k + 1).last() == pairs[k]);
            assert(key == pairs[k].0 && value == pairs[k].1);
        }
        table.insert(key, value);
        i += 16;
    }
    proof {
        let pairs = decoded_pairs(encoded@);
        assert(pairs.take(n as int / 16) =~= pairs);
    }
    table
}

} // verus!
