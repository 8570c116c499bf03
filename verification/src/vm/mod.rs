//! The virtual machine: a stack interpreter for a sequence of words.
//!
//! The machine never computes with floats and never writes output. It runs until it has
//! something to hand over: the end of the program, a float operation for its host to
//! compute, or a value for its host to print. The host does its part and lets the machine
//! run on.

pub mod garbage_collector;
pub mod input;
pub mod instruction;
pub mod machine;
pub mod tagged_value;
pub mod word;

use vstd::prelude::*;
use crate::errors::err::{LanguloErr, VmError};
use crate::vm::garbage_collector::GarbageCollector;
use crate::vm::machine::{default_arm, fresh, operand, popped_pairs, truth, Event, Machine};
use crate::word::heap::{reference, Cell, Heap, HeapObject, HeapOption, HeapTable};
use crate::word::opcode::OpCode;
use crate::word::operations::{binary_of, wrapped, Binary, Outcome};
use crate::word::structure::{ValueTag, Word, WordView};
use crate::word::table::{collected, Table};

verus! {

pub struct VM {
    bytecode: Vec<Word>,
    vars: Vec<Word>,
    stack: Vec<Word>,
    gc: GarbageCollector,
    heap: Heap,
    ip: usize,
    heap_floats: Vec<Option<u64>>,
    // wrapped in an option so that a string can leave the pool
    heap_strings: Vec<Option<String>>,
    pending: bool,
}

/// The characters of a pooled string, if it is still in the pool.
pub open spec fn pooled(entry: Option<String>) -> Option<Seq<char>> {
    match entry {
        Some(text) => Some(text@),
        None => None,
    }
}

impl View for VM {
    type V = Machine;

    closed spec fn view(&self) -> Machine {
        Machine {
            code: self.bytecode@,
            ip: self.ip as int,
            stack: self.stack@,
            locals: self.vars@,
            heap: self.heap@,
            traced: self.gc.traced(),
            floats: self.heap_floats@,
            strings: Seq::new(self.heap_strings@.len(), |i: int| pooled(self.heap_strings@[i])),
            pending: self.pending,
        }
    }
}

impl VM {
    /// What holds of every machine: the instruction pointer has not left the code, and
    /// the collector can take another word.
    pub closed spec fn wf(&self) -> bool {
        &&& self.ip <= self.bytecode@.len()
        &&& self.gc.has_room()
    }

    /// A machine at its first instruction, with nothing on its stack or in its heap.
    pub(crate) fn assemble(
        bytecode: Vec<Word>,
        heap_floats: Vec<Option<u64>>,
        heap_strings: Vec<Option<String>>,
    ) -> (vm: VM)
        ensures
            vm.wf(),
            vm@ == crate::vm::input::initial(
                bytecode@,
                heap_floats@,
                Seq::new(heap_strings@.len(), |i: int| pooled(heap_strings@[i])),
            ),
    {
        VM {
            bytecode,
            vars: Vec::new(),
            stack: Vec::new(),
            gc: GarbageCollector::new(),
            heap: Heap::new(),
            ip: 0,
            heap_floats,
            heap_strings,
            pending: false,
        }
    }

    /// A machine at the first instruction of `bytecode`, whose words may refer to the
    /// values that are in `heap` already.
    pub fn with_heap(bytecode: Vec<Word>, heap: Heap, gc: GarbageCollector) -> (vm: VM)
        requires
            gc.has_room(),
        ensures
            vm.wf(),
            vm@ == (Machine {
                heap: heap@,
                traced: gc.traced(),
                ..crate::vm::input::initial(bytecode@, Seq::empty(), Seq::empty())
            }),
    {
        let vm = VM {
            bytecode,
            vars: Vec::new(),
            stack: Vec::new(),
            gc,
            heap,
            ip: 0,
            heap_floats: Vec::new(),
            heap_strings: Vec::new(),
            pending: false,
        };
        proof {
            assert(vm@.strings =~= Seq::empty());
        }
        vm
    }

    /// The values in the heap.
    pub fn heap(&self) -> (heap: &Heap)
        ensures
            heap@ == self@.heap,
    {
        &self.heap
    }

    /// Takes the stack down to its lowest `base` words, puts `word` on top and moves on
    /// to the next instruction.
    fn settle(&mut self, base: usize, word: Word)
        requires
            old(self).wf(),
            base <= old(self)@.stack.len(),
            old(self)@.ip < old(self)@.code.len(),
        ensures
            final(self).wf(),
            final(self)@ == old(self)@.next(old(self)@.stack.take(base as int).push(word)),
    {
        let size = self.bytecode.len();
        self.stack.truncate(base);
        self.stack.push(word);
        self.ip = self.ip + 1;
        proof {
            assert(self@.stack =~= old(self)@.stack.take(base as int).push(word));
            assert(self@.strings =~= old(self)@.strings);
        }
    }

    /// Puts `object` in the heap and the word that refers to it on top of the lowest
    /// `base` words of the stack.
    fn allocate_on(&mut self, base: usize, object: HeapObject) -> (result: Result<
        Event,
        LanguloErr,
    >)
        requires
            old(self).wf(),
            base <= old(self)@.stack.len(),
            old(self)@.ip < old(self)@.code.len(),
            crate::word::heap::spec_cell_tag(object@) is Some,
        ensures
            final(self).wf(),
            match old(self)@.allocated(
                old(self)@.stack.take(base as int),
                object@,
                crate::word::heap::spec_cell_tag(object@).unwrap(),
            ) {
                Ok((machine, event)) => result == Ok::<Event, LanguloErr>(event) && final(self)@
                    == machine,
                Err(e) => result == Err::<Event, LanguloErr>(LanguloErr::Vm(e)) && final(self)@
                    == old(self)@,
            },
    {
        if !self.heap.has_room() {
            return Err(LanguloErr::Vm(VmError::OutOfMemory));
        }
        let word = self.heap.write(object, OpCode::Value);
        self.gc.trace(word);
        proof {
            word.lemma_word_of_view(
                reference(
                    old(self)@.heap.len() as int,
                    OpCode::Value,
                    crate::word::heap::spec_cell_tag(object@).unwrap(),
                ),
            );
        }
        self.settle(base, word);
        Ok(Event::Continue)
    }

    /// A two-operand operator on `lhs` and `rhs`, above the lowest `base` words of the
    /// stack.
    fn binary_on(&mut self, binary: Binary, base: usize, lhs: Word, rhs: Word) -> (result: Result<
        Event,
        LanguloErr,
    >)
        requires
            old(self).wf(),
            base <= old(self)@.stack.len(),
            old(self)@.ip < old(self)@.code.len(),
        ensures
            final(self).wf(),
            match old(self)@.binary(binary, old(self)@.stack.take(base as int), lhs, rhs) {
                Ok((machine, event)) => result == Ok::<Event, LanguloErr>(event) && final(self)@
                    == machine,
                Err(e) => result == Err::<Event, LanguloErr>(LanguloErr::Vm(e)) && final(self)@
                    == old(self)@,
            },
    {
        let mut top = lhs;
        match top.apply_inplace(binary, &rhs, &self.heap) {
            Ok(Outcome::Done) => {
                self.settle(base, top);
                Ok(Event::Continue)
            },
            Ok(Outcome::Float(request)) => {
                self.settle(base, lhs);
                self.pending = true;
                proof {
                    assert(self@.strings =~= old(self)@.strings);
                }
                Ok(Event::Float(request))
            },
            Err(e) => Err(e),
        }
    }

    fn negate_on(&mut self, base: usize, value: Word) -> (result: Result<Event, LanguloErr>)
        requires
            old(self).wf(),
            base <= old(self)@.stack.len(),
            old(self)@.ip < old(self)@.code.len(),
        ensures
            final(self).wf(),
            match old(self)@.negate(old(self)@.stack.take(base as int), value) {
                Ok((machine, event)) => result == Ok::<Event, LanguloErr>(event) && final(self)@
                    == machine,
                Err(e) => result == Err::<Event, LanguloErr>(LanguloErr::Vm(e)) && final(self)@
                    == old(self)@,
            },
    {
        if value.0 & 0xF != 1 {
            return Err(LanguloErr::Vm(VmError::BadOperand));
        }
        let word = Word::bool(!value.to_bool(), OpCode::Value);
        proof {
            word.lemma_word_of_view(
                WordView {
                    tag: ValueTag::Bool.code(),
                    opcode: OpCode::Value.code(),
                    aux: 0,
                    payload: if !value.spec_to_bool() { 1 } else { 0 },
                },
            );
        }
        self.settle(base, word);
        Ok(Event::Continue)
    }

    fn unwrap_on(&mut self, base: usize, option: Word) -> (result: Result<Event, LanguloErr>)
        requires
            old(self).wf(),
            base <= old(self)@.stack.len(),
            old(self)@.ip < old(self)@.code.len(),
        ensures
            final(self).wf(),
            match old(self)@.unwrap(old(self)@.stack.take(base as int), option) {
                Ok((machine, event)) => result == Ok::<Event, LanguloErr>(event) && final(self)@
                    == machine,
                Err(e) => result == Err::<Event, LanguloErr>(LanguloErr::Vm(e)) && final(self)@
                    == old(self)@,
            },
    {
        match option.unwrap_option(&self.heap) {
            Ok(inner) => {
                self.settle(base, inner);
                Ok(Event::Continue)
            },
            Err(e) => Err(e),
        }
    }

    fn index_on(&mut self, base: usize, table: Word, key: Word) -> (result: Result<
        Event,
        LanguloErr,
    >)
        requires
            old(self).wf(),
            base <= old(self)@.stack.len(),
            old(self)@.ip < old(self)@.code.len(),
        ensures
            final(self).wf(),
            match old(self)@.index(old(self)@.stack.take(base as int), table, key) {
                Ok((machine, event)) => result == Ok::<Event, LanguloErr>(event) && final(self)@
                    == machine,
                Err(e) => result == Err::<Event, LanguloErr>(LanguloErr::Vm(e)) && final(self)@
                    == old(self)@,
            },
    {
        let found = match self.heap.table_of(table) {
            Some(pairs) => match pairs.get(&key) {
                Some(value) => Some(value),
                None => {
                    let arm = Word::default_table_arm();
                    proof {
                        arm.lemma_word_of_view(
                            WordView {
                                tag: ValueTag::Special.code(),
                                opcode: OpCode::Value.code(),
                                aux: 0,
                                payload: Word::DEFAULT_ARM_PAYLOAD as u64,
                            },
                        );
                    }
                    pairs.get(&arm)
                },
            },
            None => {
                return Err(LanguloErr::Vm(VmError::BadOperand));
            },
        };
        self.allocate_on(base, HeapObject::Option(HeapOption(found)))
    }

    /// The instruction word as the operand that it carries.
    fn operand_of(instruction: Word) -> (word: Word)
        ensures
            word == operand(instruction),
    {
        let mut word = instruction;
        word.set_opcode(OpCode::Value);
        proof {
            word.lemma_word_of_view(WordView { opcode: OpCode::Value.code(), ..instruction@ });
        }
        word
    }

    /// `ReadFromMap`.
    fn read_from_map(&mut self, instruction: Word) -> (result: Result<Event, LanguloErr>)
        requires
            old(self).wf(),
            old(self)@.ip < old(self)@.code.len(),
        ensures
            final(self).wf(),
            match old(self)@.read_from_map(instruction) {
                Ok((machine, event)) => result == Ok::<Event, LanguloErr>(event) && final(self)@
                    == machine,
                Err(e) => result == Err::<Event, LanguloErr>(LanguloErr::Vm(e)) && final(self)@
                    == old(self)@,
            },
    {
        let tag = instruction.0 & 0xF;
        let index = instruction.value() as usize;
        let depth = self.stack.len();
        proof {
            assert(self@.stack.take(depth as int) =~= self@.stack);
        }
        if tag == 4 {
            if index >= self.heap_floats.len() {
                return Err(LanguloErr::Vm(VmError::BadPoolIndex));
            }
            match self.heap_floats[index] {
                Some(bits) => {
                    if !self.heap.has_room() {
                        return Err(LanguloErr::Vm(VmError::OutOfMemory));
                    }
                    self.heap_floats.set(index, None);
                    proof {
                        assert(self@.strings =~= old(self)@.strings);
                    }
                    self.allocate_on(
                        depth,
                        HeapObject::Float(crate::word::heap::HeapFloat(bits)),
                    )
                },
                None => Err(LanguloErr::Vm(VmError::PoolEntryTaken)),
            }
        } else if tag == 5 {
            if index >= self.heap_strings.len() {
                return Err(LanguloErr::Vm(VmError::BadPoolIndex));
            }
            let text = match &self.heap_strings[index] {
                Some(text) => text.clone(),
                None => {
                    return Err(LanguloErr::Vm(VmError::PoolEntryTaken));
                },
            };
            if !self.heap.has_room() {
                return Err(LanguloErr::Vm(VmError::OutOfMemory));
            }
            self.heap_strings.set(index, None);
            proof {
                assert(self@.strings =~= old(self)@.strings.update(index as int, None));
            }
            self.allocate_on(depth, HeapObject::Str(crate::word::heap::HeapStr(text)))
        } else if tag == 6 {
            if depth / 2 < index {
                return Err(LanguloErr::Vm(VmError::StackUnderflow));
            }
            let mut table = Table::new();
            let mut i: usize = 0;
            while i < index
                invariant
                    i <= index,
                    2 * index <= depth,
                    depth == self.stack@.len(),
                    self.stack@ == old(self)@.stack,
                    table@ == collected(popped_pairs(self.stack@, index as int).take(i as int)),
                decreases index - i,
            {
                let value = self.stack[depth - 1 - 2 * i];
                let key = self.stack[depth - 2 - 2 * i];
                proof {
                    let pairs = popped_pairs(self.stack@, index as int);
                    assert(pairs.take(i + 1).drop_last() =~= pairs.take(i as int));
                    assert(pairs.take(i + 1).last() == pairs[i as int]);
                }
                table.insert(key, value);
                i += 1;
            }
            proof {
                let pairs = popped_pairs(self.stack@, index as int);
                assert(pairs.take(index as int) =~= pairs);
            }
            self.allocate_on(depth - 2 * index, HeapObject::Table(HeapTable(table)))
        } else {
            Err(LanguloErr::Vm(VmError::BadOperand))
        }
    }

    /// One step of the dispatch loop: runs the instruction at the instruction pointer.
    /// Where the step fails the machine stays as it was.
    pub fn step(&mut self) -> (result: Result<Event, LanguloErr>)
        requires
            old(self).wf(),
        ensures
            final(self).wf(),
            match old(self)@.step() {
                Ok((machine, event)) => result == Ok::<Event, LanguloErr>(event) && final(self)@
                    == machine,
                Err(e) => result == Err::<Event, LanguloErr>(LanguloErr::Vm(e)) && final(self)@
                    == old(self)@,
            },
    {
        if self.pending {
            return Err(LanguloErr::Vm(VmError::FloatPending));
        }
        if self.ip >= self.bytecode.len() {
            return Err(LanguloErr::Vm(VmError::EndOfCode));
        }
        let instruction = self.bytecode[self.ip];
        if !instruction.is_well_formed() {
            return Err(LanguloErr::Vm(VmError::InvalidOpcode));
        }
        let opcode = instruction.opcode();
        let depth = self.stack.len();
        proof {
            assert(self@.stack.take(depth as int) =~= self@.stack);
            if depth >= 1 {
                assert(self@.stack.take(depth - 1) =~= self@.stack.drop_last());
            }
        }
        match opcode {
            OpCode::Stop => Ok(Event::Halt),
            OpCode::Value => {
                self.settle(depth, instruction);
                Ok(Event::Continue)
            },
            OpCode::ReadFromMap => self.read_from_map(instruction),
            OpCode::SetLocal => {
                if depth < 1 {
                    return Err(LanguloErr::Vm(VmError::StackUnderflow));
                }
                let top = self.stack[depth - 1];
                self.vars.push(top);
                self.ip = self.ip + 1;
                proof {
                    assert(self@.strings =~= old(self)@.strings);
                }
                Ok(Event::Continue)
            },
            OpCode::SetLocalThis => {
                let value = Self::operand_of(instruction);
                self.vars.push(value);
                proof {
                    assert(self@.strings =~= old(self)@.strings);
                }
                self.settle(depth, value);
                Ok(Event::Continue)
            },
            OpCode::GetLocal => {
                let index = instruction.aux() as usize;
                if index < self.vars.len() {
                    let value = self.vars[index];
                    self.settle(depth, value);
                    Ok(Event::Continue)
                } else {
                    Err(LanguloErr::Vm(VmError::BadLocal))
                }
            },
            OpCode::JumpIfFalse => {
                if depth < 1 {
                    return Err(LanguloErr::Vm(VmError::StackUnderflow));
                }
                let top = self.stack[depth - 1];
                if top.0 & 0xF != 1 {
                    return Err(LanguloErr::Vm(VmError::BadOperand));
                }
                if top.to_bool() {
                    self.stack.truncate(depth - 1);
                    self.ip = self.ip + 1;
                    proof {
                        assert(self@.strings =~= old(self)@.strings);
                        assert(self@.stack =~= old(self)@.stack.drop_last());
                    }
                    return Ok(Event::Continue);
                }
                let distance = instruction.value() as u64;
                let left = (self.bytecode.len() - self.ip - 1) as u64;
                if distance > left {
                    return Err(LanguloErr::Vm(VmError::EndOfCode));
                }
                match self.allocate_on(depth - 1, HeapObject::Option(HeapOption(None))) {
                    Ok(event) => {
                        self.ip = self.ip + distance as usize;
                        proof {
                            assert(self@.strings =~= old(self)@.strings);
                        }
                        Ok(event)
                    },
                    Err(e) => Err(e),
                }
            },
            OpCode::JumpIfNo => {
                if depth < 1 {
                    return Err(LanguloErr::Vm(VmError::StackUnderflow));
                }
                let top = self.stack[depth - 1];
                match self.heap.option_of(top) {
                    Some(Some(inner)) => {
                        let distance = instruction.value() as u64;
                        let left = (self.bytecode.len() - self.ip - 1) as u64;
                        if distance > left {
                            return Err(LanguloErr::Vm(VmError::EndOfCode));
                        }
                        self.settle(depth - 1, inner);
                        self.ip = self.ip + distance as usize;
                        proof {
                            assert(self@.strings =~= old(self)@.strings);
                        }
                        Ok(Event::Continue)
                    },
                    Some(None) => {
                        self.stack.truncate(depth - 1);
                        self.ip = self.ip + 1;
                        proof {
                            assert(self@.strings =~= old(self)@.strings);
                            assert(self@.stack =~= old(self)@.stack.drop_last());
                        }
                        Ok(Event::Continue)
                    },
                    None => Err(LanguloErr::Vm(VmError::BadOperand)),
                }
            },
            OpCode::WrapInOption => {
                if depth < 1 {
                    return Err(LanguloErr::Vm(VmError::StackUnderflow));
                }
                let top = self.stack[depth - 1];
                let inner = if top.0 & 0xF == 8 { None } else { Some(top) };
                self.allocate_on(depth - 1, HeapObject::Option(HeapOption(inner)))
            },
            OpCode::WrapInOptionThis => {
                let value = Self::operand_of(instruction);
                let inner = if value.0 & 0xF == 8 { None } else { Some(value) };
                self.allocate_on(depth, HeapObject::Option(HeapOption(inner)))
            },
            OpCode::UnwrapOption => {
                if depth < 1 {
                    return Err(LanguloErr::Vm(VmError::StackUnderflow));
                }
                let top = self.stack[depth - 1];
                self.unwrap_on(depth - 1, top)
            },
            OpCode::UnwrapOptionThis => {
                let value = Self::operand_of(instruction);
                self.unwrap_on(depth, value)
            },
            OpCode::IndexGet => {
                if depth < 2 {
                    return Err(LanguloErr::Vm(VmError::StackUnderflow));
                }
                let key = self.stack[depth - 1];
                let table = self.stack[depth - 2];
                self.index_on(depth - 2, table, key)
            },
            OpCode::IndexGetThis => {
                if depth < 1 {
                    return Err(LanguloErr::Vm(VmError::StackUnderflow));
                }
                let key = Self::operand_of(instruction);
                let table = self.stack[depth - 1];
                self.index_on(depth - 1, table, key)
            },
            OpCode::Negate => {
                if depth < 1 {
                    return Err(LanguloErr::Vm(VmError::StackUnderflow));
                }
                let top = self.stack[depth - 1];
                self.negate_on(depth - 1, top)
            },
            OpCode::NegateThis => {
                let value = Self::operand_of(instruction);
                self.negate_on(depth, value)
            },
            OpCode::Print => {
                if depth < 1 {
                    return Err(LanguloErr::Vm(VmError::StackUnderflow));
                }
                let top = self.stack[depth - 1];
                self.ip = self.ip + 1;
                proof {
                    assert(self@.strings =~= old(self)@.strings);
                }
                Ok(Event::Print(top))
            },
            OpCode::PrintThis => {
                let value = Self::operand_of(instruction);
                self.settle(depth, value);
                Ok(Event::Print(value))
            },
            _ => {
                match binary_of(opcode) {
                    Some(binary) => {
                        if depth < 2 {
                            return Err(LanguloErr::Vm(VmError::StackUnderflow));
                        }
                        let rhs = self.stack[depth - 1];
                        let lhs = self.stack[depth - 2];
                        self.binary_on(binary, depth - 2, lhs, rhs)
                    },
                    None => {
                        let binary = match opcode.plain() {
                            Some(plain) => binary_of(plain),
                            None => None,
                        };
                        match binary {
                            Some(binary) => {
                                if depth < 1 {
                                    return Err(LanguloErr::Vm(VmError::StackUnderflow));
                                }
                                let rhs = Self::operand_of(instruction);
                                let lhs = self.stack[depth - 1];
                                self.binary_on(binary, depth - 1, lhs, rhs)
                            },
                            None => Err(LanguloErr::Vm(VmError::InvalidOpcode)),
                        }
                    },
                }
            },
        }
    }

    /// Runs the machine until it has something to hand over: `Halt` at a `Stop`, a
    /// float operation to compute, or a value to print. After `Print` the machine can
    /// simply be run again; after `Float` it waits for `resume_float`.
    pub fn run(&mut self) -> (result: Result<Event, LanguloErr>)
        requires
            old(self).wf(),
        ensures
            final(self).wf(),
            final(self)@ == old(self)@.run().0,
            match old(self)@.run().1 {
                Ok(event) => result == Ok::<Event, LanguloErr>(event),
                Err(e) => result == Err::<Event, LanguloErr>(LanguloErr::Vm(e)),
            },
            result != Ok::<Event, LanguloErr>(Event::Continue),
    {
        loop
            invariant
                self.wf(),
                self@.run() == old(self)@.run(),
            decreases self@.code.len() - self@.ip,
        {
            let ghost before = self@;
            proof {
                before.lemma_step_moves();
            }
            match self.step() {
                Ok(Event::Continue) => {},
                Ok(event) => {
                    return Ok(event);
                },
                Err(e) => {
                    return Err(e);
                },
            }
        }
    }

    /// Hands the machine the bits of the float that it waits for. The float takes the
    /// place of the left operand of the operator that asked for it.
    pub fn resume_float(&mut self, bits: u64) -> (result: Result<(), LanguloErr>)
        requires
            old(self).wf(),
        ensures
            final(self).wf(),
            match old(self)@.resume(bits) {
                Ok(machine) => result is Ok && final(self)@ == machine,
                Err(e) => result == Err::<(), LanguloErr>(LanguloErr::Vm(e)) && final(self)@
                    == old(self)@,
            },
    {
        let depth = self.stack.len();
        if !self.pending || depth == 0 {
            return Err(LanguloErr::Vm(VmError::NothingPending));
        }
        let mut top = self.stack[depth - 1];
        match top.complete_float(bits, &mut self.heap, &mut self.gc) {
            Ok(()) => {
                self.stack.set(depth - 1, top);
                self.pending = false;
                proof {
                    assert(self@.strings =~= old(self)@.strings);
                    assert(self@.stack =~= old(self)@.stack.drop_last().push(top));
                }
                Ok(())
            },
            Err(e) => {
                proof {
                    assert(self@.strings =~= old(self)@.strings);
                }
                Err(e)
            },
        }
    }

    /// Takes the top of the stack.
    pub fn pop_value(&mut self) -> (result: Result<Word, LanguloErr>)
        requires
            old(self).wf(),
        ensures
            final(self).wf(),
            old(self)@.stack.len() == 0 ==> result == Err::<Word, LanguloErr>(
                LanguloErr::Vm(VmError::StackUnderflow),
            ) && final(self)@ == old(self)@,
            old(self)@.stack.len() > 0 ==> result == Ok::<Word, LanguloErr>(
                old(self)@.stack.last(),
            ) && final(self)@ == (Machine { stack: old(self)@.stack.drop_last(), ..old(self)@ }),
    {
        match self.stack.pop() {
            Some(word) => {
                proof {
                    assert(self@.strings =~= old(self)@.strings);
                    assert(self@.stack =~= old(self)@.stack.drop_last());
                }
                Ok(word)
            },
            None => Err(LanguloErr::Vm(VmError::StackUnderflow)),
        }
    }

    /// The result of the program: the top of the stack, with the heap that it may
    /// refer to. Other values may lie below it on the stack.
    pub fn finalize(self) -> (result: Result<(Word, Heap), LanguloErr>)
        requires
            self.wf(),
        ensures
            self@.stack.len() == 0 ==> (result matches Err(e) && e == LanguloErr::Vm(
                VmError::StackUnderflow,
            )),
            self@.stack.len() > 0 ==> (result matches Ok((word, heap)) && word
                == self@.stack.last() && heap@ == self@.heap),
    {
        let mut machine = self;
        match machine.pop_value() {
            Ok(word) => Ok((word, machine.heap)),
            Err(e) => Err(e),
        }
    }
}

} // verus!
