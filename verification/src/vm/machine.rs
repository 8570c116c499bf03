//! What the virtual machine does, stated on mathematical values: the state of the
//! machine as sequences, and one step of the dispatch loop as a function from a state to
//! the next state.

use vstd::prelude::*;
use crate::errors::err::VmError;
use crate::word::heap::{option_in, reference, table_in, Cell, ADDRESS_SPACE};
use crate::word::opcode::OpCode;
use crate::word::operations::{
    spec_apply, spec_binary, spec_complete, spec_unwrap, wrapped, Applied, Binary, FloatRequest,
};
use crate::word::structure::{ValueTag, Word, WordView};
use crate::word::table::{collected, lookup};

verus! {

/// The state of a virtual machine.
pub struct Machine {
    pub code: Seq<Word>,
    /// The index of the next instruction.
    pub ip: int,
    pub stack: Seq<Word>,
    pub locals: Seq<Word>,
    pub heap: Seq<Cell>,
    /// The words registered with the collector.
    pub traced: Seq<Word>,
    /// The pool of float constants, as bits; an entry is gone once it was read.
    pub floats: Seq<Option<u64>>,
    /// The pool of string constants.
    pub strings: Seq<Option<Seq<char>>>,
    /// Whether the machine waits for the result of a float operation, which then
    /// takes the place of the top of the stack.
    pub pending: bool,
}

/// What a step hands to whoever runs the machine.
#[derive(Debug, Clone, Copy, PartialEq, Eq, Structural)]
pub enum Event {
    /// Nothing: the next instruction can run.
    Continue,
    /// The machine met `Stop`.
    Halt,
    /// Floats are to be computed. The machine goes on once it is given the result.
    Float(FloatRequest),
    /// The value of this word is to be written to the output.
    Print(Word),
}

/// The operand that an instruction with an embedded operand carries: the instruction
/// word itself, as a pure value.
pub open spec fn operand(instruction: Word) -> Word {
    (WordView { opcode: OpCode::Value.code(), ..instruction@ }).word()
}

/// The word that refers to the next cell of the heap.
pub open spec fn fresh(heap: Seq<Cell>, tag: ValueTag) -> Word {
    reference(heap.len() as int, OpCode::Value, tag).word()
}

/// The boolean as a pure value.
pub open spec fn truth(value: bool) -> Word {
    (WordView {
        tag: ValueTag::Bool.code(),
        opcode: OpCode::Value.code(),
        aux: 0,
        payload: if value { 1 } else { 0 },
    }).word()
}

/// The sentinel key of a table's default arm.
pub open spec fn default_arm() -> Word {
    (WordView {
        tag: ValueTag::Special.code(),
        opcode: OpCode::Value.code(),
        aux: 0,
        payload: Word::DEFAULT_ARM_PAYLOAD as u64,
    }).word()
}

/// The pairs that a table literal of `count` pairs takes from the stack: value above
/// key, the last pair of the literal on top, and that pair first in the result.
pub open spec fn popped_pairs(stack: Seq<Word>, count: int) -> Seq<(Word, Word)> {
    Seq::new(
        count as nat,
        |i: int| (stack[stack.len() - 2 - 2 * i], stack[stack.len() - 1 - 2 * i]),
    )
}

impl Machine {
    /// The machine with `stack` for its stack, on to the next instruction.
    pub open spec fn next(self, stack: Seq<Word>) -> Machine {
        Machine { ip: self.ip + 1, stack, ..self }
    }

    /// The machine after `cell` went to the heap and the word that refers to it on top
    /// of `base`.
    pub open spec fn allocated(self, base: Seq<Word>, cell: Cell, tag: ValueTag) -> Result<
        (Machine, Event),
        VmError,
    > {
        if self.heap.len() < ADDRESS_SPACE {
            let word = fresh(self.heap, tag);
            Ok(
                (
                    Machine {
                        ip: self.ip + 1,
                        stack: base.push(word),
                        heap: self.heap.push(cell),
                        traced: self.traced.push(word),
                        ..self
                    },
                    Event::Continue,
                ),
            )
        } else {
            Err(VmError::OutOfMemory)
        }
    }

    /// A two-operand operator on `lhs` and `rhs`, above the stack `base`.
    pub open spec fn binary(self, binary: Binary, base: Seq<Word>, lhs: Word, rhs: Word) -> Result<
        (Machine, Event),
        VmError,
    > {
        match spec_apply(binary, lhs, rhs, self.heap) {
            Ok(Applied::Word(word)) => Ok((self.next(base.push(word)), Event::Continue)),
            Ok(Applied::Float(request)) => Ok(
                (
                    Machine { pending: true, ..self.next(base.push(lhs)) },
                    Event::Float(request),
                ),
            ),
            Err(e) => Err(e),
        }
    }

    /// Negation of the boolean `value`.
    pub open spec fn negate(self, base: Seq<Word>, value: Word) -> Result<(Machine, Event), VmError> {
        if value@.tag == ValueTag::Bool.code() {
            Ok((self.next(base.push(truth(!value.spec_to_bool()))), Event::Continue))
        } else {
            Err(VmError::BadOperand)
        }
    }

    /// Unwrapping of the option `option`.
    pub open spec fn unwrap(self, base: Seq<Word>, option: Word) -> Result<
        (Machine, Event),
        VmError,
    > {
        match spec_unwrap(self.heap, option) {
            Ok(inner) => Ok((self.next(base.push(inner)), Event::Continue)),
            Err(e) => Err(e),
        }
    }

    /// A look into `table` under `key`, and under the default arm where the key is
    /// absent; the result is an option.
    pub open spec fn index(self, base: Seq<Word>, table: Word, key: Word) -> Result<
        (Machine, Event),
        VmError,
    > {
        match table_in(self.heap, table) {
            Some(pairs) => {
                let found = match lookup(pairs, key) {
                    Some(value) => Some(value),
                    None => lookup(pairs, default_arm()),
                };
                self.allocated(base, Cell::Option(found), ValueTag::OptionPtr)
            },
            None => Err(VmError::BadOperand),
        }
    }

    /// A jump over `distance` words, after the current one.
    pub open spec fn jump(self, stack: Seq<Word>, distance: int) -> Result<(Machine, Event), VmError> {
        if self.ip + 1 + distance <= self.code.len() {
            Ok((Machine { ip: self.ip + 1 + distance, stack, ..self }, Event::Continue))
        } else {
            Err(VmError::EndOfCode)
        }
    }

    /// `ReadFromMap`: a constant leaves its pool for the heap, or a table is built from
    /// the pairs on the stack.
    pub open spec fn read_from_map(self, instruction: Word) -> Result<(Machine, Event), VmError> {
        let index = instruction@.payload as int;
        if instruction@.tag == ValueTag::FloatPtr.code() {
            if index >= self.floats.len() {
                Err(VmError::BadPoolIndex)
            } else {
                match self.floats[index] {
                    Some(bits) => (Machine {
                        floats: self.floats.update(index, None),
                        ..self
                    }).allocated(self.stack, Cell::Float(bits), ValueTag::FloatPtr),
                    None => Err(VmError::PoolEntryTaken),
                }
            }
        } else if instruction@.tag == ValueTag::StrPtr.code() {
            if index >= self.strings.len() {
                Err(VmError::BadPoolIndex)
            } else {
                match self.strings[index] {
                    Some(text) => (Machine {
                        strings: self.strings.update(index, None),
                        ..self
                    }).allocated(self.stack, Cell::Str(text), ValueTag::StrPtr),
                    None => Err(VmError::PoolEntryTaken),
                }
            }
        } else if instruction@.tag == ValueTag::TablePtr.code() {
            if self.stack.len() < 2 * index {
                Err(VmError::StackUnderflow)
            } else {
                self.allocated(
                    self.stack.take(self.stack.len() - 2 * index),
                    Cell::Table(collected(popped_pairs(self.stack, index))),
                    ValueTag::TablePtr,
                )
            }
        } else {
            Err(VmError::BadOperand)
        }
    }

    /// One step of the dispatch loop. Where a step fails the machine stays as it was.
    pub open spec fn step(self) -> Result<(Machine, Event), VmError> {
        if self.pending {
            Err(VmError::FloatPending)
        } else if !(0 <= self.ip < self.code.len()) {
            Err(VmError::EndOfCode)
        } else if !self.code[self.ip].well_formed() {
            Err(VmError::InvalidOpcode)
        } else {
            let instruction = self.code[self.ip];
            let opcode = instruction.spec_opcode();
            let depth = self.stack.len() as int;
            match opcode {
                OpCode::Stop => Ok((self, Event::Halt)),
                OpCode::Value => Ok((self.next(self.stack.push(instruction)), Event::Continue)),
                OpCode::ReadFromMap => self.read_from_map(instruction),
                OpCode::SetLocal => if depth < 1 {
                    Err(VmError::StackUnderflow)
                } else {
                    Ok(
                        (
                            Machine {
                                locals: self.locals.push(self.stack.last()),
                                ..self.next(self.stack)
                            },
                            Event::Continue,
                        ),
                    )
                },
                OpCode::SetLocalThis => Ok(
                    (
                        Machine {
                            locals: self.locals.push(operand(instruction)),
                            ..self.next(self.stack.push(operand(instruction)))
                        },
                        Event::Continue,
                    ),
                ),
                OpCode::GetLocal => if instruction@.aux < self.locals.len() {
                    Ok(
                        (
                            self.next(self.stack.push(self.locals[instruction@.aux as int])),
                            Event::Continue,
                        ),
                    )
                } else {
                    Err(VmError::BadLocal)
                },
                OpCode::JumpIfFalse => if depth < 1 {
                    Err(VmError::StackUnderflow)
                } else if self.stack.last()@.tag != ValueTag::Bool.code() {
                    Err(VmError::BadOperand)
                } else if self.stack.last().spec_to_bool() {
                    Ok((self.next(self.stack.drop_last()), Event::Continue))
                } else if self.ip + 1 + instruction@.payload > self.code.len() {
                    Err(VmError::EndOfCode)
                } else {
                    match self.allocated(
                        self.stack.drop_last(),
                        Cell::Option(None),
                        ValueTag::OptionPtr,
                    ) {
                        Ok((machine, event)) => Ok(
                            (
                                Machine { ip: self.ip + 1 + instruction@.payload, ..machine },
                                event,
                            ),
                        ),
                        Err(e) => Err(e),
                    }
                },
                OpCode::JumpIfNo => if depth < 1 {
                    Err(VmError::StackUnderflow)
                } else {
                    match option_in(self.heap, self.stack.last()) {
                        Some(Some(inner)) => self.jump(
                            self.stack.drop_last().push(inner),
                            instruction@.payload as int,
                        ),
                        Some(None) => Ok((self.next(self.stack.drop_last()), Event::Continue)),
                        None => Err(VmError::BadOperand),
                    }
                },
                OpCode::WrapInOption => if depth < 1 {
                    Err(VmError::StackUnderflow)
                } else {
                    self.allocated(
                        self.stack.drop_last(),
                        Cell::Option(wrapped(self.stack.last())),
                        ValueTag::OptionPtr,
                    )
                },
                OpCode::WrapInOptionThis => self.allocated(
                    self.stack,
                    Cell::Option(wrapped(operand(instruction))),
                    ValueTag::OptionPtr,
                ),
                OpCode::UnwrapOption => if depth < 1 {
                    Err(VmError::StackUnderflow)
                } else {
                    self.unwrap(self.stack.drop_last(), self.stack.last())
                },
                OpCode::UnwrapOptionThis => self.unwrap(self.stack, operand(instruction)),
                OpCode::IndexGet => if depth < 2 {
                    Err(VmError::StackUnderflow)
                } else {
                    self.index(self.stack.take(depth - 2), self.stack[depth - 2], self.stack.last())
                },
                OpCode::IndexGetThis => if depth < 1 {
                    Err(VmError::StackUnderflow)
                } else {
                    self.index(self.stack.drop_last(), self.stack.last(), operand(instruction))
                },
                OpCode::Negate => if depth < 1 {
                    Err(VmError::StackUnderflow)
                } else {
                    self.negate(self.stack.drop_last(), self.stack.last())
                },
                OpCode::NegateThis => self.negate(self.stack, operand(instruction)),
                OpCode::Print => if depth < 1 {
                    Err(VmError::StackUnderflow)
                } else {
                    Ok((self.next(self.stack), Event::Print(self.stack.last())))
                },
                OpCode::PrintThis => Ok(
                    (
                        self.next(self.stack.push(operand(instruction))),
                        Event::Print(operand(instruction)),
                    ),
                ),
                _ => match spec_binary(opcode) {
                    Some(binary) => if depth < 2 {
                        Err(VmError::StackUnderflow)
                    } else {
                        self.binary(
                            binary,
                            self.stack.take(depth - 2),
                            self.stack[depth - 2],
                            self.stack.last(),
                        )
                    },
                    None => match opcode.spec_plain() {
                        Some(plain) => match spec_binary(plain) {
                            Some(binary) => if depth < 1 {
                                Err(VmError::StackUnderflow)
                            } else {
                                self.binary(
                                    binary,
                                    self.stack.drop_last(),
                                    self.stack.last(),
                                    operand(instruction),
                                )
                            },
                            None => Err(VmError::InvalidOpcode),
                        },
                        None => Err(VmError::InvalidOpcode),
                    },
                },
            }
        }
    }

    /// The machine after the float operation that it waits for gave `bits`.
    pub open spec fn resume(self, bits: u64) -> Result<Machine, VmError> {
        if !self.pending || self.stack.len() == 0 {
            Err(VmError::NothingPending)
        } else {
            match spec_complete(self.stack.last(), bits, self.heap) {
                Ok((word, heap)) => Ok(
                    Machine {
                        stack: self.stack.drop_last().push(word),
                        heap,
                        traced: if self.stack.last()@.tag == ValueTag::Int.code() {
                            self.traced.push(word)
                        } else {
                            self.traced
                        },
                        pending: false,
                        ..self
                    },
                ),
                Err(e) => Err(e),
            }
        }
    }

    /// Whether a step that asks for the next one has moved on in the same code.
    pub open spec fn moved(self, after: Machine) -> bool {
        self.ip < after.ip <= after.code.len() && after.code == self.code
    }

    /// The machine run until it has something to hand over, and what that is.
    pub open spec fn run(self) -> (Machine, Result<Event, VmError>)
        decreases self.code.len() - self.ip,
    {
        match self.step() {
            Ok((after, Event::Continue)) => if self.moved(after) {
                after.run()
            } else {
                (after, Err(VmError::EndOfCode))
            },
            Ok((after, event)) => (after, Ok(event)),
            Err(e) => (self, Err(e)),
        }
    }

    /// A step that asks for the next one moves on in the same code, and leaves the
    /// machine not waiting.
    pub proof fn lemma_step_moves(self)
        ensures
            self.step() matches Ok((after, Event::Continue)) ==> self.moved(after)
                && !after.pending,
            self.step() matches Ok((after, _)) ==> after.code == self.code,
    {
    }
}

/// A jump that is taken goes on right behind the words that it was told to skip, and a
/// jump that is not taken goes on with the next word: `JumpIfFalse` is taken where the
/// boolean on top of the stack is false, `JumpIfNo` where the option on top of the stack
/// holds a value.
pub proof fn lemma_jump_lands(machine: Machine)
    requires
        !machine.pending,
        0 <= machine.ip < machine.code.len(),
        machine.code[machine.ip].well_formed(),
        machine.stack.len() > 0,
        machine.heap.len() < ADDRESS_SPACE,
        machine.ip + 1 + machine.code[machine.ip]@.payload <= machine.code.len(),
    ensures
        ({
            let jump = machine.code[machine.ip];
            let top = machine.stack.last();
            let target = machine.ip + 1 + jump@.payload;
            &&& jump.spec_opcode() == OpCode::JumpIfFalse && top@.tag == ValueTag::Bool.code()
                ==> (machine.step() matches Ok((after, event)) && event == Event::Continue
                && after.ip == if top.spec_to_bool() {
                machine.ip + 1
            } else {
                target
            })
            &&& jump.spec_opcode() == OpCode::JumpIfNo && option_in(machine.heap, top) is Some
                ==> (machine.step() matches Ok((after, event)) && event == Event::Continue
                && after.ip == if option_in(machine.heap, top).unwrap() is Some {
                target
            } else {
                machine.ip + 1
            })
        }),
{
}

/// The step after `first`, where `first` asks for one.
pub open spec fn and_then(first: Result<(Machine, Event), VmError>) -> Result<
    (Machine, Event),
    VmError,
> {
    match first {
        Ok((machine, Event::Continue)) => machine.step(),
        other => other,
    }
}

/// Whether two machines differ at most in their code and in where they are in it.
pub open spec fn same_data(a: Machine, b: Machine) -> bool {
    a == (Machine { code: a.code, ip: a.ip, ..b })
}

/// Whether `word` is `value` made the embedded operand of `opcode`.
pub open spec fn embeds(word: Word, opcode: OpCode, value: Word) -> bool {
    word@ == (WordView { opcode: opcode.code(), ..value@ })
}

/// Embedding an operand changes nothing but the length of the code. Take a two-operand
/// operator and two pure values `v` and `w`. A machine that meets `v` and then the
/// operator with `w` embedded ends as a machine that meets `v`, `w` and then the plain
/// operator: with the same stack, locals, heap and pools and the same thing to hand
/// over, or with the same error.
pub proof fn lemma_embedded_operand_equivalence(
    short: Machine,
    long: Machine,
    opcode: OpCode,
    v: Word,
    w: Word,
)
    requires
        opcode.spec_is_binary(),
        v.well_formed() && v.spec_opcode() == OpCode::Value,
        w.well_formed() && w.spec_opcode() == OpCode::Value,
        same_data(short, long),
        0 <= short.ip && short.ip + 2 <= short.code.len(),
        short.code[short.ip] == v,
        embeds(short.code[short.ip + 1], opcode.spec_embedded().unwrap(), w),
        0 <= long.ip && long.ip + 3 <= long.code.len(),
        long.code[long.ip] == v,
        long.code[long.ip + 1] == w,
        long.code[long.ip + 2].well_formed() && long.code[long.ip + 2].spec_opcode() == opcode,
    ensures
        match (and_then(short.step()), and_then(and_then(long.step()))) {
            (Ok((a, first)), Ok((b, second))) => {
                &&& first == second
                &&& same_data(a, b)
                &&& a.ip == short.ip + 2
                &&& b.ip == long.ip + 3
            },
            (Err(e), Err(f)) => e == f,
            _ => false,
        },
{
    let embedded = opcode.spec_embedded().unwrap();
    let carrier = short.code[short.ip + 1];
    OpCode::lemma_decode_code(w@.opcode);
    embedded.lemma_code_decode();
    opcode.lemma_embedded_plain();
    w.lemma_view_fits();
    assert(carrier.well_formed() && carrier.spec_opcode() == embedded);
    assert(operand(carrier) == w) by {
        assert((WordView { opcode: OpCode::Value.code(), ..carrier@ }) == w@);
    }
    if !short.pending {
        let s = short.stack;
        let short1 = short.next(s.push(v));
        assert(short.step() == Ok::<(Machine, Event), VmError>((short1, Event::Continue)));
        let long1 = long.next(s.push(v));
        assert(long.step() == Ok::<(Machine, Event), VmError>((long1, Event::Continue)));
        let long2 = long1.next(s.push(v).push(w));
        assert(long1.step() == Ok::<(Machine, Event), VmError>((long2, Event::Continue)));
        assert(s.push(v).drop_last() =~= s);
        assert(s.push(v).push(w).take(s.len() as int) =~= s);
        assert(s.push(v).last() == v);
        assert(s.push(v).push(w).last() == w);
        assert(s.push(v).push(w)[s.len() as int] == v);
        let binary = spec_binary(opcode).unwrap();
        assert(short1.step() == short1.binary(binary, s, v, w));
        assert(long2.step() == long2.binary(binary, s, v, w));
    }
}

} // verus!
