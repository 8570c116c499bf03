use langulo::errors::err::{LanguloErr, VmError};
use langulo::vm::garbage_collector::GarbageCollector;
use langulo::vm::machine::Event;
use langulo::vm::VM;
use langulo::word::heap::Heap;
use langulo::word::opcode::OpCode;
use langulo::word::operations::{Arith, FloatRequest, Operand};
use langulo::word::structure::{ValueTag, Word};

fn number(operand: Operand) -> f64 {
    match operand {
        Operand::Int(value) => value as f64,
        Operand::Float(bits) => f64::from_bits(bits),
    }
}

/// What the host of a machine does with a float request.
fn compute(request: FloatRequest) -> u64 {
    let (a, b) = (number(request.lhs), number(request.rhs));
    let result = match request.op {
        Arith::Add => a + b,
        Arith::Subtract => a - b,
        Arith::Multiply => a * b,
        Arith::Divide => a / b,
        Arith::Modulo => a % b,
        Arith::Power => a.powf(b),
    };
    result.to_bits()
}

/// Runs the machine to its `Stop`, and returns what it printed.
fn run(vm: &mut VM) -> Result<Vec<Word>, LanguloErr> {
    let mut printed = Vec::new();
    loop {
        match vm.run()? {
            Event::Halt => return Ok(printed),
            Event::Float(request) => vm.resume_float(compute(request))?,
            Event::Print(word) => printed.push(word),
            Event::Continue => unreachable!(),
        }
    }
}

/// A machine for the given words and floats. A float takes the place of the word whose
/// payload is its index and whose tag says that it is a float.
fn machine(bytecode: Vec<Word>) -> VM {
    let mut bytecode = bytecode;
    bytecode.push(Word::integer(0, OpCode::Stop));
    VM::from_bytecode_only(bytecode)
}

fn float_constant(index: u32) -> Word {
    Word::raw_float(index)
}

fn expect_float_vm_execution_approx(lhs: f64, rhs: f64, op: OpCode, expected_output: f64) {
    let mut heap = Heap::new();
    let mut gc = GarbageCollector::new();
    let bytecode = vec![
        Word::float(lhs.to_bits(), OpCode::Value, &mut heap, &mut gc),
        Word::float(rhs.to_bits(), op, &mut heap, &mut gc),
        Word::integer(0, OpCode::Stop),
    ];
    let mut vm = VM::with_heap(bytecode, heap, gc);
    run(&mut vm).unwrap();
    let (result, heap) = vm.finalize().unwrap();
    println!("{:?}", result);
    let result_flt = f64::from_bits(result.to_float(&heap));
    assert!(
        (result_flt - expected_output).abs() < 0.00001,
        "Result: {}, Expected: {}",
        result_flt,
        expected_output
    );
}

#[test]
fn float_arithmetic_tests() {
    expect_float_vm_execution_approx(3.0, 5.0, OpCode::AddThis, 8.0);
    expect_float_vm_execution_approx(3.0, 5.0, OpCode::SubtractThis, -2.0);
    expect_float_vm_execution_approx(3.0, 5.0, OpCode::MultiplyThis, 15.0);
    expect_float_vm_execution_approx(3.0, 5.0, OpCode::DivideThis, 0.6);
}

fn expect_vm_execution(bytecode: Vec<Word>, expected_output: Word) {
    let mut vm = machine(bytecode);
    run(&mut vm).unwrap();
    assert_eq!(vm.finalize().unwrap().0, expected_output);
}

fn expect_vm_float(bytecode: Vec<Word>, floats: Vec<f64>, expected: f64) {
    let mut bytecode = bytecode;
    bytecode.push(Word::integer(0, OpCode::Stop));
    let mut vm = VM::new(bytecode, floats.iter().map(|f| f.to_bits()).collect(), vec![]);
    run(&mut vm).unwrap();
    let (result, heap) = vm.finalize().unwrap();
    assert_eq!(result.tag(), ValueTag::FloatPtr);
    assert_eq!(f64::from_bits(result.to_float(&heap)), expected);
}

fn expect_vm_error(bytecode: Vec<Word>, expected: VmError) {
    let mut vm = machine(bytecode);
    assert_eq!(run(&mut vm), Err(LanguloErr::Vm(expected)));
}

#[test]
fn vm_arithmetic() {
    expect_vm_execution(
        vec![Word::bool(true, OpCode::NegateThis)],
        Word::bool(false, OpCode::Value),
    );
    expect_vm_execution(
        vec![Word::integer(3, OpCode::Value), Word::integer(5, OpCode::AddThis)],
        Word::integer(8, OpCode::Value),
    );
    expect_vm_execution(
        vec![Word::integer(3, OpCode::Value), Word::integer(5, OpCode::SubtractThis)],
        Word::integer(-2, OpCode::Value),
    );
    expect_vm_execution(
        vec![Word::integer(3, OpCode::Value), Word::integer(5, OpCode::MultiplyThis)],
        Word::integer(15, OpCode::Value),
    );
}

#[test]
fn vm_logic() {
    expect_vm_execution(
        vec![Word::bool(true, OpCode::Value), Word::bool(false, OpCode::LogicalAndThis)],
        Word::bool(false, OpCode::Value),
    );
    expect_vm_execution(
        vec![Word::bool(true, OpCode::Value), Word::bool(false, OpCode::LogicalOrThis)],
        Word::bool(true, OpCode::Value),
    );
    expect_vm_execution(
        vec![Word::bool(true, OpCode::Value), Word::bool(false, OpCode::LogicalXorThis)],
        Word::bool(true, OpCode::Value),
    );
}

#[test]
fn vm_comparisons() {
    expect_vm_execution(
        vec![Word::integer(3, OpCode::Value), Word::integer(5, OpCode::EqualsThis)],
        Word::bool(false, OpCode::Value),
    );
    expect_vm_execution(
        vec![Word::integer(3, OpCode::Value), Word::integer(3, OpCode::EqualsThis)],
        Word::bool(true, OpCode::Value),
    );
    expect_vm_execution(
        vec![Word::integer(3, OpCode::Value), Word::integer(5, OpCode::NotEqualsThis)],
        Word::bool(true, OpCode::Value),
    );
    expect_vm_execution(
        vec![Word::integer(3, OpCode::Value), Word::integer(5, OpCode::GreaterThanThis)],
        Word::bool(false, OpCode::Value),
    );
    expect_vm_execution(
        vec![Word::integer(5, OpCode::Value), Word::integer(3, OpCode::GreaterThanThis)],
        Word::bool(true, OpCode::Value),
    );
    expect_vm_execution(
        vec![Word::integer(3, OpCode::Value), Word::integer(5, OpCode::LessThanThis)],
        Word::bool(true, OpCode::Value),
    );
    expect_vm_execution(
        vec![Word::integer(5, OpCode::Value), Word::integer(3, OpCode::LessThanThis)],
        Word::bool(false, OpCode::Value),
    );
    expect_vm_execution(
        vec![Word::integer(3, OpCode::Value), Word::integer(5, OpCode::GreaterThanEqThis)],
        Word::bool(false, OpCode::Value),
    );
    expect_vm_execution(
        vec![Word::integer(5, OpCode::Value), Word::integer(3, OpCode::GreaterThanEqThis)],
        Word::bool(true, OpCode::Value),
    );
    expect_vm_execution(
        vec![Word::integer(3, OpCode::Value), Word::integer(3, OpCode::GreaterThanEqThis)],
        Word::bool(true, OpCode::Value),
    );
    expect_vm_execution(
        vec![Word::integer(3, OpCode::Value), Word::integer(5, OpCode::LessThanEqThis)],
        Word::bool(true, OpCode::Value),
    );
    expect_vm_execution(
        vec![Word::integer(5, OpCode::Value), Word::integer(3, OpCode::LessThanEqThis)],
        Word::bool(false, OpCode::Value),
    );
    expect_vm_execution(
        vec![Word::integer(3, OpCode::Value), Word::integer(3, OpCode::LessThanEqThis)],
        Word::bool(true, OpCode::Value),
    );
}

/// Runs words that may refer to floats, which `build` puts in the heap, and expects a
/// float.
fn expect_vm_float_with(build: fn(&mut Heap, &mut GarbageCollector) -> Vec<Word>, expected: f64) {
    let mut heap = Heap::new();
    let mut gc = GarbageCollector::new();
    let mut bytecode = build(&mut heap, &mut gc);
    bytecode.push(Word::integer(0, OpCode::Stop));
    let mut vm = VM::with_heap(bytecode, heap, gc);
    run(&mut vm).unwrap();
    let (result, heap) = vm.finalize().unwrap();
    assert_eq!(result.tag(), ValueTag::FloatPtr);
    assert_eq!(result.opcode(), OpCode::Value);
    assert_eq!(f64::from_bits(result.to_float(&heap)), expected);
}

#[test]
fn vm_power() {
    expect_vm_float_with(
        |_, _| vec![Word::integer(2, OpCode::Value), Word::integer(3, OpCode::PowerThis)],
        8.0,
    );
    expect_vm_float_with(
        |heap, gc| {
            vec![
                Word::float(2.0f64.to_bits(), OpCode::Value, heap, gc),
                Word::float(3.0f64.to_bits(), OpCode::PowerThis, heap, gc),
            ]
        },
        8.0,
    );
    expect_vm_float_with(
        |heap, gc| {
            vec![
                Word::integer(2, OpCode::Value),
                Word::float(3.0f64.to_bits(), OpCode::PowerThis, heap, gc),
            ]
        },
        8.0,
    );
    expect_vm_float(
        vec![float_constant(0), float_constant(1), Word::integer(0, OpCode::Power)],
        vec![2.0, 3.0],
        8.0,
    );
    expect_float_vm_execution_approx(8.0, 0.33333333, OpCode::PowerThis, 2.0);
    expect_float_vm_execution_approx(4.0, -2.0, OpCode::PowerThis, 0.0625)
}

#[test]
fn vm_modulo() {
    expect_vm_execution(
        vec![Word::integer(7, OpCode::Value), Word::integer(3, OpCode::ModuloThis)],
        Word::integer(1, OpCode::Value),
    );
    expect_vm_execution(
        vec![Word::integer(10, OpCode::Value), Word::integer(3, OpCode::ModuloThis)],
        Word::integer(1, OpCode::Value),
    );
    expect_vm_execution(
        vec![Word::integer(-7, OpCode::Value), Word::integer(3, OpCode::ModuloThis)],
        Word::integer(-1, OpCode::Value),
    );
    expect_vm_execution(
        vec![Word::integer(-10, OpCode::Value), Word::integer(3, OpCode::ModuloThis)],
        Word::integer(-1, OpCode::Value),
    );

    expect_float_vm_execution_approx(7.2, 3.3, OpCode::ModuloThis, 0.6);
    expect_float_vm_execution_approx(7.2, -3.3, OpCode::ModuloThis, 0.6);
    expect_float_vm_execution_approx(7.2, 55.4, OpCode::ModuloThis, 7.2);
    expect_float_vm_execution_approx(7.2, -55.4, OpCode::ModuloThis, 7.2);
}

#[test]
fn vm_add_not_embedded() {
    expect_vm_execution(
        vec![
            Word::integer(3, OpCode::Value),
            Word::integer(2, OpCode::Value),
            Word::integer(0, OpCode::Add),
        ],
        Word::integer(5, OpCode::Value),
    )
}

fn with_opcode(word: Word, opcode: OpCode) -> Word {
    let mut word = word;
    word.set_opcode(opcode);
    word
}

#[test]
fn embedded_and_plain_operators_agree() {
    let values = [
        Word::integer(7, OpCode::Value),
        Word::integer(-3, OpCode::Value),
        Word::integer(0, OpCode::Value),
        Word::bool(true, OpCode::Value),
        Word::bool(false, OpCode::Value),
        Word::char('q', OpCode::Value),
    ];
    for code in 0..57u64 {
        let op = OpCode::from_u64(code).unwrap();
        if !op.is_binary() {
            continue;
        }
        for v in values {
            for w in values {
                let mut short = machine(vec![v, with_opcode(w, op.embedded().unwrap())]);
                let mut long = machine(vec![v, w, Word::integer(0, op)]);
                let a = run(&mut short);
                let b = run(&mut long);
                assert_eq!(a, b);
                if a.is_ok() {
                    let (x, heap_x) = short.finalize().unwrap();
                    let (y, heap_y) = long.finalize().unwrap();
                    assert_eq!(x, y);
                    assert_eq!(heap_x.len(), heap_y.len());
                    if x.tag() == ValueTag::FloatPtr {
                        assert_eq!(x.to_float(&heap_x), y.to_float(&heap_y));
                    }
                }
            }
        }
    }
}

#[test]
fn the_machine_waits_for_its_floats() {
    let mut vm = VM::new(
        vec![float_constant(0), float_constant(1), Word::integer(0, OpCode::Add), Word::integer(0, OpCode::Stop)],
        vec![1.5f64.to_bits(), 2.25f64.to_bits()],
        vec![],
    );
    assert_eq!(vm.resume_float(0), Err(LanguloErr::Vm(VmError::NothingPending)));
    let request = FloatRequest {
        op: Arith::Add,
        lhs: Operand::Float(1.5f64.to_bits()),
        rhs: Operand::Float(2.25f64.to_bits()),
    };
    assert_eq!(vm.run(), Ok(Event::Float(request)));
    assert_eq!(vm.run(), Err(LanguloErr::Vm(VmError::FloatPending)));
    assert_eq!(vm.step(), Err(LanguloErr::Vm(VmError::FloatPending)));
    assert_eq!(vm.resume_float(3.75f64.to_bits()), Ok(()));
    assert_eq!(vm.run(), Ok(Event::Halt));
    assert_eq!(vm.run(), Ok(Event::Halt));
    let (result, heap) = vm.finalize().unwrap();
    assert_eq!(f64::from_bits(result.to_float(&heap)), 3.75);
    // the result lives in the cell of the left operand
    assert_eq!(result.ptr(), 0);
    assert_eq!(heap.len(), 2);
}

#[test]
fn pool_entries_are_read_once() {
    expect_vm_error(vec![float_constant(0)], VmError::BadPoolIndex);
    let mut vm = VM::new(
        vec![float_constant(0), float_constant(0), Word::integer(0, OpCode::Stop)],
        vec![1.5f64.to_bits()],
        vec![],
    );
    assert_eq!(run(&mut vm), Err(LanguloErr::Vm(VmError::PoolEntryTaken)));

    let text = Word::new(0, OpCode::ReadFromMap, ValueTag::StrPtr);
    let mut vm = VM::new(
        vec![text, text, Word::integer(0, OpCode::Stop)],
        vec![],
        vec![Some("hello".to_string())],
    );
    assert_eq!(vm.step(), Ok(Event::Continue));
    assert_eq!(vm.step(), Err(LanguloErr::Vm(VmError::PoolEntryTaken)));
    let word = vm.pop_value().unwrap();
    assert_eq!(word.as_str(vm.heap()), "hello");
    let mut vm = VM::new(vec![text], vec![], vec![None]);
    assert_eq!(vm.step(), Err(LanguloErr::Vm(VmError::PoolEntryTaken)));
    let mut vm = VM::new(vec![Word::new(1, OpCode::ReadFromMap, ValueTag::StrPtr)], vec![], vec![None]);
    assert_eq!(vm.step(), Err(LanguloErr::Vm(VmError::BadPoolIndex)));
    expect_vm_error(vec![Word::new(0, OpCode::ReadFromMap, ValueTag::Int)], VmError::BadOperand);
}

#[test]
fn errors_of_the_machine() {
    expect_vm_error(vec![Word::integer(0, OpCode::Add)], VmError::StackUnderflow);
    expect_vm_error(vec![Word::integer(1, OpCode::Value), Word::integer(0, OpCode::Add)], VmError::StackUnderflow);
    expect_vm_error(vec![Word::integer(1, OpCode::AddThis)], VmError::StackUnderflow);
    expect_vm_error(vec![Word::integer(0, OpCode::Negate)], VmError::StackUnderflow);
    expect_vm_error(vec![Word::integer(0, OpCode::SetLocal)], VmError::StackUnderflow);
    expect_vm_error(vec![Word::integer(0, OpCode::Print)], VmError::StackUnderflow);
    expect_vm_error(vec![Word::integer(0, OpCode::JumpIfFalse)], VmError::StackUnderflow);
    expect_vm_error(vec![Word::integer(0, OpCode::JumpIfNo)], VmError::StackUnderflow);
    expect_vm_error(vec![Word::integer(0, OpCode::WrapInOption)], VmError::StackUnderflow);
    expect_vm_error(vec![Word::integer(0, OpCode::UnwrapOption)], VmError::StackUnderflow);
    expect_vm_error(vec![Word::integer(1, OpCode::Value), Word::integer(0, OpCode::IndexGet)], VmError::StackUnderflow);
    expect_vm_error(vec![Word::new(1, OpCode::ReadFromMap, ValueTag::TablePtr)], VmError::StackUnderflow);
    expect_vm_error(
        vec![Word::integer(1, OpCode::Value), Word::integer(0, OpCode::DivideThis)],
        VmError::DivisionByZero,
    );
    expect_vm_error(
        vec![Word::integer(1, OpCode::Value), Word::integer(0, OpCode::ModuloThis)],
        VmError::DivisionByZero,
    );
    expect_vm_error(
        vec![Word::integer(1, OpCode::Value), Word::bool(true, OpCode::AddThis)],
        VmError::TagMismatch,
    );
    expect_vm_error(vec![Word::no_option(), Word::integer(0, OpCode::WrapInOption), Word::integer(0, OpCode::UnwrapOption)], VmError::UnwrapNone);
    expect_vm_error(vec![Word::integer(1, OpCode::UnwrapOptionThis)], VmError::BadOperand);
    expect_vm_error(vec![Word::integer(1, OpCode::NegateThis)], VmError::BadOperand);
    expect_vm_error(vec![Word::integer(1, OpCode::Value), Word::integer(0, OpCode::JumpIfFalse)], VmError::BadOperand);
    expect_vm_error(vec![Word::integer(1, OpCode::Value), Word::integer(0, OpCode::JumpIfNo)], VmError::BadOperand);
    expect_vm_error(vec![Word::integer(0, OpCode::GetLocal)], VmError::BadLocal);
    for op in [OpCode::Return, OpCode::Jump, OpCode::Call, OpCode::CallBuiltin, OpCode::SetGlobal, OpCode::GetGlobal, OpCode::IndexSet, OpCode::Cast, OpCode::CastThis] {
        expect_vm_error(vec![Word::integer(0, op)], VmError::InvalidOpcode);
    }
    expect_vm_error(vec![Word::from_u64(0x3F0)], VmError::InvalidOpcode);
    expect_vm_error(vec![Word::from_u64(0xF)], VmError::InvalidOpcode);
    // a jump that leaves the code
    expect_vm_error(vec![Word::bool(false, OpCode::Value), Word::integer(2, OpCode::JumpIfFalse)], VmError::EndOfCode);
    // code without a stop
    let mut vm = VM::from_bytecode_only(vec![Word::integer(1, OpCode::Value)]);
    assert_eq!(vm.run(), Err(LanguloErr::Vm(VmError::EndOfCode)));
    let mut vm = VM::from_bytecode_only(vec![]);
    assert_eq!(vm.step(), Err(LanguloErr::Vm(VmError::EndOfCode)));
    assert_eq!(vm.pop_value(), Err(LanguloErr::Vm(VmError::StackUnderflow)));
    assert!(matches!(vm.finalize(), Err(LanguloErr::Vm(VmError::StackUnderflow))));
}

#[test]
fn a_failed_step_changes_nothing() {
    let mut vm = machine(vec![
        Word::integer(1, OpCode::Value),
        Word::bool(true, OpCode::Value),
        Word::integer(0, OpCode::Add),
    ]);
    assert_eq!(vm.step(), Ok(Event::Continue));
    assert_eq!(vm.step(), Ok(Event::Continue));
    assert_eq!(vm.step(), Err(LanguloErr::Vm(VmError::TagMismatch)));
    assert_eq!(vm.step(), Err(LanguloErr::Vm(VmError::TagMismatch)));
    assert_eq!(vm.pop_value(), Ok(Word::bool(true, OpCode::Value)));
    assert_eq!(vm.pop_value(), Ok(Word::integer(1, OpCode::Value)));
    assert_eq!(vm.pop_value(), Err(LanguloErr::Vm(VmError::StackUnderflow)));
}

#[test]
fn locals() {
    let mut get = Word::integer(0, OpCode::GetLocal);
    get.set_aux(1);
    expect_vm_execution(
        vec![
            Word::integer(3, OpCode::SetLocalThis),
            Word::integer(4, OpCode::Value),
            Word::integer(0, OpCode::SetLocal),
            Word::integer(0, OpCode::GetLocal),
            get,
            Word::integer(0, OpCode::Subtract),
        ],
        Word::integer(-1, OpCode::Value),
    );
    expect_vm_error(vec![Word::integer(3, OpCode::SetLocalThis), get], VmError::BadLocal);
}

#[test]
fn negation() {
    expect_vm_execution(
        vec![Word::bool(false, OpCode::Value), Word::integer(0, OpCode::Negate)],
        Word::bool(true, OpCode::Value),
    );
    expect_vm_execution(vec![Word::bool(false, OpCode::NegateThis)], Word::bool(true, OpCode::Value));
}

#[test]
fn options_in_the_machine() {
    let mut vm = machine(vec![Word::integer(5, OpCode::WrapInOptionThis)]);
    run(&mut vm).unwrap();
    let (option, heap) = vm.finalize().unwrap();
    assert_eq!(option.tag(), ValueTag::OptionPtr);
    assert_eq!(option.as_option(&heap), Some(Word::integer(5, OpCode::Value)));

    let mut vm = machine(vec![with_opcode(Word::no_option(), OpCode::WrapInOptionThis)]);
    run(&mut vm).unwrap();
    let (option, heap) = vm.finalize().unwrap();
    assert_eq!(option.as_option(&heap), None);

    expect_vm_execution(
        vec![Word::integer(5, OpCode::Value), Word::integer(0, OpCode::WrapInOption), Word::integer(0, OpCode::UnwrapOption)],
        Word::integer(5, OpCode::Value),
    );
    expect_vm_execution(
        vec![Word::char('c', OpCode::WrapInOptionThis), Word::integer(0, OpCode::UnwrapOption)],
        Word::char('c', OpCode::Value),
    );
}

#[test]
fn jumps() {
    // true: the branch runs
    expect_vm_execution(
        vec![
            Word::bool(true, OpCode::Value),
            Word::integer(1, OpCode::JumpIfFalse),
            Word::integer(7, OpCode::Value),
        ],
        Word::integer(7, OpCode::Value),
    );
    // false: the branch is skipped and the result is none
    let mut vm = machine(vec![
        Word::bool(false, OpCode::Value),
        Word::integer(1, OpCode::JumpIfFalse),
        Word::integer(7, OpCode::Value),
    ]);
    assert_eq!(run(&mut vm), Ok(vec![]));
    let (option, heap) = vm.finalize().unwrap();
    assert_eq!(option.as_option(&heap), None);
    // an option with a value: the value stays and the fallback is skipped
    expect_vm_execution(
        vec![
            Word::integer(2, OpCode::WrapInOptionThis),
            Word::integer(1, OpCode::JumpIfNo),
            Word::integer(3, OpCode::Value),
        ],
        Word::integer(2, OpCode::Value),
    );
    // an option without: the fallback runs
    expect_vm_execution(
        vec![
            with_opcode(Word::no_option(), OpCode::WrapInOptionThis),
            Word::integer(1, OpCode::JumpIfNo),
            Word::integer(3, OpCode::Value),
        ],
        Word::integer(3, OpCode::Value),
    );
}

#[test]
fn tables_in_the_machine() {
    let table = Word::new(2, OpCode::ReadFromMap, ValueTag::TablePtr);
    let program = |key: Word| {
        vec![
            Word::integer(1, OpCode::Value),
            Word::integer(10, OpCode::Value),
            Word::default_table_arm(),
            Word::integer(99, OpCode::Value),
            table,
            key,
        ]
    };
    for (key, expected) in [(1, 10), (2, 99)] {
        let mut vm = machine(program(Word::integer(key, OpCode::IndexGetThis)));
        run(&mut vm).unwrap();
        let (option, heap) = vm.finalize().unwrap();
        assert_eq!(option.as_option(&heap), Some(Word::integer(expected, OpCode::Value)));

        let mut code = program(Word::integer(key, OpCode::Value));
        code.push(Word::integer(0, OpCode::IndexGet));
        let mut vm = machine(code);
        run(&mut vm).unwrap();
        let (option, heap) = vm.finalize().unwrap();
        assert_eq!(option.as_option(&heap), Some(Word::integer(expected, OpCode::Value)));
    }
    // without a default arm a missing key gives none
    let mut vm = machine(vec![
        Word::integer(1, OpCode::Value),
        Word::integer(10, OpCode::Value),
        Word::new(1, OpCode::ReadFromMap, ValueTag::TablePtr),
        Word::integer(5, OpCode::IndexGetThis),
    ]);
    run(&mut vm).unwrap();
    let (option, heap) = vm.finalize().unwrap();
    assert_eq!(option.as_option(&heap), None);
    // where a key comes twice in a literal, its first value stays
    let mut vm = machine(vec![
        Word::integer(1, OpCode::Value),
        Word::integer(10, OpCode::Value),
        Word::integer(1, OpCode::Value),
        Word::integer(20, OpCode::Value),
        table,
    ]);
    run(&mut vm).unwrap();
    let (word, heap) = vm.finalize().unwrap();
    assert_eq!(word.as_table(&heap).len(), 1);
    assert_eq!(word.as_table(&heap).get(&Word::integer(1, OpCode::Value)), Some(Word::integer(10, OpCode::Value)));
    expect_vm_error(vec![Word::integer(1, OpCode::Value), Word::integer(5, OpCode::IndexGetThis)], VmError::BadOperand);
}

#[test]
fn printing_hands_the_value_over() {
    let mut vm = machine(vec![
        Word::integer(3, OpCode::Value),
        Word::integer(0, OpCode::Print),
        Word::integer(4, OpCode::PrintThis),
    ]);
    assert_eq!(vm.run(), Ok(Event::Print(Word::integer(3, OpCode::Value))));
    assert_eq!(vm.run(), Ok(Event::Print(Word::integer(4, OpCode::Value))));
    assert_eq!(vm.run(), Ok(Event::Halt));
    assert_eq!(vm.pop_value(), Ok(Word::integer(4, OpCode::Value)));
    assert_eq!(vm.pop_value(), Ok(Word::integer(3, OpCode::Value)));
}

#[test]
fn every_allocation_is_traced() {
    let mut heap = Heap::new();
    let mut gc = GarbageCollector::new();
    gc.trace_if_heap(Word::integer(1, OpCode::Value));
    let w = Word::float(0, OpCode::Value, &mut heap, &mut gc);
    gc.trace_if_heap(w);
    gc.trace(Word::integer(1, OpCode::Value));
    assert!(gc.all_marked());
}

#[test]
fn comparisons_of_negative_integers() {
    let cases = [
        (-1, 3, OpCode::LessThanThis, true),
        (-1, 3, OpCode::GreaterThanThis, false),
        (-1, 3, OpCode::LessThanEqThis, true),
        (-1, 3, OpCode::GreaterThanEqThis, false),
        (3, -1, OpCode::GreaterThanThis, true),
        (3, -1, OpCode::LessThanThis, false),
        (-5, -2, OpCode::LessThanThis, true),
        (-2, -5, OpCode::GreaterThanEqThis, true),
        (-4, -4, OpCode::LessThanEqThis, true),
        (-4, -4, OpCode::EqualsThis, true),
        (-4, 4, OpCode::NotEqualsThis, true),
        (i32::MIN, i32::MAX, OpCode::LessThanThis, true),
    ];
    for (lhs, rhs, op, expected) in cases {
        expect_vm_execution(
            vec![Word::integer(lhs, OpCode::Value), Word::integer(rhs, op)],
            Word::bool(expected, OpCode::Value),
        );
    }
    // and with the operand on the stack
    expect_vm_execution(
        vec![
            Word::integer(-1, OpCode::Value),
            Word::integer(3, OpCode::Value),
            Word::integer(0, OpCode::LessThan),
        ],
        Word::bool(true, OpCode::Value),
    );
}
