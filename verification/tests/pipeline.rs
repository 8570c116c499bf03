use langulo::artifact::{SECTION_FLOATS, SECTION_LOCALS, SECTION_STRINGS, SECTION_WORDS};
use langulo::emitter::Emitter;
use langulo::errors::err::{LanguloErr, LoadError, VmError};
use langulo::parser::ast::lang::LanguloSyntaxNode;
use langulo::parser::ast::node::AstNode;
use langulo::vm::input::{read_bytes, read_u32, read_u64, read_vec};
use langulo::vm::machine::Event;
use langulo::vm::VM;
use langulo::word::display::{decimal, Fragment};
use langulo::word::heap::Heap;
use langulo::word::opcode::OpCode;
use langulo::word::operations::{Arith, FloatRequest, Operand};
use langulo::word::structure::{ValueTag, Word};

fn leaf(kind: AstNode, text: &str) -> LanguloSyntaxNode {
    LanguloSyntaxNode::leaf(kind, text)
}

fn integer(value: i32) -> LanguloSyntaxNode {
    leaf(AstNode::Int, &format!("{}", value))
}

fn boolean(value: bool) -> LanguloSyntaxNode {
    leaf(AstNode::Bool, if value { "true" } else { "false" })
}

fn float(value: f64) -> LanguloSyntaxNode {
    LanguloSyntaxNode::float(&format!("{:?}", value), value.to_bits())
}

fn node(kind: AstNode, children: Vec<LanguloSyntaxNode>) -> LanguloSyntaxNode {
    LanguloSyntaxNode::branch(kind, "", children)
}

fn named(kind: AstNode, name: &str, children: Vec<LanguloSyntaxNode>) -> LanguloSyntaxNode {
    LanguloSyntaxNode::branch(kind, name, children)
}

fn scope(statements: Vec<LanguloSyntaxNode>) -> LanguloSyntaxNode {
    node(AstNode::Scope, statements)
}

fn no() -> LanguloSyntaxNode {
    node(AstNode::Option, vec![])
}

fn some(inner: LanguloSyntaxNode) -> LanguloSyntaxNode {
    node(AstNode::Option, vec![inner])
}

fn number(operand: Operand) -> f64 {
    match operand {
        Operand::Int(value) => value as f64,
        Operand::Float(bits) => f64::from_bits(bits),
    }
}

fn compute(request: FloatRequest) -> u64 {
    let (a, b) = (number(request.lhs), number(request.rhs));
    let result = match request.op {
        Arith::Add => a + b,
        Arith::Subtract => a - b,
        Arith::Multiply => a * b,
        Arith::Divide => a / b,
        Arith::Modulo => a % b,
        Arith::Power => a.powf(b),
    };
    result.to_bits()
}

fn text_of(heap: &Heap, word: Word) -> String {
    let mut text = String::new();
    for fragment in heap.render(word).unwrap() {
        match fragment {
            Fragment::Text(piece) => text.push_str(&piece),
            Fragment::Float(bits) => text.push_str(&format!("{}", f64::from_bits(bits))),
        }
    }
    text
}

/// Runs the machine to its `Stop`, and returns the text of what it printed.
fn run(vm: &mut VM) -> Result<Vec<String>, LanguloErr> {
    let mut printed = Vec::new();
    loop {
        match vm.run()? {
            Event::Halt => return Ok(printed),
            Event::Float(request) => vm.resume_float(compute(request))?,
            Event::Print(word) => printed.push(text_of(vm.heap(), word)),
            Event::Continue => unreachable!(),
        }
    }
}

fn compile(statements: Vec<LanguloSyntaxNode>) -> Vec<u8> {
    let mut emitter = Emitter::new(node(AstNode::Root, statements));
    emitter.emit().unwrap();
    let mut buf = vec![];
    emitter.write_to_stream(&mut buf).expect("could not write to stream");
    buf
}

fn load_and_run(statements: Vec<LanguloSyntaxNode>) -> (Word, Heap) {
    let buf = compile(statements);
    let mut vm = VM::from_compiled_stream(&buf).expect("failed to spin vm up from stream");
    run(&mut vm).expect("error while running");
    vm.finalize().unwrap()
}

fn expect_vm_output(statements: Vec<LanguloSyntaxNode>, expected_output: &str) {
    let (result, heap) = load_and_run(statements);
    assert_eq!(expected_output, text_of(&heap, result));
}

#[test]
fn addition_from_a_tree() {
    // 3+2;
    expect_vm_output(vec![node(AstNode::Add, vec![integer(3), integer(2)])], "5");
}

#[test]
fn conditionals_from_trees() {
    // if true {2};
    expect_vm_output(vec![node(AstNode::If, vec![boolean(true), scope(vec![integer(2)])])], "2?");
    // if false {2};
    expect_vm_output(vec![node(AstNode::If, vec![boolean(false), scope(vec![integer(2)])])], "no");
    // if false {2}; 3;
    expect_vm_output(
        vec![node(AstNode::If, vec![boolean(false), scope(vec![integer(2)])]), integer(3)],
        "3",
    );
}

#[test]
fn fallbacks_from_trees() {
    // no else {3};
    expect_vm_output(vec![node(AstNode::Else, vec![no(), scope(vec![integer(3)])])], "3");
    // 2? else {3};
    expect_vm_output(vec![node(AstNode::Else, vec![some(integer(2)), scope(vec![integer(3)])])], "2");
}

#[test]
fn scenarios() {
    // 2+3*4;
    expect_vm_output(
        vec![node(AstNode::Add, vec![integer(2), node(AstNode::Multiply, vec![integer(3), integer(4)])])],
        "14",
    );
    // var x = 3; x = 4;
    expect_vm_output(
        vec![named(AstNode::VarDecl, "x", vec![integer(3)]), named(AstNode::Assign, "x", vec![integer(4)])],
        "4",
    );
    // if true 2;  if false 2;  with branches that are pure values
    expect_vm_output(vec![node(AstNode::If, vec![boolean(true), integer(2)])], "2?");
    expect_vm_output(vec![node(AstNode::If, vec![boolean(false), integer(2)])], "no");
    expect_vm_output(vec![node(AstNode::If, vec![boolean(false), integer(2)]), integer(3)], "3");
    expect_vm_output(vec![node(AstNode::Else, vec![no(), integer(3)])], "3");
    expect_vm_output(vec![node(AstNode::Else, vec![some(integer(2)), integer(3)])], "2");
    // if 1 < 2 {10} else {20};  if 2 < 1 {10} else {20};
    for (a, b, expected) in [(1, 2, "10"), (2, 1, "20")] {
        expect_vm_output(
            vec![node(
                AstNode::Else,
                vec![
                    node(
                        AstNode::If,
                        vec![node(AstNode::LessThan, vec![integer(a), integer(b)]), scope(vec![integer(10)])],
                    ),
                    scope(vec![integer(20)]),
                ],
            )],
            expected,
        );
    }
    // var x = 5; var y = x * x; { var x = y - 1; x } ; x + y
    expect_vm_output(
        vec![
            named(AstNode::VarDecl, "x", vec![integer(5)]),
            named(
                AstNode::VarDecl,
                "y",
                vec![node(AstNode::Multiply, vec![leaf(AstNode::Identifier, "x"), leaf(AstNode::Identifier, "x")])],
            ),
            node(
                AstNode::Add,
                vec![leaf(AstNode::Identifier, "x"), leaf(AstNode::Identifier, "y")],
            ),
        ],
        "30",
    );
}

#[test]
fn floats_from_a_tree() {
    // 3.3 + 5.6;
    let (result, heap) = load_and_run(vec![node(AstNode::Add, vec![float(3.3), float(5.6)])]);
    assert_eq!(f64::from_bits(result.to_float(&heap)), 3.3 + 5.6);
}

#[test]
fn chained_operators_from_a_tree() {
    // 2 + 3 * 4;
    let (result, _) = load_and_run(vec![node(
        AstNode::Add,
        vec![integer(2), node(AstNode::Multiply, vec![integer(3), integer(4)])],
    )]);
    assert_eq!(result, Word::integer(14, OpCode::Value));
}

#[test]
fn nested_options_from_a_tree() {
    // 3??;
    let (result, heap) = load_and_run(vec![some(some(integer(3)))]);
    assert_eq!(result.tag(), ValueTag::OptionPtr);
    let result = result.as_option(&heap);
    assert!(result.is_some());
    println!("result:\n {:?}", result);

    let inner = result.expect("expected a nested value");
    assert_eq!(inner.tag(), ValueTag::OptionPtr);
    let inner = inner.as_option(&heap);
    assert!(inner.is_some());
    let integer = inner.expect("expected a number");
    assert_eq!(integer, Word::integer(3, OpCode::Value));
}

#[test]
fn values_as_text() {
    expect_vm_output(vec![integer(-2147483648)], "-2147483648");
    expect_vm_output(vec![integer(0)], "0");
    expect_vm_output(vec![integer(1002003)], "1002003");
    expect_vm_output(vec![boolean(true)], "true");
    expect_vm_output(vec![boolean(false)], "false");
    expect_vm_output(vec![leaf(AstNode::Char, "'q'")], "q");
    expect_vm_output(vec![float(2.5)], "2.5");
    expect_vm_output(vec![leaf(AstNode::Str, "hello")], "\"hello\"");
    expect_vm_output(vec![some(some(integer(3)))], "3??");
    expect_vm_output(vec![some(no())], "no?");
    expect_vm_output(vec![leaf(AstNode::DefaultKey, "_")], "_");
    expect_vm_output(
        vec![node(
            AstNode::Table,
            vec![
                node(AstNode::TablePair, vec![integer(2), float(0.5)]),
                node(AstNode::TablePair, vec![integer(1), some(boolean(true))]),
            ],
        )],
        "[1: true?2: 0.5]",
    );
    expect_vm_output(vec![node(AstNode::Table, vec![])], "[]");
    assert_eq!(decimal(0), "0");
    assert_eq!(decimal(-1), "-1");
    assert_eq!(decimal(i32::MAX), "2147483647");
    assert_eq!(decimal(i32::MIN), "-2147483648");
    assert_eq!(decimal(1000), "1000");
    for value in [7, 10, 99, 100, -100, 123456789, -98765] {
        assert_eq!(decimal(value), format!("{}", value));
    }
}

#[test]
fn values_without_text() {
    let mut heap = Heap::new();
    assert_eq!(
        heap.render(Word::new(0, OpCode::Value, ValueTag::FnPtr)),
        Err(LanguloErr::Vm(VmError::BadOperand))
    );
    assert_eq!(
        heap.render(Word::new(0, OpCode::Value, ValueTag::FloatPtr)),
        Err(LanguloErr::Vm(VmError::BadAddress))
    );
    assert_eq!(heap.render(Word::from_u64(0xF)), Err(LanguloErr::Vm(VmError::BadOperand)));
    // an option that holds itself
    let mut gc = langulo::vm::garbage_collector::GarbageCollector::new();
    let option = Word::option(None, OpCode::Value, &mut heap, &mut gc);
    *option.as_option_mut(&mut heap) = Some(option);
    assert_eq!(heap.render(option), Err(LanguloErr::Vm(VmError::BadAddress)));
}

#[test]
fn printing() {
    // $3; ${4}
    let buf = compile(vec![
        node(AstNode::Print, vec![integer(3)]),
        node(AstNode::Print, vec![scope(vec![float(1.5)])]),
    ]);
    let mut vm = VM::from_compiled_stream(&buf).unwrap();
    // a scope prints its last value when it ends
    assert_eq!(run(&mut vm), Ok(vec!["3".to_string(), "1.5".to_string(), "1.5".to_string()]));
}

#[test]
fn the_artifact_byte_by_byte() {
    // 3 + 2; 1.5; "hi"; var x = true;
    let buf = compile(vec![
        node(AstNode::Add, vec![integer(3), integer(2)]),
        float(1.5),
        leaf(AstNode::Str, "hi"),
        named(AstNode::VarDecl, "x", vec![boolean(true)]),
    ]);
    let mut expected: Vec<u8> = vec![SECTION_WORDS, 6, 0, 0, 0];
    for word in [
        Word::integer(3, OpCode::Value),
        Word::integer(2, OpCode::AddThis),
        Word::raw_float(0),
        Word::new(0, OpCode::ReadFromMap, ValueTag::StrPtr),
        Word::bool(true, OpCode::SetLocalThis),
        Word::integer(0, OpCode::Stop),
    ] {
        expected.extend_from_slice(&word.0.to_le_bytes());
    }
    expected.extend_from_slice(&[SECTION_FLOATS, 1, 0, 0, 0]);
    expected.extend_from_slice(&1.5f64.to_le_bytes());
    expected.extend_from_slice(&[SECTION_STRINGS, 1, 0, 0, 0, 2, 0, 0, 0, b'h', b'i']);
    expected.extend_from_slice(&[SECTION_LOCALS, 1, 0, 0, 0]);
    assert_eq!(buf, expected);
    assert_eq!((SECTION_WORDS, SECTION_FLOATS, SECTION_STRINGS, SECTION_LOCALS), (1, 2, 3, 4));
    // the first word: tag Int, opcode Value, payload 3
    assert_eq!(&buf[5..13], &[0, 0, 0, 0, 3, 0, 0, 0]);
}

#[test]
fn writing_appends() {
    let mut emitter = Emitter::new(node(AstNode::Root, vec![integer(1)]));
    emitter.emit().unwrap();
    let mut buf = vec![0xAA, 0xBB];
    emitter.write_to_stream(&mut buf).unwrap();
    assert_eq!(&buf[..3], &[0xAA, 0xBB, SECTION_WORDS]);
    assert_eq!(buf.len(), 2 + 5 + 16 + 5 + 5 + 5);
}

#[test]
fn loading_gives_back_what_was_written() {
    let statements = vec![
        node(AstNode::Add, vec![float(3.25), float(-0.0)]),
        leaf(AstNode::Str, "héllo, wörld"),
        leaf(AstNode::Str, ""),
        node(AstNode::If, vec![boolean(true), scope(vec![integer(2)])]),
    ];
    let mut emitter = Emitter::new(node(AstNode::Root, statements));
    emitter.emit().unwrap();
    let mut buf = vec![];
    emitter.write_to_stream(&mut buf).unwrap();
    let floats = emitter.heap_floats().clone();
    let strings = emitter.heap_strings().clone();
    let code = emitter.to_bytecode();

    // the machine that is loaded does what the machine made of the parts does
    buf.extend_from_slice(&[1, 2, 3]);
    let mut loaded = VM::from_compiled_stream(&buf).unwrap();
    let mut made = VM::new(code.clone(), floats, strings.into_iter().map(Some).collect());
    loop {
        let (a, b) = (loaded.step(), made.step());
        assert_eq!(a, b);
        match a {
            Ok(Event::Halt) => break,
            Ok(Event::Float(request)) => {
                loaded.resume_float(compute(request)).unwrap();
                made.resume_float(compute(request)).unwrap();
            }
            Ok(_) => {}
            Err(e) => panic!("{:?}", e),
        }
    }
    loop {
        let (a, b) = (loaded.pop_value(), made.pop_value());
        assert_eq!(a, b);
        match a {
            Ok(word) => assert_eq!(loaded.heap().render(word), made.heap().render(word)),
            Err(_) => break,
        }
    }
    // and the words in the bytes are the words of the emitter
    let mut position = 5;
    for word in code {
        assert_eq!(read_u64(&buf, &mut position), Ok(word.0));
    }
}

fn load_error(bytes: &[u8]) -> LoadError {
    match VM::from_compiled_stream(bytes) {
        Err(LanguloErr::Load(e)) => e,
        Err(e) => panic!("{:?}", e),
        Ok(_) => panic!("loaded"),
    }
}

#[test]
fn what_cannot_be_loaded() {
    let good = compile(vec![leaf(AstNode::Str, "abc"), float(1.0)]);
    assert!(VM::from_compiled_stream(&good).is_ok());
    for cut in 0..good.len() {
        assert_eq!(load_error(&good[..cut]), LoadError::Truncated);
    }
    // each marker must be the right one
    let markers: Vec<usize> = vec![0, 5 + 3 * 8, 5 + 3 * 8 + 5 + 8, good.len() - 5];
    for (i, at) in markers.iter().enumerate() {
        assert_eq!(good[*at], i as u8 + 1);
        for wrong in [0u8, 5, 0xFF, ((i as u8 + 1) % 4) + 1] {
            let mut bad = good.clone();
            bad[*at] = wrong;
            assert_eq!(load_error(&bad), LoadError::BadSection);
        }
    }
    // a string that is not UTF-8
    let at = markers[2] + 5 + 4;
    assert_eq!(&good[at..at + 3], b"abc");
    let mut bad = good.clone();
    bad[at + 1] = 0xFF;
    assert_eq!(load_error(&bad), LoadError::InvalidUtf8);
    // a section that announces more than there is
    let mut bad = good.clone();
    bad[1] = 0xFF;
    assert_eq!(load_error(&bad), LoadError::Truncated);
    assert_eq!(load_error(&[]), LoadError::Truncated);
    assert_eq!(load_error(&[2]), LoadError::BadSection);
    // the smallest artifact
    let empty = [1, 0, 0, 0, 0, 2, 0, 0, 0, 0, 3, 0, 0, 0, 0, 4, 0, 0, 0, 0];
    let mut vm = VM::from_compiled_stream(&empty).unwrap();
    assert_eq!(vm.run(), Err(LanguloErr::Vm(VmError::EndOfCode)));
}

#[test]
fn reading_numbers() {
    let bytes = [1u8, 2, 3, 4, 5, 6, 7, 8, 9, 10];
    let mut position = 0;
    assert_eq!(read_u32(&bytes, &mut position), Ok(0x0403_0201));
    assert_eq!(position, 4);
    assert_eq!(read_u32(&bytes, &mut position), Ok(0x0807_0605));
    assert_eq!(read_u32(&bytes, &mut position), Err(LanguloErr::Load(LoadError::Truncated)));
    assert_eq!(position, 8);
    assert_eq!(read_bytes(&bytes, &mut position, 2), Ok(&bytes[8..]));
    assert_eq!(position, 10);
    assert_eq!(read_bytes(&bytes, &mut position, 0), Ok(&bytes[10..]));
    assert_eq!(read_bytes(&bytes, &mut position, 1), Err(LanguloErr::Load(LoadError::Truncated)));
    let mut position = 1;
    assert_eq!(read_u64(&bytes, &mut position), Ok(0x0908_0706_0504_0302));
    assert_eq!(position, 9);
    assert_eq!(read_u64(&bytes, &mut position), Err(LanguloErr::Load(LoadError::Truncated)));
    let mut position = 3;
    assert_eq!(read_vec(&bytes, &mut position, 3), Ok(vec![4, 5, 6]));
    assert_eq!(position, 6);
    assert_eq!(read_vec(&bytes, &mut position, usize::MAX), Err(LanguloErr::Load(LoadError::Truncated)));
    let mut position = 11;
    assert_eq!(read_vec(&bytes, &mut position, 0), Err(LanguloErr::Load(LoadError::Truncated)));
    assert_eq!(position, 11);
}
