use langulo::emitter::Emitter;
use langulo::errors::err::{EmitError, LanguloErr, SemanticError, VmError};
use langulo::parser::ast::lang::LanguloSyntaxNode;
use langulo::parser::ast::node::AstNode;
use langulo::parser::Parser;
use langulo::vm::machine::Event;
use langulo::vm::VM;
use langulo::word::display::Fragment;
use langulo::word::heap::Heap;
use langulo::word::opcode::OpCode;
use langulo::word::operations::{Arith, FloatRequest, Operand};
use langulo::word::structure::{ValueTag, Word};

/// Gives the float literals of a tree their values.
fn read_floats(node: &mut LanguloSyntaxNode) -> Result<(), LanguloErr> {
    if node.kind == AstNode::Float {
        let value: f64 =
            node.text.parse().map_err(|_| LanguloErr::Semantic(SemanticError::Malformed))?;
        node.float_bits = value.to_bits();
    }
    for child in node.children.iter_mut() {
        read_floats(child)?;
    }
    Ok(())
}

fn emitter(input: &str) -> Result<Emitter, LanguloErr> {
    let mut parser = Parser::new(input);
    parser.parse()?;
    let mut ast_root = parser.to_ast();
    read_floats(&mut ast_root)?;
    Ok(Emitter::new(ast_root))
}

fn number(operand: Operand) -> f64 {
    match operand {
        Operand::Int(value) => value as f64,
        Operand::Float(bits) => f64::from_bits(bits),
    }
}

fn compute(request: FloatRequest) -> u64 {
    let (a, b) = (number(request.lhs), number(request.rhs));
    let result = match request.op {
        Arith::Add => a + b,
        Arith::Subtract => a - b,
        Arith::Multiply => a * b,
        Arith::Divide => a / b,
        Arith::Modulo => a % b,
        Arith::Power => a.powf(b),
    };
    result.to_bits()
}

fn text_of(heap: &Heap, word: Word) -> String {
    let mut text = String::new();
    for fragment in heap.render(word).unwrap() {
        match fragment {
            Fragment::Text(piece) => text.push_str(&piece),
            Fragment::Float(bits) => text.push_str(&format!("{}", f64::from_bits(bits))),
        }
    }
    text
}

fn run(vm: &mut VM) -> Result<Vec<String>, LanguloErr> {
    let mut printed = Vec::new();
    loop {
        match vm.run()? {
            Event::Halt => return Ok(printed),
            Event::Float(request) => vm.resume_float(compute(request))?,
            Event::Print(word) => printed.push(text_of(vm.heap(), word)),
            Event::Continue => unreachable!(),
        }
    }
}

fn machine(input: &str) -> VM {
    let mut emitter = emitter(input).expect("could not emit");
    emitter.emit().unwrap();
    let mut buf = vec![];
    emitter.write_to_stream(&mut buf).expect("could not write to stream");
    VM::from_compiled_stream(&buf).expect("failed to spin vm up from stream")
}

fn result_of(input: &str) -> Result<String, LanguloErr> {
    let mut emitter = emitter(input)?;
    emitter.emit()?;
    let mut buf = vec![];
    emitter.write_to_stream(&mut buf)?;
    let mut vm = VM::from_compiled_stream(&buf)?;
    run(&mut vm)?;
    let (word, heap) = vm.finalize()?;
    Ok(text_of(&heap, word))
}

fn expect_vm_output(input: &str, expected_output: &str) {
    let mut vm = machine(input);
    run(&mut vm).expect("error while running");
    let (result, heap) = vm.finalize().unwrap();
    assert_eq!(expected_output, text_of(&heap, result));
}

#[test]
fn test_addition() {
    expect_vm_output("3+2;", "5");
}

#[test]
fn test_if() {
    expect_vm_output("if true {2};", "2?");
    expect_vm_output("if false {2};", "no");
    expect_vm_output("if false {2}; 3;", "3");
}

#[test]
fn test_else() {
    expect_vm_output("no else {3};", "3");
    expect_vm_output("2? else {3};", "2");
}

#[test]
fn chained_and_reassigned() {
    expect_vm_output("2+3*4;", "14");
    expect_vm_output("var x = 3; x = 4;", "4");
}

fn expect_emit(input: &str, expected_bytecode: Vec<Word>) {
    let mut emitter = emitter(input).unwrap();
    emitter.emit().unwrap();
    let instructions = emitter.to_bytecode();
    assert_eq!(
        instructions.len(),
        1 + expected_bytecode.len(),
        "got this bytecode: {:?}",
        instructions
    ); // taking into account the stop instruction
    for (obtained, expected) in instructions.into_iter().zip(expected_bytecode) {
        assert_eq!(obtained, expected);
        assert_eq!(obtained.tag(), expected.tag());
        assert_eq!(obtained.opcode(), expected.opcode());
    }
}

#[test]
fn simple_addition() {
    expect_emit("3;", vec![Word::integer(3, OpCode::Value)]);
    expect_emit("3+2;", vec![Word::integer(3, OpCode::Value), Word::integer(2, OpCode::AddThis)]);
    expect_emit(
        "2+3*4;",
        vec![
            Word::integer(2, OpCode::Value),
            Word::integer(3, OpCode::Value),
            Word::integer(4, OpCode::MultiplyThis),
            Word::integer(0, OpCode::Add),
        ],
    );
    // todo could write in this optimization
    expect_emit(
        "3*4+2;",
        vec![
            // 1 less instruction!
            Word::integer(3, OpCode::Value),
            Word::integer(4, OpCode::MultiplyThis),
            Word::integer(2, OpCode::AddThis),
        ],
    );
}

#[test]
fn mod_variable_decl() {
    expect_emit(
        "var x = 3; x = 4;",
        vec![Word::integer(3, OpCode::SetLocalThis), Word::integer(4, OpCode::SetLocalThis)],
    );
}

#[test]
fn emit_stream_with_heap_allocs() {
    let mut vm = machine(
        r#"
        3.3 + 5.6;
        "#,
    );
    run(&mut vm).expect("error while running");
    let (result, heap) = vm.finalize().unwrap();
    assert_eq!(f64::from_bits(result.to_float(&heap)), 3.3 + 5.6);
}

#[test]
fn from_emitted_stream() {
    let mut vm = machine(
        r#"
        2 + 3 * 4;
        "#,
    );
    run(&mut vm).expect("error while running");
    let (result, _) = vm.finalize().unwrap();
    assert_eq!(result, Word::integer(14, OpCode::Value));
}

#[test]
fn emit_option() {
    let mut vm = machine(
        r#"
        3??;
        "#,
    );
    run(&mut vm).expect("error while running");

    let (result, heap) = vm.finalize().unwrap();
    assert_eq!(result.tag(), ValueTag::OptionPtr);
    let result = result.as_option(&heap);
    assert!(result.is_some());
    println!("result:\n {:?}", result);

    let inner = result.expect("expected a nested value");
    assert_eq!(inner.tag(), ValueTag::OptionPtr);
    let inner = inner.as_option(&heap);
    assert!(inner.is_some());
    println!("inner:\n {:?}", inner);

    let integer = inner.expect("expected a number");
    assert_eq!(integer, Word::integer(3, OpCode::Value));
}

#[test]
fn programs() {
    for (source, expected) in [
        ("1 + 2 * (5 - 3);", "5"),
        ("7 / 2; 7 % 2;", "1"),
        ("-7 / 2;", "-3"),
        ("-7 % 3;", "-1"),
        ("2 ^ 10;", "1024"),
        ("2.5 * 2.0 - 1.0;", "4"),
        ("7.2 % 3.3;", "0.6000000000000005"),
        ("not true;", "false"),
        ("true and not false;", "true"),
        ("true xor true;", "false"),
        ("1 < 2;", "true"),
        ("2 <= 1;", "false"),
        ("3 == 3;", "true"),
        ("1.5 != 1.5;", "false"),
        ("'a' < 'b';", "true"),
        ("3?!;", "3"),
        ("3?? ;", "3??"),
        ("no;", "no"),
        ("var x = 3; var y = x * x; x + y;", "12"),
        ("var x = 1; x = x + 1; x = x + 1; x;", "3"),
        ("var x = 1; { var x = 2; x };", "2"),
        ("if 1 < 2 {10} else {20};", "10"),
        ("if 2 < 1 {10} else {20};", "20"),
        ("if true 1 else 2;", "1"),
        ("if false 1 else 2;", "2"),
        ("if false {1} else {if true {2} else {3}};", "2"),
        ("if false {1} else {if true {2}};", "2?"),
        ("{ if true {1}; 2 };", "2"),
        ("[1: 10, 2: 20][2];", "20?"),
        ("[1: 10, _: 99][5];", "99?"),
        ("[1: 10][5];", "no"),
        ("[2: true, 1: 1.5];", "[1: 1.52: true]"),
        ("\"hi\";", "\"\"hi\"\""),
        ("1; 2; 3", "3"),
    ] {
        assert_eq!(result_of(source), Ok(expected.to_string()), "{}", source);
    }
}

#[test]
fn programs_that_fail() {
    for (source, expected) in [
        ("1 / 0;", LanguloErr::Vm(VmError::DivisionByZero)),
        ("1 % 0;", LanguloErr::Vm(VmError::DivisionByZero)),
        ("1.5 / 0.0;", LanguloErr::Vm(VmError::DivisionByZero)),
        ("no!;", LanguloErr::Vm(VmError::UnwrapNone)),
        ("1 + true;", LanguloErr::Vm(VmError::TagMismatch)),
        ("1 and 2;", LanguloErr::Vm(VmError::BadOperand)),
        ("", LanguloErr::Vm(VmError::StackUnderflow)),
        ("x;", LanguloErr::Emit(EmitError::UnknownIdentifier)),
        ("x = 1;", LanguloErr::Emit(EmitError::UnknownIdentifier)),
        ("var x = 1; var x = 2;", LanguloErr::Semantic(SemanticError::DuplicateVariable)),
        ("99999999999;", LanguloErr::Semantic(SemanticError::Malformed)),
        ("|it|;", LanguloErr::Emit(EmitError::Unimplemented)),
        ("1 +;", LanguloErr::Semantic(SemanticError::Malformed)),
        ("1 2;", LanguloErr::Semantic(SemanticError::MissingTerminator)),
        ("[_: 1, _: 2];", LanguloErr::Semantic(SemanticError::DuplicateDefaultKey)),
        ("1 + #;", LanguloErr::Lexical { start: 4, end: 5 }),
    ] {
        assert_eq!(result_of(source), Err(expected), "{}", source);
    }
}

#[test]
fn print_is_an_expression() {
    let mut vm = machine("$ 3 + 4; ${5};");
    // a scope prints its last value when it ends
    assert_eq!(run(&mut vm), Ok(vec!["3".to_string(), "5".to_string(), "5".to_string()]));
    let (result, heap) = vm.finalize().unwrap();
    assert_eq!(text_of(&heap, result), "5");
}
