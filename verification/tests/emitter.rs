use langulo::emitter::literal::{parse_bool, parse_char, parse_int};
use langulo::emitter::Emitter;
use langulo::errors::err::{EmitError, LanguloErr, SemanticError};
use langulo::parser::ast::lang::LanguloSyntaxNode;
use langulo::parser::ast::node::AstNode;
use langulo::word::opcode::OpCode;
use langulo::word::structure::{ValueTag, Word};

fn leaf(kind: AstNode, text: &str) -> LanguloSyntaxNode {
    LanguloSyntaxNode::leaf(kind, text)
}

fn integer(value: i32) -> LanguloSyntaxNode {
    leaf(AstNode::Int, &format!("{}", value))
}

fn boolean(value: bool) -> LanguloSyntaxNode {
    leaf(AstNode::Bool, if value { "true" } else { "false" })
}

fn float(value: f64) -> LanguloSyntaxNode {
    LanguloSyntaxNode::float(&format!("{:?}", value), value.to_bits())
}

fn node(kind: AstNode, children: Vec<LanguloSyntaxNode>) -> LanguloSyntaxNode {
    LanguloSyntaxNode::branch(kind, "", children)
}

fn named(kind: AstNode, name: &str, children: Vec<LanguloSyntaxNode>) -> LanguloSyntaxNode {
    LanguloSyntaxNode::branch(kind, name, children)
}

fn program(statements: Vec<LanguloSyntaxNode>) -> LanguloSyntaxNode {
    node(AstNode::Root, statements)
}

fn emit(statements: Vec<LanguloSyntaxNode>) -> Result<Vec<Word>, LanguloErr> {
    let mut emitter = Emitter::new(program(statements));
    emitter.emit()?;
    Ok(emitter.to_bytecode())
}

fn jump(opcode: OpCode, distance: u32) -> Word {
    Word::new(distance, opcode, ValueTag::Int)
}

fn expect_emit(statements: Vec<LanguloSyntaxNode>, expected_bytecode: Vec<Word>) {
    let instructions = emit(statements).unwrap();
    assert_eq!(
        instructions.len(),
        1 + expected_bytecode.len(),
        "got this bytecode: {:?}",
        instructions
    ); // taking into account the stop instruction
    assert_eq!(instructions.last().unwrap().opcode(), OpCode::Stop);
    for (obtained, expected) in instructions.into_iter().zip(expected_bytecode) {
        assert_eq!(obtained, expected);
        assert_eq!(obtained.tag(), expected.tag());
        assert_eq!(obtained.opcode(), expected.opcode());
    }
}

#[test]
fn additions_from_trees() {
    // 3;
    expect_emit(vec![integer(3)], vec![Word::integer(3, OpCode::Value)]);
    // 3+2;
    expect_emit(
        vec![node(AstNode::Add, vec![integer(3), integer(2)])],
        vec![Word::integer(3, OpCode::Value), Word::integer(2, OpCode::AddThis)],
    );
    // 2+3*4;
    expect_emit(
        vec![node(AstNode::Add, vec![integer(2), node(AstNode::Multiply, vec![integer(3), integer(4)])])],
        vec![
            Word::integer(2, OpCode::Value),
            Word::integer(3, OpCode::Value),
            Word::integer(4, OpCode::MultiplyThis),
            Word::integer(0, OpCode::Add),
        ],
    );
    // 3*4+2;
    expect_emit(
        vec![node(AstNode::Add, vec![node(AstNode::Multiply, vec![integer(3), integer(4)]), integer(2)])],
        vec![
            // 1 less instruction!
            Word::integer(3, OpCode::Value),
            Word::integer(4, OpCode::MultiplyThis),
            Word::integer(2, OpCode::AddThis),
        ],
    );
}

#[test]
fn assignment_from_a_tree() {
    // var x = 3; x = 4;
    expect_emit(
        vec![
            named(AstNode::VarDecl, "x", vec![integer(3)]),
            named(AstNode::Assign, "x", vec![integer(4)]),
        ],
        vec![Word::integer(3, OpCode::SetLocalThis), Word::integer(4, OpCode::SetLocalThis)],
    );
}

#[test]
fn mod_options() {
    // expect_emit("3??;")
}

#[test]
fn nested_options() {
    // 3??;
    expect_emit(
        vec![node(AstNode::Option, vec![node(AstNode::Option, vec![integer(3)])])],
        vec![Word::integer(3, OpCode::WrapInOptionThis), Word::integer(0, OpCode::WrapInOption)],
    );
    // no;
    let mut no = Word::no_option();
    no.set_opcode(OpCode::WrapInOptionThis);
    expect_emit(vec![node(AstNode::Option, vec![])], vec![no]);
    // 3?!;
    expect_emit(
        vec![node(AstNode::UnwrapOption, vec![node(AstNode::Option, vec![integer(3)])])],
        vec![Word::integer(3, OpCode::WrapInOptionThis), Word::integer(0, OpCode::UnwrapOption)],
    );
}

#[test]
fn literals() {
    expect_emit(
        vec![boolean(true), boolean(false), leaf(AstNode::Char, "'c'"), leaf(AstNode::Char, "d"), integer(-12)],
        vec![
            Word::bool(true, OpCode::Value),
            Word::bool(false, OpCode::Value),
            Word::char('c', OpCode::Value),
            Word::char('d', OpCode::Value),
            Word::integer(-12, OpCode::Value),
        ],
    );
    let malformed = Err(LanguloErr::Semantic(SemanticError::Malformed));
    assert_eq!(emit(vec![leaf(AstNode::Int, "12a")]), malformed);
    assert_eq!(emit(vec![leaf(AstNode::Int, "2147483648")]), malformed);
    assert_eq!(emit(vec![leaf(AstNode::Bool, "yes")]), malformed);
    assert_eq!(emit(vec![leaf(AstNode::Char, "'ab'")]), malformed);
    assert_eq!(emit(vec![node(AstNode::Add, vec![])]), malformed);
    assert_eq!(emit(vec![node(AstNode::Grouping, vec![])]), malformed);
    assert_eq!(emit(vec![node(AstNode::If, vec![])]), malformed);
    assert_eq!(emit(vec![named(AstNode::VarDecl, "x", vec![])]), malformed);
    assert_eq!(emit(vec![node(AstNode::Table, vec![node(AstNode::TablePair, vec![])])]), malformed);
}

#[test]
fn reading_literals() {
    assert_eq!(parse_int("0"), Some(0));
    assert_eq!(parse_int("007"), Some(7));
    assert_eq!(parse_int("-2147483648"), Some(i32::MIN));
    assert_eq!(parse_int("2147483647"), Some(i32::MAX));
    assert_eq!(parse_int("+15"), Some(15));
    assert_eq!(parse_int("-2147483649"), None);
    assert_eq!(parse_int("99999999999999999999999"), None);
    assert_eq!(parse_int(""), None);
    assert_eq!(parse_int("-"), None);
    assert_eq!(parse_int("+"), None);
    assert_eq!(parse_int("1-"), None);
    assert_eq!(parse_int("--1"), None);
    assert_eq!(parse_int(" 1"), None);
    assert_eq!(parse_int("١"), None);
    for text in ["0", "-1", "+7", "123456", "-987654321", "2147483648", "x", "1e3", "0x10"] {
        assert_eq!(parse_int(text), text.parse::<i32>().ok());
    }
    assert_eq!(parse_bool("true"), Some(true));
    assert_eq!(parse_bool("false"), Some(false));
    assert_eq!(parse_bool("True"), None);
    assert_eq!(parse_bool("fals"), None);
    assert_eq!(parse_bool("truee"), None);
    assert_eq!(parse_bool(""), None);
    assert_eq!(parse_char("'c'"), Some('c'));
    assert_eq!(parse_char("c"), Some('c'));
    assert_eq!(parse_char("'é'"), Some('é'));
    assert_eq!(parse_char("'''"), Some('\''));
    assert_eq!(parse_char("'c"), None);
    assert_eq!(parse_char(""), None);
    assert_eq!(parse_char("\"c\""), None);
}

#[test]
fn constants_go_to_the_pools() {
    let mut emitter = Emitter::new(program(vec![
        node(AstNode::Add, vec![float(3.3), float(5.6)]),
        leaf(AstNode::Str, "\"hello\""),
        leaf(AstNode::Str, "world"),
    ]));
    emitter.emit().unwrap();
    assert_eq!(emitter.heap_floats(), &vec![3.3f64.to_bits(), 5.6f64.to_bits()]);
    assert_eq!(emitter.heap_strings(), &vec!["\"hello\"".to_string(), "world".to_string()]);
    let code = emitter.to_bytecode();
    assert_eq!(
        code,
        vec![
            Word::raw_float(0),
            Word::raw_float(1),
            Word::integer(0, OpCode::Add),
            Word::new(0, OpCode::ReadFromMap, ValueTag::StrPtr),
            Word::new(1, OpCode::ReadFromMap, ValueTag::StrPtr),
            Word::integer(0, OpCode::Stop),
        ]
    );
}

#[test]
fn operators() {
    let binary = [
        (AstNode::Add, OpCode::Add, OpCode::AddThis),
        (AstNode::Subtract, OpCode::Subtract, OpCode::SubtractThis),
        (AstNode::Multiply, OpCode::Multiply, OpCode::MultiplyThis),
        (AstNode::Divide, OpCode::Divide, OpCode::DivideThis),
        (AstNode::Modulo, OpCode::Modulo, OpCode::ModuloThis),
        (AstNode::Power, OpCode::Power, OpCode::PowerThis),
        (AstNode::LogicalAnd, OpCode::LogicalAnd, OpCode::LogicalAndThis),
        (AstNode::LogicalOr, OpCode::LogicalOr, OpCode::LogicalOrThis),
        (AstNode::LogicalXor, OpCode::LogicalXor, OpCode::LogicalXorThis),
        (AstNode::Equals, OpCode::Equals, OpCode::EqualsThis),
        (AstNode::NotEquals, OpCode::NotEquals, OpCode::NotEqualsThis),
        (AstNode::GreaterThan, OpCode::GreaterThan, OpCode::GreaterThanThis),
        (AstNode::LessThan, OpCode::LessThan, OpCode::LessThanThis),
        (AstNode::GreaterThanEq, OpCode::GreaterThanEq, OpCode::GreaterThanEqThis),
        (AstNode::LessThanEq, OpCode::LessThanEq, OpCode::LessThanEqThis),
        (AstNode::TableIndexing, OpCode::IndexGet, OpCode::IndexGetThis),
    ];
    for (kind, plain, embedded) in binary {
        assert_eq!(kind.binary_operator(), Some(plain));
        expect_emit(
            vec![node(kind, vec![integer(1), integer(2)])],
            vec![Word::integer(1, OpCode::Value), Word::integer(2, embedded)],
        );
        expect_emit(
            vec![node(kind, vec![integer(1), node(AstNode::Grouping, vec![node(kind, vec![integer(2), integer(3)])])])],
            vec![
                Word::integer(1, OpCode::Value),
                Word::integer(2, OpCode::Value),
                Word::integer(3, embedded),
                Word::integer(0, plain),
            ],
        );
    }
    for (kind, plain, embedded) in [
        (AstNode::Print, OpCode::Print, OpCode::PrintThis),
        (AstNode::LogicalNot, OpCode::Negate, OpCode::NegateThis),
        (AstNode::UnwrapOption, OpCode::UnwrapOption, OpCode::UnwrapOptionThis),
    ] {
        assert_eq!(kind.unary_operator(), Some(plain));
        expect_emit(vec![node(kind, vec![boolean(true)])], vec![Word::bool(true, embedded)]);
        expect_emit(
            vec![node(kind, vec![node(kind, vec![boolean(true)])])],
            vec![Word::bool(true, embedded), Word::integer(0, plain)],
        );
    }
    assert_eq!(AstNode::If.binary_operator(), None);
    assert_eq!(AstNode::Add.unary_operator(), None);
    for kind in [AstNode::Root, AstNode::Lambda, AstNode::FunctionDecl, AstNode::TypeInt, AstNode::Whitespace, AstNode::TablePair] {
        assert_eq!(emit(vec![node(kind, vec![integer(1)])]), Err(LanguloErr::Emit(EmitError::Unimplemented)));
    }
}

#[test]
fn tables() {
    // [1: 2, _: 1000]
    expect_emit(
        vec![node(
            AstNode::Table,
            vec![
                node(AstNode::TablePair, vec![integer(1), integer(2)]),
                node(AstNode::TablePair, vec![leaf(AstNode::DefaultKey, "_"), integer(1000)]),
            ],
        )],
        vec![
            Word::integer(1, OpCode::Value),
            Word::integer(2, OpCode::Value),
            Word::default_table_arm(),
            Word::integer(1000, OpCode::Value),
            Word::new(2, OpCode::ReadFromMap, ValueTag::TablePtr),
        ],
    );
    expect_emit(
        vec![node(AstNode::Table, vec![])],
        vec![Word::new(0, OpCode::ReadFromMap, ValueTag::TablePtr)],
    );
}

#[test]
fn variables() {
    let get = |index: u32| {
        let mut word = Word::integer(0, OpCode::GetLocal);
        word.set_aux(index);
        word
    };
    // var x = 1; var y = x + 2; { var x = y; x }; x
    expect_emit(
        vec![
            named(AstNode::VarDecl, "x", vec![integer(1)]),
            named(
                AstNode::VarDecl,
                "y",
                vec![leaf(AstNode::TypeInt, "int"), node(AstNode::Add, vec![leaf(AstNode::Identifier, "x"), integer(2)])],
            ),
            node(
                AstNode::Scope,
                vec![
                    named(AstNode::VarDecl, "x", vec![leaf(AstNode::Identifier, "y")]),
                    leaf(AstNode::Identifier, "x"),
                ],
            ),
            leaf(AstNode::Identifier, "x"),
        ],
        vec![
            Word::integer(1, OpCode::SetLocalThis),
            get(0),
            Word::integer(2, OpCode::AddThis),
            Word::integer(0, OpCode::SetLocal),
            get(1),
            Word::integer(0, OpCode::SetLocal),
            get(2),
            Word::integer(0, OpCode::Print),
            // slots are never released: the variable of the scope is still the last `x`
            get(2),
        ],
    );
    assert_eq!(
        emit(vec![leaf(AstNode::Identifier, "x")]),
        Err(LanguloErr::Emit(EmitError::UnknownIdentifier))
    );
    assert_eq!(
        emit(vec![named(AstNode::Assign, "x", vec![integer(1)])]),
        Err(LanguloErr::Emit(EmitError::UnknownIdentifier))
    );
    assert_eq!(
        emit(vec![named(AstNode::VarDecl, "x", vec![integer(1)]), named(AstNode::VarDecl, "x", vec![integer(2)])]),
        Err(LanguloErr::Semantic(SemanticError::DuplicateVariable))
    );
    // the same name in a deeper scope is another variable
    assert!(emit(vec![
        named(AstNode::VarDecl, "x", vec![integer(1)]),
        node(AstNode::Scope, vec![named(AstNode::VarDecl, "x", vec![integer(2)])]),
    ])
    .is_ok());
    // an assignment sees the old value on its right
    expect_emit(
        vec![
            named(AstNode::VarDecl, "x", vec![integer(1)]),
            named(AstNode::Assign, "x", vec![node(AstNode::Add, vec![leaf(AstNode::Identifier, "x"), integer(1)])]),
            leaf(AstNode::Identifier, "x"),
        ],
        vec![
            Word::integer(1, OpCode::SetLocalThis),
            get(0),
            Word::integer(1, OpCode::AddThis),
            Word::integer(0, OpCode::SetLocal),
            get(1),
        ],
    );
}

fn scope(statements: Vec<LanguloSyntaxNode>) -> LanguloSyntaxNode {
    node(AstNode::Scope, statements)
}

#[test]
fn jump_distances() {
    // if true {2};
    expect_emit(
        vec![node(AstNode::If, vec![boolean(true), scope(vec![integer(2)])])],
        vec![
            Word::bool(true, OpCode::Value),
            jump(OpCode::JumpIfFalse, 3),
            Word::integer(2, OpCode::Value),
            Word::integer(0, OpCode::Print),
            Word::integer(0, OpCode::WrapInOption),
        ],
    );
    // if true 2;  the branch is a pure value and the wrap carries it
    expect_emit(
        vec![node(AstNode::If, vec![boolean(true), integer(2)])],
        vec![
            Word::bool(true, OpCode::Value),
            jump(OpCode::JumpIfFalse, 1),
            Word::integer(2, OpCode::WrapInOptionThis),
        ],
    );
    // no else {3};
    let mut no = Word::no_option();
    no.set_opcode(OpCode::WrapInOptionThis);
    expect_emit(
        vec![node(AstNode::Else, vec![node(AstNode::Option, vec![]), scope(vec![integer(3)])])],
        vec![
            no,
            jump(OpCode::JumpIfNo, 2),
            Word::integer(3, OpCode::Value),
            Word::integer(0, OpCode::Print),
        ],
    );
    // if false {if true 1} else 9;
    expect_emit(
        vec![node(
            AstNode::Else,
            vec![
                node(AstNode::If, vec![boolean(false), scope(vec![node(AstNode::If, vec![boolean(true), integer(1)])])]),
                integer(9),
            ],
        )],
        vec![
            Word::bool(false, OpCode::Value),
            jump(OpCode::JumpIfFalse, 5),
            Word::bool(true, OpCode::Value),
            jump(OpCode::JumpIfFalse, 1),
            Word::integer(1, OpCode::WrapInOptionThis),
            Word::integer(0, OpCode::Print),
            Word::integer(0, OpCode::WrapInOption),
            jump(OpCode::JumpIfNo, 1),
            Word::integer(9, OpCode::Value),
        ],
    );
}

#[test]
fn every_jump_lands_in_the_code() {
    let tree = vec![
        node(
            AstNode::Else,
            vec![
                node(
                    AstNode::If,
                    vec![
                        node(AstNode::LessThan, vec![integer(1), integer(2)]),
                        scope(vec![
                            node(AstNode::If, vec![boolean(true), node(AstNode::Add, vec![integer(1), integer(2)])]),
                            node(AstNode::Else, vec![node(AstNode::Option, vec![]), integer(4)]),
                        ]),
                    ],
                ),
                scope(vec![node(AstNode::If, vec![boolean(false), integer(5)])]),
            ],
        ),
        integer(6),
    ];
    let code = emit(tree).unwrap();
    let mut jumps = 0;
    for (slot, word) in code.iter().enumerate() {
        if word.opcode() == OpCode::JumpIfFalse || word.opcode() == OpCode::JumpIfNo {
            jumps += 1;
            let target = slot + 1 + word.value() as usize;
            assert!(target > slot + 1);
            assert!(target < code.len());
        }
    }
    assert_eq!(jumps, 5);
}
