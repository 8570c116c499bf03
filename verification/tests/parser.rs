use langulo::errors::err::{LanguloErr, SemanticError};
use langulo::lexer::tok::Tok;
use langulo::lexer::scan::scan;
use langulo::lexer::{Lexeme, Lexer};
use langulo::parser::ast::lang::LanguloSyntaxNode;
use langulo::parser::ast::node::AstNode;
use langulo::parser::tree::{syntax_tree, TreeBuilder};
use langulo::parser::Parser;
use langulo::text::{first_word, is_space_exec};

fn token(kind: Tok, text: &str) -> Lexeme {
    Lexeme::Token { kind, text: text.to_string() }
}

#[test]
fn scanning() {
    assert_eq!(
        scan("3+2=5"),
        vec![token(Tok::Int, "3"), token(Tok::Plus, "+"), token(Tok::Int, "2"), token(Tok::Assign, "="), token(Tok::Int, "5")]
    );
    assert_eq!(
        scan("var xs = -2.5 >= no;"),
        vec![
            token(Tok::Var, "var"),
            token(Tok::Whitespace, " "),
            token(Tok::Identifier, "xs"),
            token(Tok::Whitespace, " "),
            token(Tok::Assign, "="),
            token(Tok::Whitespace, " "),
            token(Tok::Float, "-2.5"),
            token(Tok::Whitespace, " "),
            token(Tok::GreaterThanEq, ">="),
            token(Tok::Whitespace, " "),
            token(Tok::No, "no"),
            token(Tok::Semicolon, ";"),
        ]
    );
    assert_eq!(scan("é#"), vec![Lexeme::Invalid { start: 0, end: 2 }, Lexeme::Invalid { start: 2, end: 3 }]);
}

#[test]
fn walk() {
    let mut lex = Lexer::new("3+2=5");
    assert_eq!(lex.peek().expect("no"), Some((Tok::Int, "3")));
    assert_eq!(lex.peek().expect("no"), Some((Tok::Int, "3")));

    assert_eq!(lex.next().expect("no"), Some((Tok::Int, "3")));

    assert_eq!(lex.next().expect("no"), Some((Tok::Plus, "+")));
    assert_eq!(lex.peek().expect("no"), Some((Tok::Int, "2")));
    assert!(lex.next().expect("no").is_some()); //2
    assert!(lex.next().expect("no").is_some()); //=
    assert!(lex.next().expect("no").is_some()); //5
    assert!(lex.next().expect("no").is_none());
    assert!(lex.peek().expect("no").is_none())
}

#[test]
fn bytes_that_are_no_token() {
    let mut lex = Lexer::from_lexemes(vec![
        token(Tok::Int, "1"),
        Lexeme::Invalid { start: 1, end: 2 },
        token(Tok::Int, "2"),
        Lexeme::Invalid { start: 3, end: 5 },
    ]);
    assert_eq!(lex.next(), Ok(Some((Tok::Int, "1"))));
    // the error is given once, by whoever comes to it first
    assert_eq!(lex.peek(), Err(LanguloErr::Lexical { start: 1, end: 2 }));
    assert_eq!(lex.peek(), Ok(Some((Tok::Int, "2"))));
    assert_eq!(lex.next(), Ok(Some((Tok::Int, "2"))));
    assert_eq!(lex.next(), Err(LanguloErr::Lexical { start: 3, end: 5 }));
    assert_eq!(lex.next(), Ok(None));
    assert_eq!(lex.peek(), Ok(None));
}

fn parse(input: &str) -> Result<LanguloSyntaxNode, LanguloErr> {
    let mut parser = Parser::new(input);
    parser.parse()?;
    Ok(parser.to_ast())
}

pub fn to_simplified_string(node: &LanguloSyntaxNode) -> String {
    let children: Vec<String> = node.children.iter().map(|c| to_simplified_string(c)).collect();
    if node.kind == AstNode::Root {
        return children.join("\n");
    }

    let tok_str = node.text.to_string();
    let tok_str = tok_str.trim().split_whitespace().next().unwrap_or("");
    let node_fmt = format!("<{:?}:{}>", node.kind, tok_str);

    if children.is_empty() {
        node_fmt
    } else if children.len() == 1 {
        format!("({} {})", node_fmt, children[0])
    } else if children.len() == 2 {
        format!("({} {} {})", children[0], node_fmt, children[1])
    } else {
        format!("({} [{}])", node_fmt, children.join(", "))
    }
}

fn expect_parser(input: &str, expected_ast_repr: &str) {
    let syntax_node = parse(input).expect("failed to parse");
    assert_eq!(to_simplified_string(&syntax_node), expected_ast_repr.to_string())
}

#[test]
fn mod_arithmetic() {
    expect_parser(
        "1 + 2 * (5 - 3);",
        "(<Int:1> <Add:1> (<Int:2> <Multiply:2> (<Grouping:5> (<Int:5> <Subtract:5> <Int:3>))))",
    )
}

#[test]
fn logical() {
    expect_parser(
        "true and not false;",
        "(<Bool:true> <LogicalAnd:true> (<LogicalNot:false> <Bool:false>))",
    )
}

#[test]
fn multiexpr_program() {
    expect_parser(
        "1+2*3; true and not false;",
        "(<Int:1> <Add:123> (<Int:2> <Multiply:23> <Int:3>))\n(<Bool:true> <LogicalAnd:true> (<LogicalNot:false> <Bool:false>))",
    )
}

#[test]
fn scope() {
    expect_parser("{1; 2; 3;};", "(<Scope:1> [<Int:1>, <Int:2>, <Int:3>])");
    // semicolon on the last expr is optional
    expect_parser("{1; 2; 3};", "(<Scope:1> [<Int:1>, <Int:2>, <Int:3>])")
}

#[test]
fn if_else() {
    expect_parser(
        "if true {1} else {2};",
        "((<Bool:true> <If:true1> (<Scope:1> <Int:1>)) <Else:true1> (<Scope:2> <Int:2>))",
    )
}

#[test]
fn variable_decl() {
    expect_parser("var x = 5;", "(<VarDecl:x> <Int:5>)");
    // with type hint
    expect_parser("var x: int = 5;", "(<TypeInt:int> <VarDecl:x> <Int:5>)")
}

#[test]
fn table_decl_and_usage() {
    // base situation
    expect_parser(
        "var tbl = [1: 'a', 2: 'b', 3: 'c'];",
        "(<VarDecl:tbl> (<Table:1> [\
            (<Int:1> <TablePair:1> <Char:'a'>), \
            (<Int:2> <TablePair:2> <Char:'b'>), \
            (<Int:3> <TablePair:3> <Char:'c'>)\
            ]))",
    );
    // with type hint
    expect_parser(
        "var tbl: [int:char] = [];",
        "((<TypeInt:int> <TypeTable:intchar> <TypeChar:char>) <VarDecl:tbl> <Table:>)",
    );
    // with default arm
    expect_parser(
        "[1: 2, 3: 4, _: 1000]",
        "(<Table:1> [\
            (<Int:1> <TablePair:1> <Int:2>), \
            (<Int:3> <TablePair:3> <Int:4>), \
            (<DefaultKey:_> <TablePair:_> <Int:1000>)\
            ])",
    )
}

#[test]
fn plain_identifier() {
    expect_parser("a", "<Identifier:a>")
}

#[test]
fn functions_and_lambdas() {
    // standard declaration with principal argument
    expect_parser(
        "fn(@int, other int) int { it + other };",
        "(<FunctionDecl:int> [\
            (<PrincipalParam:int> <TypeInt:int>), \
            (<ContourParam:otherint> <TypeInt:int>), \
            <TypeInt:int>, \
            (<Scope:it> (<Identifier:it> <Add:it> <Identifier:other>))\
            ])",
    );
    // fn application with @arg
    expect_parser(
        "3 @plus(2, 1, 0);",
        "(<FunctionAppl:3plus2> [<Int:3>, <Identifier:plus>, (<ContourArgs:2> [\
            <Int:2>, <Int:1>, <Int:0>]\
            )])",
    );
    // () is optional if there's an @arg and no contour args
    expect_parser("3@repeat", "(<Int:3> <FunctionAppl:3repeat> <Identifier:repeat>)");

    // fn application without @arg
    expect_parser(
        "@noop(3);",
        "(<Identifier:noop> <FunctionAppl:noop3> (<ContourArgs:3> <Int:3>))",
    );
    // lambda declaration
    expect_parser("|it|", "(<Lambda:it> <Identifier:it>)");
    // type hint declaration
    expect_parser(
        "var add: fn(@int, int, ->int) = etc;",
        "((<TypeFn:int> [<TypeInt:int>, (<ContourTypes:int> <TypeInt:int>), <TypeInt:int>]) <VarDecl:add> <Identifier:etc>)",
    )
}

#[test]
fn options() {
    expect_parser("3???;", "(<Option:3> (<Option:3> (<Option:3> <Int:3>)))");
    // decl with type hint
    expect_parser(
        "var x: int? = 3?;",
        "((<TypeOption:int> <TypeInt:int>) <VarDecl:x> (<Option:3> <Int:3>))",
    )
}

#[test]
fn every_operator_of_the_language() {
    for (sign, kind) in [
        ("+", "Add"),
        ("-", "Subtract"),
        ("*", "Multiply"),
        ("/", "Divide"),
        ("%", "Modulo"),
        ("^", "Power"),
        ("and", "LogicalAnd"),
        ("or", "LogicalOr"),
        ("xor", "LogicalXor"),
        ("==", "Equals"),
        ("!=", "NotEquals"),
        (">", "GreaterThan"),
        ("<", "LessThan"),
        (">=", "GreaterThanEq"),
        ("<=", "LessThanEq"),
    ] {
        expect_parser(&format!("1 {} 2;", sign), &format!("(<Int:1> <{}:1> <Int:2>)", kind));
    }
    expect_parser("$ 1;", "(<Print:1> <Int:1>)");
    expect_parser("not true;", "(<LogicalNot:true> <Bool:true>)");
    expect_parser("x!;", "(<UnwrapOption:x> <Identifier:x>)");
    expect_parser("no;", "<Option:no>");
    expect_parser("no else {3};", "(<Option:no> <Else:no> (<Scope:3> <Int:3>))");
    expect_parser("x = 4;", "(<Identifier:x> <Assign:x> <Int:4>)");
    expect_parser("t[1];", "(<Identifier:t> <TableIndexing:t1> <Int:1>)");
    expect_parser("1.5; \"a b\"; 'c';", "<Float:1.5>\n<Str:\"a>\n<Char:'c'>");
}

#[test]
fn operators_bind_by_their_precedence() {
    expect_parser("1 + 2 * 3;", "(<Int:1> <Add:1> (<Int:2> <Multiply:2> <Int:3>))");
    expect_parser("1 * 2 + 3;", "((<Int:1> <Multiply:1> <Int:2>) <Add:1> <Int:3>)");
    expect_parser("1 - 2 - 3;", "((<Int:1> <Subtract:1> <Int:2>) <Subtract:1> <Int:3>)");
    expect_parser("2 * 3 ^ 4;", "(<Int:2> <Multiply:2> (<Int:3> <Power:3> <Int:4>))");
    expect_parser(
        "1 < 2 and 3 == 4;",
        "((<Int:1> <LessThan:1> <Int:2>) <LogicalAnd:1> (<Int:3> <Equals:3> <Int:4>))",
    );
    expect_parser("x = 1 + 2;", "(<Identifier:x> <Assign:x> (<Int:1> <Add:1> <Int:2>))");
    expect_parser("1 + 2?;", "(<Int:1> <Add:1> (<Option:2> <Int:2>))");
    for tok in [Tok::Plus, Tok::Star, Tok::Caret, Tok::Else, Tok::LBracket, Tok::Semicolon] {
        assert!(tok.binds());
    }
    assert_eq!(Tok::Semicolon.precedence(), 0);
    assert_eq!(Tok::Assign.precedence(), 10);
    assert_eq!(Tok::And.precedence(), 20);
    assert_eq!(Tok::Equals.precedence(), 30);
    assert_eq!(Tok::LessThanEq.precedence(), 40);
    assert_eq!(Tok::Range.precedence(), 50);
    assert_eq!(Tok::Minus.precedence(), 60);
    assert_eq!(Tok::Modulo.precedence(), 70);
    assert_eq!(Tok::Caret.precedence(), 80);
    assert_eq!(Tok::Dollar.precedence(), 90);
    assert_eq!(Tok::As.precedence(), 100);
    assert_eq!(Tok::Else.precedence(), 109);
    assert_eq!(Tok::If.precedence(), 110);
    assert_eq!(Tok::Iter.precedence(), 120);
    assert_eq!(Tok::At.precedence(), 130);
    for tok in [Tok::Identifier, Tok::Whitespace, Tok::Var, Tok::No, Tok::Underscore, Tok::Fn] {
        assert!(!tok.binds());
    }
}

#[test]
fn trivia_stays_in_the_text() {
    let tree = parse("1 + 2; // sum\n{ 3 }").unwrap();
    assert_eq!(tree.kind, AstNode::Root);
    // the operators and brackets are left out; the trivia behind a token stands in
    // front of the node that the token starts
    assert_eq!(tree.text, " 1 2 // sum\n  3");
    assert_eq!(tree.float_bits, 0);
    assert_eq!(tree.children.len(), 2);
    assert_eq!(tree.children[0].kind, AstNode::Add);
    assert_eq!(tree.children[0].text, " 1 2");
    assert_eq!(tree.children[0].children[0].text, "1");
    assert_eq!(tree.children[1].kind, AstNode::Scope);
    assert_eq!(tree.children[1].text, " 3");
    let empty = parse("").unwrap();
    assert_eq!(empty.kind, AstNode::Root);
    assert!(empty.children.is_empty());
    // trivia alone is no program: an expression is expected behind it
    assert_eq!(parse(" \n ").err(), Some(LanguloErr::Semantic(SemanticError::Malformed)));
    assert_eq!(parse("1;\n").unwrap().text, "1\n");
}

#[test]
fn what_does_not_parse() {
    let malformed = LanguloErr::Semantic(SemanticError::Malformed);
    for source in ["+;", "(1;", "1 +", "var = 1;", "var x 1;", "[1 2]", "[1: 2", "if", "1 x;", "fn(", "var x: = 1;", "@f 1;", "{1; 2", "x[1;"] {
        assert_eq!(parse(source).err(), Some(malformed), "{}", source);
    }
    assert_eq!(parse("1 2;").err(), Some(LanguloErr::Semantic(SemanticError::MissingTerminator)));
    assert_eq!(parse("{1 2}").err(), Some(LanguloErr::Semantic(SemanticError::MissingTerminator)));
    assert_eq!(
        parse("[_: 1, _: 2]").err(),
        Some(LanguloErr::Semantic(SemanticError::DuplicateDefaultKey))
    );
    assert_eq!(parse("1 + #;").err(), Some(LanguloErr::Lexical { start: 4, end: 5 }));
    assert_eq!(parse("é").err(), Some(LanguloErr::Lexical { start: 0, end: 2 }));
}

#[test]
fn trees_of_the_builder() {
    let mut builder = TreeBuilder::new();
    builder.start_node(AstNode::Root);
    let checkpoint = builder.checkpoint();
    builder.start_node(AstNode::Int);
    builder.token(AstNode::Int, "1").unwrap();
    builder.finish_node();
    builder.token(AstNode::Whitespace, " ").unwrap();
    builder.start_node_at(checkpoint, AstNode::Add);
    builder.start_node(AstNode::Int);
    builder.token(AstNode::Int, "2").unwrap();
    builder.finish_node();
    builder.finish_node();
    builder.token(AstNode::Comment, "// end").unwrap();
    builder.finish_node();
    let green = builder.finish();
    let tree = syntax_tree(&green).unwrap();
    assert_eq!(tree.kind, AstNode::Root);
    assert_eq!(tree.text, "1 2// end");
    assert_eq!(tree.children.len(), 1);
    let add = &tree.children[0];
    assert_eq!((add.kind, add.text.as_str(), add.children.len()), (AstNode::Add, "1 2", 2));
    assert_eq!(add.children[0].kind, AstNode::Int);
    assert_eq!(add.children[1].text, "2");
    assert!(add.children[1].children.is_empty());
}

#[test]
fn node_kinds_have_their_codes() {
    assert_eq!(AstNode::Root.to_u16(), 0);
    assert_eq!(AstNode::Print.to_u16(), 43);
    assert_eq!(AstNode::from_u16(21), Some(AstNode::If));
    assert_eq!(AstNode::from_u16(54), None);
    for code in 0..54 {
        assert_eq!(AstNode::from_u16(code).unwrap().to_u16(), code);
    }
}

#[test]
fn first_words() {
    assert_eq!(first_word("x = 3"), "x");
    assert_eq!(first_word("  \t x3 y"), "x3");
    assert_eq!(first_word("x"), "x");
    assert_eq!(first_word(""), "");
    assert_eq!(first_word(" \n "), "");
    assert_eq!(first_word("\u{a0}né\u{2003}z"), "né");
    for text in ["a b", " ab  c", "\tq", "x\u{3000}y", "", "   ", "\u{85}k\u{2028}"] {
        assert_eq!(first_word(text), text.split_whitespace().next().unwrap_or(""));
    }
    for code in 0..0x3100u32 {
        if let Some(c) = char::from_u32(code) {
            assert_eq!(is_space_exec(c), c.is_whitespace());
        }
    }
}

fn expect_lex(input: &str, toks: &[Tok]) {
    let lexemes = scan(input);
    for (i, tok) in toks.iter().enumerate() {
        println!("iteration: {i}, expecting {tok:?}");
        match lexemes.get(i) {
            Some(Lexeme::Token { kind, .. }) => assert_eq!(kind, tok),
            Some(Lexeme::Invalid { .. }) => panic!("lexing error when expecting tok {tok:?}"),
            None => panic!("expected {tok:?}, but lexer has nothing to parse"),
        }
    }
    assert_eq!(lexemes.len(), toks.len());
    let text: Vec<&str> = lexemes
        .iter()
        .map(|lexeme| match lexeme {
            Lexeme::Token { text, .. } => text.as_str(),
            Lexeme::Invalid { .. } => unreachable!(),
        })
        .collect();
    assert_eq!(text.concat(), input);
}

#[test]
fn test_whitespace() {
    expect_lex(" \t\n  ", &[Tok::Whitespace]);
}

#[test]
fn parens() {
    expect_lex(
        "()[]{}",
        &[Tok::LParen, Tok::RParen, Tok::LBracket, Tok::RBracket, Tok::LBrace, Tok::RBrace],
    );
}

#[test]
fn punctuation_and_others() {
    expect_lex(
        ",;.|:$ as hello",
        &[
            Tok::Comma,
            Tok::Semicolon,
            Tok::Dot,
            Tok::Pipe,
            Tok::Colon,
            Tok::Dollar,
            Tok::Whitespace,
            Tok::As,
            Tok::Whitespace,
            Tok::Identifier,
        ],
    );
}

#[test]
fn var_and_assign() {
    expect_lex(
        "var = += -= *= /= ^= %= ",
        &[
            Tok::Var,
            Tok::Whitespace,
            Tok::Assign,
            Tok::Whitespace,
            Tok::PlusAssign,
            Tok::Whitespace,
            Tok::MinusAssign,
            Tok::Whitespace,
            Tok::StarAssign,
            Tok::Whitespace,
            Tok::SlashAssign,
            Tok::Whitespace,
            Tok::CaretAssign,
            Tok::Whitespace,
            Tok::ModuloAssign,
            Tok::Whitespace,
        ],
    )
}

#[test]
fn primitive_types() {
    expect_lex(
        "int float str bool char ",
        &[
            Tok::TypeInt,
            Tok::Whitespace,
            Tok::TypeFloat,
            Tok::Whitespace,
            Tok::TypeStr,
            Tok::Whitespace,
            Tok::TypeBool,
            Tok::Whitespace,
            Tok::TypeChar,
            Tok::Whitespace,
        ],
    )
}

#[test]
fn values() {
    expect_lex(
        "123 123.456 \"hello\" 'c' true false -2 ",
        &[
            Tok::Int,
            Tok::Whitespace,
            Tok::Float,
            Tok::Whitespace,
            Tok::Str,
            Tok::Whitespace,
            Tok::Char,
            Tok::Whitespace,
            Tok::Bool,
            Tok::Whitespace,
            Tok::Bool,
            Tok::Whitespace,
            Tok::Int,
            Tok::Whitespace,
        ],
    );
}

#[test]
fn arithmetic_and_logic() {
    expect_lex(
        "+ - * ^ % not and or xor < > >= <= == != ",
        &[
            Tok::Plus,
            Tok::Whitespace,
            Tok::Minus,
            Tok::Whitespace,
            Tok::Star,
            Tok::Whitespace,
            Tok::Caret,
            Tok::Whitespace,
            Tok::Modulo,
            Tok::Whitespace,
            Tok::Not,
            Tok::Whitespace,
            Tok::And,
            Tok::Whitespace,
            Tok::Or,
            Tok::Whitespace,
            Tok::Xor,
            Tok::Whitespace,
            Tok::LessThan,
            Tok::Whitespace,
            Tok::GreaterThan,
            Tok::Whitespace,
            Tok::GreaterThanEq,
            Tok::Whitespace,
            Tok::LessThanEq,
            Tok::Whitespace,
            Tok::Equals,
            Tok::Whitespace,
            Tok::NotEquals,
            Tok::Whitespace,
        ],
    )
}

#[test]
fn options_and_tables() {
    expect_lex(
        "if else ? no ! _ iter list set .. ",
        &[
            Tok::If,
            Tok::Whitespace,
            Tok::Else,
            Tok::Whitespace,
            Tok::Question,
            Tok::Whitespace,
            Tok::No,
            Tok::Whitespace,
            Tok::Bang,
            Tok::Whitespace,
            Tok::Underscore,
            Tok::Whitespace,
            Tok::Iter,
            Tok::Whitespace,
            Tok::List,
            Tok::Whitespace,
            Tok::SetKeyword,
            Tok::Whitespace,
            Tok::Range,
            Tok::Whitespace,
        ],
    )
}

#[test]
fn fn_and_structs() {
    expect_lex(
        "fn @ return struct new ",
        &[
            Tok::Fn,
            Tok::Whitespace,
            Tok::At,
            Tok::Whitespace,
            Tok::Return,
            Tok::Whitespace,
            Tok::Struct,
            Tok::Whitespace,
            Tok::New,
            Tok::Whitespace,
        ],
    )
}

#[test]
fn errors() {
    for input in &["\"unterminated string", "'multichar char'"] {
        println!("asserting {}", input);
        assert!(scan(input).first().is_some_and(|res| matches!(res, Lexeme::Invalid { .. })));
    }
}

fn kinds(input: &str) -> Vec<(Tok, String)> {
    scan(input)
        .into_iter()
        .map(|lexeme| match lexeme {
            Lexeme::Token { kind, text } => (kind, text),
            Lexeme::Invalid { start, end } => panic!("{}..{}", start, end),
        })
        .collect()
}

fn pairs(expected: &[(Tok, &str)]) -> Vec<(Tok, String)> {
    expected.iter().map(|(kind, text)| (*kind, text.to_string())).collect()
}

#[test]
fn the_longest_token_wins() {
    assert_eq!(kinds("variable"), pairs(&[(Tok::Identifier, "variable")]));
    assert_eq!(kinds("var"), pairs(&[(Tok::Var, "var")]));
    assert_eq!(kinds("note"), pairs(&[(Tok::Identifier, "note")]));
    assert_eq!(kinds("not"), pairs(&[(Tok::Not, "not")]));
    assert_eq!(kinds("no"), pairs(&[(Tok::No, "no")]));
    assert_eq!(kinds("truest"), pairs(&[(Tok::Identifier, "truest")]));
    assert_eq!(kinds("true_"), pairs(&[(Tok::Identifier, "true_")]));
    assert_eq!(kinds("x_y"), pairs(&[(Tok::Identifier, "x_y")]));
    assert_eq!(kinds("_x"), pairs(&[(Tok::Underscore, "_"), (Tok::Identifier, "x")]));
    assert_eq!(kinds("a1"), pairs(&[(Tok::Identifier, "a"), (Tok::Int, "1")]));
    assert_eq!(kinds("3-2"), pairs(&[(Tok::Int, "3"), (Tok::Int, "-2")]));
    assert_eq!(kinds("3 - 2"), pairs(&[(Tok::Int, "3"), (Tok::Whitespace, " "), (Tok::Minus, "-"), (Tok::Whitespace, " "), (Tok::Int, "2")]));
    assert_eq!(kinds("-x"), pairs(&[(Tok::Minus, "-"), (Tok::Identifier, "x")]));
    assert_eq!(kinds("1.5"), pairs(&[(Tok::Float, "1.5")]));
    assert_eq!(kinds("-1.5"), pairs(&[(Tok::Float, "-1.5")]));
    assert_eq!(kinds("1."), pairs(&[(Tok::Int, "1"), (Tok::Dot, ".")]));
    assert_eq!(kinds("1..5"), pairs(&[(Tok::Int, "1"), (Tok::Range, ".."), (Tok::Int, "5")]));
    assert_eq!(kinds("1.5.5"), pairs(&[(Tok::Float, "1.5"), (Tok::Dot, "."), (Tok::Int, "5")]));
    assert_eq!(kinds(".5"), pairs(&[(Tok::Dot, "."), (Tok::Int, "5")]));
    assert_eq!(kinds("..."), pairs(&[(Tok::Range, ".."), (Tok::Dot, ".")]));
    assert_eq!(kinds("==="), pairs(&[(Tok::Equals, "=="), (Tok::Assign, "=")]));
    assert_eq!(kinds("<=>"), pairs(&[(Tok::LessThanEq, "<="), (Tok::GreaterThan, ">")]));
    assert_eq!(kinds("!="), pairs(&[(Tok::NotEquals, "!=")]));
    assert_eq!(kinds("-="), pairs(&[(Tok::MinusAssign, "-=")]));
    assert_eq!(kinds("-=1"), pairs(&[(Tok::MinusAssign, "-="), (Tok::Int, "1")]));
    assert_eq!(kinds("/"), pairs(&[(Tok::Slash, "/")]));
    assert_eq!(kinds("// x\ny"), pairs(&[(Tok::Comment, "// x"), (Tok::Whitespace, "\n"), (Tok::Identifier, "y")]));
    assert_eq!(kinds("//"), pairs(&[(Tok::Comment, "//")]));
    assert_eq!(kinds("\u{a0}\u{2003}x"), pairs(&[(Tok::Whitespace, "\u{a0}\u{2003}"), (Tok::Identifier, "x")]));
    assert_eq!(kinds("'é'"), pairs(&[(Tok::Char, "'é'")]));
    assert_eq!(kinds("\u{27}\u{27}\u{27}"), pairs(&[(Tok::Char, "\u{27}\u{27}\u{27}")]));
    assert_eq!(scan("'\n'")[0], Lexeme::Invalid { start: 0, end: 1 });
    assert_eq!(scan(""), vec![]);
}

#[test]
fn string_literals() {
    assert_eq!(kinds("\"\""), pairs(&[(Tok::Str, "\"\"")]));
    assert_eq!(kinds("\"a b\"c"), pairs(&[(Tok::Str, "\"a b\""), (Tok::Identifier, "c")]));
    assert_eq!(kinds("\"a\nb\""), pairs(&[(Tok::Str, "\"a\nb\"")]));
    // a quote behind a backslash may be part of the literal
    assert_eq!(kinds(r#""a\"b""#), pairs(&[(Tok::Str, r#""a\"b""#)]));
    // or its end, where no other quote follows
    assert_eq!(kinds(r#""a\" b"#), pairs(&[(Tok::Str, r#""a\""#), (Tok::Whitespace, " "), (Tok::Identifier, "b")]));
    assert_eq!(scan(r#""a\"b"c""#)[0], token(Tok::Str, r#""a\"b""#));
    assert_eq!(kinds(r#""\\"x"#), pairs(&[(Tok::Str, r#""\\""#), (Tok::Identifier, "x")]));
    assert_eq!(scan("\"abc")[0], Lexeme::Invalid { start: 0, end: 1 });
}

#[test]
fn what_is_no_token() {
    assert_eq!(
        scan("é#1"),
        vec![
            Lexeme::Invalid { start: 0, end: 2 },
            Lexeme::Invalid { start: 2, end: 3 },
            Lexeme::Token { kind: Tok::Int, text: "1".to_string() },
        ]
    );
    assert_eq!(
        scan("a 𝄞 ١"),
        vec![
            Lexeme::Token { kind: Tok::Identifier, text: "a".to_string() },
            Lexeme::Token { kind: Tok::Whitespace, text: " ".to_string() },
            Lexeme::Invalid { start: 2, end: 6 },
            Lexeme::Token { kind: Tok::Whitespace, text: " ".to_string() },
            Lexeme::Invalid { start: 7, end: 9 },
        ]
    );
    for code in [0u32, 1, 35, 38, 92, 96, 126, 127] {
        let text = char::from_u32(code).unwrap().to_string();
        assert_eq!(scan(&text), vec![Lexeme::Invalid { start: 0, end: 1 }]);
    }
}

#[test]
fn token_kinds_in_their_order() {
    assert_eq!(Tok::at(0), Tok::LParen);
    assert_eq!(Tok::at(24), Tok::Bool);
    assert_eq!(Tok::at(64), Tok::Identifier);
    assert_eq!(Tok::at(1000), Tok::Identifier);
    assert_eq!(Tok::Var.literal(), Some("var"));
    assert_eq!(Tok::NotEquals.literal(), Some("!="));
    assert_eq!(Tok::SetKeyword.literal(), Some("set"));
    for kind in [Tok::Int, Tok::Float, Tok::Str, Tok::Char, Tok::Bool, Tok::Whitespace, Tok::Comment, Tok::Identifier] {
        assert_eq!(kind.literal(), None);
    }
    let mut fixed = 0;
    for index in 0..65 {
        if let Some(text) = Tok::at(index).literal() {
            fixed += 1;
            assert_eq!(kinds(text), vec![(Tok::at(index), text.to_string())]);
        }
    }
    assert_eq!(fixed, 57);
}

fn count_of(kind: AstNode) -> (usize, Option<usize>) {
    match kind {
        AstNode::Int | AstNode::Float | AstNode::Bool | AstNode::Str | AstNode::Char
        | AstNode::Identifier | AstNode::DefaultKey | AstNode::TypeChar | AstNode::TypeInt
        | AstNode::TypeFloat | AstNode::TypeBool | AstNode::TypeStr => (0, Some(0)),
        AstNode::Option => (0, Some(1)),
        AstNode::Grouping | AstNode::LogicalNot | AstNode::Print | AstNode::UnwrapOption
        | AstNode::TypeOption | AstNode::PrincipalParam | AstNode::ContourParam => (1, Some(1)),
        AstNode::VarDecl => (1, Some(2)),
        AstNode::FunctionAppl | AstNode::TypeFn => (2, Some(3)),
        AstNode::FunctionDecl => (2, None),
        AstNode::Root | AstNode::Scope | AstNode::Lambda | AstNode::Table
        | AstNode::ContourArgs | AstNode::ContourTypes => (0, None),
        _ => (2, Some(2)),
    }
}

fn assert_shaped(node: &LanguloSyntaxNode) {
    let (least, most) = count_of(node.kind);
    let count = node.children.len();
    assert!(least <= count, "{:?} has {} nodes below it", node.kind, count);
    assert!(most.map_or(true, |m| count <= m), "{:?} has {} nodes below it", node.kind, count);
    for child in &node.children {
        assert_shaped(child);
    }
}

#[test]
fn every_node_has_the_nodes_that_its_kind_takes() {
    for source in [
        "1;",
        "1 + 2 * (3 - 4) ^ 5 % 6;",
        "var x: int = 2; x = x + 1; $x",
        "var t: [int: str?] = [1: \"a\", _: no]; t[1]!;",
        "if not true and 1 >= 2 { 3 } else { 4? };",
        "fn(@int, other int, more float) int { it + other };",
        "fn() int { 1 };",
        "@add(1, 2); 3@plus(2); 3@inc;",
        "var f: fn(@int, str) bool = || 1; 2 |;",
        "{ 1; { 2; 3 }; 'c' }",
    ] {
        match parse(source) {
            Ok(root) => {
                assert_eq!(root.kind, AstNode::Root);
                assert_shaped(&root);
            },
            // a source that does not parse has no tree to look at
            Err(_) => {},
        }
    }
    // and these do parse
    for source in ["1 + 2 * (3 - 4);", "var x = 2; x = x + 1; $x", "[1: 2, _: 3][1];", "{ 1; { 2; 3 }; 'c' }"] {
        assert_shaped(&parse(source).expect("failed to parse"));
    }
    let root = parse("var x = 1 + 2;").expect("failed to parse");
    assert_eq!(root.children.len(), 1);
    assert_eq!(root.children[0].kind, AstNode::VarDecl);
    assert_eq!(root.children[0].children.len(), 1);
    assert_eq!(root.children[0].children[0].kind, AstNode::Add);
    assert_eq!(root.children[0].children[0].children.len(), 2);
}

#[test]
fn a_source_with_bytes_that_are_no_token_does_not_parse() {
    assert_eq!(parse("1 + #;").err(), Some(LanguloErr::Lexical { start: 4, end: 5 }));
    assert_eq!(parse("é").err(), Some(LanguloErr::Lexical { start: 0, end: 2 }));
}
