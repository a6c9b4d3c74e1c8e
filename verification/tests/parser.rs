use zephyr::errors::ErrorCode;
use zephyr::lexer::lex;
use zephyr::nodes::{DeclareType, InterruptType, MatchCaseType, Node};
use zephyr::parser::{ParseFault, Parser};
use zephyr::tokens::{Additive, Comparison, Location, Multiplicative, Token, TokenType};

fn parse(src: &str) -> Result<Node, ParseFault> {
    let tokens = lex(src, "test.zr".to_string()).unwrap();
    let mut parser = Parser::new(tokens, "test.zr".to_string());
    parser.try_produce_ast()
}

fn program(src: &str) -> Vec<Node> {
    match parse(src).unwrap() {
        Node::Block(b) => b.nodes,
        other => panic!("expected a block, got {:?}", other),
    }
}

fn parse_error(src: &str) -> zephyr::errors::ZephyrError {
    match parse(src) {
        Err(ParseFault::Error(e)) => e,
        other => panic!("expected an error, got {:?}", other),
    }
}

#[test]
fn parse_empty_program() {
    assert!(program("").is_empty());
}

#[test]
fn parse_let_declaration() {
    let nodes = program("let x = 1;");
    assert_eq!(nodes.len(), 1);
    match &nodes[0] {
        Node::Declare(d) => {
            assert!(!d.is_const);
            match &d.assignee {
                DeclareType::Symbol(s) => assert_eq!(s.value, "x"),
                other => panic!("unexpected assignee {:?}", other),
            }
            match d.value.as_deref() {
                Some(Node::Number(n)) => assert_eq!(n.value, "1"),
                other => panic!("unexpected value {:?}", other),
            }
        }
        other => panic!("unexpected node {:?}", other),
    }
}

#[test]
fn parse_const_without_value() {
    let nodes = program("const y");
    match &nodes[0] {
        Node::Declare(d) => {
            assert!(d.is_const);
            assert!(d.value.is_none());
        }
        other => panic!("unexpected node {:?}", other),
    }
}

#[test]
fn parse_array_destructuring() {
    let nodes = program("let [a, b] = c;");
    match &nodes[0] {
        Node::Declare(d) => match &d.assignee {
            DeclareType::Array(names) => {
                assert_eq!(names.len(), 2);
                assert_eq!(names[0].value, "a");
                assert_eq!(names[1].value, "b");
            }
            other => panic!("unexpected assignee {:?}", other),
        },
        other => panic!("unexpected node {:?}", other),
    }
}

#[test]
fn parse_precedence() {
    let nodes = program("1 + 2 * 3");
    match &nodes[0] {
        Node::Arithmetic(a) => {
            assert_eq!(a.t, TokenType::Additive(Additive::Plus));
            assert!(matches!(*a.left, Node::Number(_)));
            match &*a.right {
                Node::Arithmetic(m) => {
                    assert_eq!(m.t, TokenType::Multiplicative(Multiplicative::Multiply))
                }
                other => panic!("unexpected right side {:?}", other),
            }
        }
        other => panic!("unexpected node {:?}", other),
    }
}

#[test]
fn parse_subtraction_nests_to_the_right() {
    let nodes = program("5 - 2 - 1");
    match &nodes[0] {
        Node::Arithmetic(a) => {
            assert_eq!(a.t, TokenType::Additive(Additive::Minus));
            assert!(matches!(*a.left, Node::Number(_)));
            assert!(matches!(*a.right, Node::Arithmetic(_)));
        }
        other => panic!("unexpected node {:?}", other),
    }
}

#[test]
fn parse_comparison() {
    let nodes = program("a <= b");
    match &nodes[0] {
        Node::Comp(c) => assert_eq!(c.t, Comparison::LtEq),
        other => panic!("unexpected node {:?}", other),
    }
}

#[test]
fn parse_function_statement() {
    let nodes = program("func add(a, b) { return a + b; }");
    let declared = match &nodes[0] {
        Node::Declare(d) => {
            match &d.assignee {
                DeclareType::Symbol(s) => assert_eq!(s.value, "add"),
                other => panic!("unexpected assignee {:?}", other),
            }
            d.value.as_deref().unwrap()
        }
        other => panic!("unexpected node {:?}", other),
    };
    match declared {
        Node::Function(f) => {
            assert_eq!(f.name.as_ref().unwrap().value, "add");
            assert_eq!(f.args.len(), 2);
            assert_eq!(f.body.nodes.len(), 1);
            match &f.body.nodes[0] {
                Node::Interrupt(i) => {
                    assert!(matches!(i.t, InterruptType::Return(Some(_))))
                }
                other => panic!("unexpected body {:?}", other),
            }
        }
        other => panic!("unexpected node {:?}", other),
    }
}

#[test]
fn parse_if_else() {
    let nodes = program("if a { 1 } else { 2 }");
    match &nodes[0] {
        Node::If(i) => {
            assert!(matches!(*i.test, Node::Symbol(_)));
            assert!(i.alternate.is_some());
        }
        other => panic!("unexpected node {:?}", other),
    }
}

#[test]
fn parse_match_cases() {
    let nodes = program("match x { 1 { a }, > 2 { b }, else { c } }");
    match &nodes[0] {
        Node::Match(m) => {
            assert_eq!(m.cases.len(), 3);
            match &m.cases[0] {
                MatchCaseType::MatchCase(c) => assert_eq!(c.op, Comparison::Eq),
                other => panic!("unexpected case {:?}", other),
            }
            match &m.cases[1] {
                MatchCaseType::MatchCase(c) => assert_eq!(c.op, Comparison::Gt),
                other => panic!("unexpected case {:?}", other),
            }
            assert!(matches!(m.cases[2], MatchCaseType::Else(_)));
        }
        other => panic!("unexpected node {:?}", other),
    }
}

#[test]
fn parse_enum_items() {
    let nodes = program("enum Color { Red, Green }");
    match &nodes[0] {
        Node::Enum(e) => {
            assert_eq!(e.name.value, "Color");
            assert_eq!(e.values.len(), 2);
            assert_eq!(e.values[0].0.value, "Red");
            assert!(e.values[0].1.starts_with("Color.Red__"));
            assert_eq!(e.values[0].1.len(), "Color.Red__".len() + 36);
            assert_ne!(e.values[0].1, e.values[1].1);
            let suffix = &e.values[1].1["Color.Green__".len()..];
            assert_eq!(suffix.len(), 36);
            assert_eq!(suffix.chars().nth(14), Some('4'));
        }
        other => panic!("unexpected node {:?}", other),
    }
}

#[test]
fn parse_several_statements() {
    let nodes = program("let a = 1; a = a + 1; debug a");
    assert_eq!(nodes.len(), 3);
    assert!(matches!(nodes[0], Node::Declare(_)));
    assert!(matches!(nodes[1], Node::Assign(_)));
    assert!(matches!(nodes[2], Node::Debug(_)));
}

#[test]
fn parse_stops_at_stray_close_brace() {
    let nodes = program("1 } 2");
    assert_eq!(nodes.len(), 1);
}

#[test]
fn parse_unexpected_token() {
    let e = parse_error(")");
    assert_eq!(e.code, ErrorCode::UnexpectedToken);
}

#[test]
fn parse_cannot_assign() {
    let e = parse_error("let 1 = 2");
    assert_eq!(e.code, ErrorCode::UnexpectedToken);
    assert_eq!(e.message, "Cannot assign to this");
}

#[test]
fn parse_invalid_number() {
    let e = parse_error("\u{0663}");
    assert_eq!(e.code, ErrorCode::InvalidNumber);
}

#[test]
fn parse_runs_out_of_tokens() {
    let tokens = vec![Token {
        value: "let".to_string(),
        t: TokenType::Let,
        location: Location::no_location(),
    }];
    let mut parser = Parser::new(tokens, String::new());
    assert!(matches!(parser.try_produce_ast(), Err(ParseFault::Panic)));
}

#[test]
fn produce_ast_reports_errors() {
    let tokens = lex("let 1", String::new()).unwrap();
    let mut parser = Parser::new(tokens, String::new());
    let e = parser.produce_ast().unwrap_err();
    assert_eq!(e.code, ErrorCode::UnexpectedToken);
}

#[test]
fn return_takes_the_next_token_even_at_the_end() {
    // `return` consumes the token after its value; where that is the end-of-file
    // token, the parser then runs out of tokens.
    assert!(matches!(parse("{ return 1"), Err(ParseFault::Panic)));
    assert!(matches!(parse("return 1"), Err(ParseFault::Panic)));
    let nodes = program("return 1;");
    assert!(matches!(nodes[0], Node::Interrupt(_)));
}

#[test]
fn parse_object_literal_items_have_no_tags() {
    let nodes = program(".{a, b: 2}");
    match &nodes[0] {
        Node::Object(o) => {
            assert_eq!(o.items.len(), 2);
            assert_eq!(o.items[0].0, "a");
            match &*o.items[0].1.value {
                Node::Symbol(s) => assert_eq!(s.value, "a"),
                other => panic!("unexpected value {:?}", other),
            }
            assert_eq!(o.items[1].0, "b");
            match &*o.items[1].1.value {
                Node::Number(n) => assert_eq!(n.value, "2"),
                other => panic!("unexpected value {:?}", other),
            }
            assert!(o.items.iter().all(|(_, item)| item.tags.is_empty()));
        }
        other => panic!("unexpected node {:?}", other),
    }
}

#[test]
fn parse_object_literal_repeated_key_keeps_first_place() {
    let nodes = program(".{a: 1, b: 2, a: 3}");
    match &nodes[0] {
        Node::Object(o) => {
            assert_eq!(o.items.len(), 2);
            assert_eq!(o.items[0].0, "a");
            match &*o.items[0].1.value {
                Node::Number(n) => assert_eq!(n.value, "3"),
                other => panic!("unexpected value {:?}", other),
            }
        }
        other => panic!("unexpected node {:?}", other),
    }
}
