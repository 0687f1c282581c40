use neko::ast::{AssignmentExpr, BinOperator, FunctionCall, FunctionDecleration, Node, UnaryOperator, VariabeDecleration};
use neko::parser::Parser;
use neko::token::{Keyword, Operator, Token};
use std::rc::Rc;

fn number(text: &str) -> Node {
    Node::Number(String::from(text))
}

fn ident(name: &str) -> Node {
    Node::Identifier(String::from(name))
}

fn bin(left: Node, op: Operator, right: Node) -> Node {
    Node::BinOperator(Box::new(BinOperator { left, operator: Token::Operator(op), right }))
}

fn assign(name: &str, value: Node) -> Node {
    Node::Expression(Box::new(Node::AssignmentExpr(Box::new(AssignmentExpr {
        identifier: String::from(name),
        value,
    }))))
}

#[test]
fn should_parse_variable_decleration() {
    let mut parser = Parser::new("let foo = 10;");
    let result = parser.parse().unwrap();
    assert_eq!(
        result,
        Node::Compound(vec![Node::VariabeDecleration(Box::new(VariabeDecleration {
            identifier: String::from("foo"),
            value: Some(number("10")),
        }))])
    );
}

#[test]
fn shouldnt_parse_variable_assignment() {
    let mut parser = Parser::new("foo = 10; foo = true;");
    let result = parser.parse().unwrap();
    assert_eq!(
        result,
        Node::Compound(vec![assign("foo", number("10")), assign("foo", Node::Boolean(true))])
    );
}

#[test]
fn should_parse_multiple_statements() {
    let mut parser = Parser::new("let foo = 10; foo = 20;");
    let result = parser.parse().unwrap();
    assert_eq!(
        result,
        Node::Compound(vec![
            Node::VariabeDecleration(Box::new(VariabeDecleration {
                identifier: String::from("foo"),
                value: Some(number("10")),
            })),
            assign("foo", number("20")),
        ])
    );
}

#[test]
fn should_parse_compound_assignments() {
    let mut parser = Parser::new("let foo = 10; foo += 20; foo /= 2; foo **= 2;");
    let result = parser.parse().unwrap();
    assert_eq!(
        result,
        Node::Compound(vec![
            Node::VariabeDecleration(Box::new(VariabeDecleration {
                identifier: String::from("foo"),
                value: Some(number("10")),
            })),
            assign("foo", bin(ident("foo"), Operator::Plus, number("20"))),
            assign("foo", bin(ident("foo"), Operator::Div, number("2"))),
            assign("foo", bin(ident("foo"), Operator::Exponent, number("2"))),
        ])
    );
}

#[test]
fn should_parse_comparision() {
    let mut parser = Parser::new("let foo = 10; foo <= 20; foo >= 2; foo == 10;");
    let result = parser.parse().unwrap();
    assert_eq!(
        result,
        Node::Compound(vec![
            Node::VariabeDecleration(Box::new(VariabeDecleration {
                identifier: String::from("foo"),
                value: Some(number("10")),
            })),
            Node::Expression(Box::new(bin(ident("foo"), Operator::LessThanOrEqual, number("20")))),
            Node::Expression(Box::new(bin(ident("foo"), Operator::GreaterThanOrEqual, number("2")))),
            Node::Expression(Box::new(bin(ident("foo"), Operator::DoubleEqual, number("10")))),
        ])
    );
}

#[test]
fn should_parse_function_statement() {
    let mut parser = Parser::new("function foo(bar, baz) { let bee = bar + baz; }");
    let result = parser.parse().unwrap();
    assert_eq!(
        result,
        Node::Compound(vec![Node::FunctionDecleration(Rc::new(FunctionDecleration {
            name: String::from("foo"),
            params: vec![String::from("bar"), String::from("baz")],
            block: Node::Block(vec![Node::VariabeDecleration(Box::new(VariabeDecleration {
                identifier: String::from("bee"),
                value: Some(bin(ident("bar"), Operator::Plus, ident("baz"))),
            }))]),
        }))])
    );
}

#[test]
fn parses_binary_operators_left_associative_with_precedence() {
    let mut parser = Parser::new("2 ** 3 ** 2; 1 + 2 * 3 - 4;");
    let result = parser.parse().unwrap();
    assert_eq!(
        result,
        Node::Compound(vec![
            Node::Expression(Box::new(bin(
                bin(number("2"), Operator::Exponent, number("3")),
                Operator::Exponent,
                number("2")
            ))),
            Node::Expression(Box::new(bin(
                bin(number("1"), Operator::Plus, bin(number("2"), Operator::Mul, number("3"))),
                Operator::Minus,
                number("4")
            ))),
        ])
    );
}

#[test]
fn parses_logical_keywords_unary_and_calls() {
    let mut parser = Parser::new("not a and b or -c; f(1, 2)(3);");
    let result = parser.parse().unwrap();
    let not_a = Node::UnaryOperator(Box::new(UnaryOperator {
        operator: Token::Operator(Operator::Not),
        expression: ident("a"),
    }));
    let and = Node::BinOperator(Box::new(BinOperator {
        left: not_a,
        operator: Token::Keyword(Keyword::And),
        right: ident("b"),
    }));
    let neg_c = Node::UnaryOperator(Box::new(UnaryOperator {
        operator: Token::Operator(Operator::Minus),
        expression: ident("c"),
    }));
    let or = Node::BinOperator(Box::new(BinOperator {
        left: and,
        operator: Token::Keyword(Keyword::Or),
        right: neg_c,
    }));
    let inner = Node::FunctionCall(Box::new(FunctionCall {
        function: ident("f"),
        arguments: vec![number("1"), number("2")],
    }));
    let outer = Node::FunctionCall(Box::new(FunctionCall { function: inner, arguments: vec![number("3")] }));
    assert_eq!(
        result,
        Node::Compound(vec![Node::Expression(Box::new(or)), Node::Expression(Box::new(outer))])
    );
}

#[test]
fn parses_lambdas_with_and_without_parameters() {
    let mut parser = Parser::new("|x, y| x + y; || { 1; };");
    let result = parser.parse().unwrap();
    match result {
        Node::Compound(items) => {
            assert_eq!(items.len(), 2);
            match &items[0] {
                Node::Expression(e) => match &**e {
                    Node::Lambda(l) => {
                        assert_eq!(l.params, vec![String::from("x"), String::from("y")]);
                        assert_eq!(l.block, Node::Block(vec![bin(ident("x"), Operator::Plus, ident("y"))]));
                    }
                    other => panic!("not a lambda: {:?}", other),
                },
                other => panic!("not an expression: {:?}", other),
            }
            match &items[1] {
                Node::Expression(e) => match &**e {
                    Node::Lambda(l) => assert!(l.params.is_empty()),
                    other => panic!("not a lambda: {:?}", other),
                },
                other => panic!("not an expression: {:?}", other),
            }
        }
        other => panic!("not a program: {:?}", other),
    }
}

#[test]
fn rejects_bad_syntax() {
    assert!(Parser::new("1 = 2;").parse().is_err());
    assert!(Parser::new("let = 2;").parse().is_err());
    assert!(Parser::new("1 + ;").parse().is_err());
    assert!(Parser::new("(1 + 2;").parse().is_err());
    assert!(Parser::new("| 1;").parse().is_err());
    assert!(Parser::new("foo").parse().is_err());
    assert!(Parser::new("function f(a b) { }").parse().is_err());
}

#[test]
fn parsing_twice_gives_the_same_tree() {
    let text = "function make() { let n = 10; |x| x + n } let f = make(); f(5);";
    let a = Parser::new(text).parse();
    let b = Parser::new(text).parse();
    assert!(a.is_ok());
    assert_eq!(a, b);
}

#[test]
fn parse_source_reads_whole_programs() {
    use_parse_source();
}

fn use_parse_source() {
    let tree = neko::parser::parse_source("let a = 1; a;").unwrap();
    assert_eq!(
        tree,
        Node::Compound(vec![
            Node::VariabeDecleration(Box::new(VariabeDecleration {
                identifier: String::from("a"),
                value: Some(number("1")),
            })),
            Node::Expression(Box::new(ident("a"))),
        ])
    );
    assert!(neko::parser::parse_source("let a = ;").is_err());
    assert_eq!(neko::parser::parse_source("").unwrap(), Node::Compound(vec![]));
}

#[test]
fn block_may_end_without_semicolon() {
    let tree = neko::parser::parse_source("function f() { 1 }").unwrap();
    assert_eq!(
        tree,
        Node::Compound(vec![Node::FunctionDecleration(Rc::new(FunctionDecleration {
            name: String::from("f"),
            params: vec![],
            block: Node::Block(vec![Node::Expression(Box::new(number("1")))]),
        }))])
    );
    assert!(neko::parser::parse_source("1").is_err());
}

#[test]
fn lambda_ids_name_their_position() {
    let tree = neko::parser::parse_source("let f = |x| x; || 1;").unwrap();
    let ids: Vec<String> = match tree {
        Node::Compound(items) => items
            .iter()
            .filter_map(|item| match item {
                Node::VariabeDecleration(d) => match &d.value {
                    Some(Node::Lambda(l)) => Some(l.id.clone()),
                    _ => None,
                },
                Node::Expression(e) => match &**e {
                    Node::Lambda(l) => Some(l.id.clone()),
                    _ => None,
                },
                _ => None,
            })
            .collect(),
        _ => vec![],
    };
    assert_eq!(ids, vec![String::from("(lambda)#3"), String::from("(lambda)#8")]);
}
