use json_ast::{
    parse, Expected, Literal, LiteralValue, Node, Point, PropertyValue, Span, SyntaxError,
    MAX_DEPTH,
};

fn pt(line: u64, column: u64) -> Point {
    Point { line, column }
}

fn span(a: (u64, u64), b: (u64, u64)) -> Span {
    Span { start: pt(a.0, a.1), end: pt(b.0, b.1) }
}

fn shape_lit(l: &Literal) -> String {
    match &l.value {
        LiteralValue::Str(s) => format!("{:?}", s),
        LiteralValue::Num(n) => format!("{}", n),
        LiteralValue::Bool(b) => format!("{}", b),
        LiteralValue::Null => "null".to_string(),
    }
}

fn shape_value(v: &PropertyValue) -> String {
    match v {
        PropertyValue::Object(o) => {
            let parts: Vec<String> = o
                .children
                .iter()
                .map(|p| format!("{}:{}", shape_lit(&p.key), shape_value(&p.value)))
                .collect();
            format!("{{{}}}", parts.join(","))
        }
        PropertyValue::Array(a) => {
            let parts: Vec<String> = a.children.iter().map(shape_value).collect();
            format!("[{}]", parts.join(","))
        }
        PropertyValue::Literal(l) => shape_lit(l),
    }
}

fn shape(nodes: &[Node]) -> Vec<String> {
    nodes
        .iter()
        .map(|n| match n {
            Node::Object(o) => {
                let parts: Vec<String> = o
                    .children
                    .iter()
                    .map(|p| format!("{}:{}", shape_lit(&p.key), shape_value(&p.value)))
                    .collect();
                format!("{{{}}}", parts.join(","))
            }
            Node::Array(a) => {
                let parts: Vec<String> = a.children.iter().map(shape_value).collect();
                format!("[{}]", parts.join(","))
            }
            Node::Literal(l) => shape_lit(l),
        })
        .collect()
}

#[test]
fn single_property_object() {
    let nodes = parse("{\"k\": 5}").unwrap();
    assert_eq!(nodes.len(), 1);
    match &nodes[0] {
        Node::Object(o) => {
            assert_eq!(o.children.len(), 1);
            let p = &o.children[0];
            assert_eq!(p.key.value, LiteralValue::Str("k".to_string()));
            assert_eq!(p.key.span, span((1, 2), (1, 5)));
            match &p.value {
                PropertyValue::Literal(l) => {
                    assert_eq!(l.value, LiteralValue::Num(5));
                    assert_eq!(l.span, span((1, 7), (1, 8)));
                }
                _ => panic!("expected a literal"),
            }
            assert_eq!(p.span, span((1, 2), (1, 8)));
            assert_eq!(o.span, span((1, 1), (1, 9)));
        }
        _ => panic!("expected an object"),
    }
}

#[test]
fn single_property_with_nested_values() {
    let nodes = parse("{\"key\": [1, {\"x\": true}]}").unwrap();
    assert_eq!(shape(&nodes), vec!["{\"key\":[1,{\"x\":true}]}".to_string()]);
    let nodes = parse("{\"a\\b\": \"v\"}").unwrap();
    match &nodes[0] {
        Node::Object(o) => {
            assert_eq!(o.children[0].key.value, LiteralValue::Str("a\\b".to_string()));
        }
        _ => panic!("expected an object"),
    }
}

#[test]
fn array_of_three_numbers() {
    let nodes = parse("[1, 2, 3]").unwrap();
    assert_eq!(nodes.len(), 1);
    match &nodes[0] {
        Node::Array(a) => {
            let values: Vec<LiteralValue> = a
                .children
                .iter()
                .map(|v| match v {
                    PropertyValue::Literal(l) => l.value.clone(),
                    _ => panic!("expected a literal"),
                })
                .collect();
            assert_eq!(
                values,
                vec![LiteralValue::Num(1), LiteralValue::Num(2), LiteralValue::Num(3)]
            );
            assert_eq!(a.span, span((1, 1), (1, 10)));
        }
        _ => panic!("expected an array"),
    }
}

#[test]
fn spacing_keeps_structure() {
    let a = parse("{\"a\":1}").unwrap();
    let b = parse("{ \"a\" : 1 }").unwrap();
    let c = parse("{\n  \"a\"\n  :\n  1\n}\n").unwrap();
    assert_eq!(shape(&a), shape(&b));
    assert_eq!(shape(&a), shape(&c));
    assert_eq!(shape(&a), vec!["{\"a\":1}".to_string()]);
    assert_ne!(a, b);
}

#[test]
fn string_literal_span() {
    let nodes = parse("\"ab\"").unwrap();
    assert_eq!(
        nodes,
        vec![Node::Literal(Literal {
            value: LiteralValue::Str("ab".to_string()),
            span: span((1, 1), (1, 5)),
        })]
    );
}

#[test]
fn largest_number() {
    let nodes = parse("9223372036854775807").unwrap();
    match &nodes[0] {
        Node::Literal(l) => assert_eq!(l.value, LiteralValue::Num(i64::MAX)),
        _ => panic!("expected a literal"),
    }
}

#[test]
fn number_overflow() {
    let err = parse("92233720368547758070").unwrap_err();
    assert_eq!(
        err,
        SyntaxError::InvalidNumber {
            position: pt(1, 1),
            raw_text: "92233720368547758070".to_string(),
        }
    );
    let err = parse("[1, 9223372036854775808]").unwrap_err();
    assert_eq!(
        err,
        SyntaxError::InvalidNumber {
            position: pt(1, 5),
            raw_text: "9223372036854775808".to_string(),
        }
    );
}

#[test]
fn missing_colon() {
    let err = parse("{\"a\" 1}").unwrap_err();
    assert_eq!(
        err,
        SyntaxError::UnexpectedCharacter {
            expected: Expected::Char(':'),
            found: '1',
            position: pt(1, 6),
        }
    );
}

#[test]
fn keywords() {
    let nodes = parse("[true, false, null]").unwrap();
    assert_eq!(shape(&nodes), vec!["[true,false,null]".to_string()]);
    let nodes = parse("{\"t\": true}").unwrap();
    match &nodes[0] {
        Node::Object(o) => match &o.children[0].value {
            PropertyValue::Literal(l) => {
                assert_eq!(l.value, LiteralValue::Bool(true));
                assert_eq!(l.span, span((1, 7), (1, 11)));
            }
            _ => panic!("expected a literal"),
        },
        _ => panic!("expected an object"),
    }
    let nodes = parse("null").unwrap();
    assert_eq!(
        nodes,
        vec![Node::Literal(Literal { value: LiteralValue::Null, span: span((1, 1), (1, 5)) })]
    );
}

#[test]
fn other_barewords_are_refused() {
    assert_eq!(
        parse("[nope]").unwrap_err(),
        SyntaxError::UnexpectedCharacter {
            expected: Expected::Char('u'),
            found: 'o',
            position: pt(1, 3),
        }
    );
    assert_eq!(
        parse("[yes]").unwrap_err(),
        SyntaxError::UnexpectedCharacter {
            expected: Expected::Value,
            found: 'y',
            position: pt(1, 2),
        }
    );
    assert_eq!(
        parse("[truex]").unwrap_err(),
        SyntaxError::UnexpectedCharacter {
            expected: Expected::Value,
            found: 'x',
            position: pt(1, 6),
        }
    );
    assert_eq!(
        parse("nullify").unwrap_err(),
        SyntaxError::UnexpectedCharacter {
            expected: Expected::Value,
            found: 'i',
            position: pt(1, 5),
        }
    );
    assert_eq!(
        parse("{\"a\":falsey}").unwrap_err(),
        SyntaxError::UnexpectedCharacter {
            expected: Expected::Value,
            found: 'y',
            position: pt(1, 11),
        }
    );
    assert_eq!(shape(&parse("[true,false]").unwrap()), vec!["[true,false]".to_string()]);
    assert_eq!(
        parse("[tru").unwrap_err(),
        SyntaxError::UnexpectedEndOfInput { position: pt(1, 5) }
    );
    assert_eq!(
        parse("-1").unwrap_err(),
        SyntaxError::UnexpectedCharacter {
            expected: Expected::Value,
            found: '-',
            position: pt(1, 1),
        }
    );
}

#[test]
fn empty_and_blank_input() {
    assert_eq!(parse("").unwrap(), vec![]);
    assert_eq!(parse("  \n \n").unwrap(), vec![]);
    assert_eq!(shape(&parse("{}").unwrap()), vec!["{}".to_string()]);
    assert_eq!(shape(&parse("[ ]").unwrap()), vec!["[]".to_string()]);
    assert_eq!(shape(&parse("{ }").unwrap()), vec!["{}".to_string()]);
}

#[test]
fn several_top_level_values() {
    let nodes = parse(" 1 \"x\"\n[2] {} true").unwrap();
    assert_eq!(
        shape(&nodes),
        vec![
            "1".to_string(),
            "\"x\"".to_string(),
            "[2]".to_string(),
            "{}".to_string(),
            "true".to_string()
        ]
    );
    match &nodes[2] {
        Node::Array(a) => assert_eq!(a.span, span((2, 1), (2, 4))),
        _ => panic!("expected an array"),
    }
}

#[test]
fn separators_may_be_left_out() {
    assert_eq!(shape(&parse("[1 2,3]").unwrap()), vec!["[1,2,3]".to_string()]);
    assert_eq!(
        shape(&parse("{\"a\":1 \"b\":2}").unwrap()),
        vec!["{\"a\":1,\"b\":2}".to_string()]
    );
}

#[test]
fn duplicate_keys_are_kept() {
    let nodes = parse("{\"a\":1,\"a\":2}").unwrap();
    assert_eq!(shape(&nodes), vec!["{\"a\":1,\"a\":2}".to_string()]);
}

#[test]
fn positions_across_lines() {
    let nodes = parse("{\n  \"a\": [\n    10\n  ]\n}").unwrap();
    match &nodes[0] {
        Node::Object(o) => {
            assert_eq!(o.span, span((1, 1), (5, 2)));
            let p = &o.children[0];
            assert_eq!(p.key.span, span((2, 3), (2, 6)));
            assert_eq!(p.span, span((2, 3), (4, 4)));
            match &p.value {
                PropertyValue::Array(a) => {
                    assert_eq!(a.span, span((2, 8), (4, 4)));
                    match &a.children[0] {
                        PropertyValue::Literal(l) => assert_eq!(l.span, span((3, 5), (3, 7))),
                        _ => panic!("expected a literal"),
                    }
                }
                _ => panic!("expected an array"),
            }
        }
        _ => panic!("expected an object"),
    }
}

#[test]
fn string_across_lines() {
    let nodes = parse("\"a\nb\" 7").unwrap();
    assert_eq!(
        nodes[0],
        Node::Literal(Literal {
            value: LiteralValue::Str("a\nb".to_string()),
            span: span((1, 1), (2, 3)),
        })
    );
    match &nodes[1] {
        Node::Literal(l) => assert_eq!(l.span, span((2, 4), (2, 5))),
        _ => panic!("expected a literal"),
    }
}

#[test]
fn unterminated_string() {
    assert_eq!(
        parse("[\"abc").unwrap_err(),
        SyntaxError::UnterminatedString { position: pt(1, 2) }
    );
}

#[test]
fn object_key_must_be_a_string() {
    assert_eq!(
        parse("{1: 2}").unwrap_err(),
        SyntaxError::InvalidObjectKey { position: pt(1, 2) }
    );
}

#[test]
fn end_of_input_inside_containers() {
    assert_eq!(
        parse("{\"a\": 1").unwrap_err(),
        SyntaxError::UnexpectedEndOfInput { position: pt(1, 8) }
    );
    assert_eq!(
        parse("[1,").unwrap_err(),
        SyntaxError::UnexpectedEndOfInput { position: pt(1, 4) }
    );
    assert_eq!(
        parse("{\"a\":").unwrap_err(),
        SyntaxError::UnexpectedEndOfInput { position: pt(1, 6) }
    );
}

#[test]
fn tabs_are_not_whitespace() {
    assert_eq!(
        parse("[\t1]").unwrap_err(),
        SyntaxError::UnexpectedCharacter {
            expected: Expected::Value,
            found: '\t',
            position: pt(1, 2),
        }
    );
}

#[test]
fn nesting_limit() {
    let depth = MAX_DEPTH as usize;
    let ok = format!("{}{}", "[".repeat(depth), "]".repeat(depth));
    assert!(parse(&ok).is_ok());
    let deep = format!("{}{}", "[".repeat(depth + 1), "]".repeat(depth + 1));
    assert_eq!(
        parse(&deep).unwrap_err(),
        SyntaxError::NestingTooDeep { position: pt(1, depth as u64 + 1) }
    );
}

#[test]
fn non_ascii_text() {
    let nodes = parse("{\"é\": \"ü→\"}").unwrap();
    match &nodes[0] {
        Node::Object(o) => {
            assert_eq!(o.children[0].key.value, LiteralValue::Str("é".to_string()));
            assert_eq!(o.span, span((1, 1), (1, 12)));
        }
        _ => panic!("expected an object"),
    }
}
