use json_ast::{parse, Expected, LiteralValue, Node, Point, Span, SyntaxError};

#[test]
fn render_array() {
    let nodes = parse("[1, \"a\"]").unwrap();
    assert_eq!(
        nodes[0].render(),
        r#" { type: "Array", children: [ { type: "Literal", value: 1 },  { type: "Literal", value: "a" }] }"#
    );
}

#[test]
fn render_object() {
    let nodes = parse("{\"k\": true}").unwrap();
    assert_eq!(
        nodes[0].render(),
        [
            r#" { type: "Object", children: [ { type: "Property", key:  { type: "Literal", value: "k" }, "#,
            r#"value:  { type: "Literal", value: true }, loc:  { start:  { line: 1, column: 2 }, "#,
            r#"end:  { line: 1, column: 11 } } }], loc:  { start:  { line: 1, column: 1 }, "#,
            r#"end:  { line: 1, column: 12 } } }"#,
        ]
        .concat()
    );
    match &nodes[0] {
        Node::Object(o) => {
            assert_eq!(o.render(), nodes[0].render());
            assert_eq!(o.children[0].key.render(), r#" { type: "Literal", value: "k" }"#);
        }
        _ => panic!("expected an object"),
    }
}

#[test]
fn render_empty_containers() {
    let nodes = parse("[] {}").unwrap();
    assert_eq!(nodes[0].render(), r#" { type: "Array", children: [] }"#);
    assert_eq!(
        nodes[1].render(),
        r#" { type: "Object", children: [], loc:  { start:  { line: 1, column: 4 }, end:  { line: 1, column: 6 } } }"#
    );
}

#[test]
fn render_literal_values() {
    assert_eq!(LiteralValue::Num(0).render(), "0");
    assert_eq!(LiteralValue::Num(-42).render(), "-42");
    assert_eq!(LiteralValue::Num(i64::MIN).render(), "-9223372036854775808");
    assert_eq!(LiteralValue::Num(i64::MAX).render(), "9223372036854775807");
    assert_eq!(LiteralValue::Null.render(), "null");
    assert_eq!(LiteralValue::Bool(false).render(), "false");
    assert_eq!(LiteralValue::Str("ab".to_string()).render(), r#""ab""#);
    assert_eq!(
        LiteralValue::Str("a\\b\n\"".to_string()).render(),
        r#""a\\b\n\"""#
    );
}

#[test]
fn render_positions() {
    assert_eq!(Point { line: 3, column: 10 }.render(), " { line: 3, column: 10 }");
    let s = Span { start: Point { line: 1, column: 1 }, end: Point { line: 2, column: 5 } };
    assert_eq!(
        s.render(),
        " { start:  { line: 1, column: 1 }, end:  { line: 2, column: 5 } }"
    );
}

#[test]
fn error_messages() {
    let e = parse("{\"a\" 1}").unwrap_err();
    assert_eq!(e.message(), "expected ':', found '1'");
    assert_eq!(e.position(), Point { line: 1, column: 6 });
    let e = parse("?").unwrap_err();
    assert_eq!(e.message(), "expected a value, found '?'");
    let e = parse("99999999999999999999").unwrap_err();
    assert_eq!(e.message(), "invalid number: 99999999999999999999");
    let e = SyntaxError::UnexpectedCharacter {
        expected: Expected::Value,
        found: 'x',
        position: Point { line: 4, column: 2 },
    };
    assert_eq!(e.position(), Point { line: 4, column: 2 });
    assert_eq!(parse("\"a").unwrap_err().message(), "unterminated string");
    assert_eq!(parse("[").unwrap_err().message(), "unexpected end of input");
    assert_eq!(parse("{2:3}").unwrap_err().message(), "object key is not a string");
}
