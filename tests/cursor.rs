use json_ast::{CharClass, Expected, LiteralValue, Point, PropertyValue, SyntaxError, AST};

#[test]
fn new_cursor_starts_at_line_one() {
    let c = AST::new("a\nb");
    assert_eq!(c.pointer, 0);
    assert_eq!(c.point(), Point { line: 1, column: 1 });
    assert_eq!(c.text, vec!['a', '\n', 'b']);
    assert!(!c.at_end());
}

#[test]
fn get_chr_past_the_end() {
    let c = AST::new("433");
    assert_eq!(c.get_chr(1), Some('3'));
    assert_eq!(c.get_chr(3), None);
}

#[test]
fn advance_tracks_lines_and_columns() {
    let mut c = AST::new("ab\ncd");
    c.advance();
    assert_eq!(c.point(), Point { line: 1, column: 2 });
    c.advance();
    c.advance();
    assert_eq!(c.point(), Point { line: 2, column: 1 });
    c.advance();
    c.advance();
    assert_eq!(c.point(), Point { line: 2, column: 3 });
    assert!(c.at_end());
}

#[test]
fn consume_checks_the_character() {
    let mut c = AST::new("{}");
    assert_eq!(c.consume('{'), Ok(()));
    assert_eq!(
        c.consume(']'),
        Err(SyntaxError::UnexpectedCharacter {
            expected: Expected::Char(']'),
            found: '}',
            position: Point { line: 1, column: 2 },
        })
    );
    assert_eq!(c.pointer, 1);
    assert_eq!(c.point(), Point { line: 1, column: 2 });
    assert_eq!(c.consume('}'), Ok(()));
    assert_eq!(
        c.consume('}'),
        Err(SyntaxError::UnexpectedEndOfInput { position: Point { line: 1, column: 3 } })
    );
}

#[test]
fn consume_or_is_optional() {
    let mut c = AST::new(",x");
    assert!(c.consume_or(','));
    assert_eq!(c.pointer, 1);
    assert!(!c.consume_or(','));
    assert_eq!(c.pointer, 1);
}

#[test]
fn whitespace_run_is_skipped() {
    let mut c = AST::new("  \n x");
    c.consume_space_new_line();
    assert_eq!(c.pointer, 4);
    assert_eq!(c.point(), Point { line: 2, column: 2 });
    let mut d = AST::new("   ");
    d.consume_space_new_line();
    assert!(d.at_end());
}

#[test]
fn match_until_goes_past_the_character() {
    let mut c = AST::new("abc\"def");
    assert!(c.match_until('"'));
    assert_eq!(c.pointer, 4);
    assert!(!c.match_until('"'));
    assert_eq!(c.pointer, 7);
}

#[test]
fn character_classes() {
    assert!(AST::check_next('7', CharClass::Digit));
    assert!(!AST::check_next('a', CharClass::Digit));
    assert!(AST::check_next('\n', CharClass::NewLine));
    assert!(!AST::check_next(' ', CharClass::NewLine));
    assert!(AST::check_next(' ', CharClass::Space));
    assert!(!AST::check_next('\t', CharClass::Space));
    assert!(AST::check_next('Q', CharClass::Letter));
    assert!(!AST::check_next('1', CharClass::Letter));
}

#[test]
fn text_between_offsets() {
    let c = AST::new("hello");
    assert_eq!(c.text_between(1, 4), "ell".to_string());
    assert_eq!(c.text_between(2, 2), String::new());
}

#[test]
fn string_production() {
    let mut c = AST::new("\"adasnf\" rest");
    let lit = c.string().unwrap();
    assert_eq!(lit.value, LiteralValue::Str("adasnf".to_string()));
    assert_eq!(c.pointer, 8);
    let mut d = AST::new("x");
    assert_eq!(
        d.string(),
        Err(SyntaxError::UnexpectedCharacter {
            expected: Expected::Char('"'),
            found: 'x',
            position: Point { line: 1, column: 1 },
        })
    );
}

#[test]
fn number_production() {
    let mut c = AST::new("0042,");
    assert_eq!(c.number().unwrap().value, LiteralValue::Num(42));
    assert_eq!(c.pointer, 4);
    let mut d = AST::new("x");
    assert_eq!(
        d.number(),
        Err(SyntaxError::InvalidNumber {
            position: Point { line: 1, column: 1 },
            raw_text: String::new(),
        })
    );
}

#[test]
fn keyword_productions() {
    let mut c = AST::new("false");
    assert_eq!(c.boolean_null().unwrap().value, LiteralValue::Bool(false));
    let mut d = AST::new("7");
    assert_eq!(d.abstract_literal().unwrap().value, LiteralValue::Num(7));
    let mut e = AST::new("nul");
    assert_eq!(
        e.abstract_literal(),
        Err(SyntaxError::UnexpectedEndOfInput { position: Point { line: 1, column: 4 } })
    );
    let mut g = AST::new("truex");
    assert_eq!(
        g.boolean_null(),
        Err(SyntaxError::UnexpectedCharacter {
            expected: Expected::Value,
            found: 'x',
            position: Point { line: 1, column: 5 },
        })
    );
    let mut h = AST::new("true}");
    assert_eq!(h.boolean_null().unwrap().value, LiteralValue::Bool(true));
    assert_eq!(h.pointer, 4);
    let mut f = AST::new("trUe");
    assert_eq!(
        f.consume_word(&['t', 'r', 'u', 'e']),
        Err(SyntaxError::UnexpectedCharacter {
            expected: Expected::Char('u'),
            found: 'U',
            position: Point { line: 1, column: 3 },
        })
    );
    assert_eq!(f.pointer, 2);
}

#[test]
fn container_productions() {
    let mut c = AST::new("{\"a\":[55,6,7,null]}");
    let o = c.object(4).unwrap();
    assert_eq!(o.children.len(), 1);
    match &o.children[0].value {
        PropertyValue::Array(a) => assert_eq!(a.children.len(), 4),
        _ => panic!("expected an array"),
    }
    let mut d = AST::new("[[1]]");
    assert_eq!(
        d.array(1).unwrap_err(),
        SyntaxError::NestingTooDeep { position: Point { line: 1, column: 2 } }
    );
    let mut e = AST::new("[[1]]");
    assert!(e.value(2).is_ok());
    assert!(e.at_end());
}

#[test]
fn build_ast_starts_over() {
    let mut c = AST::new("1 2");
    let first = c.parse_tree().unwrap();
    assert_eq!(first.len(), 2);
    assert!(c.at_end());
    let again = c.build_ast().unwrap();
    assert_eq!(first, again);
    let mut d = AST::new("1 [2]");
    d.pointer = 2;
    d.column = 3;
    assert_eq!(d.parse_tree().unwrap().len(), 1);
}
