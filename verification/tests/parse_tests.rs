use json_de::parse;
use json_de::parse_with_depth;
use json_de::FloatLit;
use json_de::Number;
use json_de::NumberError;
use json_de::ParseError;
use json_de::Value;

fn float_of(f: &FloatLit) -> f64 {
    let mantissa = f.whole as f64 + f.frac as f64 / 10f64.powi(f.frac_len as i32);
    let signed = if f.neg { -mantissa } else { mantissa };
    let exp = if f.exp_neg { -(f.exp as i32) } else { f.exp as i32 };
    signed * 10f64.powi(exp)
}

#[test]
fn empty_object() {
    let v = parse(&String::from("{}")).unwrap();
    assert_eq!(v, Value::Object(vec![]));
}

#[test]
fn empty_array() {
    let v = parse(&String::from("[]")).unwrap();
    assert_eq!(v, Value::Array(vec![]));
}

#[test]
fn three_pos_ints() {
    let v = parse(&String::from("[1,2,3]")).unwrap();
    assert_eq!(
        v,
        Value::Array(vec![
            Value::Number(Number::PosInt(1)),
            Value::Number(Number::PosInt(2)),
            Value::Number(Number::PosInt(3)),
        ])
    );
}

#[test]
fn negative_integer() {
    let v = parse(&String::from("-42")).unwrap();
    assert_eq!(v, Value::Number(Number::NegInt(-42)));
}

#[test]
fn simple_float() {
    let v = parse(&String::from("3.14")).unwrap();
    match v {
        Value::Number(Number::Float(f)) => {
            assert!(!f.neg);
            assert_eq!(f.whole, 3);
            assert_eq!(f.frac, 14);
            assert_eq!(f.frac_len, 2);
            assert!((float_of(&f) - 3.14).abs() < 1e-12);
        }
        other => panic!("expected a float, got {:?}", other),
    }
}

#[test]
fn exponent_float() {
    let v = parse(&String::from("1e3")).unwrap();
    match v {
        Value::Number(Number::Float(f)) => {
            assert!((float_of(&f) - 1000.0).abs() < 1e-9);
        }
        other => panic!("expected a float, got {:?}", other),
    }
}

#[test]
fn negative_exponent_float() {
    let v = parse(&String::from("-2.5e-2")).unwrap();
    match v {
        Value::Number(Number::Float(f)) => {
            assert!(f.neg);
            assert!((float_of(&f) - (-0.025)).abs() < 1e-12);
        }
        other => panic!("expected a float, got {:?}", other),
    }
}

#[test]
fn object_navigation() {
    let v = parse(&String::from("{\"a\":1,\"b\":[true,false,null]}")).unwrap();
    let a = v.index_into(String::from("a")).unwrap();
    assert_eq!(*a, Value::Number(Number::PosInt(1)));
    let b = v.index_into(String::from("b")).unwrap();
    assert_eq!(
        *b,
        Value::Array(vec![Value::Boolean(true), Value::Boolean(false), Value::Null])
    );
    let b0 = b.index_into(0usize).unwrap();
    assert_eq!(*b0, Value::Boolean(true));
    assert!(v.index_into(String::from("c")).is_none());
}

#[test]
fn whitespace_insensitivity() {
    let spaced = parse(&String::from("{ \"x\" : 1 }")).unwrap();
    let tight = parse(&String::from("{\"x\":1}")).unwrap();
    assert_eq!(spaced, tight);
}

#[test]
fn duplicate_key_last_wins() {
    let v = parse(&String::from("{\"a\":1,\"a\":2}")).unwrap();
    let a = v.index_into(String::from("a")).unwrap();
    assert_eq!(*a, Value::Number(Number::PosInt(2)));
    match &v {
        Value::Object(entries) => assert_eq!(entries.len(), 1),
        other => panic!("expected an object, got {:?}", other),
    }
}

#[test]
fn trailing_comma_rejected() {
    assert!(parse(&String::from("[1,]")).is_err());
    assert!(parse(&String::from("{\"a\":1,}")).is_err());
}

#[test]
fn unterminated_object() {
    match parse(&String::from("{")) {
        Err(ParseError::UnexpectedEnd { .. }) => {}
        other => panic!("expected an unexpected-end error, got {:?}", other),
    }
}

#[test]
fn truncated_literal() {
    match parse(&String::from("tru")) {
        Err(ParseError::InvalidLiteral { start, offset }) => {
            assert_eq!(start, 0);
            assert_eq!(offset, 3);
        }
        other => panic!("expected an invalid-literal error, got {:?}", other),
    }
}

#[test]
fn wrong_literal() {
    match parse(&String::from("nulx")) {
        Err(ParseError::InvalidLiteral { start, offset }) => {
            assert_eq!(start, 0);
            assert_eq!(offset, 3);
        }
        other => panic!("expected an invalid-literal error, got {:?}", other),
    }
}

#[test]
fn distinct_literals() {
    assert_eq!(parse(&String::from("true")).unwrap(), Value::Boolean(true));
    assert_eq!(parse(&String::from("false")).unwrap(), Value::Boolean(false));
    assert_eq!(parse(&String::from("null")).unwrap(), Value::Null);
}

#[test]
fn string_escapes() {
    let v = parse(&String::from("\"a\\n\\\"\\\\\\u0041b\"")).unwrap();
    assert_eq!(v, Value::String(String::from("a\n\"\\Ab")));
}

#[test]
fn more_escapes() {
    let v = parse(&String::from("\"\\t\\r\\b\\f\\/\"")).unwrap();
    assert_eq!(
        v,
        Value::String(String::from("\t\r\u{8}\u{c}/"))
    );
}

#[test]
fn invalid_escape() {
    match parse(&String::from("\"\\q\"")) {
        Err(ParseError::InvalidEscape { .. }) => {}
        other => panic!("expected an invalid-escape error, got {:?}", other),
    }
}

#[test]
fn surrogate_escape_rejected() {
    match parse(&String::from("\"\\uD800\"")) {
        Err(ParseError::InvalidEscape { .. }) => {}
        other => panic!("expected an invalid-escape error, got {:?}", other),
    }
}

#[test]
fn unterminated_string() {
    match parse(&String::from("\"abc")) {
        Err(ParseError::UnexpectedEnd { .. }) => {}
        other => panic!("expected an unexpected-end error, got {:?}", other),
    }
}

#[test]
fn integer_overflow_rejected() {
    match parse(&String::from("99999999999999999999999999")) {
        Err(ParseError::InvalidNumber { reason, .. }) => {
            assert_eq!(reason, NumberError::Overflow);
        }
        other => panic!("expected an invalid-number error, got {:?}", other),
    }
}

#[test]
fn malformed_fraction_rejected() {
    match parse(&String::from("1.x")) {
        Err(ParseError::InvalidNumber { reason, .. }) => {
            assert_eq!(reason, NumberError::MissingDigits);
        }
        other => panic!("expected an invalid-number error, got {:?}", other),
    }
}

#[test]
fn long_flat_inputs() {
    let mut spaced = String::new();
    for _ in 0..50_000 {
        spaced.push(' ');
    }
    spaced.push('1');
    assert_eq!(parse(&spaced).unwrap(), Value::Number(Number::PosInt(1)));

    let mut quoted = String::from("\"");
    for _ in 0..50_000 {
        quoted.push('a');
    }
    quoted.push('"');
    match parse(&quoted).unwrap() {
        Value::String(s) => assert_eq!(s.len(), 50_000),
        other => panic!("expected a string, got {:?}", other),
    }

    let mut arr = String::from("[0");
    for _ in 0..20_000 {
        arr.push_str(",0");
    }
    arr.push(']');
    match parse(&arr).unwrap() {
        Value::Array(items) => assert_eq!(items.len(), 20_001),
        other => panic!("expected an array, got {:?}", other),
    }
}

#[test]
fn malformed_exponent_rejected() {
    match parse(&String::from("1e+")) {
        Err(ParseError::UnexpectedEnd { .. }) => {}
        other => panic!("expected an unexpected-end error, got {:?}", other),
    }
}

#[test]
fn unexpected_separator() {
    match parse(&String::from("[1;2]")) {
        Err(ParseError::UnexpectedCharacter { .. }) => {}
        other => panic!("expected an unexpected-character error, got {:?}", other),
    }
}

#[test]
fn trailing_garbage_rejected() {
    match parse(&String::from("1 2")) {
        Err(ParseError::UnexpectedCharacter { .. }) => {}
        other => panic!("expected an unexpected-character error, got {:?}", other),
    }
}

#[test]
fn deep_nesting_hits_guard() {
    let mut text = String::new();
    for _ in 0..400 {
        text.push('[');
    }
    match parse(&text) {
        Err(ParseError::MaxDepthExceeded) => {}
        other => panic!("expected the nesting guard to trip, got {:?}", other),
    }
}

#[test]
fn nesting_below_guard_succeeds() {
    let mut text = String::new();
    for _ in 0..100 {
        text.push('[');
    }
    text.push('1');
    for _ in 0..100 {
        text.push(']');
    }
    assert!(parse(&text).is_ok());
}

#[test]
fn configurable_depth() {
    let text = String::from("[[1]]");
    assert!(parse_with_depth(&text, 2).is_ok());
    match parse_with_depth(&text, 1) {
        Err(ParseError::MaxDepthExceeded) => {}
        other => panic!("expected the nesting guard to trip, got {:?}", other),
    }
}

#[test]
fn negative_overflow_rejected() {
    match parse(&String::from("-9223372036854775809")) {
        Err(ParseError::InvalidNumber { .. }) => {}
        other => panic!("expected an invalid-number error, got {:?}", other),
    }
}

#[test]
fn explicit_plus_exponent() {
    let v = parse(&String::from("1e+2")).unwrap();
    match v {
        Value::Number(Number::Float(f)) => {
            assert!((float_of(&f) - 100.0).abs() < 1e-9);
        }
        other => panic!("expected a float, got {:?}", other),
    }
}

#[test]
fn composite_fixture() {
    let v = parse(&String::from("{\"k\":[1,-2,3.5,\"s\",true,false,null],\"m\":{}}")).unwrap();
    let k = v.index_into(String::from("k")).unwrap();
    match k {
        Value::Array(items) => {
            assert_eq!(items.len(), 7);
            assert_eq!(items[0], Value::Number(Number::PosInt(1)));
            assert_eq!(items[1], Value::Number(Number::NegInt(-2)));
            match &items[2] {
                Value::Number(Number::Float(f)) => {
                    assert!((float_of(f) - 3.5).abs() < 1e-12);
                }
                other => panic!("expected a float, got {:?}", other),
            }
            assert_eq!(items[3], Value::String(String::from("s")));
            assert_eq!(items[4], Value::Boolean(true));
            assert_eq!(items[5], Value::Boolean(false));
            assert_eq!(items[6], Value::Null);
        }
        other => panic!("expected an array, got {:?}", other),
    }
    let m = v.index_into(String::from("m")).unwrap();
    assert_eq!(*m, Value::Object(vec![]));
}

#[test]
fn nested_objects() {
    let v = parse(&String::from("{\"a\":{\"b\":{\"c\":3}}}")).unwrap();
    let c = v
        .index_into(String::from("a"))
        .unwrap()
        .index_into(String::from("b"))
        .unwrap()
        .index_into(String::from("c"))
        .unwrap();
    assert_eq!(*c, Value::Number(Number::PosInt(3)));
}

#[test]
fn top_level_scalars() {
    assert_eq!(
        parse(&String::from("  \"hi\"  ")).unwrap(),
        Value::String(String::from("hi"))
    );
    assert_eq!(parse(&String::from("0")).unwrap(), Value::Number(Number::PosInt(0)));
    assert_eq!(
        parse(&String::from("18446744073709551615")).unwrap(),
        Value::Number(Number::PosInt(u64::MAX))
    );
    assert_eq!(
        parse(&String::from("-9223372036854775808")).unwrap(),
        Value::Number(Number::NegInt(i64::MIN))
    );
}
