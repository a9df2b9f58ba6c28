use json_de::parse;
use json_de::De;
use json_de::Number;
use json_de::ParseError;
use json_de::Value;

#[test]
fn type_probes() {
    let null = Value::Null;
    assert!(null.is_null());
    assert!(!null.is_boolean());
    assert!(!null.is_number());
    assert!(!null.is_string());
    assert!(!null.is_array());
    assert!(!null.is_object());

    let b = Value::Boolean(true);
    assert!(b.is_boolean());
    assert_eq!(b.as_boolean(), Some(true));
    assert!(b.as_number().is_none());

    let n = Value::Number(Number::PosInt(7));
    assert!(n.is_number());
    assert_eq!(n.as_number(), Some(&Number::PosInt(7)));
    assert!(n.as_str().is_none());

    let s = Value::String(String::from("abc"));
    assert!(s.is_string());
    assert_eq!(s.as_str(), Some("abc"));
    assert!(s.as_array().is_none());

    let a = Value::Array(vec![Value::Null]);
    assert!(a.is_array());
    assert_eq!(a.as_array().unwrap().len(), 1);
    assert!(a.as_object().is_none());

    let o = Value::Object(vec![(String::from("k"), Value::Null)]);
    assert!(o.is_object());
    assert_eq!(o.as_object().unwrap().len(), 1);
    assert!(!o.is_array());
}

#[test]
fn index_kind_mismatch() {
    let a = Value::Array(vec![Value::Null]);
    assert!(a.index_into(String::from("k")).is_none());
    assert!(a.index_into(3usize).is_none());
    let o = Value::Object(vec![(String::from("k"), Value::Null)]);
    assert!(o.index_into(0usize).is_none());
    assert!(o.index_into(String::from("k")).is_some());
    let n = Value::Number(Number::PosInt(1));
    assert!(n.index_into(0usize).is_none());
}

#[test]
fn cursor_advances() {
    let text = String::from("ab");
    let mut de = De::new(&text);
    assert_eq!(de.next(), Some('a'));
    assert_eq!(de.next(), Some('b'));
    assert_eq!(de.next(), None);
    assert_eq!(de.next(), None);
}

#[test]
fn ignore_space_skips_run() {
    let text = String::from("   x");
    let mut de = De::new(&text);
    de.ignore_space();
    assert_eq!(de.match_spec_char('x'), Ok('x'));
}

#[test]
fn probes_do_not_advance() {
    let text = String::from("7a");
    let mut de = De::new(&text);
    de.next();
    assert_eq!(de.match_digit(), Ok('7'));
    assert_eq!(de.match_digit(), Ok('7'));
    assert!(de.match_letter().is_err());
    de.next();
    assert_eq!(de.match_letter(), Ok('a'));
    assert!(de.match_digit().is_err());
    assert!(de.match_spec_char('b').is_err());
    assert_eq!(de.match_spec_char('a'), Ok('a'));
}

#[test]
fn letter_probe_accepts_unicode() {
    let text = String::from("\u{00E0}7");
    let mut de = De::new(&text);
    de.next();
    assert_eq!(de.match_letter(), Ok('\u{00E0}'));
    de.next();
    assert!(de.match_letter().is_err());
}

#[test]
fn integer_production() {
    let text = String::from("0123x");
    let mut de = De::new(&text);
    de.next();
    assert_eq!(de.match_integer(), Ok((123, 4)));
}

#[test]
fn literal_productions() {
    let mut de_t = De::new(&String::from("true"));
    de_t.next();
    assert_eq!(de_t.match_true(), Ok(true));

    let mut de_f = De::new(&String::from("false"));
    de_f.next();
    assert_eq!(de_f.match_false(), Ok(false));

    let mut de_n = De::new(&String::from("null"));
    de_n.next();
    assert_eq!(de_n.match_null(), Ok(()));
}

#[test]
fn string_production() {
    let mut de = De::new(&String::from("\"hey\""));
    de.next();
    assert_eq!(de.match_string(), Ok(String::from("hey")));
}

#[test]
fn member_production() {
    let mut de = De::new(&String::from("\"k\": 5,"));
    de.next();
    assert_eq!(
        de.match_member(),
        Ok((String::from("k"), Value::Number(Number::PosInt(5))))
    );
}

#[test]
fn members_production() {
    let mut de = De::new(&String::from("\"a\":1,\"b\":2}"));
    de.next();
    let members = de.match_members().unwrap();
    assert_eq!(members.len(), 2);
    assert_eq!(members[0].0, "a");
    assert_eq!(members[1].0, "b");
}

#[test]
fn elements_production() {
    let mut de = De::new(&String::from("1,2]"));
    de.next();
    let elems = de.match_elements().unwrap();
    assert_eq!(
        elems,
        vec![Value::Number(Number::PosInt(1)), Value::Number(Number::PosInt(2))]
    );
}

#[test]
fn value_production_dispatch() {
    let mut de = De::new(&String::from("[0]"));
    de.next();
    assert_eq!(
        de.match_value(),
        Ok(Value::Array(vec![Value::Number(Number::PosInt(0))]))
    );
}

#[test]
fn deserialization_requires_end() {
    let mut de = De::new(&String::from("1,"));
    match de.deserialization() {
        Err(ParseError::UnexpectedCharacter { found: ',', .. }) => {}
        other => panic!("expected an unexpected-character error, got {:?}", other),
    }
}

#[test]
fn error_offsets() {
    match parse(&String::from("[1,]")) {
        Err(ParseError::UnexpectedCharacter { offset, .. }) => assert_eq!(offset, 3),
        other => panic!("expected an unexpected-character error, got {:?}", other),
    }
    match parse(&String::from("{")) {
        Err(ParseError::UnexpectedEnd { offset }) => assert_eq!(offset, 1),
        other => panic!("expected an unexpected-end error, got {:?}", other),
    }
}
