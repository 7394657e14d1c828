use yadil::parse;
use yadil::Decimal;
use yadil::ErrorKind;
use yadil::Message;
use yadil::Value;

fn entry<'m>(m: &'m Message, key: &[u8]) -> &'m Value {
    m.get(key).expect("key should be present")
}

#[test]
fn empty_input_is_empty_message() {
    let m = parse(b"").unwrap();
    assert_eq!(m.0.len(), 0);
}

#[test]
fn unsigned_scalar() {
    let m = parse(b"u@age=42;").unwrap();
    assert!(matches!(entry(&m, b"age"), Value::Unsigned(42)));
    assert_eq!(m.0.len(), 1);
}

#[test]
fn string_scalar_keeps_inner_whitespace() {
    let m = parse(b"s@name=John Doe;").unwrap();
    match entry(&m, b"name") {
        Value::String(s) => assert_eq!(s, "John Doe"),
        other => panic!("expected a string, got {:?}", other),
    }
}

#[test]
fn double_negative_toggles_back() {
    let m = parse(b"i@x=--5;").unwrap();
    assert!(matches!(entry(&m, b"x"), Value::Signed(5)));
}

#[test]
fn single_negative() {
    let m = parse(b"i@x=-5;").unwrap();
    assert!(matches!(entry(&m, b"x"), Value::Signed(-5)));
}

#[test]
fn float_is_exact_decimal() {
    let m = parse(b"f@pi=3.14;").unwrap();
    match entry(&m, b"pi") {
        Value::Float(d) => {
            assert_eq!(*d, Decimal { neg: false, mantissa: 314, scale: 2 });
            let approx = d.mantissa as f64 / 10f64.powi(d.scale as i32);
            assert_eq!(approx, 3.14);
        }
        other => panic!("expected a float, got {:?}", other),
    }
}

#[test]
fn float_negative_fraction() {
    let m = parse(b"f@z=-0.5;").unwrap();
    assert!(matches!(
        entry(&m, b"z"),
        Value::Float(Decimal { neg: true, mantissa: 5, scale: 1 })
    ));
}

#[test]
fn float_double_negative_and_point() {
    let m = parse(b"f@w=--2.5;").unwrap();
    assert!(matches!(
        entry(&m, b"w"),
        Value::Float(Decimal { neg: false, mantissa: 25, scale: 1 })
    ));
}

#[test]
fn float_two_points_fail() {
    let e = parse(b"f@w=1.2.3;").unwrap_err();
    assert_eq!(e.kind, ErrorKind::WrongValue);
}

#[test]
fn escaped_semicolon_is_kept_in_value() {
    let m = parse(b"s@n=Foo\\;Bar;").unwrap();
    match entry(&m, b"n") {
        Value::String(s) => {
            assert_eq!(s, "Foo\\;Bar");
            assert!(s.contains(';'));
        }
        other => panic!("expected a string, got {:?}", other),
    }
}

#[test]
fn unknown_tag_is_unexpected_char() {
    let e = parse(b"z@bad=1;").unwrap_err();
    assert_eq!(e.kind, ErrorKind::UnexpectedChar);
    assert_eq!(e.index, 0);
}

#[test]
fn empty_identifier_fails() {
    let e = parse(b"u@=1;").unwrap_err();
    assert_eq!(e.kind, ErrorKind::EmptyIdent);
    assert_eq!(e.index, 3);
}

#[test]
fn empty_value_fails() {
    let e = parse(b"u@age=;").unwrap_err();
    assert_eq!(e.kind, ErrorKind::WrongValue);
    assert_eq!(e.index, 7);
}

#[test]
fn comment_is_skipped() {
    let m = parse(b"# a comment # u@x=1;").unwrap();
    assert!(matches!(entry(&m, b"x"), Value::Unsigned(1)));
}

#[test]
fn escaped_hash_does_not_close_comment() {
    let m = parse(b"# \\# # u@x=1;").unwrap();
    assert!(matches!(entry(&m, b"x"), Value::Unsigned(1)));
    assert_eq!(m.0.len(), 1);
}

#[test]
fn unterminated_comment_fails() {
    let e = parse(b"# oops").unwrap_err();
    assert_eq!(e.kind, ErrorKind::UnexpectedChar);
    assert_eq!(e.index, 6);
}

#[test]
fn parse_twice_gives_equal_results() {
    let input = b"u@a=1;s@b=hi;f@c=2.5;";
    let first = parse(input).unwrap();
    let second = parse(input).unwrap();
    assert_eq!(format!("{:?}", first), format!("{:?}", second));
}

#[test]
fn repeated_identifier_last_write_wins() {
    let m = parse(b"u@a=1;u@a=2;").unwrap();
    assert!(matches!(entry(&m, b"a"), Value::Unsigned(2)));
    assert_eq!(m.0.len(), 1);
}

#[test]
fn bool_literals() {
    let m = parse(b"b@a=true;b@b=t;b@c=false;b@d=f;").unwrap();
    assert!(matches!(entry(&m, b"a"), Value::Bool(true)));
    assert!(matches!(entry(&m, b"b"), Value::Bool(true)));
    assert!(matches!(entry(&m, b"c"), Value::Bool(false)));
    assert!(matches!(entry(&m, b"d"), Value::Bool(false)));
}

#[test]
fn bad_bool_fails() {
    let e = parse(b"b@x=yes;").unwrap_err();
    assert_eq!(e.kind, ErrorKind::WrongValue);
}

#[test]
fn long_tag_spellings() {
    let m = parse(b"uint@n=7;str@s=hi;sint@i=-1;float@f=2.5;bool@b=t;").unwrap();
    assert!(matches!(entry(&m, b"n"), Value::Unsigned(7)));
    assert!(matches!(entry(&m, b"s"), Value::String(_)));
    assert!(matches!(entry(&m, b"i"), Value::Signed(-1)));
    assert!(matches!(entry(&m, b"f"), Value::Float(_)));
    assert!(matches!(entry(&m, b"b"), Value::Bool(true)));
}

#[test]
fn whitespace_around_tokens_is_skipped() {
    let m = parse(b"  u @ age =  42;\n").unwrap();
    assert!(matches!(entry(&m, b"age"), Value::Unsigned(42)));
}

#[test]
fn whitespace_inside_value_is_kept_and_rejected_by_unsigned() {
    let e = parse(b"u@a=4 2;").unwrap_err();
    assert_eq!(e.kind, ErrorKind::WrongValue);
}

#[test]
fn null_byte_ends_the_message() {
    let m = parse(b"u@a=1;\x00u@b=2;").unwrap();
    assert!(matches!(entry(&m, b"a"), Value::Unsigned(1)));
    assert!(m.get(b"b").is_none());
    assert_eq!(m.0.len(), 1);
}

#[test]
fn unterminated_assignment_fails() {
    let e = parse(b"u@a=1").unwrap_err();
    assert_eq!(e.kind, ErrorKind::WrongValue);
    assert_eq!(e.index, 5);
}

#[test]
fn dash_after_digit_fails() {
    let e = parse(b"i@x=5-3;").unwrap_err();
    assert_eq!(e.kind, ErrorKind::WrongValue);
}

#[test]
fn unsigned_overflow_fails() {
    let e = parse(b"u@big=99999999999999999999999;").unwrap_err();
    assert_eq!(e.kind, ErrorKind::WrongValue);
}

#[test]
fn signed_extremes() {
    let m = parse(b"i@lo=-9223372036854775808;i@hi=9223372036854775807;").unwrap();
    assert!(matches!(entry(&m, b"lo"), Value::Signed(isize::MIN)));
    assert!(matches!(entry(&m, b"hi"), Value::Signed(isize::MAX)));
    let e = parse(b"i@over=9223372036854775808;").unwrap_err();
    assert_eq!(e.kind, ErrorKind::WrongValue);
}

#[test]
fn invalid_utf8_string_fails() {
    let e = parse(b"s@x=\xff\xfe;").unwrap_err();
    assert_eq!(e.kind, ErrorKind::WrongValue);
}

#[test]
fn list_of_scalars() {
    let m = parse(b"l@items=u@a=1;u@b=2;;").unwrap();
    match entry(&m, b"items") {
        Value::List(items) => {
            assert_eq!(items.len(), 2);
            assert!(matches!(items[0], Value::Unsigned(1)));
            assert!(matches!(items[1], Value::Unsigned(2)));
        }
        other => panic!("expected a list, got {:?}", other),
    }
}

#[test]
fn empty_list() {
    let m = parse(b"l@e=;").unwrap();
    match entry(&m, b"e") {
        Value::List(items) => assert_eq!(items.len(), 0),
        other => panic!("expected a list, got {:?}", other),
    }
}

#[test]
fn map_of_scalars() {
    let m = parse(b"m@cfg=u@x=1;s@y=hi;;").unwrap();
    match entry(&m, b"cfg") {
        Value::Mapping(entries) => {
            assert_eq!(entries.len(), 2);
            assert_eq!(entries[0].0, b"x");
            assert!(matches!(entries[0].1, Value::Unsigned(1)));
            assert_eq!(entries[1].0, b"y");
            assert!(matches!(&entries[1].1, Value::String(s) if s == "hi"));
        }
        other => panic!("expected a map, got {:?}", other),
    }
}

#[test]
fn map_repeated_key_last_write_wins() {
    let m = parse(b"m@cfg=u@x=1;u@x=2;;").unwrap();
    match entry(&m, b"cfg") {
        Value::Mapping(entries) => {
            assert_eq!(entries.len(), 1);
            assert_eq!(entries[0].0, b"x");
            assert!(matches!(entries[0].1, Value::Unsigned(2)));
        }
        other => panic!("expected a map, got {:?}", other),
    }
}

#[test]
fn nested_list() {
    let m = parse(b"l@outer=l@inner=u@a=1;;;").unwrap();
    match entry(&m, b"outer") {
        Value::List(items) => {
            assert_eq!(items.len(), 1);
            match &items[0] {
                Value::List(inner) => {
                    assert_eq!(inner.len(), 1);
                    assert!(matches!(inner[0], Value::Unsigned(1)));
                }
                other => panic!("expected a nested list, got {:?}", other),
            }
        }
        other => panic!("expected a list, got {:?}", other),
    }
}

#[test]
fn unterminated_list_fails() {
    let e = parse(b"l@items=u@a=1;").unwrap_err();
    assert_eq!(e.kind, ErrorKind::WrongValue);
}

#[test]
fn nesting_too_deep_fails() {
    let mut input = Vec::new();
    for _ in 0..70 {
        input.extend_from_slice(b"l@a=");
    }
    let e = parse(&input).unwrap_err();
    assert_eq!(e.kind, ErrorKind::WrongValue);
}

#[test]
fn arbitrary_bytes_never_panic() {
    let mut junk = Vec::new();
    for i in 0..=255u8 {
        junk.push(i);
    }
    let _ = parse(&junk);
    let _ = parse(b"\\;=@##@=;\\");
    let _ = parse(b"u@@@=;;=");
    let _ = parse(b"m@m=m@m=m@m=;;;");
}
