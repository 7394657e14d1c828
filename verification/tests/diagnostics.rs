use yadil::index_to_line_col;
use yadil::parse;
use yadil::Error;
use yadil::ErrorKind;
use yadil::Parser;

#[test]
fn line_col_of_index_zero() {
    assert_eq!(index_to_line_col(b"hello", 0), (1, 2));
}

#[test]
fn line_col_counts_newlines() {
    assert_eq!(index_to_line_col(b"ab\ncd", 4), (2, 2));
    assert_eq!(index_to_line_col(b"ab\ncd", 2), (1, 4));
    assert_eq!(index_to_line_col(b"\n\n\n", 3), (4, 1));
}

#[test]
fn line_col_clamps_to_input_end() {
    assert_eq!(index_to_line_col(b"ab", 99), (1, 4));
}

#[test]
fn error_new_keeps_fields() {
    let e = Error::new(ErrorKind::EmptyIdent, "msg".to_string(), 7);
    assert_eq!(e.kind, ErrorKind::EmptyIdent);
    assert_eq!(e.message, "msg");
    assert_eq!(e.index, 7);
}

#[test]
fn error_offset_points_into_input() {
    let input = b"u@a=1;\nz@b=2;";
    let e = parse(input).unwrap_err();
    assert_eq!(e.kind, ErrorKind::UnexpectedChar);
    assert_eq!(e.index, 7);
    assert_eq!(index_to_line_col(input, e.index), (2, 1));
}

#[test]
fn cursor_next_and_peek() {
    let mut p = Parser::new(b"ab");
    assert_eq!(p.peek(0), Some(b'a'));
    assert_eq!(p.peek(1), Some(b'b'));
    assert_eq!(p.peek(2), None);
    assert_eq!(p.next(), Some(b'a'));
    assert_eq!(p.next(), Some(b'b'));
    assert_eq!(p.next(), None);
    assert_eq!(p.index, 2);
}

#[test]
fn parser_method_parses_from_cursor() {
    let mut p = Parser::new(b"u@a=1;");
    let m = p.parse().unwrap();
    assert_eq!(m.0.len(), 1);
    assert_eq!(p.index, 6);
}

#[test]
fn parse_assign_returns_raw_bytes() {
    let mut p = Parser::new(b"name=John Doe;rest");
    let (ident, data) = p.parse_assign().unwrap();
    assert_eq!(ident, b"name");
    assert_eq!(data, b"John Doe");
    assert_eq!(p.index, 14);
}

#[test]
fn parse_assign_empty_ident_fails() {
    let mut p = Parser::new(b"=1;");
    let e = p.parse_assign().unwrap_err();
    assert_eq!(e.kind, ErrorKind::EmptyIdent);
}

#[test]
fn message_get_missing_key() {
    let m = parse(b"u@a=1;").unwrap();
    assert!(m.get(b"missing").is_none());
}

#[test]
fn message_insert_overwrites() {
    let mut m = parse(b"u@a=1;").unwrap();
    m.insert(b"a".to_vec(), yadil::Value::Bool(true));
    assert_eq!(m.0.len(), 1);
    assert!(matches!(m.get(b"a"), Some(yadil::Value::Bool(true))));
}
