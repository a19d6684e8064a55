use std::collections::VecDeque;

use resp_store::resp::data::DataType;
use resp_store::resp::errors::RESPError;
use resp_store::resp::parse::Parser;
use resp_store::resp::serialize::Serializer;

#[test]
fn test_to_simple_str() {
    assert_eq!("+test\r\n", Serializer::to_simple_str("test"))
}

#[test]
fn test_to_bulk_str() {
    assert_eq!("$4\r\ntest\r\n", Serializer::to_bulk_str("test"))
}

#[test]
fn test_to_arr() {
    let arr = Vec::from(["test"]);
    assert_eq!("*1\r\n$4\r\ntest\r\n", Serializer::to_arr(arr))
}

#[test]
fn simple_error_is_framed_with_a_dash() {
    assert_eq!("-ERR no\r\n", Serializer::to_simple_err("ERR no"));
}

#[test]
fn bulk_length_counts_bytes() {
    assert_eq!("$2\r\n\u{e9}\r\n", Serializer::to_bulk_str("\u{e9}"));
    assert_eq!("$0\r\n\r\n", Serializer::to_bulk_str(""));
    assert_eq!("$12\r\nhello world!\r\n", Serializer::to_bulk_str("hello world!"));
}

#[test]
fn array_of_several_and_of_none() {
    assert_eq!("*0\r\n", Serializer::to_arr(Vec::new()));
    assert_eq!(
        "*3\r\n$3\r\nset\r\n$3\r\nfoo\r\n$3\r\nbar\r\n",
        Serializer::to_arr(vec!["set", "foo", "bar"])
    );
}

#[test]
fn store_file_has_a_length_and_no_trailing_marker() {
    assert_eq!(Serializer::store_file(vec![1, 2, 3]), vec![b'$', b'3', b'\r', b'\n', 1, 2, 3]);
    assert_eq!(Serializer::store_file(Vec::new()), vec![b'$', b'0', b'\r', b'\n']);
    let long = vec![7u8; 120];
    let framed = Serializer::store_file(long.clone());
    assert_eq!(&framed[..6], b"$120\r\n");
    assert_eq!(&framed[6..], &long[..]);
}

#[test]
fn serialize_data_writes_each_element_in_turn() {
    let mut inner = VecDeque::new();
    inner.push_back(DataType::BulkString("a".to_string()));
    let mut outer = VecDeque::new();
    outer.push_back(DataType::Array(inner));
    outer.push_back(DataType::SimpleString("ok".to_string()));
    assert_eq!(
        Serializer::serialize_data(DataType::Array(outer)),
        "*2\r\n*1\r\n$1\r\na\r\n+ok\r\n"
    );
}

fn bulk(text: &str) -> DataType {
    DataType::BulkString(text.to_string())
}

fn array(items: Vec<DataType>) -> DataType {
    DataType::Array(items.into_iter().collect())
}

fn round_trip(v: DataType) -> Result<DataType, RESPError> {
    let wire = Serializer::serialize_data(v);
    Parser::new(wire.as_bytes()).parse()
}

fn trees() -> Vec<DataType> {
    vec![
        bulk(""),
        bulk("Key"),
        bulk("a\r\nb"),
        bulk("\u{e9}t\u{e9} \u{20ac}"),
        array(vec![]),
        array(vec![bulk(""), bulk("a")]),
        array(vec![array(vec![]), bulk("X"), array(vec![bulk("")]), array(vec![])]),
        array(vec![bulk("SET"), bulk("Foo"), array(vec![array(vec![bulk("$1\r\n")])])]),
    ]
}

#[test]
fn round_trip_of_bulk_strings_and_arrays() {
    for (tree, same) in trees().into_iter().zip(trees()) {
        assert_eq!(round_trip(tree), Ok(same));
    }
}

#[test]
fn the_parser_ends_behind_the_last_byte() {
    for tree in trees() {
        let wire = Serializer::serialize_data(tree);
        let mut parser = Parser::new(wire.as_bytes());
        assert!(parser.parse().is_ok());
        assert_eq!(parser.parse(), Err(RESPError::InvalidData));
    }
}
