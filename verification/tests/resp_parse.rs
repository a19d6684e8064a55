use std::collections::VecDeque;

use resp_store::resp::data::DataType;
use resp_store::resp::errors::RESPError;
use resp_store::resp::parse::Parser;

#[test]
fn test_skip_crlf() {
    let data = b"\r\ntest\r\n";
    let mut parser = Parser::new(data);
    match parser.skip_crlf() {
        Ok(_) => assert_eq!(parser.read_byte(), b't'),
        Err(_) => panic!(),
    }
}

#[test]
fn test_parse_len() {
    let data = b"$1234\r\n";
    let mut parser = Parser::new(data);
    let expected = 1234;
    parser.read_byte();
    let actual = parser.parse_len().unwrap();
    assert_eq!(expected, actual)
}

#[test]
fn test_parse_simple_str() {
    let data = b"+TEST\r\n";
    let mut parser = Parser::new(data);
    let expected = DataType::SimpleString("TEST".to_string());
    let actual = parser.parse().unwrap();
    assert_eq!(expected, actual)
}

#[test]
fn test_parse_bulk_str() {
    let data = b"$4\r\nTEST\r\n";
    let mut parser = Parser::new(data);
    let expected = DataType::BulkString("TEST".to_string());
    let actual = parser.parse().unwrap();
    assert_eq!(expected, actual)
}

#[test]
fn test_parse_array() {
    let data = b"*2\r\n$4\r\ntest\r\n+TEST\r\n";
    let mut parser = Parser::new(data);
    let mut expected_vec = VecDeque::new();
    expected_vec.push_back(DataType::BulkString("test".to_string()));
    expected_vec.push_back(DataType::SimpleString("TEST".to_string()));
    let expected = DataType::Array(expected_vec);
    let actual = parser.parse().unwrap();
    assert_eq!(expected, actual)
}

#[test]
fn test_parse_nested_array() {
    let data = b"*2\r\n*2\r\n+OK\r\n+TEST\r\n$4\r\nTEST\r\n";
    let mut parser = Parser::new(data);
    let mut nested_vec = VecDeque::new();
    nested_vec.push_back(DataType::SimpleString("OK".to_string()));
    nested_vec.push_back(DataType::SimpleString("TEST".to_string()));
    let nested_arr = DataType::Array(nested_vec);
    let mut outer_vec = VecDeque::new();
    outer_vec.push_back(nested_arr);
    outer_vec.push_back(DataType::BulkString("TEST".to_string()));
    let expected = DataType::Array(outer_vec);
    let actual = parser.parse_array().unwrap();
    assert_eq!(expected, actual)
}

#[test]
fn test_parse_empty() {
    let data = b"$0\r\n\r\n";
    let mut parser = Parser::new(data);
    let expected = DataType::BulkString("".to_string());
    let actual = parser.parse().unwrap();
    assert_eq!(expected, actual)
}

#[test]
fn test_invalid_parse_returns_err() {
    let data = b"INVALID";
    let mut parser = Parser::new(data);
    assert!(parser.parse().is_err());
}

#[test]
fn test_parse_no_crlf_returns_err() {
    let data = b"*2\r\n+TEST";
    let mut parser = Parser::new(data);
    assert!(parser.parse().is_err());
}

#[test]
fn test_invalid_len_returns_err() {
    let data = b"$1A5\rtest\n";
    let mut parser = Parser::new(data);
    assert!(parser.parse_len().is_err())
}

#[test]
fn unknown_type_byte_is_invalid_type() {
    let mut parser = Parser::new(b"INVALID");
    assert_eq!(parser.parse(), Err(RESPError::InvalidType));
}

#[test]
fn truncated_input_is_invalid_data() {
    assert_eq!(Parser::new(b"").parse(), Err(RESPError::InvalidData));
    assert_eq!(Parser::new(b"$").parse(), Err(RESPError::InvalidData));
    assert_eq!(Parser::new(b"$1\r\n").parse(), Err(RESPError::InvalidData));
    assert_eq!(Parser::new(b"$3\r\nabc").parse(), Err(RESPError::InvalidData));
    assert_eq!(Parser::new(b"$3\r\nabcd\r\n").parse(), Err(RESPError::InvalidData));
    assert_eq!(Parser::new(b"*2\r\n+a\r\n").parse(), Err(RESPError::InvalidData));
    assert_eq!(Parser::new(b"+abc\r").parse(), Err(RESPError::InvalidData));
}

#[test]
fn null_and_negative_bulk_lengths_give_the_empty_string() {
    let expected = DataType::BulkString(String::new());
    assert_eq!(Parser::new(b"$-1\r\n").parse().unwrap(), expected);
    assert_eq!(Parser::new(b"$0\r\n\r\n").parse().unwrap(), expected);
}

#[test]
fn empty_array_is_an_empty_sequence() {
    assert_eq!(Parser::new(b"*0\r\n").parse().unwrap(), DataType::Array(VecDeque::new()));
    assert_eq!(Parser::new(b"*-1\r\n").parse().unwrap(), DataType::Array(VecDeque::new()));
}

#[test]
fn bulk_payload_is_binary_safe() {
    let mut parser = Parser::new(b"$6\r\na\r\nb\r\n\r\n");
    assert_eq!(parser.parse().unwrap(), DataType::BulkString("a\r\nb\r\n".to_string()));
}

#[test]
fn length_takes_a_sign_and_leading_zeros() {
    let mut parser = Parser::new(b"$+02\r\nhi\r\n");
    assert_eq!(parser.parse().unwrap(), DataType::BulkString("hi".to_string()));
    assert!(Parser::new(b"$ 2\r\nhi\r\n").parse().is_err());
    assert!(Parser::new(b"$99999999999999999999999\r\nhi\r\n").parse().is_err());
}

#[test]
fn texts_are_utf8() {
    let data = [b'+', 0xC3, 0xA9, b'\r', b'\n'];
    assert_eq!(Parser::new(&data).parse().unwrap(), DataType::SimpleString("\u{e9}".to_string()));
    let bulk = "$5\r\n\u{e9}\u{20ac}\r\n";
    assert_eq!(
        Parser::new(bulk.as_bytes()).parse().unwrap(),
        DataType::BulkString("\u{e9}\u{20ac}".to_string())
    );
    let broken = [b'+', 0xC3, b'\r', b'\n'];
    assert_eq!(Parser::new(&broken).parse(), Err(RESPError::InvalidData));
    let cut = [b'$', b'1', b'\r', b'\n', 0xC3, b'\r', b'\n'];
    assert_eq!(Parser::new(&cut).parse(), Err(RESPError::InvalidData));
}

#[test]
fn payload_keeps_its_case() {
    let mut parser = Parser::new(b"$3\r\nBar\r\n");
    assert_eq!(parser.parse(), Ok(DataType::BulkString("Bar".to_string())));
}

#[test]
fn the_marker_behind_an_empty_value_is_read() {
    let mut expected = VecDeque::new();
    expected.push_back(DataType::BulkString(String::new()));
    expected.push_back(DataType::BulkString("a".to_string()));
    assert_eq!(
        Parser::new(b"*2\r\n$0\r\n\r\n$1\r\na\r\n").parse(),
        Ok(DataType::Array(expected))
    );
    let mut nested = VecDeque::new();
    nested.push_back(DataType::Array(VecDeque::new()));
    nested.push_back(DataType::BulkString(String::new()));
    nested.push_back(DataType::Array(VecDeque::new()));
    assert_eq!(
        Parser::new(b"*3\r\n*0\r\n$-1\r\n*0\r\n").parse(),
        Ok(DataType::Array(nested))
    );
    assert_eq!(Parser::new(b"$0\r\n").parse(), Err(RESPError::InvalidData));
    assert_eq!(Parser::new(b"$0\r\nab").parse(), Err(RESPError::InvalidData));
    assert_eq!(Parser::new(b"$-1").parse(), Err(RESPError::InvalidData));
    assert_eq!(Parser::new(b"*0").parse(), Err(RESPError::InvalidData));
    let mut parser = Parser::new(b"$0\r\n\r\n+x\r\n");
    assert_eq!(parser.parse(), Ok(DataType::BulkString(String::new())));
    assert_eq!(parser.parse(), Ok(DataType::SimpleString("x".to_string())));
}

#[test]
fn the_parser_steps_through_its_bytes() {
    let mut parser = Parser::new(b"a\r\n");
    assert!(!parser.at_end());
    assert!(!parser.is_eos());
    assert_eq!(parser.peek(), b'\r');
    assert_eq!(parser.read_byte(), b'a');
    assert!(parser.is_eos());
    assert_eq!(parser.skip_crlf(), Ok(()));
    assert_eq!(parser.skip_crlf(), Err(RESPError::InvalidData));
    let mut last = Parser::new(b"x\r");
    last.read_byte();
    assert!(last.at_end());
    assert!(!last.is_eos());
    assert_eq!(last.skip_crlf(), Err(RESPError::InvalidData));
}
