use resp_store::text::{
    chars_of, i64_to_string, parse_isize_str, parse_unsigned_str, str_eq, string_of,
    to_lower, u64_to_string,
};

#[test]
fn numbers_are_written_in_base_ten() {
    assert_eq!(u64_to_string(0), "0");
    assert_eq!(u64_to_string(7), "7");
    assert_eq!(u64_to_string(1234), "1234");
    assert_eq!(u64_to_string(u64::MAX), "18446744073709551615");
    assert_eq!(i64_to_string(-1), "-1");
    assert_eq!(i64_to_string(0), "0");
    assert_eq!(i64_to_string(i64::MIN), "-9223372036854775808");
    assert_eq!(i64_to_string(i64::MAX), "9223372036854775807");
}

#[test]
fn unsigned_numbers_are_read_as_the_standard_library_reads_them() {
    for text in ["0", "7", "+7", "007", "65535", "65536", "", "+", "-", "-0", "-5", " 5", "5 ", "1_0", "1a", "أ"] {
        let expected = text.parse::<u16>().ok().map(|n| n as u64);
        assert_eq!(parse_unsigned_str(text, 65535), expected, "{:?}", text);
    }
    assert_eq!(parse_unsigned_str("18446744073709551615", u64::MAX), Some(u64::MAX));
    assert_eq!(parse_unsigned_str("18446744073709551616", u64::MAX), None);
    assert_eq!(parse_unsigned_str("99999999999999999999999999", u64::MAX), None);
}

#[test]
fn signed_numbers_are_read_as_the_standard_library_reads_them() {
    let min = isize::MIN.to_string();
    let max = isize::MAX.to_string();
    let texts = [
        "0", "-0", "+0", "-1", "+1", "12", "-12", "", "-", "+", "--1", "+-1", "1-", "é", min.as_str(),
        max.as_str(), "9223372036854775808", "-9223372036854775809",
    ];
    for text in texts {
        assert_eq!(parse_isize_str(text), text.parse::<isize>().ok(), "{:?}", text);
    }
}

#[test]
fn printing_and_reading_agree() {
    for n in [0u64, 1, 9, 10, 99, 100, 12345, u64::MAX] {
        assert_eq!(parse_unsigned_str(&u64_to_string(n), u64::MAX), Some(n));
    }
    for n in [0isize, -1, 1, isize::MIN, isize::MAX] {
        assert_eq!(parse_isize_str(&i64_to_string(n as i64)), Some(n));
    }
}

#[test]
fn strings_compare_by_their_characters() {
    assert!(str_eq("", ""));
    assert!(str_eq("ping", "ping"));
    assert!(!str_eq("ping", "pong"));
    assert!(!str_eq("ping", "pin"));
    assert!(str_eq("é", "é"));
}

#[test]
fn characters_and_back() {
    let chars = chars_of("a-é");
    assert_eq!(chars, vec!['a', '-', 'é']);
    assert_eq!(string_of(&chars, 0, 3), "a-é");
    assert_eq!(string_of(&chars, 2, 3), "é");
    assert_eq!(string_of(&chars, 1, 1), "");
}

#[test]
fn texts_are_folded_letter_by_letter() {
    assert_eq!(to_lower("PiNg"), "ping");
    assert_eq!(to_lower("listening-PORT"), "listening-port");
    assert_eq!(to_lower("@[`{"), "@[`{");
    assert_eq!(to_lower("ÉA"), "Éa");
    assert_eq!(to_lower(""), "");
}

#[test]
fn folding_agrees_with_the_standard_library() {
    for text in ["Hello, World!", "ÀÉÎ abc XYZ", "[\\]^_`{|}~@", "0123456789"] {
        assert_eq!(to_lower(text), text.to_ascii_lowercase());
    }
}
