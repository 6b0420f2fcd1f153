use spv_grammar::literal::{literal_number, literal_string, token_number};
use spv_grammar::schema::Literal;
use spv_grammar::text::{
    chars_of, code_point, decimal_string, read_numeral, starts_with, str_equal, str_less,
    strip_newlines,
};

#[test]
fn decimal_string_renders_exact_digits() {
    assert_eq!(decimal_string(0), "0");
    assert_eq!(decimal_string(7), "7");
    assert_eq!(decimal_string(10), "10");
    assert_eq!(decimal_string(66560), "66560");
    assert_eq!(decimal_string(4294967295), "4294967295");
    assert_eq!(decimal_string(u64::MAX), "18446744073709551615");
}

#[test]
fn decimal_string_agrees_with_std_formatting() {
    for n in [0u64, 1, 9, 10, 11, 99, 100, 101, 12345, 1 << 16, (1 << 32) - 1, 1 << 32, u64::MAX - 1] {
        assert_eq!(decimal_string(n), format!("{}", n));
    }
}

#[test]
fn chars_of_yields_each_character() {
    assert_eq!(chars_of("a\u{e9}z"), vec!['a', '\u{e9}', 'z']);
    assert_eq!(chars_of(""), Vec::<char>::new());
    assert_eq!(code_point('A'), 65);
}

#[test]
fn str_equal_compares_contents() {
    assert!(str_equal("IdResult", "IdResult"));
    assert!(!str_equal("IdResult", "IdResultType"));
    assert!(!str_equal("IdResultType", "IdResult"));
    assert!(str_equal("", ""));
    assert!(!str_equal("a", "b"));
}

#[test]
fn starts_with_matches_prefixes_only() {
    assert!(starts_with("OpTypeVoid", "OpType"));
    assert!(starts_with("OpType", "OpType"));
    assert!(!starts_with("OpTyp", "OpType"));
    assert!(!starts_with("XOpType", "OpType"));
    assert!(starts_with("anything", ""));
    assert!(starts_with("OpSpecConstantTrue", "OpSpecConstant"));
    assert!(!starts_with("OpSpecConstantTrue", "OpConstant"));
}

#[test]
fn str_less_is_lexicographic_by_code_point() {
    assert!(str_less("SPV_AMD_a", "SPV_KHR_a"));
    assert!(!str_less("SPV_KHR_a", "SPV_AMD_a"));
    assert!(str_less("abc", "abcd"));
    assert!(!str_less("abcd", "abc"));
    assert!(!str_less("abc", "abc"));
    assert!(str_less("", "a"));
    assert!(!str_less("", ""));
    assert!(str_less("Z", "a"));
    assert!(str_less("a", "\u{e9}"));
}

#[test]
fn str_less_agrees_with_std_order() {
    let names = ["", "a", "ab", "b", "SPV_KHR_x", "SPV_EXT_x", "SPV_KHR_", "z\u{fffd}", "z\u{10000}"];
    for a in names {
        for b in names {
            assert_eq!(str_less(a, b), a < b, "{:?} {:?}", a, b);
        }
    }
}

#[test]
fn strip_newlines_drops_line_feeds_only() {
    assert_eq!(strip_newlines("'Image'\n"), "'Image'");
    assert_eq!(strip_newlines("a\nb\n\nc"), "abc");
    assert_eq!(strip_newlines("\n"), "");
    assert_eq!(strip_newlines(""), "");
    assert_eq!(strip_newlines("no feed\r"), "no feed\r");
}

#[test]
fn read_numeral_reads_decimal_and_hexadecimal() {
    let digits: Vec<char> = "x123".chars().collect();
    assert_eq!(read_numeral(&digits, 1, 4, 10), Some(123));
    assert_eq!(read_numeral(&digits, 1, 3, 10), Some(12));
    assert_eq!(read_numeral(&digits, 0, 4, 10), None);
    assert_eq!(read_numeral(&digits, 2, 2, 10), None);
    let hex: Vec<char> = "fFfFfFfF".chars().collect();
    assert_eq!(read_numeral(&hex, 0, 8, 16), Some(u32::MAX));
    assert_eq!(read_numeral(&hex, 0, 8, 10), None);
    let big: Vec<char> = "4294967296".chars().collect();
    assert_eq!(read_numeral(&big, 0, 10, 10), None);
    let max: Vec<char> = "4294967295".chars().collect();
    assert_eq!(read_numeral(&max, 0, 10, 10), Some(u32::MAX));
}

#[test]
fn token_number_reads_prefixed_hexadecimal() {
    assert_eq!(token_number("0x0001"), Some(1));
    assert_eq!(token_number("0x0000"), Some(0));
    assert_eq!(token_number("0X10"), Some(16));
    assert_eq!(token_number("0x7fffffff"), Some(0x7fff_ffff));
    assert_eq!(token_number("17"), Some(17));
    assert_eq!(token_number("0"), Some(0));
    assert_eq!(token_number("0x"), None);
    assert_eq!(token_number("x1"), None);
    assert_eq!(token_number(""), None);
    assert_eq!(token_number("1f"), None);
    assert_eq!(token_number("0x100000000"), None);
}

#[test]
fn literal_text_keeps_the_presentation() {
    assert_eq!(literal_string(&Literal::Integer(4433)), "4433");
    assert_eq!(literal_string(&Literal::Text("0x0001".to_string())), "0x0001");
    assert_eq!(literal_number(&Literal::Integer(4433)), Some(4433));
    assert_eq!(literal_number(&Literal::Integer(1 << 32)), None);
    assert_eq!(literal_number(&Literal::Text("0x0010".to_string())), Some(16));
    assert_eq!(literal_number(&Literal::Text("sixteen".to_string())), None);
}
