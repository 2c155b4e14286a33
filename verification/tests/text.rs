use aocrunner::decimal::{parse_i32, push_decimal};
use aocrunner::text::{
    chars_of, find_in, index_of_char, matches_at, same_text, str_contains, str_eq, string_of,
};

fn chars(s: &str) -> Vec<char> {
    s.chars().collect()
}

fn to_decimal(n: u128) -> String {
    let mut s = String::new();
    push_decimal(&mut s, n);
    s
}

#[test]
fn chars_of_keeps_every_character_in_order() {
    assert_eq!(chars_of("a\u{3000}b\r\n"), vec!['a', '\u{3000}', 'b', '\r', '\n']);
    assert_eq!(chars_of(""), Vec::<char>::new());
}

#[test]
fn string_of_builds_the_text_back() {
    assert_eq!(string_of(&chars("héllo")), "héllo");
    assert_eq!(string_of(&Vec::new()), "");
    assert_eq!(string_of(&chars("a\u{1F600}\r\n")), "a\u{1F600}\r\n");
}

#[test]
fn substring_search_finds_first_middle_and_last() {
    assert!(str_contains("you already complete it", "you already"));
    assert!(str_contains("xx left to wait yy", "left to wait"));
    assert!(str_contains("abc", "c"));
    assert!(str_contains("abc", "abc"));
    assert!(!str_contains("abc", "abcd"));
    assert!(!str_contains("abc", "ca"));
    assert!(!str_contains("", "a"));
}

#[test]
fn the_empty_text_stands_in_every_text() {
    assert!(str_contains("abc", ""));
    assert!(str_contains("", ""));
    assert!(find_in(&chars("abc"), &Vec::new()));
}

#[test]
fn matches_at_looks_at_one_position_only() {
    assert!(matches_at(&chars("error[E0308]"), &chars("error["), 0));
    assert!(!matches_at(&chars(" error["), &chars("error["), 0));
    assert!(matches_at(&chars(" error["), &chars("error["), 1));
    assert!(!matches_at(&chars(" error["), &chars("error["), 2));
    assert!(!matches_at(&chars("abc"), &chars("c"), usize::MAX));
    assert!(!matches_at(&chars("ab"), &chars("abc"), 0));
    assert!(matches_at(&chars("ab"), &chars(""), 2));
    assert!(!matches_at(&chars("ab"), &chars(""), 3));
}

#[test]
fn texts_are_equal_when_all_characters_are() {
    assert!(str_eq("python", "python"));
    assert!(!str_eq("python", "Python"));
    assert!(!str_eq("python", "pytho"));
    assert!(!str_eq("py", "python"));
    assert!(str_eq("", ""));
    assert!(same_text(&chars("N/A"), &chars("N/A")));
    assert!(!same_text(&chars("N/A"), &chars("N/a")));
}

#[test]
fn index_of_char_is_the_first_or_the_length() {
    assert_eq!(index_of_char(&chars("a=b=c"), '='), 1);
    assert_eq!(index_of_char(&chars("=x"), '='), 0);
    assert_eq!(index_of_char(&chars("abc"), '='), 3);
    assert_eq!(index_of_char(&Vec::new(), '='), 0);
}

#[test]
fn decimal_writes_numbers_without_leading_zeros() {
    assert_eq!(to_decimal(0), "0");
    assert_eq!(to_decimal(7), "7");
    assert_eq!(to_decimal(10), "10");
    assert_eq!(to_decimal(2023), "2023");
    assert_eq!(to_decimal(u128::MAX), "340282366920938463463374607431768211455");
    let mut s = String::from("day ");
    push_decimal(&mut s, 25);
    assert_eq!(s, "day 25");
}

#[test]
fn decimal_agrees_with_the_standard_formatting() {
    for n in [0u128, 1, 9, 10, 11, 99, 100, 101, 1234567890, u64::MAX as u128] {
        assert_eq!(to_decimal(n), format!("{}", n));
    }
}

#[test]
fn integers_are_read_with_an_optional_sign() {
    assert_eq!(parse_i32("2023"), Some(2023));
    assert_eq!(parse_i32("+2023"), Some(2023));
    assert_eq!(parse_i32("-5"), Some(-5));
    assert_eq!(parse_i32("0"), Some(0));
    assert_eq!(parse_i32("-0"), Some(0));
    assert_eq!(parse_i32("00012"), Some(12));
}

#[test]
fn integers_are_read_up_to_the_limits_of_32_bits() {
    assert_eq!(parse_i32("2147483647"), Some(i32::MAX));
    assert_eq!(parse_i32("2147483648"), None);
    assert_eq!(parse_i32("-2147483648"), Some(i32::MIN));
    assert_eq!(parse_i32("-2147483649"), None);
    assert_eq!(parse_i32("99999999999999999999999999999"), None);
    assert_eq!(parse_i32("0000000000000000000000000000000000001"), Some(1));
}

#[test]
fn what_is_not_an_integer_is_not_read() {
    assert_eq!(parse_i32(""), None);
    assert_eq!(parse_i32("+"), None);
    assert_eq!(parse_i32("-"), None);
    assert_eq!(parse_i32("12a"), None);
    assert_eq!(parse_i32("a12"), None);
    assert_eq!(parse_i32(" 12"), None);
    assert_eq!(parse_i32("12 "), None);
    assert_eq!(parse_i32("1-2"), None);
    assert_eq!(parse_i32("--2"), None);
    assert_eq!(parse_i32("٣"), None);
}

#[test]
fn integers_are_read_as_the_standard_parser_reads_them() {
    for text in [
        "", "+", "-", "0", "-0", "+0", "7", "-7", "+7", "2023", "2147483647", "2147483648",
        "-2147483648", "-2147483649", "1e3", "0x10", "1_000", "12\n", "٣", "²", "+-1",
    ] {
        assert_eq!(parse_i32(text), text.parse::<i32>().ok());
    }
}
