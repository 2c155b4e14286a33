use aocrunner::error::ParseError;
use aocrunner::output::{
    char_is_whitespace, normalize, output_lines, parse_answers, strip_carriage_returns,
    trimmed_len,
};

fn owned(lines: &[&str]) -> Vec<String> {
    lines.iter().map(|l| l.to_string()).collect()
}

#[test]
fn one_line_is_the_first_answer_and_the_sentinel() {
    assert_eq!(normalize(owned(&["42"])), Ok(("42".to_string(), "N/A".to_string())));
    assert_eq!(normalize(owned(&["not a number"])), Ok(("not a number".to_string(), "N/A".to_string())));
    assert_eq!(normalize(owned(&[""])), Ok(("".to_string(), "N/A".to_string())));
}

#[test]
fn two_lines_are_the_two_answers_in_order() {
    assert_eq!(normalize(owned(&["42", "100"])), Ok(("42".to_string(), "100".to_string())));
    assert_eq!(normalize(owned(&["b", "a"])), Ok(("b".to_string(), "a".to_string())));
    assert_eq!(normalize(owned(&["7", "N/A"])), Ok(("7".to_string(), "N/A".to_string())));
}

#[test]
fn no_line_or_more_than_two_is_an_error() {
    assert_eq!(normalize(Vec::new()), Err(ParseError::UnexpectedLineCount));
    assert_eq!(normalize(owned(&["1", "2", "3"])), Err(ParseError::UnexpectedLineCount));
    assert_eq!(normalize(owned(&["1", "2", "3", "4", "5"])), Err(ParseError::UnexpectedLineCount));
}

#[test]
fn output_with_carriage_returns_gives_both_answers() {
    assert_eq!(output_lines("42\r\n100\r\n"), owned(&["42", "100"]));
    assert_eq!(parse_answers("42\r\n100\r\n"), Ok(("42".to_string(), "100".to_string())));
}

#[test]
fn output_of_one_line_gives_the_sentinel_as_second_answer() {
    assert_eq!(output_lines("7\n"), owned(&["7"]));
    assert_eq!(parse_answers("7\n"), Ok(("7".to_string(), "N/A".to_string())));
}

#[test]
fn empty_lines_are_left_out() {
    assert_eq!(output_lines("\n\n1\n\n\n2\n\n"), owned(&["1", "2"]));
    assert_eq!(output_lines("1\n\r\n2"), owned(&["1", "2"]));
    assert_eq!(output_lines(""), Vec::<String>::new());
    assert_eq!(output_lines("\n\r\n \t\n"), Vec::<String>::new());
    assert_eq!(parse_answers(""), Err(ParseError::UnexpectedLineCount));
    assert_eq!(parse_answers("1\n2\n3\n"), Err(ParseError::UnexpectedLineCount));
}

#[test]
fn white_space_is_dropped_at_the_end_of_the_output_only() {
    assert_eq!(output_lines("42 \n"), owned(&["42"]));
    assert_eq!(output_lines("42\n  \n"), owned(&["42"]));
    assert_eq!(output_lines("42 \n100 \t\n"), owned(&["42 ", "100"]));
    assert_eq!(output_lines("  42\n"), owned(&["  42"]));
    assert_eq!(output_lines(" \n42"), owned(&[" ", "42"]));
    assert_eq!(output_lines("42\u{3000}\u{2028}"), owned(&["42"]));
}

#[test]
fn carriage_returns_are_taken_out_wherever_they_stand() {
    assert_eq!(output_lines("4\r2\n\r1\r0\r0"), owned(&["42", "100"]));
    assert_eq!(strip_carriage_returns(&"\ra\r\rb\r".chars().collect()), vec!['a', 'b']);
    assert_eq!(strip_carriage_returns(&"\r\r".chars().collect()), Vec::<char>::new());
}

#[test]
fn white_space_is_what_the_standard_library_calls_so() {
    let mut code: u32 = 0;
    while code <= 0x3100 {
        if let Some(c) = char::from_u32(code) {
            assert_eq!(char_is_whitespace(c), c.is_whitespace(), "U+{:04X}", code);
        }
        code += 1;
    }
    assert!(!char_is_whitespace('\u{FEFF}'));
    assert!(!char_is_whitespace('\u{200B}'));
    assert!(!char_is_whitespace('\u{10FFFF}'));
}

#[test]
fn trimmed_len_agrees_with_the_standard_trim() {
    for text in ["", " ", "a", "a ", " a", "a \n\t\r", "a\u{a0}", "a b  ", "\n\n"] {
        let chars: Vec<char> = text.chars().collect();
        assert_eq!(trimmed_len(&chars), text.trim_end().chars().count());
    }
}
