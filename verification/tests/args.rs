use aocrunner::args::{
    language_from_default, language_from_tag, parse_command, select_language, Command, Selection,
};
use aocrunner::error::ArgError;
use aocrunner::run::Language;

fn words(args: &[&str]) -> Vec<String> {
    args.iter().map(|a| a.to_string()).collect()
}

#[test]
fn one_word_is_setup_or_nothing() {
    assert!(matches!(parse_command(words(&["aocrunner", "setup"])), Ok(Command::Setup)));
    assert!(matches!(parse_command(words(&["aocrunner", "Setup"])), Err(ArgError::InvalidArgs)));
    assert!(matches!(parse_command(words(&["aocrunner", "2023"])), Err(ArgError::InvalidArgs)));
}

#[test]
fn two_words_are_a_cookie_or_a_puzzle() {
    match parse_command(words(&["aocrunner", "cookie", "session=abc"])) {
        Ok(Command::Cookie(cookie)) => assert_eq!(cookie, "session=abc"),
        other => panic!("{:?}", other),
    }
    match parse_command(words(&["aocrunner", "2023", "5"])) {
        Ok(Command::Run { year, day, language }) => {
            assert_eq!(year, "2023");
            assert_eq!(day, "5");
            assert_eq!(language, None);
        }
        other => panic!("{:?}", other),
    }
}

#[test]
fn three_words_are_a_puzzle_and_a_language() {
    match parse_command(words(&["aocrunner", "cookie", "5", "rust"])) {
        Ok(Command::Run { year, day, language }) => {
            assert_eq!(year, "cookie");
            assert_eq!(day, "5");
            assert_eq!(language, Some("rust".to_string()));
        }
        other => panic!("{:?}", other),
    }
}

#[test]
fn no_word_or_more_than_three_is_the_wrong_count() {
    assert!(matches!(parse_command(words(&[])), Err(ArgError::WrongCount)));
    assert!(matches!(parse_command(words(&["aocrunner"])), Err(ArgError::WrongCount)));
    assert!(matches!(
        parse_command(words(&["aocrunner", "2023", "5", "rust", "now"])),
        Err(ArgError::WrongCount)
    ));
}

#[test]
fn languages_are_named_in_any_case() {
    let python = Selection { language: Language::Python, recognized: true };
    let rust = Selection { language: Language::Rust, recognized: true };
    for tag in ["python", "py", "p", "PYTHON", "Py", "P", "pYtHoN"] {
        assert_eq!(select_language(&Some(tag.to_string()), "rust"), python, "{}", tag);
    }
    for tag in ["rust", "r", "RUST", "R", "Rust"] {
        assert_eq!(select_language(&Some(tag.to_string()), "python"), rust, "{}", tag);
    }
}

#[test]
fn an_unknown_language_falls_back_to_python() {
    let fallback = Selection { language: Language::Python, recognized: false };
    for tag in ["", "rs", "pyth", "python3", " rust", "c++"] {
        assert_eq!(select_language(&Some(tag.to_string()), "rust"), fallback, "{}", tag);
    }
}

#[test]
fn without_a_named_language_the_default_decides() {
    assert_eq!(
        select_language(&None, "python"),
        Selection { language: Language::Python, recognized: true }
    );
    assert_eq!(
        select_language(&None, "rust"),
        Selection { language: Language::Rust, recognized: true }
    );
    for default in ["", "Rust", "RUST", "py", "r", "rust\n"] {
        assert_eq!(
            select_language(&None, default),
            Selection { language: Language::Python, recognized: false },
            "{:?}",
            default
        );
    }
}

#[test]
fn tags_are_matched_as_they_are_once_lowered() {
    assert_eq!(language_from_tag("python"), Some(Language::Python));
    assert_eq!(language_from_tag("py"), Some(Language::Python));
    assert_eq!(language_from_tag("p"), Some(Language::Python));
    assert_eq!(language_from_tag("rust"), Some(Language::Rust));
    assert_eq!(language_from_tag("r"), Some(Language::Rust));
    assert_eq!(language_from_tag("Rust"), None);
    assert_eq!(language_from_tag("P"), None);
    assert_eq!(language_from_tag(""), None);
    assert_eq!(language_from_default("python"), Some(Language::Python));
    assert_eq!(language_from_default("rust"), Some(Language::Rust));
    assert_eq!(language_from_default("p"), None);
}

#[test]
fn each_argument_error_has_its_message() {
    assert_eq!(ArgError::InvalidArgs.message(), "Invalid args.");
    assert_eq!(
        ArgError::WrongCount.message(),
        "You provided too many inputs.Command syntax: 'aocrunner <day> <year> <optional: rust|python>"
    );
    assert_eq!(
        ArgError::YearNotANumber.message(),
        "Could not convert the year provided to an int."
    );
    assert_eq!(
        ArgError::DayNotANumber.message(),
        "Could not convert the day provided to an int."
    );
    assert_eq!(ArgError::InvalidYear.message(), "Invalid year.");
    assert_eq!(ArgError::InvalidDay.message(), "Invalid day.");
}
