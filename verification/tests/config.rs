use aocrunner::config::{
    config_directory, config_file, confirm_write, load_config, parse_config, setup, with_cookie,
    write_config, Config,
};
use aocrunner::error::ConfigError;

fn sample() -> Config {
    Config {
        cookies: "session=53616c7465645f5f".to_string(),
        python_path: "C:/Users/me/Documents/advent of code".to_string(),
        rust_path: "/home/me/aoc=rust".to_string(),
        default: "rust".to_string(),
    }
}

fn same(a: &Config, b: &Config) -> bool {
    a.cookies == b.cookies
        && a.python_path == b.python_path
        && a.rust_path == b.rust_path
        && a.default == b.default
}

#[test]
fn the_defaults_are_empty_with_python() {
    let c = Config::default();
    assert_eq!(c.cookies, "");
    assert_eq!(c.python_path, "");
    assert_eq!(c.rust_path, "");
    assert_eq!(c.default, "python");
}

#[test]
fn settings_are_written_one_key_per_line() {
    assert_eq!(
        write_config(&sample()),
        "cookies=session=53616c7465645f5f\npython_path=C:/Users/me/Documents/advent of code\nrust_path=/home/me/aoc=rust\ndefault=rust"
    );
    assert_eq!(
        write_config(&Config::default()),
        "cookies=\npython_path=\nrust_path=\ndefault=python"
    );
}

#[test]
fn settings_written_and_read_back_are_the_same() {
    for c in [sample(), Config::default()] {
        let back = parse_config(&write_config(&c));
        assert!(same(&back, &c));
    }
    let odd = Config {
        cookies: "a=b=c".to_string(),
        python_path: "\r in front".to_string(),
        rust_path: "=".to_string(),
        default: "ends in a carriage return\r".to_string(),
    };
    assert!(same(&parse_config(&write_config(&odd)), &odd));
}

#[test]
fn a_value_with_a_line_break_is_not_read_back() {
    let c = Config { cookies: "a\nb".to_string(), ..sample() };
    assert_eq!(parse_config(&write_config(&c)).cookies, "a");
    let c = Config { python_path: "p\r".to_string(), ..sample() };
    assert_eq!(parse_config(&write_config(&c)).python_path, "p");
    let c = Config { default: "d\ncookies=stolen".to_string(), ..sample() };
    let back = parse_config(&write_config(&c));
    assert_eq!(back.default, "d");
    assert_eq!(back.cookies, "stolen");
}

#[test]
fn unknown_keys_and_lines_without_a_key_are_passed_over() {
    let c = parse_config("colour=green\ncookies=abc\nno key here\n=x\nrust_path=/r\n");
    assert_eq!(c.cookies, "abc");
    assert_eq!(c.python_path, "");
    assert_eq!(c.rust_path, "/r");
    assert_eq!(c.default, "python");
}

#[test]
fn missing_keys_keep_their_defaults() {
    let c = parse_config("");
    assert!(same(&c, &Config::default()));
    let c = parse_config("default=rust");
    assert_eq!(c.default, "rust");
    assert_eq!(c.cookies, "");
}

#[test]
fn of_two_lines_with_one_key_the_later_wins() {
    let c = parse_config("cookies=first\ncookies=second\n");
    assert_eq!(c.cookies, "second");
}

#[test]
fn a_key_is_what_stands_before_the_first_equals_sign() {
    let c = parse_config("cookies=a=b\n cookies=x\ncookies =y\nCookies=z");
    assert_eq!(c.cookies, "a=b");
    let c = parse_config("default=");
    assert_eq!(c.default, "");
}

#[test]
fn lines_end_at_a_newline_with_or_without_a_carriage_return() {
    let c = parse_config("cookies=abc\r\npython_path=/p\r\nrust_path=/r\r\ndefault=rust\r\n");
    assert_eq!(c.cookies, "abc");
    assert_eq!(c.python_path, "/p");
    assert_eq!(c.rust_path, "/r");
    assert_eq!(c.default, "rust");
    let c = parse_config("cookies=abc\r\r\ndefault=rust\r");
    assert_eq!(c.cookies, "abc\r");
    assert_eq!(c.default, "rust\r");
}

#[test]
fn settings_are_read_as_the_standard_lines_would_give_them() {
    for text in [
        "",
        "\n",
        "cookies=a",
        "cookies=a\n",
        "cookies=a\r\n",
        "cookies=a\r",
        "cookies=a\n\ndefault=rust\n\n",
        "cookies=a\r\n\r\ndefault=rust",
        "cookies=a\n\rdefault=rust",
        "cookies=a\r\r\n",
    ] {
        let mut want = Config::default();
        for line in text.lines() {
            if let Some((k, v)) = line.split_once('=') {
                if k == "cookies" {
                    want.cookies = v.to_string();
                } else if k == "python_path" {
                    want.python_path = v.to_string();
                } else if k == "rust_path" {
                    want.rust_path = v.to_string();
                } else if k == "default" {
                    want.default = v.to_string();
                }
            }
        }
        assert!(same(&parse_config(text), &want), "{:?}", text);
    }
}

#[test]
fn a_missing_file_is_not_found() {
    assert!(matches!(load_config(None), Err(ConfigError::NotFound)));
    let c = load_config(Some("cookies=abc".to_string())).unwrap();
    assert_eq!(c.cookies, "abc");
    assert!(same(&load_config(Some(String::new())).unwrap(), &Config::default()));
}

#[test]
fn a_file_that_could_not_be_written_is_an_io_failure() {
    assert_eq!(confirm_write(false), Err(ConfigError::IOFailure));
    assert_eq!(confirm_write(true), Ok(()));
}

#[test]
fn the_settings_directory_depends_on_the_system() {
    assert_eq!(
        config_directory(Some("/home/me".to_string()), "linux"),
        Ok(vec!["/home/me".to_string(), ".config".to_string(), "aocrunner".to_string()])
    );
    assert_eq!(
        config_directory(Some("C:\\Users\\me".to_string()), "windows"),
        Ok(vec![
            "C:\\Users\\me".to_string(),
            "AppData".to_string(),
            "Local".to_string(),
            "aocrunner".to_string()
        ])
    );
    assert_eq!(
        config_file(Some("/home/me".to_string()), "linux"),
        Ok(vec![
            "/home/me".to_string(),
            ".config".to_string(),
            "aocrunner".to_string(),
            "aocrunner.txt".to_string()
        ])
    );
}

#[test]
fn other_systems_and_homeless_users_have_no_settings_directory() {
    assert_eq!(
        config_directory(Some("/Users/me".to_string()), "macos"),
        Err(ConfigError::UnsupportedOs)
    );
    assert_eq!(
        config_directory(Some("/home/me".to_string()), "Linux"),
        Err(ConfigError::UnsupportedOs)
    );
    assert_eq!(config_directory(None, "linux"), Err(ConfigError::NoHomeDirectory));
    assert_eq!(config_directory(None, "macos"), Err(ConfigError::NoHomeDirectory));
    assert_eq!(config_file(None, "windows"), Err(ConfigError::NoHomeDirectory));
    assert_eq!(
        config_file(Some("/".to_string()), "freebsd"),
        Err(ConfigError::UnsupportedOs)
    );
}

#[test]
fn a_first_run_starts_with_python() {
    let c = setup("cookie\n".to_string(), "/py\n".to_string(), "/rs\n".to_string());
    assert_eq!(c.cookies, "cookie\n");
    assert_eq!(c.python_path, "/py\n");
    assert_eq!(c.rust_path, "/rs\n");
    assert_eq!(c.default, "python");
}

#[test]
fn answers_of_a_first_run_lose_their_line_ends_in_the_file() {
    let c = setup("cookie\n".to_string(), "/py\r\n".to_string(), "/rs\n".to_string());
    let back = parse_config(&write_config(&c));
    assert_eq!(back.cookies, "cookie");
    assert_eq!(back.python_path, "/py");
    assert_eq!(back.rust_path, "/rs");
    assert_eq!(back.default, "python");
}

#[test]
fn another_cookie_changes_the_cookie_only() {
    let c = with_cookie(sample(), "fresh".to_string());
    assert_eq!(c.cookies, "fresh");
    assert_eq!(c.python_path, sample().python_path);
    assert_eq!(c.rust_path, sample().rust_path);
    assert_eq!(c.default, "rust");
}

#[test]
fn settings_are_shown_key_by_key() {
    assert_eq!(
        sample().render(),
        "Got config \n    \x1b[32mcookies\x1b[0m=session=53616c7465645f5f\n    \x1b[32mpython_path\x1b[0m=C:/Users/me/Documents/advent of code\n    \x1b[32mrust_path\x1b[0m=/home/me/aoc=rust\n    \x1b[32mdefault\x1b[0m=rust"
    );
}

#[test]
fn each_settings_error_has_its_message() {
    assert_eq!(
        ConfigError::NotFound.message(),
        "Could not find config file. Run 'aocrunner setup' to generate one."
    );
    assert_eq!(
        ConfigError::IOFailure.message(),
        "Could not open config file in write mode (write, create, truncate)."
    );
    assert_eq!(ConfigError::NoHomeDirectory.message(), "Could not get home directory.");
    assert_eq!(ConfigError::UnsupportedOs.message(), "Unsupported OS");
}
