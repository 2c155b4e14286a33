use aocrunner::config::Config;
use aocrunner::error::{Failure, ParseError, RunError};
use aocrunner::puzzle::validate;
use aocrunner::run::{
    decode, finish_build, finish_run, plan_run, run_python, run_rust, Language, ProcessOutput,
    RunContext,
};

fn config() -> Config {
    Config {
        cookies: "c".to_string(),
        python_path: "/solutions/py".to_string(),
        rust_path: "/solutions/rs".to_string(),
        default: "python".to_string(),
    }
}

fn context() -> RunContext {
    RunContext { cookies: "c".to_string(), puzzle: validate("2023", "5").unwrap() }
}

fn ended(success: bool, stdout: &[u8], stderr: &[u8], millis: u128) -> Option<ProcessOutput> {
    Some(ProcessOutput { success, stdout: stdout.to_vec(), stderr: stderr.to_vec(), millis })
}

#[test]
fn an_interpreted_solution_is_run_without_a_build() {
    let plan = run_python(&config(), &context());
    assert_eq!(plan.root, "/solutions/py");
    assert!(plan.build.is_none());
    assert_eq!(plan.solution.program, "python");
    assert_eq!(plan.solution.args, vec![".\\2023\\5\\main.py".to_string()]);
}

#[test]
fn a_compiled_solution_is_built_and_then_run() {
    let plan = run_rust(&config(), &context());
    assert_eq!(plan.root, "/solutions/rs");
    let build = plan.build.unwrap();
    assert_eq!(build.program, "rustc");
    assert_eq!(
        build.args,
        vec![
            "./2023/5/main.rs".to_string(),
            "--out-dir".to_string(),
            "./2023/5".to_string(),
            "--color=always".to_string()
        ]
    );
    assert_eq!(plan.solution.program, ".\\2023\\5\\main.exe");
    assert_eq!(plan.solution.args, Vec::<String>::new());
}

#[test]
fn the_plan_follows_the_language() {
    let ctx = RunContext { cookies: String::new(), puzzle: validate("2000", "25").unwrap() };
    let plan = plan_run(Language::Python, &config(), &ctx);
    assert_eq!(plan.root, "/solutions/py");
    assert_eq!(plan.solution.args, vec![".\\2000\\25\\main.py".to_string()]);
    let plan = plan_run(Language::Rust, &config(), &ctx);
    assert_eq!(plan.root, "/solutions/rs");
    assert_eq!(plan.solution.program, ".\\2000\\25\\main.exe");
}

#[test]
fn bytes_are_read_as_text_when_they_are_utf8() {
    assert_eq!(decode(b"42\n".to_vec()), Some("42\n".to_string()));
    assert_eq!(decode("h\u{e9}\u{3000}\u{1F600}".as_bytes().to_vec()), Some("h\u{e9}\u{3000}\u{1F600}".to_string()));
    assert_eq!(decode(Vec::new()), Some(String::new()));
    assert_eq!(decode(vec![0xff, 0xfe]), None);
    assert_eq!(decode(vec![b'a', 0xc3]), None);
    assert_eq!(decode(vec![0xed, 0xa0, 0x80]), None);
    assert_eq!(decode(vec![0xc0, 0x80]), None);
}

#[test]
fn a_clean_build_gives_its_time() {
    assert!(matches!(finish_build(ended(true, b"", b"", 1234)), Ok(1234)));
    assert!(matches!(
        finish_build(ended(true, b"error[E0308]", b"warning: unused variable", 0)),
        Ok(0)
    ));
}

#[test]
fn a_compiler_error_fails_the_build_and_is_kept() {
    let errors = "\u{1b}[1merror[E0308]\u{1b}[0m: mismatched types\n";
    match finish_build(ended(false, b"", errors.as_bytes(), 10)) {
        Err(RunError::BuildFailed(text)) => assert_eq!(text, errors),
        other => panic!("{:?}", other),
    }
    match finish_build(ended(true, b"", b"error[", 10)) {
        Err(RunError::BuildFailed(text)) => assert_eq!(text, "error["),
        other => panic!("{:?}", other),
    }
}

#[test]
fn a_build_that_did_not_start_or_failed_otherwise_is_a_spawn_failure() {
    assert!(matches!(finish_build(None), Err(RunError::SpawnFailed)));
    assert!(matches!(
        finish_build(ended(false, b"", b"error: linking with `cc` failed", 10)),
        Err(RunError::SpawnFailed)
    ));
}

#[test]
fn build_errors_that_are_not_text_cannot_be_decoded() {
    assert!(matches!(
        finish_build(ended(true, b"", &[0xff], 10)),
        Err(RunError::UndecodableOutput)
    ));
    assert!(matches!(
        finish_build(ended(false, b"", b"error[\xff", 10)),
        Err(RunError::UndecodableOutput)
    ));
}

#[test]
fn a_finished_solution_gives_answers_and_times() {
    let result = finish_run(ended(true, b"42\r\n100\r\n", b"", 17), Some(900)).unwrap();
    assert_eq!(result.answers, ("42".to_string(), "100".to_string()));
    assert_eq!(result.time_taken, 17);
    assert_eq!(result.build_time, Some(900));
    let result = finish_run(ended(true, b"7\n", b"noise \xff", 3), None).unwrap();
    assert_eq!(result.answers, ("7".to_string(), "N/A".to_string()));
    assert_eq!(result.time_taken, 3);
    assert_eq!(result.build_time, None);
}

#[test]
fn a_solution_that_did_not_start_or_failed_is_a_spawn_failure() {
    assert!(matches!(finish_run(None, None), Err(Failure::Run(RunError::SpawnFailed))));
    assert!(matches!(
        finish_run(ended(false, b"42\n", b"", 1), None),
        Err(Failure::Run(RunError::SpawnFailed))
    ));
    assert!(matches!(
        finish_run(ended(false, &[0xff], b"", 1), None),
        Err(Failure::Run(RunError::SpawnFailed))
    ));
}

#[test]
fn output_that_is_not_text_cannot_be_decoded() {
    assert!(matches!(
        finish_run(ended(true, &[b'4', 0xff, b'\n'], b"", 1), None),
        Err(Failure::Run(RunError::UndecodableOutput))
    ));
}

#[test]
fn output_of_no_line_or_more_than_two_cannot_be_parsed() {
    assert!(matches!(
        finish_run(ended(true, b"", b"", 1), None),
        Err(Failure::Parse(ParseError::UnexpectedLineCount))
    ));
    assert!(matches!(
        finish_run(ended(true, b"1\n2\n3\n", b"", 1), Some(5)),
        Err(Failure::Parse(ParseError::UnexpectedLineCount))
    ));
}

#[test]
fn each_failure_has_its_message() {
    assert_eq!(
        RunError::BadWorkingDirectory.message(),
        "Setting working directory failed. Make sure the path in the config file is valid."
    );
    assert_eq!(RunError::SpawnFailed.message(), "Failed to run solution.");
    assert_eq!(
        RunError::BuildFailed("error[E0001]".to_string()).message(),
        "Submission stopped due to above build failure."
    );
    assert_eq!(RunError::UndecodableOutput.message(), "Could not parse the solution output.");
    assert_eq!(
        ParseError::UnexpectedLineCount.message(),
        "Incorrect output format. Make sure your output is 1 or 2 number on separate lines."
    );
    assert_eq!(
        Failure::Parse(ParseError::UnexpectedLineCount).message(),
        ParseError::UnexpectedLineCount.message()
    );
    assert_eq!(Failure::Run(RunError::SpawnFailed).message(), "Failed to run solution.");
    assert_eq!(
        Failure::OutOfTurn.message(),
        "The pipeline was told of something it was not waiting for."
    );
}
