//! Running a solution: what to start for a day's puzzle in each language, and
//! what the finished processes say.

use vstd::prelude::*;
use vstd::utf8::{decode_utf8, encode_utf8, encode_utf8_decode_utf8, valid_utf8};
use crate::config::{Config, ConfigView};
use crate::decimal::{decimal, push_decimal};
use crate::error::{Failure, FailureView, RunError, RunErrorView};
use crate::output::{parse_answers, parsed_answers};
use crate::puzzle::{Puzzle, PuzzleView};
use crate::text::{has_substring, optional_text, str_contains, texts};

verus! {

/// The error of `String::from_utf8`. Nothing is said of what it holds.
#[verifier::external_type_specification]
#[verifier::external_body]
pub struct ExFromUtf8Error(std::string::FromUtf8Error);

/// `String::from_utf8` checks that the bytes are well-formed UTF-8 and, where
/// they are, returns the string whose bytes they are; else it returns an
/// error.
pub assume_specification[ String::from_utf8 ](vec: Vec<u8>) -> (r: Result<
    String,
    std::string::FromUtf8Error,
>)
    ensures
        r is Ok <==> valid_utf8(vec@),
        r matches Ok(s) ==> encode_utf8(s@) == vec@,
;

/// The language that a solution is written in.
#[derive(Clone, Copy, Debug, PartialEq, Eq, Structural)]
pub enum Language {
    /// Interpreted: the solution is run as it is.
    Python,
    /// Compiled: the solution is built, then run.
    Rust,
}

/// The puzzle that a run is for, and who asks.
#[derive(Debug)]
pub struct RunContext {
    /// The session cookie that the puzzle site knows the user by.
    pub cookies: String,
    /// The puzzle.
    pub puzzle: Puzzle,
}

/// A run's puzzle and session as plain values.
pub struct ContextView {
    pub cookies: Seq<char>,
    pub year: nat,
    pub day: nat,
}

impl View for RunContext {
    type V = ContextView;

    open spec fn view(&self) -> ContextView {
        ContextView { cookies: self.cookies@, year: self.puzzle@.year, day: self.puzzle@.day }
    }
}

impl ContextView {
    /// Whether the year and the day name a puzzle: years 2000 to 3000, days
    /// 1 to 25.
    pub open spec fn valid(self) -> bool {
        (PuzzleView { year: self.year, day: self.day }).valid()
    }
}

/// A program to start, with its arguments.
#[derive(Debug)]
pub struct Invocation {
    pub program: String,
    pub args: Vec<String>,
}

/// A program and its arguments as texts.
pub struct InvocationView {
    pub program: Seq<char>,
    pub args: Seq<Seq<char>>,
}

impl View for Invocation {
    type V = InvocationView;

    open spec fn view(&self) -> InvocationView {
        InvocationView { program: self.program@, args: texts(self.args@) }
    }
}

/// How to run a solution: the directory to work in, the build to make first
/// where the language needs one, and the program that prints the answers.
#[derive(Debug)]
pub struct RunPlan {
    pub root: String,
    pub build: Option<Invocation>,
    pub solution: Invocation,
}

/// A plan as plain values.
pub struct PlanView {
    pub root: Seq<char>,
    pub build: Option<InvocationView>,
    pub solution: InvocationView,
}

/// An invocation, if any, as plain values.
pub open spec fn optional_invocation(i: Option<Invocation>) -> Option<InvocationView> {
    match i {
        Some(i) => Some(i@),
        None => None,
    }
}

impl View for RunPlan {
    type V = PlanView;

    open spec fn view(&self) -> PlanView {
        PlanView {
            root: self.root@,
            build: optional_invocation(self.build),
            solution: self.solution@,
        }
    }
}

/// What a finished process left behind.
#[derive(Debug)]
pub struct ProcessOutput {
    /// Whether the process ended with exit status zero.
    pub success: bool,
    /// What it wrote to its standard output.
    pub stdout: Vec<u8>,
    /// What it wrote to its standard error.
    pub stderr: Vec<u8>,
    /// How long it ran, in milliseconds.
    pub millis: u128,
}

/// What a finished process left behind, as plain values.
pub struct ProcessView {
    pub success: bool,
    pub stdout: Seq<u8>,
    pub stderr: Seq<u8>,
    pub millis: nat,
}

impl View for ProcessOutput {
    type V = ProcessView;

    open spec fn view(&self) -> ProcessView {
        ProcessView {
            success: self.success,
            stdout: self.stdout@,
            stderr: self.stderr@,
            millis: self.millis as nat,
        }
    }
}

/// A process that ended, or `None` for one that could not be started, as
/// plain values.
pub open spec fn optional_process(p: Option<ProcessOutput>) -> Option<ProcessView> {
    match p {
        Some(p) => Some(p@),
        None => None,
    }
}

/// The answers of a run and how long it took.
#[derive(Debug)]
pub struct RunResult {
    /// The two answers; the second is `N/A` where the solution printed one.
    pub answers: (String, String),
    /// How long the solution ran, in milliseconds.
    pub time_taken: u128,
    /// How long the build took, in milliseconds, where there was one.
    pub build_time: Option<u128>,
}

/// The result of a run as plain values.
pub struct ResultView {
    pub answers: (Seq<char>, Seq<char>),
    pub time_taken: nat,
    pub build_time: Option<nat>,
}

/// An optional time as a plain value.
pub open spec fn optional_time(t: Option<u128>) -> Option<nat> {
    match t {
        Some(t) => Some(t as nat),
        None => None,
    }
}

impl View for RunResult {
    type V = ResultView;

    open spec fn view(&self) -> ResultView {
        ResultView {
            answers: (self.answers.0@, self.answers.1@),
            time_taken: self.time_taken as nat,
            build_time: optional_time(self.build_time),
        }
    }
}

/// The path of a day's file below the solutions' directory, written with
/// `sep` between its parts: `.`, the year, the day, and the file's name.
pub open spec fn day_path(c: ContextView, sep: Seq<char>, file: Seq<char>) -> Seq<char> {
    "."@ + sep + decimal(c.year) + sep + decimal(c.day) + sep + file
}

/// The directory of a day's files below the solutions' directory.
pub open spec fn day_directory(c: ContextView) -> Seq<char> {
    "./"@ + decimal(c.year) + "/"@ + decimal(c.day)
}

/// How an interpreted solution is run: in the directory of the interpreted
/// solutions, without a build, by `python` on the day's `main.py`.
pub open spec fn python_plan(config: ConfigView, c: ContextView) -> PlanView {
    PlanView {
        root: config.python_path,
        build: None,
        solution: InvocationView {
            program: "python"@,
            args: seq![day_path(c, "\\"@, "main.py"@)],
        },
    }
}

/// How a compiled solution is run: in the directory of the compiled
/// solutions, `rustc` builds the day's `main.rs` into the day's directory,
/// with coloured messages, and the day's `main.exe` is then run.
pub open spec fn rust_plan(config: ConfigView, c: ContextView) -> PlanView {
    PlanView {
        root: config.rust_path,
        build: Some(
            InvocationView {
                program: "rustc"@,
                args: seq![
                    day_path(c, "/"@, "main.rs"@),
                    "--out-dir"@,
                    day_directory(c),
                    "--color=always"@,
                ],
            },
        ),
        solution: InvocationView {
            program: day_path(c, "\\"@, "main.exe"@),
            args: Seq::empty(),
        },
    }
}

/// The path of a day's file below the solutions' directory.
fn path_of_day(ctx: &RunContext, sep: &str, file: &str) -> (path: String)
    ensures
        path@ == day_path(ctx@, sep@, file@),
{
    let mut path = String::new();
    path.append(".");
    path.append(sep);
    push_decimal(&mut path, ctx.puzzle.year() as u128);
    path.append(sep);
    push_decimal(&mut path, ctx.puzzle.day() as u128);
    path.append(sep);
    path.append(file);
    assert(path@ =~= day_path(ctx@, sep@, file@));
    path
}

/// The plan that runs the interpreted solution of a day.
pub fn run_python(config: &Config, ctx: &RunContext) -> (plan: RunPlan)
    ensures
        plan@ == python_plan(config@, ctx@),
{
    let mut args: Vec<String> = Vec::new();
    args.push(path_of_day(ctx, "\\", "main.py"));
    assert(texts(args@) == seq![day_path(ctx@, "\\"@, "main.py"@)]);
    RunPlan {
        root: config.python_path.clone(),
        build: None,
        solution: Invocation { program: "python".to_owned(), args },
    }
}

/// The plan that builds and runs the compiled solution of a day.
pub fn run_rust(config: &Config, ctx: &RunContext) -> (plan: RunPlan)
    ensures
        plan@ == rust_plan(config@, ctx@),
{
    let mut directory = String::new();
    directory.append("./");
    push_decimal(&mut directory, ctx.puzzle.year() as u128);
    directory.append("/");
    push_decimal(&mut directory, ctx.puzzle.day() as u128);
    assert(directory@ =~= day_directory(ctx@));
    let mut args: Vec<String> = Vec::new();
    args.push(path_of_day(ctx, "/", "main.rs"));
    args.push("--out-dir".to_owned());
    args.push(directory);
    args.push("--color=always".to_owned());
    assert(texts(args@) == seq![
        day_path(ctx@, "/"@, "main.rs"@),
        "--out-dir"@,
        day_directory(ctx@),
        "--color=always"@,
    ]);
    let no_args: Vec<String> = Vec::new();
    assert(texts(no_args@) == Seq::<Seq<char>>::empty());
    RunPlan {
        root: config.rust_path.clone(),
        build: Some(Invocation { program: "rustc".to_owned(), args }),
        solution: Invocation { program: path_of_day(ctx, "\\", "main.exe"), args: no_args },
    }
}

/// The plan that runs a day's solution in the given language.
pub open spec fn plan_for(language: Language, config: ConfigView, c: ContextView) -> PlanView {
    match language {
        Language::Python => python_plan(config, c),
        Language::Rust => rust_plan(config, c),
    }
}

/// The plan that runs a day's solution in the given language.
pub fn plan_run(language: Language, config: &Config, ctx: &RunContext) -> (plan: RunPlan)
    ensures
        plan@ == plan_for(language, config@, ctx@),
{
    match language {
        Language::Python => run_python(config, ctx),
        Language::Rust => run_rust(config, ctx),
    }
}

/// The text that bytes encode, or `None` where they are not well-formed
/// UTF-8.
pub open spec fn decoded(bytes: Seq<u8>) -> Option<Seq<char>> {
    if valid_utf8(bytes) {
        Some(decode_utf8(bytes))
    } else {
        None
    }
}

/// Reads bytes as text.
pub fn decode(bytes: Vec<u8>) -> (r: Option<String>)
    ensures
        optional_text(r) == decoded(bytes@),
{
    match String::from_utf8(bytes) {
        Ok(text) => {
            proof {
                encode_utf8_decode_utf8(text@);
            }
            Some(text)
        },
        Err(_) => None,
    }
}

/// What marks a compiler error in the error output of a build.
pub open spec fn error_marker() -> Seq<char> {
    "error["@
}

/// What a finished build means for the run. A build that could not be
/// started fails the run; so does error output that is not text. Error
/// output that holds the marker of a compiler error is a failed build,
/// whatever the exit status, and is kept. Without the marker a failure
/// status still fails the run. Otherwise the build is done, in the time it
/// took.
pub open spec fn build_outcome(p: Option<ProcessView>) -> Result<nat, RunErrorView> {
    match p {
        None => Err(RunErrorView::SpawnFailed),
        Some(p) => match decoded(p.stderr) {
            None => Err(RunErrorView::UndecodableOutput),
            Some(errors) => if has_substring(errors, error_marker()) {
                Err(RunErrorView::BuildFailed(errors))
            } else if !p.success {
                Err(RunErrorView::SpawnFailed)
            } else {
                Ok(p.millis)
            },
        },
    }
}

/// What a finished solution means for the run. A solution that could not be
/// started, or ended with a failure status, fails the run; so does output
/// that is not text, or that holds no line or more than two. Otherwise its
/// output gives the answers, and the time is the time it took.
pub open spec fn run_outcome(p: Option<ProcessView>, build_time: Option<nat>) -> Result<
    ResultView,
    FailureView,
> {
    match p {
        None => Err(FailureView::Run(RunErrorView::SpawnFailed)),
        Some(p) => if !p.success {
            Err(FailureView::Run(RunErrorView::SpawnFailed))
        } else {
            match decoded(p.stdout) {
                None => Err(FailureView::Run(RunErrorView::UndecodableOutput)),
                Some(output) => match parsed_answers(output) {
                    Err(e) => Err(FailureView::Parse(e)),
                    Ok(answers) => Ok(
                        ResultView { answers, time_taken: p.millis, build_time },
                    ),
                },
            }
        },
    }
}

/// The time of a build, or its failure, as plain values.
pub open spec fn build_view(r: Result<u128, RunError>) -> Result<nat, RunErrorView> {
    match r {
        Ok(t) => Ok(t as nat),
        Err(e) => Err(e@),
    }
}

/// The result of a run, or its failure, as plain values.
pub open spec fn run_view(r: Result<RunResult, Failure>) -> Result<ResultView, FailureView> {
    match r {
        Ok(result) => Ok(result@),
        Err(e) => Err(e@),
    }
}

/// Judges a finished build; `None` stands for a build that could not be
/// started.
pub fn finish_build(build: Option<ProcessOutput>) -> (r: Result<u128, RunError>)
    ensures
        build_view(r) == build_outcome(optional_process(build)),
{
    let build = match build {
        Some(p) => p,
        None => {
            return Err(RunError::SpawnFailed);
        },
    };
    let success = build.success;
    let millis = build.millis;
    match decode(build.stderr) {
        None => Err(RunError::UndecodableOutput),
        Some(errors) => {
            if str_contains(errors.as_str(), "error[") {
                Err(RunError::BuildFailed(errors))
            } else if !success {
                Err(RunError::SpawnFailed)
            } else {
                Ok(millis)
            }
        },
    }
}

/// Judges a finished solution and reads its answers; `None` stands for a
/// solution that could not be started.
pub fn finish_run(solution: Option<ProcessOutput>, build_time: Option<u128>) -> (r: Result<
    RunResult,
    Failure,
>)
    ensures
        run_view(r) == run_outcome(optional_process(solution), optional_time(build_time)),
{
    let solution = match solution {
        Some(p) => p,
        None => {
            return Err(Failure::Run(RunError::SpawnFailed));
        },
    };
    if !solution.success {
        return Err(Failure::Run(RunError::SpawnFailed));
    }
    let millis = solution.millis;
    match decode(solution.stdout) {
        None => Err(Failure::Run(RunError::UndecodableOutput)),
        Some(output) => match parse_answers(output.as_str()) {
            Err(e) => Err(Failure::Parse(e)),
            Ok(answers) => Ok(RunResult { answers, time_taken: millis, build_time }),
        },
    }
}

} // verus!
