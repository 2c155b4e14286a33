//! What can go wrong, and what the user is told of it.

use vstd::prelude::*;

verus! {

/// Why the command line was not understood.
#[derive(Clone, Copy, Debug, PartialEq, Eq, Structural)]
pub enum ArgError {
    /// A single word that is not `setup`.
    InvalidArgs,
    /// No word at all, or more than three.
    WrongCount,
    /// The year is not written as an integer.
    YearNotANumber,
    /// The day is not written as an integer.
    DayNotANumber,
    /// The year is before 2000 or after 3000.
    InvalidYear,
    /// The day is before 1 or after 25.
    InvalidDay,
}

/// Why the settings could not be read or kept.
#[derive(Clone, Copy, Debug, PartialEq, Eq, Structural)]
pub enum ConfigError {
    /// There is no settings file yet.
    NotFound,
    /// The settings file or its directory could not be written.
    IOFailure,
    /// The user has no home directory to keep settings in.
    NoHomeDirectory,
    /// Settings have no place on this operating system.
    UnsupportedOs,
}

/// Why printed output could not be read as answers.
#[derive(Clone, Copy, Debug, PartialEq, Eq, Structural)]
pub enum ParseError {
    /// The output held no line, or more than two.
    UnexpectedLineCount,
}

/// Why a solution did not run to its end.
#[derive(Debug)]
pub enum RunError {
    /// The directory of the solutions could not be entered.
    BadWorkingDirectory,
    /// A process could not be started, or ended with a failure status.
    SpawnFailed,
    /// The build reported a compiler error; its error output is kept.
    BuildFailed(String),
    /// A process wrote bytes that are not text.
    UndecodableOutput,
}

/// A run's failure as plain values.
pub enum RunErrorView {
    BadWorkingDirectory,
    SpawnFailed,
    BuildFailed(Seq<char>),
    UndecodableOutput,
}

impl View for RunError {
    type V = RunErrorView;

    open spec fn view(&self) -> RunErrorView {
        match self {
            RunError::BadWorkingDirectory => RunErrorView::BadWorkingDirectory,
            RunError::SpawnFailed => RunErrorView::SpawnFailed,
            RunError::BuildFailed(text) => RunErrorView::BuildFailed(text@),
            RunError::UndecodableOutput => RunErrorView::UndecodableOutput,
        }
    }
}

/// Why the pipeline stopped before its report.
#[derive(Debug)]
pub enum Failure {
    /// The command line was not understood.
    Args(ArgError),
    /// The settings could not be read or kept.
    Config(ConfigError),
    /// The solution did not run to its end.
    Run(RunError),
    /// The solution's output could not be read as answers.
    Parse(ParseError),
    /// The pipeline was told of something it was not waiting for.
    OutOfTurn,
}

/// A failure as plain values.
pub enum FailureView {
    Args(ArgError),
    Config(ConfigError),
    Run(RunErrorView),
    Parse(ParseError),
    OutOfTurn,
}

impl View for Failure {
    type V = FailureView;

    open spec fn view(&self) -> FailureView {
        match self {
            Failure::Args(e) => FailureView::Args(*e),
            Failure::Config(e) => FailureView::Config(*e),
            Failure::Run(e) => FailureView::Run(e@),
            Failure::Parse(e) => FailureView::Parse(*e),
            Failure::OutOfTurn => FailureView::OutOfTurn,
        }
    }
}

/// What the user is told of a command line that was not understood.
pub open spec fn arg_error_message(e: ArgError) -> Seq<char> {
    match e {
        ArgError::InvalidArgs => "Invalid args."@,
        ArgError::WrongCount =>
            "You provided too many inputs.Command syntax: 'aocrunner <day> <year> <optional: rust|python>"@,
        ArgError::YearNotANumber => "Could not convert the year provided to an int."@,
        ArgError::DayNotANumber => "Could not convert the day provided to an int."@,
        ArgError::InvalidYear => "Invalid year."@,
        ArgError::InvalidDay => "Invalid day."@,
    }
}

/// What the user is told of settings that could not be read or kept.
pub open spec fn config_error_message(e: ConfigError) -> Seq<char> {
    match e {
        ConfigError::NotFound =>
            "Could not find config file. Run 'aocrunner setup' to generate one."@,
        ConfigError::IOFailure =>
            "Could not open config file in write mode (write, create, truncate)."@,
        ConfigError::NoHomeDirectory => "Could not get home directory."@,
        ConfigError::UnsupportedOs => "Unsupported OS"@,
    }
}

/// What the user is told of output that could not be read as answers.
pub open spec fn parse_error_message(e: ParseError) -> Seq<char> {
    match e {
        ParseError::UnexpectedLineCount =>
            "Incorrect output format. Make sure your output is 1 or 2 number on separate lines."@,
    }
}

/// What the user is told of a solution that did not run to its end. The
/// error output of a failed build is not part of the message.
pub open spec fn run_error_message(e: RunErrorView) -> Seq<char> {
    match e {
        RunErrorView::BadWorkingDirectory =>
            "Setting working directory failed. Make sure the path in the config file is valid."@,
        RunErrorView::SpawnFailed => "Failed to run solution."@,
        RunErrorView::BuildFailed(_) => "Submission stopped due to above build failure."@,
        RunErrorView::UndecodableOutput => "Could not parse the solution output."@,
    }
}

/// What the user is told of a pipeline that stopped before its report.
pub open spec fn failure_message(f: FailureView) -> Seq<char> {
    match f {
        FailureView::Args(e) => arg_error_message(e),
        FailureView::Config(e) => config_error_message(e),
        FailureView::Run(e) => run_error_message(e),
        FailureView::Parse(e) => parse_error_message(e),
        FailureView::OutOfTurn => "The pipeline was told of something it was not waiting for."@,
    }
}

impl ArgError {
    /// What the user is told of this error.
    pub fn message(&self) -> (text: String)
        ensures
            text@ == arg_error_message(*self),
    {
        match self {
            ArgError::InvalidArgs => "Invalid args.".to_owned(),
            ArgError::WrongCount =>
                "You provided too many inputs.Command syntax: 'aocrunner <day> <year> <optional: rust|python>".to_owned(),
            ArgError::YearNotANumber => "Could not convert the year provided to an int.".to_owned(),
            ArgError::DayNotANumber => "Could not convert the day provided to an int.".to_owned(),
            ArgError::InvalidYear => "Invalid year.".to_owned(),
            ArgError::InvalidDay => "Invalid day.".to_owned(),
        }
    }
}

impl ConfigError {
    /// What the user is told of this error.
    pub fn message(&self) -> (text: String)
        ensures
            text@ == config_error_message(*self),
    {
        match self {
            ConfigError::NotFound =>
                "Could not find config file. Run 'aocrunner setup' to generate one.".to_owned(),
            ConfigError::IOFailure =>
                "Could not open config file in write mode (write, create, truncate).".to_owned(),
            ConfigError::NoHomeDirectory => "Could not get home directory.".to_owned(),
            ConfigError::UnsupportedOs => "Unsupported OS".to_owned(),
        }
    }
}

impl ParseError {
    /// What the user is told of this error.
    pub fn message(&self) -> (text: String)
        ensures
            text@ == parse_error_message(*self),
    {
        match self {
            ParseError::UnexpectedLineCount =>
                "Incorrect output format. Make sure your output is 1 or 2 number on separate lines.".to_owned(),
        }
    }
}

impl RunError {
    /// What the user is told of this error.
    pub fn message(&self) -> (text: String)
        ensures
            text@ == run_error_message(self@),
    {
        match self {
            RunError::BadWorkingDirectory =>
                "Setting working directory failed. Make sure the path in the config file is valid.".to_owned(),
            RunError::SpawnFailed => "Failed to run solution.".to_owned(),
            RunError::BuildFailed(_) => "Submission stopped due to above build failure.".to_owned(),
            RunError::UndecodableOutput => "Could not parse the solution output.".to_owned(),
        }
    }
}

impl Failure {
    /// What the user is told of this failure.
    pub fn message(&self) -> (text: String)
        ensures
            text@ == failure_message(self@),
    {
        match self {
            Failure::Args(e) => e.message(),
            Failure::Config(e) => e.message(),
            Failure::Run(e) => e.message(),
            Failure::Parse(e) => e.message(),
            Failure::OutOfTurn =>
                "The pipeline was told of something it was not waiting for.".to_owned(),
        }
    }
}

} // verus!
