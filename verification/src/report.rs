//! What the user is shown at the end of a run.

use vstd::prelude::*;
use crate::decimal::{decimal, push_decimal};
use crate::run::{ResultView, RunResult};
use crate::submit::{result_message, result_type_to_message, ResultType};
use crate::text::texts;

verus! {

/// The answers of a run and how the site received them.
#[derive(Debug)]
pub struct Report {
    /// The answers and the times of the run.
    pub result: RunResult,
    /// How the first answer was received.
    pub first: ResultType,
    /// How the second answer was received; `None` where there was no second
    /// answer to submit.
    pub second: Option<ResultType>,
}

/// A report as plain values.
pub struct ReportView {
    pub result: ResultView,
    pub first: ResultType,
    pub second: Option<ResultType>,
}

impl View for Report {
    type V = ReportView;

    open spec fn view(&self) -> ReportView {
        ReportView { result: self.result@, first: self.first, second: self.second }
    }
}

/// A time in milliseconds under a label.
pub open spec fn time_line(label: Seq<char>, millis: nat) -> Seq<char> {
    label + decimal(millis) + "ms"@
}

/// The lines that show a run: the time of the build where there was one, the
/// time of the solution, and the two answers.
pub open spec fn solution_lines(r: ResultView) -> Seq<Seq<char>> {
    let build = match r.build_time {
        Some(t) => seq![time_line("Build Time: "@, t)],
        None => Seq::empty(),
    };
    build + seq![
        time_line("Time Taken: "@, r.time_taken),
        "Part 1: "@ + r.answers.0,
        "Part 2: "@ + r.answers.1,
    ]
}

/// The two lines that show how the answers were received. A second answer
/// that was not submitted shows as `N/A`.
pub open spec fn outcome_lines(r: ReportView) -> Seq<Seq<char>> {
    seq![
        result_message(r.first, "1"@),
        match r.second {
            Some(second) => result_message(second, "2"@),
            None => "N/A"@,
        },
    ]
}

/// A time in milliseconds under a label.
fn line_of_time(label: &str, millis: u128) -> (line: String)
    ensures
        line@ == time_line(label@, millis as nat),
{
    let mut line = String::new();
    line.append(label);
    push_decimal(&mut line, millis);
    line.append("ms");
    assert(line@ =~= time_line(label@, millis as nat));
    line
}

/// A text under a label.
fn line_of_text(label: &str, text: &str) -> (line: String)
    ensures
        line@ == label@ + text@,
{
    let mut line = String::new();
    line.append(label);
    line.append(text);
    assert(line@ =~= label@ + text@);
    line
}

impl RunResult {
    /// The lines that show this run.
    pub fn lines(&self) -> (lines: Vec<String>)
        ensures
            texts(lines@) == solution_lines(self@),
    {
        let mut lines: Vec<String> = Vec::new();
        match self.build_time {
            Some(t) => {
                lines.push(line_of_time("Build Time: ", t));
            },
            None => {},
        }
        lines.push(line_of_time("Time Taken: ", self.time_taken));
        lines.push(line_of_text("Part 1: ", self.answers.0.as_str()));
        lines.push(line_of_text("Part 2: ", self.answers.1.as_str()));
        assert(texts(lines@) =~= solution_lines(self@));
        lines
    }
}

impl Report {
    /// The two lines that show how the answers were received.
    pub fn lines(&self) -> (lines: Vec<String>)
        ensures
            texts(lines@) == outcome_lines(self@),
    {
        let mut lines: Vec<String> = Vec::new();
        lines.push(result_type_to_message(self.first, "1"));
        let second: String = match self.second {
            Some(second) => result_type_to_message(second, "2"),
            None => "N/A".to_owned(),
        };
        lines.push(second);
        assert(texts(lines@) =~= outcome_lines(self@));
        lines
    }
}

} // verus!
