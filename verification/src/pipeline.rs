//! The run of a day's solution, from the command line to the report, as a
//! machine that decides and leaves the doing to its caller.
//!
//! The caller starts a [`Pipeline`] and is handed an [`Action`]. It does what
//! the action says, tells the pipeline what came of it as an [`Event`], and
//! is handed the next action, until the action is a report or a failure.

use vstd::prelude::*;
use crate::args::{select_language, selected, Selection};
use crate::config::{parse_config, parsed_config};
use crate::error::{ConfigError, Failure, FailureView, RunError, RunErrorView};
use crate::output::sentinel;
use crate::puzzle::{validate, validated, Puzzle, PuzzleView};
use crate::report::{Report, ReportView};
use crate::run::{
    build_outcome, decoded, error_marker, finish_build, finish_run, optional_process,
    optional_time, plan_for, plan_run, run_outcome, ContextView, Invocation, InvocationView, PlanView, ProcessOutput, ProcessView,
    ResultView, RunContext, RunPlan, RunResult,
};
use crate::submit::{
    level, outcome_of, request_for, submission_outcome, submission_request, Part, RequestView,
    ResultType, SubmissionRequest,
};
use crate::text::{has_substring, optional_text, str_eq};

verus! {

/// What came of the last action.
#[derive(Debug)]
pub enum Event {
    /// The settings file was looked for; it held this text, or was not there.
    ConfigLoaded(Option<String>),
    /// The working directory was changed, or could not be.
    DirectoryEntered(bool),
    /// A process ended and left this behind, or could not be started.
    ProcessEnded(Option<ProcessOutput>),
    /// The site replied with this body, or the request got no reply.
    Replied(Option<String>),
}

/// An event as plain values.
pub enum EventView {
    ConfigLoaded(Option<Seq<char>>),
    DirectoryEntered(bool),
    ProcessEnded(Option<ProcessView>),
    Replied(Option<Seq<char>>),
}

impl View for Event {
    type V = EventView;

    open spec fn view(&self) -> EventView {
        match self {
            Event::ConfigLoaded(contents) => EventView::ConfigLoaded(optional_text(*contents)),
            Event::DirectoryEntered(entered) => EventView::DirectoryEntered(*entered),
            Event::ProcessEnded(process) => EventView::ProcessEnded(optional_process(*process)),
            Event::Replied(reply) => EventView::Replied(optional_text(*reply)),
        }
    }
}

/// What the caller is to do next.
#[derive(Debug)]
pub enum Action {
    /// Look for the settings file and tell what it holds.
    LoadConfig,
    /// Make `root` the working directory. The language that was chosen comes
    /// with it.
    EnterDirectory { root: String, selection: Selection },
    /// Start this program, wait for it, and tell what it left behind.
    Spawn(Invocation),
    /// Send this request and tell what the site replied.
    Submit(SubmissionRequest),
    /// Show this report: the run is over.
    Report(Report),
    /// Tell the user of this failure: the run is over.
    Fatal(Failure),
}

/// An action as plain values.
pub enum ActionView {
    LoadConfig,
    EnterDirectory { root: Seq<char>, selection: Selection },
    Spawn(InvocationView),
    Submit(RequestView),
    Report(ReportView),
    Fatal(FailureView),
}

impl View for Action {
    type V = ActionView;

    open spec fn view(&self) -> ActionView {
        match self {
            Action::LoadConfig => ActionView::LoadConfig,
            Action::EnterDirectory { root, selection } => ActionView::EnterDirectory {
                root: root@,
                selection: *selection,
            },
            Action::Spawn(invocation) => ActionView::Spawn(invocation@),
            Action::Submit(request) => ActionView::Submit(request@),
            Action::Report(report) => ActionView::Report(report@),
            Action::Fatal(failure) => ActionView::Fatal(failure@),
        }
    }
}

/// How far a run has come, as plain values.
pub enum StateView {
    /// The puzzle is known; the settings are being looked for.
    AwaitingConfig { year: nat, day: nat, language: Option<Seq<char>> },
    /// The plan is made; the working directory is being changed.
    EnteringRoot { context: ContextView, plan: PlanView },
    /// The build is running; the solution comes after it.
    Building { context: ContextView, solution: InvocationView },
    /// The solution is running.
    Running { context: ContextView, build_time: Option<nat> },
    /// The first answer is with the site.
    SubmittingFirst { context: ContextView, result: ResultView },
    /// The second answer is with the site.
    SubmittingSecond { result: ResultView, first: ResultType },
    /// The run is over.
    Finished,
}

impl StateView {
    /// What holds of every state that a run comes to: the year and the day
    /// name a puzzle, and a second answer that is with the site is not the
    /// sentinel.
    pub open spec fn valid(self) -> bool {
        match self {
            StateView::AwaitingConfig { year, day, .. } => (PuzzleView { year, day }).valid(),
            StateView::EnteringRoot { context, .. } => context.valid(),
            StateView::Building { context, .. } => context.valid(),
            StateView::Running { context, .. } => context.valid(),
            StateView::SubmittingFirst { context, .. } => context.valid(),
            StateView::SubmittingSecond { result, .. } => result.answers.1 != sentinel(),
            StateView::Finished => true,
        }
    }
}

/// The end of a run that failed.
pub open spec fn stopped(failure: FailureView) -> (StateView, ActionView) {
    (StateView::Finished, ActionView::Fatal(failure))
}

/// The start of a run: the year and the day are validated first. Where they
/// name no puzzle the run is over at once; else the settings are asked for.
pub open spec fn started(year: Seq<char>, day: Seq<char>, language: Option<Seq<char>>) -> (
    StateView,
    ActionView,
) {
    match validated(year, day) {
        Err(e) => stopped(FailureView::Args(e)),
        Ok(puzzle) => (
            StateView::AwaitingConfig { year: puzzle.year, day: puzzle.day, language },
            ActionView::LoadConfig,
        ),
    }
}

/// The state that follows `state` on `event`, and the action to take.
///
/// With the settings the language is chosen and the plan made, and the
/// working directory is entered. Then the build runs, where the plan has
/// one, and then the solution. Its answers are submitted one after the other:
/// the second whatever the site said of the first, but only where it is not
/// the sentinel. Nothing is tried twice. Any failure ends the run, and so
/// does an event that the state was not waiting for.
pub open spec fn next(state: StateView, event: EventView) -> (StateView, ActionView) {
    match (state, event) {
        (
            StateView::AwaitingConfig { year, day, language },
            EventView::ConfigLoaded(contents),
        ) => match contents {
            None => stopped(FailureView::Config(ConfigError::NotFound)),
            Some(text) => {
                let config = parsed_config(text);
                let context = ContextView { cookies: config.cookies, year, day };
                let selection = selected(language, config.default);
                let plan = plan_for(selection.language, config, context);
                (
                    StateView::EnteringRoot { context, plan },
                    ActionView::EnterDirectory { root: plan.root, selection },
                )
            },
        },
        (StateView::EnteringRoot { context, plan }, EventView::DirectoryEntered(entered)) => {
            if !entered {
                stopped(FailureView::Run(RunErrorView::BadWorkingDirectory))
            } else {
                match plan.build {
                    Some(build) => (
                        StateView::Building { context, solution: plan.solution },
                        ActionView::Spawn(build),
                    ),
                    None => (
                        StateView::Running { context, build_time: None },
                        ActionView::Spawn(plan.solution),
                    ),
                }
            }
        },
        (StateView::Building { context, solution }, EventView::ProcessEnded(process)) => {
            match build_outcome(process) {
                Err(e) => stopped(FailureView::Run(e)),
                Ok(millis) => (
                    StateView::Running { context, build_time: Some(millis) },
                    ActionView::Spawn(solution),
                ),
            }
        },
        (StateView::Running { context, build_time }, EventView::ProcessEnded(process)) => {
            match run_outcome(process, build_time) {
                Err(failure) => stopped(failure),
                Ok(result) => (
                    StateView::SubmittingFirst { context, result },
                    ActionView::Submit(request_for(context, Part::One, result.answers.0)),
                ),
            }
        },
        (StateView::SubmittingFirst { context, result }, EventView::Replied(reply)) => {
            let first = outcome_of(reply);
            if result.answers.1 == sentinel() {
                (
                    StateView::Finished,
                    ActionView::Report(ReportView { result, first, second: None }),
                )
            } else {
                (
                    StateView::SubmittingSecond { result, first },
                    ActionView::Submit(request_for(context, Part::Two, result.answers.1)),
                )
            }
        },
        (StateView::SubmittingSecond { result, first }, EventView::Replied(reply)) => (
            StateView::Finished,
            ActionView::Report(ReportView { result, first, second: Some(outcome_of(reply)) }),
        ),
        _ => stopped(FailureView::OutOfTurn),
    }
}

/// How far a run has come.
#[derive(Debug)]
enum Stage {
    AwaitingConfig { puzzle: Puzzle, language: Option<String> },
    EnteringRoot { context: RunContext, plan: RunPlan },
    Building { context: RunContext, solution: Invocation },
    Running { context: RunContext, build_time: Option<u128> },
    SubmittingFirst { context: RunContext, result: RunResult },
    SubmittingSecond { result: RunResult, first: ResultType },
    Finished,
}

impl View for Stage {
    type V = StateView;

    closed spec fn view(&self) -> StateView {
        match self {
            Stage::AwaitingConfig { puzzle, language } => StateView::AwaitingConfig {
                year: puzzle@.year,
                day: puzzle@.day,
                language: optional_text(*language),
            },
            Stage::EnteringRoot { context, plan } => StateView::EnteringRoot {
                context: context@,
                plan: plan@,
            },
            Stage::Building { context, solution } => StateView::Building {
                context: context@,
                solution: solution@,
            },
            Stage::Running { context, build_time } => StateView::Running {
                context: context@,
                build_time: optional_time(*build_time),
            },
            Stage::SubmittingFirst { context, result } => StateView::SubmittingFirst {
                context: context@,
                result: result@,
            },
            Stage::SubmittingSecond { result, first } => StateView::SubmittingSecond {
                result: result@,
                first: *first,
            },
            Stage::Finished => StateView::Finished,
        }
    }
}

/// The run of one day's solution.
#[derive(Debug)]
pub struct Pipeline {
    stage: Stage,
}

impl View for Pipeline {
    type V = StateView;

    closed spec fn view(&self) -> StateView {
        self.stage@
    }
}

impl Pipeline {
    #[verifier::type_invariant]
    spec fn holds(self) -> bool {
        self@.valid()
    }

    /// Starts the run of the solution of `year` and `day`, as the command
    /// line wrote them, in `language` where the command line named one.
    pub fn start(year: &str, day: &str, language: Option<String>) -> (r: (Pipeline, Action))
        ensures
            r.0@ == started(year@, day@, optional_text(language)).0,
            r.1@ == started(year@, day@, optional_text(language)).1,
            r.0@.valid(),
    {
        match validate(year, day) {
            Err(e) => (Pipeline { stage: Stage::Finished }, Action::Fatal(Failure::Args(e))),
            Ok(puzzle) => (
                Pipeline { stage: Stage::AwaitingConfig { puzzle, language } },
                Action::LoadConfig,
            ),
        }
    }

    /// Whether the run is over.
    pub fn is_finished(&self) -> (b: bool)
        ensures
            b == (self@ is Finished),
    {
        match self.stage {
            Stage::Finished => true,
            _ => false,
        }
    }

    /// Takes the run one step on: from what came of the last action to the
    /// next action.
    pub fn step(self, event: Event) -> (r: (Pipeline, Action))
        ensures
            r.0@ == next(self@, event@).0,
            r.1@ == next(self@, event@).1,
            r.0@.valid(),
    {
        proof {
            use_type_invariant(&self);
        }
        match self.stage {
            Stage::AwaitingConfig { puzzle, language } => match event {
                Event::ConfigLoaded(Some(text)) => {
                    let config = parse_config(text.as_str());
                    let selection = select_language(&language, config.default.as_str());
                    let context = RunContext { cookies: config.cookies.clone(), puzzle };
                    let plan = plan_run(selection.language, &config, &context);
                    let root = plan.root.clone();
                    (
                        Pipeline { stage: Stage::EnteringRoot { context, plan } },
                        Action::EnterDirectory { root, selection },
                    )
                },
                Event::ConfigLoaded(None) => halt(Failure::Config(ConfigError::NotFound)),
                _ => halt(Failure::OutOfTurn),
            },
            Stage::EnteringRoot { context, plan } => match event {
                Event::DirectoryEntered(entered) => {
                    if !entered {
                        halt(Failure::Run(RunError::BadWorkingDirectory))
                    } else {
                        match plan.build {
                            Some(build) => (
                                Pipeline {
                                    stage: Stage::Building { context, solution: plan.solution },
                                },
                                Action::Spawn(build),
                            ),
                            None => (
                                Pipeline { stage: Stage::Running { context, build_time: None } },
                                Action::Spawn(plan.solution),
                            ),
                        }
                    }
                },
                _ => halt(Failure::OutOfTurn),
            },
            Stage::Building { context, solution } => match event {
                Event::ProcessEnded(process) => match finish_build(process) {
                    Err(e) => halt(Failure::Run(e)),
                    Ok(millis) => (
                        Pipeline { stage: Stage::Running { context, build_time: Some(millis) } },
                        Action::Spawn(solution),
                    ),
                },
                _ => halt(Failure::OutOfTurn),
            },
            Stage::Running { context, build_time } => match event {
                Event::ProcessEnded(process) => match finish_run(process, build_time) {
                    Err(failure) => halt(failure),
                    Ok(result) => {
                        let request = submission_request(
                            &context,
                            Part::One,
                            result.answers.0.as_str(),
                        );
                        (
                            Pipeline { stage: Stage::SubmittingFirst { context, result } },
                            Action::Submit(request),
                        )
                    },
                },
                _ => halt(Failure::OutOfTurn),
            },
            Stage::SubmittingFirst { context, result } => match event {
                Event::Replied(reply) => {
                    let first = submission_outcome(reply);
                    if str_eq(result.answers.1.as_str(), "N/A") {
                        (
                            Pipeline { stage: Stage::Finished },
                            Action::Report(Report { result, first, second: None }),
                        )
                    } else {
                        let request = submission_request(
                            &context,
                            Part::Two,
                            result.answers.1.as_str(),
                        );
                        (
                            Pipeline { stage: Stage::SubmittingSecond { result, first } },
                            Action::Submit(request),
                        )
                    }
                },
                _ => halt(Failure::OutOfTurn),
            },
            Stage::SubmittingSecond { result, first } => match event {
                Event::Replied(reply) => {
                    let second = submission_outcome(reply);
                    (
                        Pipeline { stage: Stage::Finished },
                        Action::Report(Report { result, first, second: Some(second) }),
                    )
                },
                _ => halt(Failure::OutOfTurn),
            },
            Stage::Finished => halt(Failure::OutOfTurn),
        }
    }
}

/// Ends a run with a failure.
fn halt(failure: Failure) -> (r: (Pipeline, Action))
    ensures
        r.0@ == stopped(failure@).0,
        r.1@ == stopped(failure@).1,
{
    (Pipeline { stage: Stage::Finished }, Action::Fatal(failure))
}

/// The actions that a run in `state` takes as it is told of `events`, one
/// after the other.
pub open spec fn actions_after(state: StateView, events: Seq<EventView>) -> Seq<ActionView>
    decreases events.len(),
{
    if events.len() == 0 {
        Seq::empty()
    } else {
        let step = next(state, events[0]);
        seq![step.1] + actions_after(step.0, events.skip(1))
    }
}

/// A run that is over stays over: whatever it is told, it answers with a
/// failure, so it starts no process and sends no request.
pub proof fn lemma_finished_stays_finished(events: Seq<EventView>)
    ensures
        actions_after(StateView::Finished, events).len() == events.len(),
        forall|i: int|
            0 <= i < events.len() ==> #[trigger] actions_after(StateView::Finished, events)[i]
                == ActionView::Fatal(FailureView::OutOfTurn),
    decreases events.len(),
{
    if events.len() > 0 {
        let rest = events.skip(1);
        lemma_finished_stays_finished(rest);
        let all = actions_after(StateView::Finished, events);
        let later = actions_after(StateView::Finished, rest);
        assert(next(StateView::Finished, events[0]) == stopped(FailureView::OutOfTurn));
        assert forall|i: int| 0 <= i < events.len() implies #[trigger] all[i]
            == ActionView::Fatal(FailureView::OutOfTurn) by {
            if i > 0 {
                assert(all[i] == later[i - 1]);
            }
        }
    }
}

/// A run for a year or a day that names no puzzle fails before anything is
/// done: its first action is the failure, and whatever it is told after
/// that, it starts no process and sends no request.
pub proof fn lemma_invalid_puzzle_does_nothing(
    year: Seq<char>,
    day: Seq<char>,
    language: Option<Seq<char>>,
    events: Seq<EventView>,
)
    requires
        !(validated(year, day) is Ok),
    ensures
        started(year, day, language) == stopped(
            FailureView::Args(validated(year, day)->Err_0),
        ),
        forall|i: int|
            0 <= i < events.len() ==> #[trigger] actions_after(
                started(year, day, language).0,
                events,
            )[i] is Fatal,
{
    lemma_finished_stays_finished(events);
}

/// Every step keeps what holds of the states of a run.
pub proof fn lemma_step_keeps_valid(state: StateView, event: EventView)
    requires
        state.valid(),
    ensures
        next(state, event).0.valid(),
{
}

/// A run starts in a state of which that holds.
pub proof fn lemma_start_is_valid(year: Seq<char>, day: Seq<char>, language: Option<Seq<char>>)
    ensures
        started(year, day, language).0.valid(),
{
}

/// A second answer is submitted only where it is not the sentinel.
pub proof fn lemma_sentinel_is_not_submitted(
    state: StateView,
    event: EventView,
    context: ContextView,
    answer: Seq<char>,
)
    requires
        state.valid(),
        next(state, event).1 == ActionView::Submit(request_for(context, Part::Two, answer)),
    ensures
        answer != sentinel(),
{
    reveal_strlit("1");
    reveal_strlit("2");
    let request = request_for(context, Part::Two, answer);
    assert(request.form[0].1 == level(Part::Two));
    assert(request.form[1].1 == answer);
    assert(level(Part::One) != level(Part::Two)) by {
        assert("1"@[0] != "2"@[0]);
    }
}

/// A solution that ends well with two answers has both submitted, the first
/// before the second, and the report tells how each was received.
pub proof fn lemma_two_answers_are_both_submitted(
    context: ContextView,
    build_time: Option<nat>,
    process: ProcessView,
    first_reply: Option<Seq<char>>,
    second_reply: Option<Seq<char>>,
)
    requires
        run_outcome(Some(process), build_time) matches Ok(result) && result.answers.1
            != sentinel(),
    ensures
        ({
            let result = run_outcome(Some(process), build_time)->Ok_0;
            actions_after(
                StateView::Running { context, build_time },
                seq![
                    EventView::ProcessEnded(Some(process)),
                    EventView::Replied(first_reply),
                    EventView::Replied(second_reply),
                ],
            ) == seq![
                ActionView::Submit(request_for(context, Part::One, result.answers.0)),
                ActionView::Submit(request_for(context, Part::Two, result.answers.1)),
                ActionView::Report(
                    ReportView {
                        result,
                        first: outcome_of(first_reply),
                        second: Some(outcome_of(second_reply)),
                    },
                ),
            ]
        }),
{
    let result = run_outcome(Some(process), build_time)->Ok_0;
    let e0 = EventView::ProcessEnded(Some(process));
    let e1 = EventView::Replied(first_reply);
    let e2 = EventView::Replied(second_reply);
    let events = seq![e0, e1, e2];
    let s0 = StateView::Running { context, build_time };
    let s1 = next(s0, e0).0;
    let s2 = next(s1, e1).0;
    let s3 = next(s2, e2).0;
    assert(events.skip(1) == seq![e1, e2]);
    assert(events.skip(1).skip(1) == seq![e2]);
    assert(events.skip(1).skip(1).skip(1) == Seq::<EventView>::empty());
    assert(actions_after(s3, Seq::<EventView>::empty()) == Seq::<ActionView>::empty());
    assert(actions_after(s2, seq![e2]) == seq![next(s2, e2).1]);
    assert(actions_after(s1, seq![e1, e2]) == seq![next(s1, e1).1, next(s2, e2).1]);
    assert(actions_after(s0, events) == seq![next(s0, e0).1, next(s1, e1).1, next(s2, e2).1]);
}

/// A solution that ends well with one answer has that answer submitted and
/// no other: the report follows the first reply.
pub proof fn lemma_single_answer_is_submitted_alone(
    context: ContextView,
    build_time: Option<nat>,
    process: ProcessView,
    reply: Option<Seq<char>>,
)
    requires
        run_outcome(Some(process), build_time) matches Ok(result) && result.answers.1
            == sentinel(),
    ensures
        ({
            let result = run_outcome(Some(process), build_time)->Ok_0;
            actions_after(
                StateView::Running { context, build_time },
                seq![EventView::ProcessEnded(Some(process)), EventView::Replied(reply)],
            ) == seq![
                ActionView::Submit(request_for(context, Part::One, result.answers.0)),
                ActionView::Report(
                    ReportView { result, first: outcome_of(reply), second: None },
                ),
            ]
        }),
{
    let e0 = EventView::ProcessEnded(Some(process));
    let e1 = EventView::Replied(reply);
    let events = seq![e0, e1];
    let s0 = StateView::Running { context, build_time };
    let s1 = next(s0, e0).0;
    let s2 = next(s1, e1).0;
    assert(events.skip(1) == seq![e1]);
    assert(events.skip(1).skip(1) == Seq::<EventView>::empty());
    assert(actions_after(s2, Seq::<EventView>::empty()) == Seq::<ActionView>::empty());
    assert(actions_after(s1, seq![e1]) == seq![next(s1, e1).1]);
    assert(actions_after(s0, events) == seq![next(s0, e0).1, next(s1, e1).1]);
}

/// A build whose error output holds the marker of a compiler error ends the
/// run with that output, whatever its exit status: the solution is not
/// started and nothing is submitted, then or later.
pub proof fn lemma_failed_build_ends_run(
    context: ContextView,
    solution: InvocationView,
    process: ProcessView,
    events: Seq<EventView>,
)
    requires
        decoded(process.stderr) matches Some(errors) && has_substring(errors, error_marker()),
    ensures
        next(
            StateView::Building { context, solution },
            EventView::ProcessEnded(Some(process)),
        ) == stopped(
            FailureView::Run(RunErrorView::BuildFailed(decoded(process.stderr).unwrap())),
        ),
        forall|i: int|
            0 <= i < events.len() ==> #[trigger] actions_after(StateView::Finished, events)[i]
                is Fatal,
{
    lemma_finished_stays_finished(events);
}

} // verus!
