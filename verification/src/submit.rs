//! Submitting an answer: the request to send, and what the site's reply
//! means.

use vstd::prelude::*;
use crate::decimal::{decimal, push_decimal};
use crate::run::{ContextView, RunContext};
use crate::text::{has_substring, optional_text, str_contains};

verus! {

/// How the puzzle site received one answer.
#[derive(Clone, Copy, Debug, PartialEq, Eq, Structural)]
pub enum ResultType {
    /// The answer is right.
    Success,
    /// The answer is wrong, or the site could not be reached.
    Failure,
    /// The site takes no answer yet: the last one came too recently.
    Cooldown,
    /// The part was solved before.
    AlreadySubmitted,
}

/// One of the two parts of a day's puzzle.
#[derive(Clone, Copy, Debug, PartialEq, Eq, Structural)]
pub enum Part {
    One,
    Two,
}

/// The number of a part as the site's form wants it.
pub open spec fn level(part: Part) -> Seq<char> {
    match part {
        Part::One => "1"@,
        Part::Two => "2"@,
    }
}

/// A request that submits one answer: a form posted to `url`, with the
/// session cookie in the `Cookie` header.
#[derive(Debug)]
pub struct SubmissionRequest {
    /// Where the form is posted.
    pub url: String,
    /// The value of the `Cookie` header.
    pub cookie: String,
    /// The fields of the form, each a name and a value, in order.
    pub form: Vec<(String, String)>,
}

/// A request as texts.
pub struct RequestView {
    pub url: Seq<char>,
    pub cookie: Seq<char>,
    pub form: Seq<(Seq<char>, Seq<char>)>,
}

/// The fields of a form as texts.
pub open spec fn fields(form: Seq<(String, String)>) -> Seq<(Seq<char>, Seq<char>)> {
    form.map_values(|f: (String, String)| (f.0@, f.1@))
}

impl View for SubmissionRequest {
    type V = RequestView;

    open spec fn view(&self) -> RequestView {
        RequestView { url: self.url@, cookie: self.cookie@, form: fields(self.form@) }
    }
}

/// Where the answers of a day's puzzle are posted.
pub open spec fn answer_url(c: ContextView) -> Seq<char> {
    "https://adventofcode.com/"@ + decimal(c.year) + "/day/"@ + decimal(c.day) + "/answer"@
}

/// The request that submits `answer` for one part of the puzzle of `c`: the
/// form holds the part as `level` and the answer as `answer`.
pub open spec fn request_for(c: ContextView, part: Part, answer: Seq<char>) -> RequestView {
    RequestView {
        url: answer_url(c),
        cookie: c.cookies,
        form: seq![("level"@, level(part)), ("answer"@, answer)],
    }
}

/// The request that submits `answer` for one part of a day's puzzle.
pub fn submission_request(ctx: &RunContext, part: Part, answer: &str) -> (request:
    SubmissionRequest)
    ensures
        request@ == request_for(ctx@, part, answer@),
{
    let mut url = String::new();
    url.append("https://adventofcode.com/");
    push_decimal(&mut url, ctx.puzzle.year() as u128);
    url.append("/day/");
    push_decimal(&mut url, ctx.puzzle.day() as u128);
    url.append("/answer");
    assert(url@ =~= answer_url(ctx@));
    let number: String = match part {
        Part::One => "1".to_owned(),
        Part::Two => "2".to_owned(),
    };
    let mut form: Vec<(String, String)> = Vec::new();
    form.push(("level".to_owned(), number));
    form.push(("answer".to_owned(), answer.to_owned()));
    assert(fields(form@) == seq![("level"@, level(part)), ("answer"@, answer@)]);
    SubmissionRequest { url, cookie: ctx.cookies.clone(), form }
}

/// What the body of the site's reply means. The body is searched for three
/// phrases, in this order, and the first that is found decides: a wrong
/// answer, a cooldown, a part solved before. A body with none of them is a
/// success.
pub open spec fn classified(body: Seq<char>) -> ResultType {
    if has_substring(body, "not the right answer"@) {
        ResultType::Failure
    } else if has_substring(body, "left to wait"@) {
        ResultType::Cooldown
    } else if has_substring(body, "you already complete"@) {
        ResultType::AlreadySubmitted
    } else {
        ResultType::Success
    }
}

/// What the site's reply means, where `None` stands for a request that got
/// no reply: that counts as a failure.
pub open spec fn outcome_of(reply: Option<Seq<char>>) -> ResultType {
    match reply {
        Some(body) => classified(body),
        None => ResultType::Failure,
    }
}

/// Reads the body of the site's reply.
pub fn classify(body: &str) -> (r: ResultType)
    ensures
        r == classified(body@),
{
    if str_contains(body, "not the right answer") {
        ResultType::Failure
    } else if str_contains(body, "left to wait") {
        ResultType::Cooldown
    } else if str_contains(body, "you already complete") {
        ResultType::AlreadySubmitted
    } else {
        ResultType::Success
    }
}

/// Reads the site's reply to a submission; `None` stands for a request that
/// got no reply.
pub fn submission_outcome(reply: Option<String>) -> (r: ResultType)
    ensures
        r == outcome_of(optional_text(reply)),
{
    match reply {
        Some(body) => classify(body.as_str()),
        None => ResultType::Failure,
    }
}

/// A reply that tells of a cooldown and of a part solved before, and of no
/// wrong answer, means a cooldown.
pub proof fn lemma_cooldown_comes_first(body: Seq<char>)
    requires
        has_substring(body, "left to wait"@),
        has_substring(body, "you already complete"@),
        !has_substring(body, "not the right answer"@),
    ensures
        classified(body) == ResultType::Cooldown,
{
}

/// A reply that tells of a wrong answer means a failure, whatever else it
/// holds.
pub proof fn lemma_wrong_answer_comes_first(body: Seq<char>)
    requires
        has_substring(body, "not the right answer"@),
    ensures
        classified(body) == ResultType::Failure,
{
}

/// The line that tells the user how one part was received: the part's number
/// and the outcome in words, on a background of the outcome's colour.
pub open spec fn result_message(r: ResultType, part: Seq<char>) -> Seq<char> {
    match r {
        ResultType::Success => "\u{001b}[102mPart "@ + part + " SUCCESS\u{001b}[0m"@,
        ResultType::Failure => "\u{001b}[41mPart "@ + part + " FAILURE\u{001b}[0m"@,
        ResultType::AlreadySubmitted => "\u{001b}[44mPart "@ + part
            + " ALREADY SUBMITTED\u{001b}[0m"@,
        ResultType::Cooldown => "\u{001b}[43mPart "@ + part + " ON COOLDOWN\u{001b}[0m"@,
    }
}

/// The line that tells the user how the part `part` was received.
pub fn result_type_to_message(res_type: ResultType, part: &str) -> (message: String)
    ensures
        message@ == result_message(res_type, part@),
{
    let mut message = String::new();
    match res_type {
        ResultType::Success => {
            message.append("\u{001b}[102mPart ");
            message.append(part);
            message.append(" SUCCESS\u{001b}[0m");
        },
        ResultType::Failure => {
            message.append("\u{001b}[41mPart ");
            message.append(part);
            message.append(" FAILURE\u{001b}[0m");
        },
        ResultType::AlreadySubmitted => {
            message.append("\u{001b}[44mPart ");
            message.append(part);
            message.append(" ALREADY SUBMITTED\u{001b}[0m");
        },
        ResultType::Cooldown => {
            message.append("\u{001b}[43mPart ");
            message.append(part);
            message.append(" ON COOLDOWN\u{001b}[0m");
        },
    }
    assert(message@ =~= result_message(res_type, part@));
    message
}

} // verus!
