//! What a builtin command leaves behind: its exit status and what it has to
//! say.

use crate::builtins::{Builtin, FAILURE, SUCCESS};
use crate::text::option_text;
use vstd::prelude::*;

verus! {

/// What a builtin command comes to.
#[derive(Debug)]
pub struct Outcome {
    /// The exit status.
    pub status: i32,
    /// Whether the manual page of the command is to be shown.
    pub show_help: bool,
    /// What is to be written to the error stream, as it stands.
    pub error: Option<String>,
}

/// An outcome as plain values.
pub struct OutcomeView {
    pub status: int,
    pub show_help: bool,
    pub error: Option<Seq<char>>,
}

impl View for Outcome {
    type V = OutcomeView;

    open spec fn view(&self) -> OutcomeView {
        OutcomeView {
            status: self.status as int,
            show_help: self.show_help,
            error: option_text(self.error),
        }
    }
}

/// The outcome of a command that has nothing to say.
pub open spec fn quiet(status: int) -> OutcomeView {
    OutcomeView { status, show_help: false, error: None }
}

/// The outcome of a command that showed its manual page and did nothing else.
pub open spec fn helped() -> OutcomeView {
    OutcomeView { status: SUCCESS as int, show_help: true, error: None }
}

/// The outcome of a command that failed with something to say.
pub open spec fn complaint(status: int, text: Seq<char>) -> OutcomeView {
    OutcomeView { status, show_help: false, error: Some(text) }
}

impl Outcome {
    /// A command that has nothing to say.
    pub fn quiet(status: i32) -> (r: Outcome)
        ensures
            r@ == quiet(status as int),
    {
        Outcome { status, show_help: false, error: None }
    }

    /// A command that showed its manual page and did nothing else.
    pub fn helped() -> (r: Outcome)
        ensures
            r@ == helped(),
    {
        Outcome { status: SUCCESS, show_help: true, error: None }
    }

    /// A command that failed with something to say.
    pub fn complaint(status: i32, text: String) -> (r: Outcome)
        ensures
            r@ == complaint(status as int, text@),
    {
        Outcome { status, show_help: false, error: Some(text) }
    }
}

/// What the part of a builtin command that lies outside this library handed
/// back.
#[derive(Debug)]
pub enum Completion {
    /// It was carried out, or failed for the reason given.
    Done(Result<(), String>),
    /// It answered a question with yes or no, or failed for the reason given.
    Answered(Result<bool, String>),
    /// It settled the exit status itself, or failed without giving a reason.
    Settled(Result<i32, ()>),
}

/// What a builtin command writes to the error stream for a failure of which
/// it was given the reason: some write the reason as it stands, some end the
/// line, some name themselves first.
pub open spec fn failure_text(command: Builtin, why: Seq<char>) -> Seq<char> {
    match command {
        Builtin::Cd | Builtin::Calc | Builtin::Random | Builtin::Test | Builtin::Exists => why
            + seq!['\n'],
        Builtin::Exec => "ion: exec: "@ + why + seq!['\n'],
        _ => why,
    }
}

/// What a builtin command writes to the error stream for a failure of which
/// it was given no reason: `eval` tells that its expression was cut short, the
/// others keep silent.
pub open spec fn silent_failure(command: Builtin) -> OutcomeView {
    match command {
        Builtin::Eval => complaint(
            FAILURE as int,
            "ion: supplied eval expression was not terminated\n"@,
        ),
        _ => quiet(FAILURE as int),
    }
}

/// The outcome of a builtin command whose work was done outside this
/// library: success is status zero, failure is status one with the reason on
/// the error stream, and a status that was settled outside stands.
pub open spec fn completed(command: Builtin, completion: Completion) -> OutcomeView {
    match completion {
        Completion::Done(Ok(_)) => quiet(SUCCESS as int),
        Completion::Done(Err(why)) => complaint(FAILURE as int, failure_text(command, why@)),
        Completion::Answered(Ok(yes)) => if yes {
            quiet(SUCCESS as int)
        } else {
            quiet(FAILURE as int)
        },
        Completion::Answered(Err(why)) => complaint(FAILURE as int, failure_text(command, why@)),
        Completion::Settled(Ok(status)) => quiet(status as int),
        Completion::Settled(Err(_)) => silent_failure(command),
    }
}

fn failure_message(command: Builtin, why: &str) -> (r: String)
    ensures
        r@ == failure_text(command, why@),
{
    let mut text = String::new();
    match command {
        Builtin::Cd | Builtin::Calc | Builtin::Random | Builtin::Test | Builtin::Exists => {
            text.append(why);
            text.push('\n');
            assert(text@ =~= why@ + seq!['\n']);
        },
        Builtin::Exec => {
            text.append("ion: exec: ");
            text.append(why);
            text.push('\n');
            assert(text@ =~= "ion: exec: "@ + why@ + seq!['\n']);
        },
        _ => {
            text.append(why);
            assert(text@ =~= why@);
        },
    }
    text
}

/// Settles the outcome of a builtin command whose work was done outside this
/// library.
pub fn complete(command: Builtin, completion: Completion) -> (r: Outcome)
    ensures
        r@ == completed(command, completion),
{
    match completion {
        Completion::Done(Ok(_)) => Outcome::quiet(SUCCESS),
        Completion::Done(Err(why)) => Outcome::complaint(
            FAILURE,
            failure_message(command, why.as_str()),
        ),
        Completion::Answered(Ok(yes)) => if yes {
            Outcome::quiet(SUCCESS)
        } else {
            Outcome::quiet(FAILURE)
        },
        Completion::Answered(Err(why)) => Outcome::complaint(
            FAILURE,
            failure_message(command, why.as_str()),
        ),
        Completion::Settled(Ok(status)) => Outcome::quiet(status),
        Completion::Settled(Err(_)) => match command {
            Builtin::Eval => {
                let mut text = String::new();
                text.append("ion: supplied eval expression was not terminated\n");
                assert(text@ =~= "ion: supplied eval expression was not terminated\n"@);
                Outcome::complaint(FAILURE, text)
            },
            _ => Outcome::quiet(FAILURE),
        },
    }
}

} // verus!
