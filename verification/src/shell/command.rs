//! Command substitution: what becomes of the output of a subshell.

use crate::shell::job_control::{owner_after, Action};
use crate::shell::Shell;
use crate::text::{chars_of, option_text, string_of_range};
use vstd::prelude::*;

verus! {

/// How the attempt to run a command in a subshell and to capture its standard
/// output ended.
#[derive(Debug)]
pub enum Capture {
    /// The subshell ran; this is all that it wrote to its standard output.
    Output(String),
    /// The subshell ran, but its output could not be read, for this reason.
    ReadError(String),
    /// No subshell could be forked, for this reason.
    ForkError(String),
}

/// What a command substitution comes to.
#[derive(Debug)]
pub struct Substitution {
    /// The text that takes the place of the command, where there is one.
    pub output: Option<String>,
    /// The line to write to the error stream, where the capture failed.
    pub diagnostic: Option<String>,
    /// What is to be asked of the operating system afterwards, in order.
    pub actions: Vec<Action>,
}

/// The text without the line feeds at its end.
pub open spec fn without_trailing_newlines(s: Seq<char>) -> Seq<char>
    decreases s.len(),
{
    if s.len() > 0 && s.last() == '\n' {
        without_trailing_newlines(s.drop_last())
    } else {
        s
    }
}

/// The text that takes the place of the command: the output of the subshell
/// without the line feeds at its end; nothing where the capture failed.
pub open spec fn substituted(capture: Capture) -> Option<Seq<char>> {
    match capture {
        Capture::Output(text) => Some(without_trailing_newlines(text@)),
        _ => None,
    }
}

/// The line that reports a failed capture; nothing where it succeeded.
pub open spec fn capture_diagnostic(capture: Capture) -> Option<Seq<char>> {
    match capture {
        Capture::Output(_) => None,
        Capture::ReadError(why) => Some("ion: error reading stdout of child: "@ + why@),
        Capture::ForkError(why) => Some("ion: fork error: "@ + why@),
    }
}

/// Removes the line feeds at the end of a text.
pub fn strip_trailing_newlines(s: &str) -> (r: String)
    ensures
        r@ == without_trailing_newlines(s@),
{
    let v = chars_of(s);
    let mut end: usize = v.len();
    assert(v@.take(end as int) =~= v@);
    while end > 0 && v[end - 1] == '\n'
        invariant
            end <= v.len(),
            without_trailing_newlines(v@) == without_trailing_newlines(v@.take(end as int)),
        decreases end,
    {
        assert(v@.take(end as int).drop_last() =~= v@.take(end - 1));
        end -= 1;
    }
    assert(v@.take(end as int) =~= v@.subrange(0, end as int));
    string_of_range(&v, 0, end)
}

impl Shell {
    /// Settles a command substitution once the subshell has been dealt with.
    ///
    /// A captured output takes the place of the command, without the line
    /// feeds at its end and with nothing to report. A failure to fork or to
    /// read yields no text and one line for the error stream. Either way the
    /// terminal is then handed back to the process group of the shell, and
    /// nothing else is asked for.
    pub fn command(&self, capture: Capture) -> (r: Substitution)
        ensures
            option_text(r.output) == substituted(capture),
            option_text(r.diagnostic) == capture_diagnostic(capture),
            r.actions@ == seq![Action::GrantTerminal { pgid: self.pid }],
    {
        let mut actions: Vec<Action> = Vec::new();
        actions.push(Action::GrantTerminal { pgid: self.pid });
        assert(actions@ =~= seq![Action::GrantTerminal { pgid: self.pid }]);
        match capture {
            Capture::Output(text) => Substitution {
                output: Some(strip_trailing_newlines(text.as_str())),
                diagnostic: None,
                actions,
            },
            Capture::ReadError(why) => {
                let mut line = String::new();
                line.append("ion: error reading stdout of child: ");
                line.append(why.as_str());
                assert(line@ =~= "ion: error reading stdout of child: "@ + why@);
                Substitution { output: None, diagnostic: Some(line), actions }
            },
            Capture::ForkError(why) => {
                let mut line = String::new();
                line.append("ion: fork error: ");
                line.append(why.as_str());
                assert(line@ =~= "ion: fork error: "@ + why@);
                Substitution { output: None, diagnostic: Some(line), actions }
            },
        }
    }
}

/// After a command substitution the terminal is back with the shell, whether
/// the subshell ran or not: where the one action asked for was carried out,
/// the owner is the process group of the shell.
pub proof fn lemma_substitution_returns_terminal(shell: Shell, owner: u32)
    ensures
        owner_after(
            seq![Action::GrantTerminal { pgid: shell.pid }],
            seq![true],
            owner,
        ) == shell.pid,
{
}

} // verus!
