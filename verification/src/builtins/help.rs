//! How the builtin commands answer a request for their manual page, and the
//! `help` command itself.

use crate::builtins::{slice_texts, Builtin, BuiltinMap};
use crate::shell::Shell;
use crate::text::{str_eq, texts};
use vstd::prelude::*;

verus! {

/// How a builtin command treats the flags that ask for its manual page.
#[derive(Debug, Clone, Copy, PartialEq, Eq, Structural)]
pub enum HelpPolicy {
    /// The command has no manual page to show: the flags are arguments like
    /// any other.
    Ignores,
    /// `-h` or `--help` anywhere among the arguments: the page is shown and the
    /// command succeeds without doing anything else.
    Shows,
    /// `-h` or `--help` anywhere among the arguments: the page is shown, and
    /// the command runs all the same.
    ShowsAndRuns,
    /// Only `--help` counts.
    ShowsOnLongFlag,
}

/// What a builtin command does first.
#[derive(Debug, Clone, Copy, PartialEq, Eq, Structural)]
pub enum Step {
    /// Show the manual page; the command is done and has succeeded.
    ShowHelp,
    /// Show the manual page, then run the command.
    ShowHelpAndRun,
    /// Run the command.
    Run,
}

/// Whether the argument asks for the manual page.
pub open spec fn is_help_flag(arg: Seq<char>) -> bool {
    arg == "-h"@ || arg == "--help"@
}

/// Whether any of the arguments asks for the manual page.
pub open spec fn has_help_flag(args: Seq<Seq<char>>) -> bool {
    exists|i: int| 0 <= i < args.len() && is_help_flag(#[trigger] args[i])
}

/// Whether any of the arguments is `--help`.
pub open spec fn has_long_help_flag(args: Seq<Seq<char>>) -> bool {
    exists|i: int| 0 <= i < args.len() && #[trigger] args[i] == "--help"@
}

/// The policy of each builtin command.
pub open spec fn policy_of(command: Builtin) -> HelpPolicy {
    match command {
        Builtin::Cd | Builtin::Is | Builtin::Dirs | Builtin::Pushd | Builtin::Popd | Builtin::Read
        | Builtin::Drop | Builtin::SetOptions | Builtin::Eq | Builtin::Eval | Builtin::History
        | Builtin::Source | Builtin::Echo | Builtin::Random | Builtin::False | Builtin::Bg
        | Builtin::Fg | Builtin::Suspend | Builtin::Exit | Builtin::Matches | Builtin::Exists
        | Builtin::Isatty => HelpPolicy::Shows,
        Builtin::True | Builtin::Jobs => HelpPolicy::ShowsAndRuns,
        Builtin::Disown => HelpPolicy::ShowsOnLongFlag,
        _ => HelpPolicy::Ignores,
    }
}

/// What a builtin command does first, given its arguments (the name under
/// which it was called is the first of them).
pub open spec fn first_step_of(command: Builtin, args: Seq<Seq<char>>) -> Step {
    match policy_of(command) {
        HelpPolicy::Ignores => Step::Run,
        HelpPolicy::Shows => if has_help_flag(args) {
            Step::ShowHelp
        } else {
            Step::Run
        },
        HelpPolicy::ShowsAndRuns => if has_help_flag(args) {
            Step::ShowHelpAndRun
        } else {
            Step::Run
        },
        HelpPolicy::ShowsOnLongFlag => if has_long_help_flag(args) {
            Step::ShowHelp
        } else {
            Step::Run
        },
    }
}

/// Tells whether any of the arguments asks for the manual page.
pub fn check_help(args: &Vec<String>) -> (r: bool)
    ensures
        r == has_help_flag(texts(args@)),
{
    let mut i: usize = 0;
    while i < args.len()
        invariant
            i <= args.len(),
            forall|j: int| 0 <= j < i ==> !is_help_flag(#[trigger] texts(args@)[j]),
        decreases args.len() - i,
    {
        if str_eq(args[i].as_str(), "-h") || str_eq(args[i].as_str(), "--help") {
            assert(is_help_flag(texts(args@)[i as int]));
            return true;
        }
        i += 1;
    }
    false
}

/// Tells whether any of the arguments is `--help`.
pub fn check_long_help(args: &Vec<String>) -> (r: bool)
    ensures
        r == has_long_help_flag(texts(args@)),
{
    let mut i: usize = 0;
    while i < args.len()
        invariant
            i <= args.len(),
            forall|j: int| 0 <= j < i ==> #[trigger] texts(args@)[j] != "--help"@,
        decreases args.len() - i,
    {
        if str_eq(args[i].as_str(), "--help") {
            assert(texts(args@)[i as int] == "--help"@);
            return true;
        }
        i += 1;
    }
    false
}

/// The policy of a builtin command.
pub fn help_policy(command: Builtin) -> (r: HelpPolicy)
    ensures
        r == policy_of(command),
{
    match command {
        Builtin::Cd | Builtin::Is | Builtin::Dirs | Builtin::Pushd | Builtin::Popd | Builtin::Read
        | Builtin::Drop | Builtin::SetOptions | Builtin::Eq | Builtin::Eval | Builtin::History
        | Builtin::Source | Builtin::Echo | Builtin::Random | Builtin::False | Builtin::Bg
        | Builtin::Fg | Builtin::Suspend | Builtin::Exit | Builtin::Matches | Builtin::Exists
        | Builtin::Isatty => HelpPolicy::Shows,
        Builtin::True | Builtin::Jobs => HelpPolicy::ShowsAndRuns,
        Builtin::Disown => HelpPolicy::ShowsOnLongFlag,
        _ => HelpPolicy::Ignores,
    }
}

/// Decides what a builtin command does first.
pub fn first_step(command: Builtin, args: &Vec<String>) -> (r: Step)
    ensures
        r == first_step_of(command, texts(args@)),
{
    match help_policy(command) {
        HelpPolicy::Ignores => Step::Run,
        HelpPolicy::Shows => if check_help(args) {
            Step::ShowHelp
        } else {
            Step::Run
        },
        HelpPolicy::ShowsAndRuns => if check_help(args) {
            Step::ShowHelpAndRun
        } else {
            Step::Run
        },
        HelpPolicy::ShowsOnLongFlag => if check_long_help(args) {
            Step::ShowHelp
        } else {
            Step::Run
        },
    }
}

/// Every text with a line feed behind it, one after another.
pub open spec fn lines(items: Seq<Seq<char>>) -> Seq<char>
    decreases items.len(),
{
    if items.len() == 0 {
        Seq::empty()
    } else {
        lines(items.drop_last()) + items.last() + seq!['\n']
    }
}

/// What the `help` command writes: for a command that the table holds, its
/// description; for any other name, a hint; without a name, the names of all
/// commands; each on a line of its own.
pub open spec fn help_text(builtins: &BuiltinMap, args: Seq<Seq<char>>) -> Seq<char> {
    if args.len() > 1 {
        match builtins.place(args[1]) {
            Some(i) => builtins.descriptions()[i] + seq!['\n'],
            None => "Command helper not found [run 'help']..."@ + seq!['\n'],
        }
    } else {
        lines(builtins.names())
    }
}

impl Shell {
    /// Composes what the `help` command writes to the standard output. The
    /// command always succeeds.
    pub fn builtin_help(&self, args: &Vec<String>) -> (r: String)
        ensures
            r@ == help_text(&self.builtins, texts(args@)),
    {
        help_lines(&self.builtins, args)
    }
}

/// Composes what the `help` command writes for a table of commands.
pub fn help_lines(builtins: &BuiltinMap, args: &Vec<String>) -> (r: String)
    ensures
        r@ == help_text(builtins, texts(args@)),
{
    let mut out = String::new();
    if args.len() > 1 {
        match builtins.get_help(args[1].as_str()) {
            Some(text) => {
                out.append(text);
            },
            None => {
                out.append("Command helper not found [run 'help']...");
            },
        }
        out.push('\n');
        assert(texts(args@)[1] == args@[1]@);
        out
    } else {
        let commands = builtins.keys();
        let ghost names = builtins.names();
        let mut i: usize = 0;
        assert(names.take(0) =~= Seq::<Seq<char>>::empty());
        while i < commands.len()
            invariant
                i <= commands.len(),
                names == builtins.names(),
                names == slice_texts(commands@),
                out@ == lines(names.take(i as int)),
            decreases commands.len() - i,
        {
            proof {
                assert(names.take(i + 1).drop_last() =~= names.take(i as int));
                assert(names.take(i + 1).last() == commands@[i as int]@);
            }
            out.append(commands[i]);
            out.push('\n');
            i += 1;
        }
        assert(names.take(i as int) =~= names);
        out
    }
}

} // verus!
