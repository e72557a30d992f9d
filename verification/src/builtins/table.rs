//! The table of the commands that the shell runs itself.

use crate::builtins::Builtin;
use crate::text::{lemma_lex_transitive, lex_less};
use vstd::prelude::*;

verus! {

/// The names of the builtin commands, in dictionary order.
pub open spec fn table_names() -> Seq<Seq<char>> {
    seq![
        "alias"@,
        "bg"@,
        "bool"@,
        "calc"@,
        "cd"@,
        "contains"@,
        "dirs"@,
        "disown"@,
        "drop"@,
        "echo"@,
        "ends-with"@,
        "eq"@,
        "eval"@,
        "exec"@,
        "exists"@,
        "exit"@,
        "false"@,
        "fg"@,
        "fn"@,
        "help"@,
        "history"@,
        "is"@,
        "isatty"@,
        "jobs"@,
        "matches"@,
        "popd"@,
        "pushd"@,
        "random"@,
        "read"@,
        "set"@,
        "source"@,
        "starts-with"@,
        "status"@,
        "suspend"@,
        "test"@,
        "true"@,
        "type"@,
        "unalias"@,
        "wait"@,
        "which"@,
    ]
}

/// The builtin command at each place of the table.
pub open spec fn table_commands() -> Seq<Builtin> {
    seq![
        Builtin::Alias,
        Builtin::Bg,
        Builtin::Bool,
        Builtin::Calc,
        Builtin::Cd,
        Builtin::Contains,
        Builtin::Dirs,
        Builtin::Disown,
        Builtin::Drop,
        Builtin::Echo,
        Builtin::EndsWith,
        Builtin::Eq,
        Builtin::Eval,
        Builtin::Exec,
        Builtin::Exists,
        Builtin::Exit,
        Builtin::False,
        Builtin::Fg,
        Builtin::Fn,
        Builtin::Help,
        Builtin::History,
        Builtin::Is,
        Builtin::Isatty,
        Builtin::Jobs,
        Builtin::Matches,
        Builtin::Popd,
        Builtin::Pushd,
        Builtin::Random,
        Builtin::Read,
        Builtin::SetOptions,
        Builtin::Source,
        Builtin::StartsWith,
        Builtin::Status,
        Builtin::Suspend,
        Builtin::Test,
        Builtin::True,
        Builtin::Type,
        Builtin::Unalias,
        Builtin::Wait,
        Builtin::Which,
    ]
}

/// The one-line description at each place of the table.
pub open spec fn table_descriptions() -> Seq<Seq<char>> {
    seq![
        "View, set or unset aliases"@,
        "Resumes a stopped background process"@,
        "If the value is '1' or 'true', return 0 exit status"@,
        "Calculate a mathematical expression"@,
        "Change the current directory\n    cd <path>"@,
        "Evaluates if the supplied argument contains a given string"@,
        "Display the current directory stack"@,
        "Disowning a process removes that process from the shell's background process table."@,
        "Delete a variable"@,
        "Display a line of text"@,
        "Evaluates if the supplied argument ends with a given string"@,
        "Simple alternative to == and !="@,
        "Evaluates the evaluated expression"@,
        "Replace the shell with the given command."@,
        "Performs tests on files and text"@,
        "Exits the current session"@,
        "Do nothing, unsuccessfully"@,
        "Resumes and sets a background process as the active process"@,
        "Print list of functions"@,
        "Display helpful information about a given command or list commands if none specified\n    help <command>"@,
        "Display a log of all commands previously executed"@,
        "Simple alternative to == and !="@,
        "Returns 0 exit status if the supplied FD is a tty"@,
        "Displays all jobs that are attached to the background"@,
        "Checks if a string matches a given regex"@,
        "Pop a directory from the stack"@,
        "Push a directory to the stack"@,
        "Outputs a random u64"@,
        "Read some variables\n    read <variable>"@,
        "Set or unset values of shell options and positional parameters."@,
        "Evaluate the file following the command or re-initialize the init file"@,
        "Evaluates if the supplied argument starts with a given string"@,
        "Evaluates the current runtime status"@,
        "Suspends the shell with a SIGTSTOP signal"@,
        "Performs tests on files and text"@,
        "Do nothing, successfully"@,
        "indicates how a command would be interpreted"@,
        "Delete an alias"@,
        "Waits until all running background processes have completed"@,
        "Shows the full path of commands"@,
    ]
}

/// Every name comes before every later one.
pub open spec fn sorted(names: Seq<Seq<char>>) -> bool {
    forall|i: int, j: int| 0 <= i < j < names.len() ==> lex_less(#[trigger] names[i], #[trigger] names[j])
}

/// Names of which each comes before its neighbour are sorted.
pub proof fn lemma_neighbours_sorted(names: Seq<Seq<char>>)
    requires
        forall|i: int| 0 <= i < names.len() - 1 ==> lex_less(#[trigger] names[i], names[i + 1]),
    ensures
        sorted(names),
{
    assert forall|i: int, j: int| 0 <= i < j < names.len() implies lex_less(
        #[trigger] names[i],
        #[trigger] names[j],
    ) by {
        lemma_ordered_pair(names, i, j);
    }
}

proof fn lemma_ordered_pair(names: Seq<Seq<char>>, i: int, j: int)
    requires
        forall|k: int| 0 <= k < names.len() - 1 ==> lex_less(#[trigger] names[k], names[k + 1]),
        0 <= i < j < names.len(),
    ensures
        lex_less(names[i], names[j]),
    decreases j - i,
{
    if j > i + 1 {
        lemma_ordered_pair(names, i, j - 1);
        assert(lex_less(names[j - 1], names[j - 1 + 1]));
        lemma_lex_transitive(names[i], names[j - 1], names[j]);
    } else {
        assert(lex_less(names[i], names[i + 1]));
    }
}

/// Two texts that agree on their first `k` characters are ordered by what
/// follows: the one that ends there, or has the smaller character there, comes
/// first.
pub proof fn lemma_lex_less_at(a: Seq<char>, b: Seq<char>, k: int)
    requires
        0 <= k <= a.len(),
        k < b.len(),
        forall|i: int| 0 <= i < k ==> a[i] == b[i],
        k == a.len() || a[k] < b[k],
    ensures
        lex_less(a, b),
    decreases k,
{
    if k > 0 {
        assert(a[0] == b[0]);
        lemma_lex_less_at(a.drop_first(), b.drop_first(), k - 1);
    }
}

proof fn lemma_builtin_neighbours_0()
    ensures
        lex_less("alias"@, "bg"@),
        lex_less("bg"@, "bool"@),
        lex_less("bool"@, "calc"@),
        lex_less("calc"@, "cd"@),
        lex_less("cd"@, "contains"@),
        lex_less("contains"@, "dirs"@),
        lex_less("dirs"@, "disown"@),
        lex_less("disown"@, "drop"@),
        lex_less("drop"@, "echo"@),
        lex_less("echo"@, "ends-with"@),
{
    reveal_strlit("alias");
    reveal_strlit("bg");
    reveal_strlit("bool");
    reveal_strlit("calc");
    reveal_strlit("cd");
    reveal_strlit("contains");
    reveal_strlit("dirs");
    reveal_strlit("disown");
    reveal_strlit("drop");
    reveal_strlit("echo");
    reveal_strlit("ends-with");
    lemma_lex_less_at("alias"@, "bg"@, 0);
    lemma_lex_less_at("bg"@, "bool"@, 1);
    lemma_lex_less_at("bool"@, "calc"@, 0);
    lemma_lex_less_at("calc"@, "cd"@, 1);
    lemma_lex_less_at("cd"@, "contains"@, 1);
    lemma_lex_less_at("contains"@, "dirs"@, 0);
    lemma_lex_less_at("dirs"@, "disown"@, 2);
    lemma_lex_less_at("disown"@, "drop"@, 1);
    lemma_lex_less_at("drop"@, "echo"@, 0);
    lemma_lex_less_at("echo"@, "ends-with"@, 1);
}

proof fn lemma_builtin_neighbours_1()
    ensures
        lex_less("ends-with"@, "eq"@),
        lex_less("eq"@, "eval"@),
        lex_less("eval"@, "exec"@),
        lex_less("exec"@, "exists"@),
        lex_less("exists"@, "exit"@),
        lex_less("exit"@, "false"@),
        lex_less("false"@, "fg"@),
        lex_less("fg"@, "fn"@),
        lex_less("fn"@, "help"@),
        lex_less("help"@, "history"@),
{
    reveal_strlit("ends-with");
    reveal_strlit("eq");
    reveal_strlit("eval");
    reveal_strlit("exec");
    reveal_strlit("exists");
    reveal_strlit("exit");
    reveal_strlit("false");
    reveal_strlit("fg");
    reveal_strlit("fn");
    reveal_strlit("help");
    reveal_strlit("history");
    lemma_lex_less_at("ends-with"@, "eq"@, 1);
    lemma_lex_less_at("eq"@, "eval"@, 1);
    lemma_lex_less_at("eval"@, "exec"@, 1);
    lemma_lex_less_at("exec"@, "exists"@, 2);
    lemma_lex_less_at("exists"@, "exit"@, 3);
    lemma_lex_less_at("exit"@, "false"@, 0);
    lemma_lex_less_at("false"@, "fg"@, 1);
    lemma_lex_less_at("fg"@, "fn"@, 1);
    lemma_lex_less_at("fn"@, "help"@, 0);
    lemma_lex_less_at("help"@, "history"@, 1);
}

proof fn lemma_builtin_neighbours_2()
    ensures
        lex_less("history"@, "is"@),
        lex_less("is"@, "isatty"@),
        lex_less("isatty"@, "jobs"@),
        lex_less("jobs"@, "matches"@),
        lex_less("matches"@, "popd"@),
        lex_less("popd"@, "pushd"@),
        lex_less("pushd"@, "random"@),
        lex_less("random"@, "read"@),
        lex_less("read"@, "set"@),
        lex_less("set"@, "source"@),
{
    reveal_strlit("history");
    reveal_strlit("is");
    reveal_strlit("isatty");
    reveal_strlit("jobs");
    reveal_strlit("matches");
    reveal_strlit("popd");
    reveal_strlit("pushd");
    reveal_strlit("random");
    reveal_strlit("read");
    reveal_strlit("set");
    reveal_strlit("source");
    lemma_lex_less_at("history"@, "is"@, 0);
    lemma_lex_less_at("is"@, "isatty"@, 2);
    lemma_lex_less_at("isatty"@, "jobs"@, 0);
    lemma_lex_less_at("jobs"@, "matches"@, 0);
    lemma_lex_less_at("matches"@, "popd"@, 0);
    lemma_lex_less_at("popd"@, "pushd"@, 1);
    lemma_lex_less_at("pushd"@, "random"@, 0);
    lemma_lex_less_at("random"@, "read"@, 1);
    lemma_lex_less_at("read"@, "set"@, 0);
    lemma_lex_less_at("set"@, "source"@, 1);
}

proof fn lemma_builtin_neighbours_3()
    ensures
        lex_less("source"@, "starts-with"@),
        lex_less("starts-with"@, "status"@),
        lex_less("status"@, "suspend"@),
        lex_less("suspend"@, "test"@),
        lex_less("test"@, "true"@),
        lex_less("true"@, "type"@),
        lex_less("type"@, "unalias"@),
        lex_less("unalias"@, "wait"@),
        lex_less("wait"@, "which"@),
{
    reveal_strlit("source");
    reveal_strlit("starts-with");
    reveal_strlit("status");
    reveal_strlit("suspend");
    reveal_strlit("test");
    reveal_strlit("true");
    reveal_strlit("type");
    reveal_strlit("unalias");
    reveal_strlit("wait");
    reveal_strlit("which");
    lemma_lex_less_at("source"@, "starts-with"@, 1);
    lemma_lex_less_at("starts-with"@, "status"@, 3);
    lemma_lex_less_at("status"@, "suspend"@, 1);
    lemma_lex_less_at("suspend"@, "test"@, 0);
    lemma_lex_less_at("test"@, "true"@, 1);
    lemma_lex_less_at("true"@, "type"@, 1);
    lemma_lex_less_at("type"@, "unalias"@, 0);
    lemma_lex_less_at("unalias"@, "wait"@, 0);
    lemma_lex_less_at("wait"@, "which"@, 1);
}

/// The table of builtin names is sorted.
pub proof fn lemma_builtin_names_sorted()
    ensures
        sorted(table_names()),
        table_names().len() == 40,
        table_commands().len() == 40,
        table_descriptions().len() == 40,
{
    lemma_builtin_neighbours_0();
    lemma_builtin_neighbours_1();
    lemma_builtin_neighbours_2();
    lemma_builtin_neighbours_3();
    lemma_neighbours_sorted(table_names());
}

} // verus!
